//! A minimal two-actor message exchange: a ping role and a pong role trade
//! a fixed number of typed messages over two one-directional channels, and
//! an orchestrator merges the pong role's recorded replies with the known
//! ping sequence into one ordered transcript.

mod channel;
pub mod simple;
