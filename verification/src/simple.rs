//! The exchange protocol: the message vocabulary, the two roles, and the
//! merge that assembles the final transcript.
//!
//! The ping role drives: for each round it sends `Ping(round)` and waits a
//! short bounded time for the matching reply. The pong role responds: for
//! each incoming `Ping(n)` it records and sends back `Pong(n)`. A receive
//! that times out is absorbed locally; a send whose receiver is gone is
//! fatal. The orchestrator runs both roles on their own threads, then merges
//! the pong role's recorded replies with the known ping sequence.

use vstd::prelude::*;
use vstd::*;

use crate::channel::{channel_recv_timeout, channel_send};

verus! {

/// How many ping/pong rounds one exchange performs.
pub const ROUNDS: u32 = 3;

/// How long a role waits for one message before moving on, in milliseconds.
pub const RECV_TIMEOUT_MS: u64 = 5;

/// One message on the wire: a request or a reply, tagged with the round
/// in `1..=ROUNDS` it belongs to.
#[derive(Debug, Clone, Copy, PartialEq, Eq, Structural)]
pub enum Message {
    Ping(u32),
    Pong(u32),
}

/// The two participants of the exchange, named so a fatal failure can say
/// which side raised it.
#[derive(Debug, Clone, Copy, PartialEq, Eq, Structural)]
pub enum Role {
    Ping,
    Pong,
}

/// A structural failure of the run. Receive timeouts are not errors and are
/// absorbed by the roles; these are the conditions that abort the whole run.
#[derive(Debug, Clone, Copy, PartialEq, Eq, Structural)]
pub enum ExchangeError {
    /// A send found its receiving endpoint dropped.
    ChannelClosed(Role),
    /// A role's thread did not finish normally.
    RoleFailed(Role),
}

/// What the pong role answers to one receive outcome: a `Ping(n)` earns a
/// `Pong(n)`; a timeout or an out-of-protocol message earns nothing.
pub open spec fn reply_to(received: Option<Message>) -> Option<Message> {
    match received {
        Some(Message::Ping(n)) => Some(Message::Pong(n)),
        _ => None,
    }
}

/// What the pong role may hand back: at most one reply per round, every
/// entry a pong.
pub open spec fn is_reply_list(pongs: Seq<Message>, rounds: u32) -> bool {
    &&& pongs.len() <= rounds
    &&& forall|j: int| 0 <= j < pongs.len() ==> pongs[j] is Pong
}

/// The merged transcript: for each round in order, the ping of that round,
/// followed by the reply recorded for that round's slot, where there is one.
pub open spec fn merged(pongs: Seq<Message>, rounds: u32) -> Seq<Message>
    decreases rounds,
{
    if rounds == 0 {
        Seq::<Message>::empty()
    } else {
        let with_ping = merged(pongs, (rounds - 1) as u32).push(Message::Ping(rounds));
        if rounds - 1 < pongs.len() {
            with_ping.push(pongs[rounds - 1])
        } else {
            with_ping
        }
    }
}

/// How many entries of a transcript are pings.
pub open spec fn ping_count(t: Seq<Message>) -> nat
    decreases t.len(),
{
    if t.len() == 0 {
        0
    } else {
        ping_count(t.drop_last()) + (if t.last() is Ping {
            1nat
        } else {
            0nat
        })
    }
}

/// How many entries of a transcript are pongs.
pub open spec fn pong_count(t: Seq<Message>) -> nat
    decreases t.len(),
{
    if t.len() == 0 {
        0
    } else {
        pong_count(t.drop_last()) + (if t.last() is Pong {
            1nat
        } else {
            0nat
        })
    }
}

/// How many rounds of the merge come out paired: every round with a
/// recorded reply, which is all of them once the reply list is long enough.
pub open spec fn paired_rounds(pongs: Seq<Message>, rounds: u32) -> int {
    if pongs.len() < rounds {
        pongs.len() as int
    } else {
        rounds as int
    }
}

proof fn lemma_count_push(t: Seq<Message>, m: Message)
    ensures
        ping_count(t.push(m)) == ping_count(t) + (if m is Ping {
            1int
        } else {
            0int
        }),
        pong_count(t.push(m)) == pong_count(t) + (if m is Pong {
            1int
        } else {
            0int
        }),
{
    assert(t.push(m).drop_last() =~= t);
    assert(t.push(m).last() == m);
}

proof fn lemma_merged_counts_general(pongs: Seq<Message>, rounds: u32)
    requires
        forall|j: int| 0 <= j < pongs.len() ==> pongs[j] is Pong,
    ensures
        ping_count(merged(pongs, rounds)) == rounds,
        pong_count(merged(pongs, rounds)) == paired_rounds(pongs, rounds),
    decreases rounds,
{
    if rounds > 0 {
        let prev = (rounds - 1) as u32;
        lemma_merged_counts_general(pongs, prev);
        let with_ping = merged(pongs, prev).push(Message::Ping(rounds));
        lemma_count_push(merged(pongs, prev), Message::Ping(rounds));
        if rounds - 1 < pongs.len() {
            lemma_count_push(with_ping, pongs[rounds - 1]);
        }
    }
}

/// Law: a merged transcript holds exactly one ping per round and one pong
/// per recorded reply — and never more pongs than pings.
pub proof fn lemma_transcript_counts(pongs: Seq<Message>, rounds: u32)
    requires
        is_reply_list(pongs, rounds),
    ensures
        ping_count(merged(pongs, rounds)) == rounds,
        pong_count(merged(pongs, rounds)) == pongs.len(),
        pong_count(merged(pongs, rounds)) <= ping_count(merged(pongs, rounds)),
{
    lemma_merged_counts_general(pongs, rounds);
}

/// Law: a reply list whose entry for slot `j` is the pong of round `j + 1`
/// merges into pairs — ping then pong, round by round — followed by the
/// bare pings of the rounds past the end of the reply list.
pub proof fn lemma_merged_shape(pongs: Seq<Message>, rounds: u32)
    requires
        forall|j: int| 0 <= j < pongs.len() ==> pongs[j] == Message::Pong((j + 1) as u32),
    ensures
        merged(pongs, rounds).len() == rounds + paired_rounds(pongs, rounds),
        forall|p: int|
            0 <= p < 2 * paired_rounds(pongs, rounds) && p % 2 == 0 ==> #[trigger] merged(
                pongs,
                rounds,
            )[p] == Message::Ping((p / 2 + 1) as u32),
        forall|p: int|
            0 <= p < 2 * paired_rounds(pongs, rounds) && p % 2 == 1 ==> #[trigger] merged(
                pongs,
                rounds,
            )[p] == Message::Pong(((p - 1) / 2 + 1) as u32),
        forall|p: int|
            2 * paired_rounds(pongs, rounds) <= p < merged(pongs, rounds).len() ==> #[trigger] merged(
                pongs,
                rounds,
            )[p] == Message::Ping((p - paired_rounds(pongs, rounds) + 1) as u32),
    decreases rounds,
{
    if rounds > 0 {
        let prev = (rounds - 1) as u32;
        lemma_merged_shape(pongs, prev);
    }
}

/// Law: in a merged transcript, the entry at each even index `2 * i` is the
/// ping of round `i + 1`, and the entry at each odd index `2 * i + 1`, where
/// there is one, is the pong of the same round — provided at most the reply
/// of the final round is missing from a round-correct reply list.
pub proof fn lemma_transcript_alternates(pongs: Seq<Message>, rounds: u32)
    requires
        forall|j: int| 0 <= j < pongs.len() ==> pongs[j] == Message::Pong((j + 1) as u32),
        pongs.len() <= rounds,
        rounds <= pongs.len() + 1,
    ensures
        forall|p: int|
            0 <= p < merged(pongs, rounds).len() && p % 2 == 0 ==> #[trigger] merged(
                pongs,
                rounds,
            )[p] == Message::Ping((p / 2 + 1) as u32),
        forall|p: int|
            0 <= p < merged(pongs, rounds).len() && p % 2 == 1 ==> #[trigger] merged(
                pongs,
                rounds,
            )[p] == Message::Pong(((p - 1) / 2 + 1) as u32),
{
    lemma_merged_shape(pongs, rounds);
}

/// The pong role's one decision, taken out of the receive loop so it is
/// checkable for every possible receive outcome.
pub fn reply_for(received: &Option<Message>) -> (r: Option<Message>)
    ensures
        r == reply_to(*received),
{
    match received {
        Some(Message::Ping(n)) => Some(Message::Pong(*n)),
        _ => None,
    }
}

/// Drive the exchange: for each round, send the ping for that round, then
/// wait up to the bounded timeout for a reply, which is dropped whether or
/// not it is the matching pong — a missed round is not retried. The sends
/// are known ahead of time, so this role reports nothing on success; a send
/// whose receiver is gone aborts it.
fn run_ping_actor(
    pong_tx: std::sync::mpsc::Sender<Message>,
    ping_rx: std::sync::mpsc::Receiver<Message>,
) -> (r: Result<(), ExchangeError>)
    ensures
        r matches Err(e) ==> e == ExchangeError::ChannelClosed(Role::Ping),
{
    let mut round: u32 = 1;
    while round <= ROUNDS
        invariant
            1 <= round <= ROUNDS + 1,
        decreases ROUNDS + 1 - round,
    {
        if !channel_send(&pong_tx, Message::Ping(round)) {
            return Err(ExchangeError::ChannelClosed(Role::Ping));
        }
        let _ack = channel_recv_timeout(&ping_rx, RECV_TIMEOUT_MS);
        round = round + 1;
    }
    Ok(())
}

/// Respond to the exchange: for up to `ROUNDS` iterations, wait up to the
/// bounded timeout for a ping; on `Ping(n)`, record `Pong(n)` and send it
/// back; on a timeout or an out-of-protocol message, move on. The recorded
/// replies form a reply list: at most one per round, every entry a pong. A
/// send whose receiver is gone aborts the role.
fn run_pong_actor(
    ping_tx: std::sync::mpsc::Sender<Message>,
    pong_rx: std::sync::mpsc::Receiver<Message>,
) -> (r: Result<Vec<Message>, ExchangeError>)
    ensures
        r matches Ok(pongs) ==> is_reply_list(pongs@, ROUNDS),
        r matches Err(e) ==> e == ExchangeError::ChannelClosed(Role::Pong),
{
    let mut pongs: Vec<Message> = Vec::new();
    let mut iter: u32 = 1;
    while iter <= ROUNDS
        invariant
            1 <= iter <= ROUNDS + 1,
            pongs@.len() <= iter - 1,
            forall|j: int| 0 <= j < pongs@.len() ==> pongs@[j] is Pong,
        decreases ROUNDS + 1 - iter,
    {
        let received = channel_recv_timeout(&pong_rx, RECV_TIMEOUT_MS);
        if let Some(reply) = reply_for(&received) {
            pongs.push(reply);
            if !channel_send(&ping_tx, reply) {
                return Err(ExchangeError::ChannelClosed(Role::Pong));
            }
        }
        iter = iter + 1;
    }
    Ok(pongs)
}

/// Run one full exchange: start the ping role and the pong role on their
/// own threads, wait for both, and merge the pong role's recorded replies
/// with the known ping sequence. On success the transcript is the merge of
/// some valid reply list; a fatal failure names the role that raised it.
pub fn ping_pong_demo(
    ping_tx: std::sync::mpsc::Sender<Message>,
    ping_rx: std::sync::mpsc::Receiver<Message>,
    pong_tx: std::sync::mpsc::Sender<Message>,
    pong_rx: std::sync::mpsc::Receiver<Message>,
) -> (r: Result<Vec<Message>, ExchangeError>)
    ensures
        r matches Ok(t) ==> exists|pongs: Seq<Message>|
            is_reply_list(pongs, ROUNDS) && t@ == #[trigger] merged(pongs, ROUNDS),
        r matches Ok(t) ==> ping_count(t@) == ROUNDS && pong_count(t@) <= ROUNDS && pong_count(t@)
            <= ping_count(t@),
{
    let ping_handle = thread::spawn(
        (move || -> (res: Result<(), ExchangeError>)
            ensures
                res matches Err(e) ==> e == ExchangeError::ChannelClosed(Role::Ping),
            {
                run_ping_actor(pong_tx, ping_rx)
            }),
    );
    let pong_handle = thread::spawn(
        (move || -> (res: Result<Vec<Message>, ExchangeError>)
            ensures
                res matches Ok(pongs) ==> is_reply_list(pongs@, ROUNDS),
                res matches Err(e) ==> e == ExchangeError::ChannelClosed(Role::Pong),
            {
                run_pong_actor(ping_tx, pong_rx)
            }),
    );
    let ping_res = match ping_handle.join() {
        Ok(res) => res,
        Err(_) => Err(ExchangeError::RoleFailed(Role::Ping)),
    };
    let pong_res = match pong_handle.join() {
        Ok(res) => res,
        Err(_) => Err(ExchangeError::RoleFailed(Role::Pong)),
    };
    match ping_res {
        Ok(_) => {},
        Err(e) => {
            return Err(e);
        },
    }
    let pongs = match pong_res {
        Ok(pongs) => pongs,
        Err(e) => {
            return Err(e);
        },
    };
    let ghost replies: Seq<Message> = pongs@;
    let transcript = collect_messages(pongs);
    proof {
        assert(transcript@ == merged(replies, ROUNDS));
        lemma_transcript_counts(replies, ROUNDS);
    }
    Ok(transcript)
}

/// Merge the recorded replies with the known ping sequence: for round `i`,
/// emit `Ping(i)`, then the `i`-th recorded reply if there is one.
pub fn collect_messages(pongs: Vec<Message>) -> (r: Vec<Message>)
    ensures
        r@ == merged(pongs@, ROUNDS),
{
    let mut messages: Vec<Message> = Vec::new();
    let mut round: u32 = 1;
    while round <= ROUNDS
        invariant
            1 <= round <= ROUNDS + 1,
            messages@ == merged(pongs@, (round - 1) as u32),
        decreases ROUNDS + 1 - round,
    {
        messages.push(Message::Ping(round));
        let idx: usize = (round - 1) as usize;
        if idx < pongs.len() {
            messages.push(pongs[idx]);
        }
        assert(messages@ == merged(pongs@, round));
        round = round + 1;
    }
    messages
}

} // verus!
