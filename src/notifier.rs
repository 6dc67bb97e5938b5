//! Delivery of one message: splitting it into chunks of bounded length, and
//! the decisions taken on each answer of the channel (next chunk, wait and
//! send the same chunk again, or stop).
use vstd::prelude::*;
use crate::text::{chars_of, push_char};

verus! {

/// `s` cut into successive pieces of `max` characters, the last one shorter;
/// a message that fits (or a bound of zero) stays whole.
pub open spec fn chunks_of(s: Seq<char>, max: nat) -> Seq<Seq<char>>
    decreases s.len(),
{
    if max == 0 || s.len() <= max {
        seq![s]
    } else {
        seq![s.take(max as int)] + chunks_of(s.skip(max as int), max)
    }
}

pub open spec fn string_views(v: Seq<String>) -> Seq<Seq<char>> {
    v.map_values(|s: String| s@)
}

fn collect_range(chars: &Vec<char>, from: usize, to: usize) -> (r: String)
    requires
        from <= to <= chars@.len(),
    ensures
        r@ == chars@.subrange(from as int, to as int),
{
    let mut s = String::new();
    let mut i: usize = from;
    while i < to
        invariant
            from <= i <= to,
            to <= chars@.len(),
            s@ == chars@.subrange(from as int, i as int),
        decreases to - i,
    {
        push_char(&mut s, chars[i]);
        assert(s@ =~= chars@.subrange(from as int, i + 1));
        i = i + 1;
    }
    s
}

/// Splits `message` into the chunks sent one after the other, each at most
/// `max_len` characters long.
pub fn split_message(message: &str, max_len: u32) -> (r: Vec<String>)
    ensures
        string_views(r@) == chunks_of(message@, max_len as nat),
{
    let chars = chars_of(message);
    let n = chars.len();
    let m = max_len as usize;
    let mut out: Vec<String> = Vec::new();
    let mut pos: usize = 0;
    assert(message@.skip(0) =~= message@);
    if m > 0 {
        while n - pos > m
            invariant
                pos <= n,
                n == chars@.len(),
                chars@ == message@,
                m > 0,
                m == max_len,
                string_views(out@) + chunks_of(message@.skip(pos as int), m as nat) == chunks_of(
                    message@,
                    m as nat,
                ),
            decreases n - pos,
        {
            let c = collect_range(&chars, pos, pos + m);
            let ghost rest = message@.skip(pos as int);
            assert(rest.take(m as int) =~= message@.subrange(pos as int, pos + m));
            assert(rest.skip(m as int) =~= message@.skip(pos + m));
            let ghost before = out@;
            out.push(c);
            assert(string_views(out@) =~= string_views(before).push(c@));
            assert(string_views(out@) + chunks_of(message@.skip(pos + m), m as nat) =~= string_views(
                before,
            ) + chunks_of(rest, m as nat));
            pos = pos + m;
        }
    }
    let last = collect_range(&chars, pos, n);
    let ghost before = out@;
    assert(last@ =~= message@.skip(pos as int));
    out.push(last);
    assert(string_views(out@) =~= string_views(before) + chunks_of(message@.skip(pos as int), m as nat));
    out
}

/// A message of exactly three times the bound goes out as three chunks, in
/// order.
pub proof fn lemma_three_chunks(s: Seq<char>, max: nat)
    requires
        max > 0,
        s.len() == 3 * max,
    ensures
        chunks_of(s, max).len() == 3,
        chunks_of(s, max)[0] == s.subrange(0, max as int),
        chunks_of(s, max)[1] == s.subrange(max as int, (2 * max) as int),
        chunks_of(s, max)[2] == s.subrange((2 * max) as int, (3 * max) as int),
{
    let s1 = s.skip(max as int);
    let s2 = s1.skip(max as int);
    assert(s2.len() == max);
    assert(chunks_of(s2, max) == seq![s2]);
    assert(chunks_of(s1, max) == seq![s1.take(max as int)] + chunks_of(s2, max));
    assert(chunks_of(s, max) == seq![s.take(max as int)] + chunks_of(s1, max));
    assert(s.take(max as int) =~= s.subrange(0, max as int));
    assert(s1.take(max as int) =~= s.subrange(max as int, (2 * max) as int));
    assert(s2 =~= s.subrange((2 * max) as int, (3 * max) as int));
}

/// Where a delivery stands.
#[derive(PartialEq, Eq, Structural, Clone, Copy, Debug)]
pub enum DeliveryState {
    Sending,
    Done,
    Failed,
}

/// The channel's answer to one send.
#[derive(PartialEq, Eq, Structural, Clone, Copy, Debug)]
pub enum SendOutcome {
    Sent,
    /// Rate limited: the same chunk may be sent again after this many seconds.
    RetryAfter(u64),
    Failed,
}

/// What the caller does next.
#[derive(Debug)]
pub enum DeliveryAction {
    /// Wait the given number of seconds, then send the chunk.
    Send(String, u64),
    Done,
    Failed,
}

/// The position reached and the state after one answer of the channel.
pub open spec fn step(next: nat, total: nat, outcome: SendOutcome) -> (nat, DeliveryState) {
    match outcome {
        SendOutcome::Sent => if next + 1 >= total {
            (next + 1, DeliveryState::Done)
        } else {
            (next + 1, DeliveryState::Sending)
        },
        SendOutcome::RetryAfter(_) => (next, DeliveryState::Sending),
        SendOutcome::Failed => (next, DeliveryState::Failed),
    }
}

/// One message on its way: its chunks, how many were delivered, and its state.
pub struct Delivery {
    pub chunks: Vec<String>,
    pub next: usize,
    pub state: DeliveryState,
}

impl Delivery {
    pub open spec fn wf(&self) -> bool {
        &&& self.next <= self.chunks@.len()
        &&& self.state == DeliveryState::Sending ==> self.next < self.chunks@.len()
        &&& self.state == DeliveryState::Done ==> self.next == self.chunks@.len()
    }

    /// A delivery of `message` cut into chunks of at most `max_len`
    /// characters, none sent yet.
    pub fn new(message: &str, max_len: u32) -> (r: Delivery)
        ensures
            r.wf(),
            string_views(r.chunks@) == chunks_of(message@, max_len as nat),
            r.next == 0,
            r.state == DeliveryState::Sending,
    {
        let chunks = split_message(message, max_len);
        assert(chunks_of(message@, max_len as nat).len() >= 1);
        Delivery { chunks, next: 0, state: DeliveryState::Sending }
    }

    /// The action that starts or resumes the delivery, without waiting.
    pub fn first_action(&self) -> (r: DeliveryAction)
        requires
            self.wf(),
        ensures
            match r {
                DeliveryAction::Send(c, w) => self.state == DeliveryState::Sending && c@
                    == self.chunks@[self.next as int]@ && w == 0,
                DeliveryAction::Done => self.state == DeliveryState::Done,
                DeliveryAction::Failed => self.state == DeliveryState::Failed,
            },
    {
        match self.state {
            DeliveryState::Sending => DeliveryAction::Send(self.chunks[self.next].clone(), 0),
            DeliveryState::Done => DeliveryAction::Done,
            DeliveryState::Failed => DeliveryAction::Failed,
        }
    }

    /// Takes the channel's answer to the last chunk sent: on success the next
    /// chunk goes out; under a rate limit the same chunk goes out again after
    /// the given wait; any other failure ends the delivery.
    pub fn on_outcome(&mut self, outcome: SendOutcome) -> (r: DeliveryAction)
        requires
            old(self).wf(),
            old(self).state == DeliveryState::Sending,
        ensures
            final(self).wf(),
            final(self).chunks == old(self).chunks,
            (final(self).next as nat, final(self).state) == step(
                old(self).next as nat,
                old(self).chunks@.len(),
                outcome,
            ),
            match r {
                DeliveryAction::Send(c, w) => final(self).state == DeliveryState::Sending && c@
                    == final(self).chunks@[final(self).next as int]@ && w == match outcome {
                    SendOutcome::RetryAfter(d) => d,
                    _ => 0,
                },
                DeliveryAction::Done => final(self).state == DeliveryState::Done,
                DeliveryAction::Failed => final(self).state == DeliveryState::Failed,
            },
    {
        match outcome {
            SendOutcome::Sent => {
                let total = self.chunks.len();
                assert(self.next < total);
                self.next = self.next + 1;
                if self.next >= self.chunks.len() {
                    self.state = DeliveryState::Done;
                    DeliveryAction::Done
                } else {
                    DeliveryAction::Send(self.chunks[self.next].clone(), 0)
                }
            },
            SendOutcome::RetryAfter(d) => DeliveryAction::Send(self.chunks[self.next].clone(), d),
            SendOutcome::Failed => {
                self.state = DeliveryState::Failed;
                DeliveryAction::Failed
            },
        }
    }
}

/// A rate-limit answer followed by a success delivers the chunk once: the
/// retry keeps the position, and the success advances it by one.
pub proof fn lemma_retry_then_success(next: nat, total: nat, wait: u64)
    requires
        next < total,
    ensures
        step(next, total, SendOutcome::RetryAfter(wait)) == (next, DeliveryState::Sending),
        step(step(next, total, SendOutcome::RetryAfter(wait)).0, total, SendOutcome::Sent).0 == next
            + 1,
{
}

} // verus!
