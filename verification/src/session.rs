//! Connection session: owns one price ledger and processes the connection's
//! 9-byte frames in arrival order.
//!
//! An insert frame mutates the ledger and sends nothing. A query frame
//! leaves the ledger unchanged and is answered with exactly four bytes, the
//! big-endian truncated mean. A malformed tag closes the connection with no
//! reply, and so does a trailing partial frame. The ledger is private to its
//! session, so observations of one connection are never visible to another.

use vstd::prelude::*;

use crate::codec::{decode_frame, encode_i32_be, spec_decode, spec_encode_i32, Message};
use crate::ledger::{spec_query_mean, Observation, PriceLedger};

verus! {

/// What one frame asks the connection to do.
pub enum FrameOutcome {
    /// An insert was recorded; nothing is written back.
    Silent,
    /// A query was answered; write these bytes back.
    Reply(Vec<u8>),
    /// The frame was malformed; close the connection without a reply.
    Close,
}

/// The live state of one accepted connection: its private ledger.
pub struct Session {
    ledger: PriceLedger,
}

impl View for Session {
    type V = Seq<Observation>;

    closed spec fn view(&self) -> Seq<Observation> {
        self.ledger@
    }
}

/// Everything the connection writes back for the byte stream `input`, when
/// the ledger already holds `obs`. Frames are taken in arrival order; an
/// insert answers nothing, a query answers four bytes, and a malformed tag
/// or a trailing partial frame ends the stream with nothing further written.
pub open spec fn spec_session_output(input: Seq<u8>, obs: Seq<Observation>) -> Seq<u8>
    decreases input.len(),
{
    if input.len() < 9 {
        Seq::empty()
    } else {
        let rest = input.skip(9);
        match spec_decode(input.subrange(0, 9)) {
            Message::Insert { timestamp, price } => spec_session_output(
                rest,
                obs.push(Observation { timestamp, price }),
            ),
            Message::Query { min_time, max_time } => spec_encode_i32(
                spec_query_mean(obs, min_time as int, max_time as int),
            ) + spec_session_output(rest, obs),
            Message::Malformed => Seq::empty(),
        }
    }
}

impl Session {
    /// A session over a fresh, empty ledger.
    pub fn new() -> (s: Self)
        ensures
            s@ == Seq::<Observation>::empty(),
    {
        Session { ledger: PriceLedger::new() }
    }

    /// Processes one complete 9-byte frame. An insert appends its
    /// observation and stays silent; a query leaves the ledger unchanged and
    /// replies with exactly the four big-endian bytes of the mean; a
    /// malformed tag leaves the ledger unchanged and closes the connection.
    pub fn on_frame(&mut self, frame: &[u8]) -> (out: FrameOutcome)
        requires
            frame@.len() == 9,
        ensures
            match spec_decode(frame@) {
                Message::Insert { timestamp, price } => final(self)@ == old(self)@.push(
                    Observation { timestamp, price },
                ) && (out is Silent),
                Message::Query { min_time, max_time } => final(self)@ == old(self)@ && match out {
                    FrameOutcome::Reply(r) => r@ == spec_encode_i32(
                        spec_query_mean(old(self)@, min_time as int, max_time as int),
                    ) && r@.len() == 4,
                    _ => false,
                },
                Message::Malformed => final(self)@ == old(self)@ && (out is Close),
            },
    {
        match decode_frame(frame) {
            Message::Insert { timestamp, price } => {
                self.ledger.insert(timestamp, price);
                FrameOutcome::Silent
            },
            Message::Query { min_time, max_time } => {
                let mean = self.ledger.query_mean(min_time, max_time);
                FrameOutcome::Reply(encode_i32_be(mean))
            },
            Message::Malformed => FrameOutcome::Close,
        }
    }
}

/// Runs one whole connection over the bytes it sent and returns every byte
/// written back: the read loop of a session, from a fresh ledger to the end
/// of the stream. An insert writes nothing, each query writes exactly four
/// bytes, and a malformed tag or a trailing partial frame closes the
/// connection with nothing further written.
pub fn run_session(input: &[u8]) -> (output: Vec<u8>)
    ensures
        output@ == spec_session_output(input@, Seq::<Observation>::empty()),
{
    let mut session = Session::new();
    let mut output: Vec<u8> = Vec::new();
    let mut i: usize = 0;
    let n: usize = input.len();
    proof {
        assert(input@.skip(0) =~= input@);
        let whole = spec_session_output(input@, Seq::<Observation>::empty());
        assert(Seq::<u8>::empty() + whole =~= whole);
    }
    loop
        invariant
            i <= n,
            n == input@.len(),
            spec_session_output(input@, Seq::<Observation>::empty()) == output@
                + spec_session_output(input@.skip(i as int), session@),
        ensures
            output@ == spec_session_output(input@, Seq::<Observation>::empty()),
        decreases n - i,
    {
        if n - i < 9 {
            proof {
                assert(spec_session_output(input@.skip(i as int), session@) =~= Seq::empty());
                assert(output@ + Seq::<u8>::empty() =~= output@);
            }
            break;
        }
        let frame = vstd::slice::slice_subrange(input, i, i + 9);
        let ghost remaining = input@.skip(i as int);
        proof {
            assert(frame@ =~= remaining.subrange(0, 9));
            assert(remaining.skip(9) =~= input@.skip(i as int + 9));
        }
        let ghost obs_before = session@;
        let out = session.on_frame(frame);
        match out {
            FrameOutcome::Silent => {},
            FrameOutcome::Reply(mut r) => {
                output.append(&mut r);
            },
            FrameOutcome::Close => {
                proof {
                    assert(spec_session_output(remaining, obs_before) =~= Seq::empty());
                    assert(output@ + Seq::<u8>::empty() =~= output@);
                }
                break;
            },
        }
        i = i + 9;
    }
    output
}

} // verus!
