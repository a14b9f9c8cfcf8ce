use vstd::prelude::*;

use crate::bytes::{be_bytes, lemma_be_bytes_injective, push_be, read_be};
use crate::controller::Command;
use crate::error::Error;
use crate::identity::JobIdentity;
use crate::report::StatusReport;
use crate::state::JobState;

verus! {

/// A command as it travels to the service: the job it addresses and what to do.
#[derive(Clone, Copy, Debug, PartialEq, Eq, Structural)]
pub struct Request {
    pub job: JobIdentity,
    pub command: Command,
}

/// The operation tag that opens a request frame.
pub open spec fn command_tag(c: Command) -> u8 {
    match c {
        Command::SetPriority { .. } => 1,
        Command::Resume => 2,
        Command::Complete => 3,
        Command::Cancel => 4,
        Command::SetUpdateInterval { .. } => 5,
    }
}

/// The arguments that follow the job in a request frame.
pub open spec fn command_args(c: Command) -> Seq<u8> {
    match c {
        Command::SetPriority { foreground } => seq![if foreground { 1u8 } else { 0u8 }],
        Command::SetUpdateInterval { interval_ms } => be_bytes(interval_ms as u128, 4),
        _ => Seq::<u8>::empty(),
    }
}

/// A request frame: the operation tag, the job's 16 bytes, then the arguments.
pub open spec fn encode_request(r: Request) -> Seq<u8> {
    seq![command_tag(r.command)] + be_bytes(r.job.value, 16) + command_args(r.command)
}

/// The tag that opens a response frame for each outcome.
pub open spec fn outcome_tag(r: Result<(), Error>) -> u8 {
    match r {
        Ok(()) => 0,
        Err(Error::NotFound) => 1,
        Err(Error::InvalidStateForOperation) => 2,
        Err(Error::Timeout) => 3,
        Err(Error::NotConnected) => 4,
        Err(Error::EngineError { .. }) => 5,
    }
}

/// A response frame: the outcome's tag, then the engine's code for an engine
/// failure, as the four bytes of its two's complement.
pub open spec fn encode_response(r: Result<(), Error>) -> Seq<u8> {
    match r {
        Err(Error::EngineError { code }) => seq![5u8] + be_bytes(
            #[verifier::truncate] (code as u32) as u128,
            4,
        ),
        _ => seq![outcome_tag(r)],
    }
}

proof fn lemma_u32_fits(x: u32)
    by (bit_vector)
    ensures
        (x as u128) >> 32u128 == 0,
{
}

proof fn lemma_u32_from_fitting(x: u128)
    by (bit_vector)
    requires
        x >> 32u128 == 0,
    ensures
        ((x as u32) as u128) == x,
{
}

proof fn lemma_i32_bits_injective(x: i32, y: i32)
    by (bit_vector)
    requires
        (x as u32) == (y as u32),
    ensures
        x == y,
{
}

proof fn lemma_u32_through_i32(u: u32)
    by (bit_vector)
    ensures
        ((u as i32) as u32) == u,
{
}

/// Distinct requests have distinct frames, so a frame names one request.
pub proof fn lemma_request_frames_are_unique(a: Request, b: Request)
    requires
        encode_request(a) == encode_request(b),
    ensures
        a == b,
{
    let ea = encode_request(a);
    let eb = encode_request(b);
    assert(ea[0] == command_tag(a.command));
    assert(eb[0] == command_tag(b.command));
    assert(ea.subrange(1, 17) =~= be_bytes(a.job.value, 16));
    assert(eb.subrange(1, 17) =~= be_bytes(b.job.value, 16));
    lemma_be_bytes_injective(a.job.value, b.job.value, 16);
    assert(ea.subrange(17, ea.len() as int) =~= command_args(a.command));
    assert(eb.subrange(17, eb.len() as int) =~= command_args(b.command));
    match (a.command, b.command) {
        (Command::SetUpdateInterval { interval_ms: x }, Command::SetUpdateInterval {
            interval_ms: y,
        }) => {
            lemma_u32_fits(x);
            lemma_u32_fits(y);
            lemma_be_bytes_injective(x as u128, y as u128, 4);
        },
        (Command::SetPriority { foreground: x }, Command::SetPriority { foreground: y }) => {
            assert(command_args(a.command)[0] == command_args(b.command)[0]);
        },
        _ => {},
    }
}

/// Distinct outcomes have distinct response frames.
pub proof fn lemma_response_frames_are_unique(a: Result<(), Error>, b: Result<(), Error>)
    requires
        encode_response(a) == encode_response(b),
    ensures
        a == b,
{
    assert(encode_response(a)[0] == outcome_tag(a));
    assert(encode_response(b)[0] == outcome_tag(b));
    if let Err(Error::EngineError { code: x }) = a {
        if let Err(Error::EngineError { code: y }) = b {
            assert(encode_response(a).subrange(1, 5) =~= be_bytes(#[verifier::truncate] (x as u32) as u128, 4));
            assert(encode_response(b).subrange(1, 5) =~= be_bytes(#[verifier::truncate] (y as u32) as u128, 4));
            lemma_u32_fits(#[verifier::truncate] (x as u32));
            lemma_u32_fits(#[verifier::truncate] (y as u32));
            lemma_be_bytes_injective(#[verifier::truncate] (x as u32) as u128, #[verifier::truncate] (y as u32) as u128, 4);
            lemma_i32_bits_injective(x, y);
        }
    }
    if a is Err && b is Err {
        assert(a->Err_0 == b->Err_0);
        assert(a == b);
    }
    if a is Ok {
        assert(b is Ok);
        assert(a->Ok_0 == b->Ok_0);
    }
}

/// Writes the frame of a request.
pub fn write_request(r: &Request) -> (out: Vec<u8>)
    ensures
        out@ == encode_request(*r),
{
    let mut out: Vec<u8> = Vec::new();
    let tag: u8 = match r.command {
        Command::SetPriority { .. } => 1,
        Command::Resume => 2,
        Command::Complete => 3,
        Command::Cancel => 4,
        Command::SetUpdateInterval { .. } => 5,
    };
    out.push(tag);
    push_be(&mut out, r.job.value, 16);
    match r.command {
        Command::SetPriority { foreground } => {
            out.push(if foreground { 1u8 } else { 0u8 });
        },
        Command::SetUpdateInterval { interval_ms } => {
            push_be(&mut out, interval_ms as u128, 4);
        },
        _ => {},
    }
    assert(out@ =~= encode_request(*r));
    out
}

/// Reads a request frame: the request whose frame is exactly `s`, or `None`
/// when no request has that frame.
pub fn read_request(s: &[u8]) -> (r: Option<Request>)
    ensures
        match r {
            Some(q) => encode_request(q) == s@,
            None => forall|q: Request| encode_request(q) != s@,
        },
{
    if s.len() < 17 {
        assert forall|q: Request| encode_request(q) != s@ by {
            assert(encode_request(q).len() >= 17);
        }
        return None;
    }
    let tag = s[0];
    let args_len: usize = if tag == 1 {
        1
    } else if tag == 5 {
        4
    } else {
        0
    };
    if tag == 0 || tag > 5 || s.len() != 17 + args_len {
        assert forall|q: Request| encode_request(q) != s@ by {
            if encode_request(q) == s@ {
                assert(encode_request(q)[0] == command_tag(q.command));
            }
        }
        return None;
    }
    let job = JobIdentity::new(read_be(s, 1, 16));
    let command = if tag == 1 {
        if s[17] > 1 {
            assert forall|q: Request| encode_request(q) != s@ by {
                if encode_request(q) == s@ {
                    assert(encode_request(q)[0] == command_tag(q.command));
                    assert(encode_request(q)[17] == command_args(q.command)[0]);
                }
            }
            return None;
        }
        Command::SetPriority { foreground: s[17] == 1 }
    } else if tag == 2 {
        Command::Resume
    } else if tag == 3 {
        Command::Complete
    } else if tag == 4 {
        Command::Cancel
    } else {
        let v = read_be(s, 17, 4);
        proof {
            lemma_u32_from_fitting(v);
        }
        Command::SetUpdateInterval { interval_ms: v as u32 }
    };
    let q = Request { job, command };
    assert(encode_request(q) =~= s@);
    Some(q)
}

/// Writes the frame of a command's outcome.
pub fn write_response(r: &Result<(), Error>) -> (out: Vec<u8>)
    ensures
        out@ == encode_response(*r),
{
    let mut out: Vec<u8> = Vec::new();
    match r {
        Ok(()) => out.push(0u8),
        Err(Error::NotFound) => out.push(1u8),
        Err(Error::InvalidStateForOperation) => out.push(2u8),
        Err(Error::Timeout) => out.push(3u8),
        Err(Error::NotConnected) => out.push(4u8),
        Err(Error::EngineError { code }) => {
            out.push(5u8);
            push_be(&mut out, (*code as u32) as u128, 4);
        },
    }
    assert(out@ =~= encode_response(*r));
    out
}

/// Reads a response frame: the outcome whose frame is exactly `s`, or `None`
/// when no outcome has that frame.
pub fn read_response(s: &[u8]) -> (r: Option<Result<(), Error>>)
    ensures
        match r {
            Some(o) => encode_response(o) == s@,
            None => forall|o: Result<(), Error>| encode_response(o) != s@,
        },
{
    if s.len() == 0 || s[0] > 5 || (s[0] == 5) != (s.len() == 5) || (s[0] != 5 && s.len() != 1) {
        assert forall|o: Result<(), Error>| encode_response(o) != s@ by {
            if encode_response(o) == s@ {
                assert(encode_response(o)[0] == outcome_tag(o));
            }
        }
        return None;
    }
    let o: Result<(), Error> = match s[0] {
        0 => Ok(()),
        1 => Err(Error::NotFound),
        2 => Err(Error::InvalidStateForOperation),
        3 => Err(Error::Timeout),
        4 => Err(Error::NotConnected),
        _ => {
            let v = read_be(s, 1, 4);
            proof {
                lemma_u32_from_fitting(v);
                lemma_u32_through_i32(v as u32);
            }
            Err(Error::EngineError { code: (v as u32) as i32 })
        },
    };
    assert(encode_response(o) =~= s@);
    Some(o)
}

/// The byte that stands for each state.
pub open spec fn state_tag(s: JobState) -> u8 {
    match s {
        JobState::Queued => 0,
        JobState::Connecting => 1,
        JobState::Transferring => 2,
        JobState::Suspended => 3,
        JobState::Error => 4,
        JobState::TransientError => 5,
        JobState::Transferred => 6,
        JobState::Acknowledged => 7,
        JobState::Cancelled => 8,
    }
}

pub open spec fn total_bytes(t: Option<u64>) -> Seq<u8> {
    match t {
        None => seq![0u8],
        Some(n) => seq![1u8] + be_bytes(n as u128, 8),
    }
}

/// The error code of a report in an error state; nothing otherwise (every
/// report in an error state has an error context).
pub open spec fn context_bytes(r: StatusReport) -> Seq<u8> {
    if r.spec_state().spec_is_error() {
        be_bytes(#[verifier::truncate] (r.spec_error_context().unwrap().code as u32) as u128, 4)
    } else {
        Seq::<u8>::empty()
    }
}

/// A status report on the wire: state, job, bytes transferred, the total when
/// known, and the error code when the state is an error state.
pub open spec fn encode_report(r: StatusReport) -> Seq<u8> {
    seq![state_tag(r.spec_state())] + be_bytes(r.spec_job().value, 16) + be_bytes(
        r.spec_bytes_transferred() as u128,
        8,
    ) + total_bytes(r.spec_bytes_total()) + context_bytes(r)
}

/// What the monitor channel carries for one `get_status`: a report after a
/// zero byte, or the failure's response frame. A lost connection is thus
/// never mistaken for a job in a terminal state.
pub open spec fn encode_reply(o: Result<StatusReport, Error>) -> Seq<u8> {
    match o {
        Ok(r) => seq![0u8] + encode_report(r),
        Err(e) => encode_response(Err(e)),
    }
}

fn state_of_tag(t: u8) -> (r: Option<JobState>)
    ensures
        match r {
            Some(s) => state_tag(s) == t,
            None => forall|s: JobState| state_tag(s) != t,
        },
{
    match t {
        0 => Some(JobState::Queued),
        1 => Some(JobState::Connecting),
        2 => Some(JobState::Transferring),
        3 => Some(JobState::Suspended),
        4 => Some(JobState::Error),
        5 => Some(JobState::TransientError),
        6 => Some(JobState::Transferred),
        7 => Some(JobState::Acknowledged),
        8 => Some(JobState::Cancelled),
        _ => None,
    }
}

/// Writes the frame of a `get_status` result.
pub fn write_reply(o: &Result<StatusReport, Error>) -> (out: Vec<u8>)
    ensures
        out@ == encode_reply(*o),
{
    match o {
        Err(e) => write_response(&Err(*e)),
        Ok(r) => {
            let mut out: Vec<u8> = Vec::new();
            out.push(0u8);
            let tag: u8 = match r.state() {
                JobState::Queued => 0,
                JobState::Connecting => 1,
                JobState::Transferring => 2,
                JobState::Suspended => 3,
                JobState::Error => 4,
                JobState::TransientError => 5,
                JobState::Transferred => 6,
                JobState::Acknowledged => 7,
                JobState::Cancelled => 8,
            };
            out.push(tag);
            push_be(&mut out, r.job().value, 16);
            push_be(&mut out, r.bytes_transferred() as u128, 8);
            match r.bytes_total() {
                None => out.push(0u8),
                Some(n) => {
                    out.push(1u8);
                    push_be(&mut out, n as u128, 8);
                },
            }
            match r.error_context() {
                None => {},
                Some(ctx) => push_be(&mut out, (ctx.code as u32) as u128, 4),
            }
            assert(out@ =~= encode_reply(*o));
            out
        },
    }
}

proof fn lemma_u64_from_fitting(x: u128)
    by (bit_vector)
    requires
        x >> 64u128 == 0,
    ensures
        ((x as u64) as u128) == x,
{
}

/// Reads the frame of a `get_status` result: the result whose frame is
/// exactly `s`, or `None` when no result has that frame.
pub fn read_reply(s: &[u8]) -> (r: Option<Result<StatusReport, Error>>)
    ensures
        match r {
            Some(o) => encode_reply(o) == s@,
            None => forall|o: Result<StatusReport, Error>| encode_reply(o) != s@,
        },
{
    if s.len() == 0 || s[0] != 0 {
        let resp = read_response(s);
        match resp {
            Some(Err(e)) => {
                return Some(Err(e));
            },
            _ => {
                assert forall|o: Result<StatusReport, Error>| encode_reply(o) != s@ by {
                    if encode_reply(o) == s@ {
                        if let Err(e) = o {
                            assert(encode_response(Err::<(), Error>(e)) == s@);
                        } else {
                            assert(encode_reply(o)[0] == 0u8);
                        }
                    }
                }
                return None;
            },
        }
    }
    let bad = s.len() < 27 || s[1] > 8 || s[26] > 1;
    if bad {
        assert forall|o: Result<StatusReport, Error>| encode_reply(o) != s@ by {
            if encode_reply(o) == s@ {
                if let Ok(r) = o {
                    assert(encode_reply(o)[1] == state_tag(r.spec_state()));
                    assert(encode_reply(o)[26] == total_bytes(r.spec_bytes_total())[0]);
                } else {
                    assert(encode_response(Err::<(), Error>(o->Err_0))[0] == outcome_tag(
                        Err::<(), Error>(o->Err_0),
                    ));
                }
            }
        }
        return None;
    }
    let state = match state_of_tag(s[1]) {
        Some(st) => st,
        None => {
            return None;
        },
    };
    let after_total: usize = if s[26] == 1 {
        35
    } else {
        27
    };
    let expected: usize = if state.is_error() {
        after_total + 4
    } else {
        after_total
    };
    if s.len() != expected {
        assert forall|o: Result<StatusReport, Error>| encode_reply(o) != s@ by {
            if encode_reply(o) == s@ {
                if let Ok(r) = o {
                    assert(encode_reply(o)[1] == state_tag(r.spec_state()));
                    assert(r.spec_state() == state);
                    assert(encode_reply(o)[26] == total_bytes(r.spec_bytes_total())[0]);
                } else {
                    assert(encode_response(Err::<(), Error>(o->Err_0))[0] == outcome_tag(
                        Err::<(), Error>(o->Err_0),
                    ));
                }
            }
        }
        return None;
    }
    let job = JobIdentity::new(read_be(s, 2, 16));
    let done = read_be(s, 18, 8);
    proof {
        lemma_u64_from_fitting(done);
    }
    let total: Option<u64> = if s[26] == 1 {
        let t = read_be(s, 27, 8);
        proof {
            lemma_u64_from_fitting(t);
        }
        Some(t as u64)
    } else {
        None
    };
    let code: i32 = if state.is_error() {
        let c = read_be(s, after_total, 4);
        proof {
            lemma_u32_from_fitting(c);
            lemma_u32_through_i32(c as u32);
        }
        #[verifier::truncate] (c as u32) as i32
    } else {
        0
    };
    let report = StatusReport::new(job, state, done as u64, total, code);
    let o: Result<StatusReport, Error> = Ok(report);
    assert(encode_reply(o) =~= s@);
    Some(o)
}

} // verus!
