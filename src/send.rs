use crate::error::Error;
use vstd::prelude::*;
use vstd::string::{StrSliceExecFns, StringExecFns};

verus! {

/// What is written to a server's stdin for a payload: the payload itself,
/// with a newline appended unless it already ends with one.
pub open spec fn newline_terminated(s: Seq<char>) -> Seq<char> {
    if s.len() > 0 && s.last() == '\n' {
        s
    } else {
        s.push('\n')
    }
}

/// What a send writes is the payload itself followed by at most one added
/// newline: the payload is a prefix of it, it ends with a newline, it is the
/// payload when that already ends with one, and framing it again changes
/// nothing.
pub proof fn lemma_framing_keeps_payload(s: Seq<char>)
    ensures
        newline_terminated(s).len() >= 1,
        newline_terminated(s).last() == '\n',
        newline_terminated(s).take(s.len() as int) == s,
        newline_terminated(s).len() == s.len() || newline_terminated(s).len() == s.len() + 1,
        (s.len() > 0 && s.last() == '\n') ==> newline_terminated(s) == s,
        newline_terminated(newline_terminated(s)) == newline_terminated(s),
{
    assert(s.push('\n').take(s.len() as int) =~= s);
    assert(s.take(s.len() as int) =~= s);
}

/// Frames a payload for a server's stdin (see `newline_terminated`).
pub fn with_newline(data: String) -> (r: String)
    ensures
        r@ == newline_terminated(data@),
{
    let n = data.as_str().unicode_len();
    if n > 0 && data.as_str().get_char(n - 1) == '\n' {
        data
    } else {
        let mut framed = data;
        proof {
            reveal_strlit("\n");
        }
        framed.append("\n");
        assert(framed@ =~= newline_terminated(data@));
        framed
    }
}

/// How a write to a server's stdin ended.
#[derive(Debug)]
pub enum WriteOutcome {
    Written,
    /// The pipe was closed by the reader: the server has exited.
    BrokenPipe,
    Failed(std::io::Error),
}

/// The result reported to the caller of a send once the write to server
/// `server_id` has ended with `outcome`. A closed pipe means the server is
/// gone, which callers already handle as an unknown id.
pub fn send_outcome(server_id: String, outcome: WriteOutcome) -> (r: Result<(), Error>)
    ensures
        match outcome {
            WriteOutcome::Written => r is Ok,
            WriteOutcome::BrokenPipe => r matches Err(e) && e.is_not_found(server_id@),
            WriteOutcome::Failed(e) => r matches Err(Error::Io(e2)) && e2 == e,
        },
{
    match outcome {
        WriteOutcome::Written => Ok(()),
        WriteOutcome::BrokenPipe => Err(Error::ServerNotFound(server_id)),
        WriteOutcome::Failed(e) => Err(Error::Io(e)),
    }
}

} // verus!
