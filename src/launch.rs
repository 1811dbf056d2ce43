use crate::error::Error;
use crate::models::StartResponse;
use crate::registry::{name_view, ManagedProcess, Registry, ServerRecord};
use vstd::prelude::*;

verus! {

pub open spec fn is_lower_hex_digit(c: char) -> bool {
    ('0' <= c && c <= '9') || ('a' <= c && c <= 'f')
}

/// The hyphenated lowercase text of a random (version 4, RFC 4122 variant)
/// UUID: `xxxxxxxx-xxxx-4xxx-yxxx-xxxxxxxxxxxx` with `y` one of `8 9 a b`.
pub open spec fn is_v4_uuid_text(s: Seq<char>) -> bool {
    &&& s.len() == 36
    &&& forall|i: int|
        0 <= i < 36 ==> if i == 8 || i == 13 || i == 18 || i == 23 {
            s[i] == '-'
        } else {
            is_lower_hex_digit(#[trigger] s[i])
        }
    &&& s[14] == '4'
    &&& s[19] == '8' || s[19] == '9' || s[19] == 'a' || s[19] == 'b'
}

/// Relies on uuid's `Uuid::new_v4`, which draws a random version-4 UUID, and
/// on its `Display`, which writes the hyphenated lowercase form.
#[verifier::external_body]
fn random_server_id() -> (r: String)
    ensures
        is_v4_uuid_text(r@),
{
    uuid::Uuid::new_v4().to_string()
}

/// A start that holds its name (if any) and has drawn its server id, and
/// now waits for the process to be spawned.
#[derive(Debug)]
pub struct PendingStart {
    pub server_id: String,
    pub name: Option<String>,
}

/// First step of a start: reserve `name` against the registry and draw a
/// fresh server id. `ServerNameExists` when the name is taken, in which case
/// nothing is reserved and no process may be spawned.
pub fn begin_start<H>(registry: &mut Registry<H>, name: Option<String>) -> (r: Result<
    PendingStart,
    Error,
>)
    requires
        old(registry).wf(),
    ensures
        final(registry).wf(),
        final(registry).servers() == old(registry).servers(),
        match r {
            Ok(p) => {
                &&& is_v4_uuid_text(p.server_id@)
                &&& name_view(p.name) == name_view(name)
                &&& match name {
                    Some(n) => !old(registry).name_taken(n@) && final(registry).reserved()
                        == old(registry).reserved().insert(n@),
                    None => final(registry).reserved() == old(registry).reserved(),
                }
            },
            Err(e) => {
                &&& name matches Some(n) && old(registry).name_taken(n@) && e.is_name_taken(n@)
                &&& final(registry).reserved() == old(registry).reserved()
            },
        },
{
    let name = match name {
        Some(n) => {
            let held = n.clone();
            match registry.reserve_name(n) {
                Ok(()) => Some(held),
                Err(e) => {
                    return Err(e);
                },
            }
        },
        None => None,
    };
    Ok(PendingStart { server_id: random_server_id(), name })
}

fn release<H>(registry: &mut Registry<H>, name: &Option<String>)
    requires
        old(registry).wf(),
    ensures
        final(registry).wf(),
        final(registry).servers() == old(registry).servers(),
        final(registry).reserved() == match name {
            Some(n) => old(registry).reserved().remove(n@),
            None => old(registry).reserved(),
        },
{
    if let Some(n) = name {
        registry.release_name(n);
    }
}

/// A start whose spawn failed with `cause`: its name is released and the
/// caller gets `Command(cause)`. No server is registered.
pub fn abandon_start<H>(registry: &mut Registry<H>, pending: PendingStart, cause: std::io::Error) -> (r:
    Error)
    requires
        old(registry).wf(),
    ensures
        final(registry).wf(),
        final(registry).servers() == old(registry).servers(),
        final(registry).reserved() == match pending.name {
            Some(n) => old(registry).reserved().remove(n@),
            None => old(registry).reserved(),
        },
        r matches Error::Command(e) && e == cause,
{
    release(registry, &pending.name);
    Error::Command(cause)
}

/// Last step of a start, once the process is spawned: register it under the
/// pending id with its pid and stdin. `Pipe` when the pid or one of the three
/// standard streams is missing, and `ServerIdExists` when the id is already
/// live; on either error the name is released, nothing is registered, and
/// the caller must kill the process it spawned.
pub fn finish_start<H>(
    registry: &mut Registry<H>,
    pending: PendingStart,
    pid: Option<u32>,
    stdin: Option<H>,
    has_stdout: bool,
    has_stderr: bool,
) -> (r: Result<StartResponse, Error>)
    requires
        old(registry).wf(),
    ensures
        final(registry).wf(),
        final(registry).reserved() == match pending.name {
            Some(n) => old(registry).reserved().remove(n@),
            None => old(registry).reserved(),
        },
        match r {
            Ok(resp) => {
                &&& pid is Some && stdin is Some && has_stdout && has_stderr
                &&& !old(registry).servers().contains_key(pending.server_id@)
                &&& final(registry).servers() == old(registry).servers().insert(
                    pending.server_id@,
                    ServerRecord {
                        name: name_view(pending.name),
                        process: ManagedProcess { pid: pid->Some_0, stdin: stdin->Some_0 },
                    },
                )
                &&& resp.server_id@ == pending.server_id@
                &&& name_view(resp.name) == name_view(pending.name)
            },
            Err(e) => {
                &&& final(registry).servers() == old(registry).servers()
                &&& if pid is None || stdin is None || !has_stdout || !has_stderr {
                    e is Pipe
                } else {
                    old(registry).servers().contains_key(pending.server_id@) && e.is_id_taken(
                        pending.server_id@,
                    )
                }
            },
        },
{
    let (pid, stdin) = match (pid, stdin) {
        (Some(pid), Some(stdin)) => (pid, stdin),
        _ => {
            release(registry, &pending.name);
            return Err(Error::Pipe);
        },
    };
    if !has_stdout || !has_stderr {
        release(registry, &pending.name);
        return Err(Error::Pipe);
    }
    let response_name = match &pending.name {
        Some(n) => Some(n.clone()),
        None => None,
    };
    let response = StartResponse { server_id: pending.server_id.clone(), name: response_name };
    let PendingStart { server_id, name } = pending;
    match registry.insert(server_id, name, ManagedProcess { pid, stdin }) {
        Ok(()) => Ok(response),
        Err(e) => {
            release(registry, &response.name);
            Err(e)
        },
    }
}

} // verus!
