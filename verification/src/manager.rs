//! The process supervisor: at most one live process per server identifier,
//! started, replaced, stopped and addressed through a registry of handle
//! tokens, together with the exact confirmation and error strings surfaced
//! to callers.
//!
//! Spawning, killing and pipe I/O happen outside the crate; the manager
//! decides which registration changes and which handle the caller must act
//! on, and allocates a fresh token for every newly started process.

use vstd::prelude::*;
use crate::registry::ProcessRegistry;
use crate::text::concat3;

verus! {

/// The error for an operation naming an identifier with no live process.
pub open spec fn spec_not_found_message(id: Seq<char>) -> Seq<char> {
    "Server "@ + id + " not found"@
}

/// The confirmation for a successful start.
pub open spec fn spec_started_message(id: Seq<char>) -> Seq<char> {
    "Server "@ + id + " started"@
}

/// The error when the operating system refuses to create the process.
pub open spec fn spec_spawn_failure_message(cause: Seq<char>) -> Seq<char> {
    "Failed to spawn process: "@ + cause
}

/// The error when terminating a process fails on an explicit stop.
pub open spec fn spec_kill_failure_message(cause: Seq<char>) -> Seq<char> {
    "Failed to kill process: "@ + cause
}

/// The error when writing a request to the child's input fails.
pub open spec fn spec_write_failure_message(cause: Seq<char>) -> Seq<char> {
    "Failed to write to stdin: "@ + cause
}

/// The error when flushing the child's input fails.
pub open spec fn spec_flush_failure_message(cause: Seq<char>) -> Seq<char> {
    "Failed to flush stdin: "@ + cause
}

/// The error when reading the child's output fails (the far end closing
/// the stream included), naming the server and the underlying cause.
pub open spec fn spec_read_failure_message(id: Seq<char>, cause: Seq<char>) -> Seq<char> {
    "Failed to read from stdout ("@ + id + "): "@ + cause
}

/// The error when the child's input stream is unavailable.
pub open spec fn spec_no_stdin_message() -> Seq<char> {
    "Failed to get stdin"@
}

/// The error when the child's output stream is unavailable.
pub open spec fn spec_no_stdout_message() -> Seq<char> {
    "Failed to get stdout"@
}

/// The error when no handle token is left for a newly spawned process.
pub open spec fn spec_tokens_exhausted_message() -> Seq<char> {
    "Failed to register process: no handle token left"@
}

/// Builds [`spec_not_found_message`].
pub fn not_found_message(id: &str) -> (r: String)
    ensures
        r@ == spec_not_found_message(id@),
{
    concat3("Server ", id, " not found")
}

/// Builds [`spec_started_message`].
pub fn started_message(id: &str) -> (r: String)
    ensures
        r@ == spec_started_message(id@),
{
    concat3("Server ", id, " started")
}

/// Builds [`spec_spawn_failure_message`].
pub fn spawn_failure_message(cause: &str) -> (r: String)
    ensures
        r@ == spec_spawn_failure_message(cause@),
{
    let mut r = "Failed to spawn process: ".to_owned();
    r.append(cause);
    r
}

/// Builds [`spec_kill_failure_message`].
pub fn kill_failure_message(cause: &str) -> (r: String)
    ensures
        r@ == spec_kill_failure_message(cause@),
{
    let mut r = "Failed to kill process: ".to_owned();
    r.append(cause);
    r
}

/// Builds [`spec_write_failure_message`].
pub fn write_failure_message(cause: &str) -> (r: String)
    ensures
        r@ == spec_write_failure_message(cause@),
{
    let mut r = "Failed to write to stdin: ".to_owned();
    r.append(cause);
    r
}

/// Builds [`spec_flush_failure_message`].
pub fn flush_failure_message(cause: &str) -> (r: String)
    ensures
        r@ == spec_flush_failure_message(cause@),
{
    let mut r = "Failed to flush stdin: ".to_owned();
    r.append(cause);
    r
}

/// Builds [`spec_read_failure_message`].
pub fn read_failure_message(id: &str, cause: &str) -> (r: String)
    ensures
        r@ == spec_read_failure_message(id@, cause@),
{
    let mut r = "Failed to read from stdout (".to_owned();
    r.append(id);
    r.append("): ");
    r.append(cause);
    r
}

/// Builds [`spec_no_stdin_message`].
pub fn no_stdin_message() -> (r: String)
    ensures
        r@ == spec_no_stdin_message(),
{
    "Failed to get stdin".to_owned()
}

/// Builds [`spec_no_stdout_message`].
pub fn no_stdout_message() -> (r: String)
    ensures
        r@ == spec_no_stdout_message(),
{
    "Failed to get stdout".to_owned()
}

/// Builds [`spec_tokens_exhausted_message`].
pub fn tokens_exhausted_message() -> (r: String)
    ensures
        r@ == spec_tokens_exhausted_message(),
{
    "Failed to register process: no handle token left".to_owned()
}

/// Tracks the live tool-server processes: a registry from identifier to
/// handle token, and the next token to hand out.
pub struct McpServerManager {
    registry: ProcessRegistry,
    next_handle: u64,
}

impl McpServerManager {
    /// The identifier-to-handle mapping currently registered.
    pub closed spec fn contents(self) -> Map<Seq<char>, u64> {
        self.registry.contents()
    }

    /// The token the next successful start will receive.
    pub closed spec fn next_token(self) -> u64 {
        self.next_handle
    }

    /// Identifiers are unique and every registered token was handed out
    /// before `next_token`.
    pub closed spec fn wf(self) -> bool {
        &&& self.registry.wf()
        &&& forall|k: Seq<char>| #[trigger] self.contents().contains_key(k)
            ==> self.contents()[k] < self.next_handle
    }

    /// An empty manager: no server registered.
    pub fn new() -> (r: Self)
        ensures
            r.wf(),
            r.contents() == Map::<Seq<char>, u64>::empty(),
    {
        McpServerManager { registry: ProcessRegistry::new(), next_handle: 0 }
    }

    /// First step of a start: drops any previous registration under
    /// `server_id` and hands back its handle, which the caller must
    /// terminate best-effort before spawning the replacement.
    pub fn prepare_start(&mut self, server_id: &String) -> (r: Option<u64>)
        requires
            old(self).wf(),
        ensures
            final(self).wf(),
            final(self).contents() == old(self).contents().remove(server_id@),
            final(self).next_token() == old(self).next_token(),
            match r {
                Some(h) => old(self).contents().contains_key(server_id@)
                    && h == old(self).contents()[server_id@],
                None => !old(self).contents().contains_key(server_id@),
            },
    {
        let r = self.registry.remove(server_id);
        proof {
            if r is None {
                assert(old(self).contents().remove(server_id@) =~= old(self).contents());
            }
            assert forall|k: Seq<char>| #[trigger] self.contents().contains_key(k)
                implies self.contents()[k] < self.next_handle by {
                assert(old(self).contents().contains_key(k));
            }
        }
        r
    }

    /// Last step of a successful start: allocates a fresh handle token and
    /// registers it under `server_id`, replacing any entry present. The
    /// token differs from every token registered before the call; `None`
    /// comes only when the token space is exhausted, and changes nothing.
    pub fn register_started(&mut self, server_id: &String) -> (r: Option<u64>)
        requires
            old(self).wf(),
        ensures
            final(self).wf(),
            old(self).next_token() < u64::MAX ==> {
                &&& r is Some
                &&& r->0 == old(self).next_token()
                &&& final(self).contents() == old(self).contents().insert(server_id@, r->0)
                &&& final(self).next_token() == old(self).next_token() + 1
                &&& forall|k: Seq<char>| #[trigger] old(self).contents().contains_key(k)
                    ==> old(self).contents()[k] != r->0
            },
            old(self).next_token() == u64::MAX ==> r is None && *final(self) == *old(self),
    {
        if self.next_handle == u64::MAX {
            return None;
        }
        let h = self.next_handle;
        self.registry.insert(server_id, h);
        self.next_handle = h + 1;
        proof {
            assert forall|k: Seq<char>| #[trigger] self.contents().contains_key(k)
                implies self.contents()[k] < self.next_handle by {
                if k != server_id@ {
                    assert(old(self).contents().contains_key(k));
                }
            }
        }
        Some(h)
    }

    /// Stop: removes the registration under `server_id` and hands back its
    /// handle for the caller to terminate; a "not found" error, and no
    /// change, when nothing is registered under it.
    pub fn stop_server(&mut self, server_id: &String) -> (r: Result<u64, String>)
        requires
            old(self).wf(),
        ensures
            final(self).wf(),
            final(self).next_token() == old(self).next_token(),
            old(self).contents().contains_key(server_id@) ==> {
                &&& r is Ok
                &&& r->Ok_0 == old(self).contents()[server_id@]
                &&& final(self).contents() == old(self).contents().remove(server_id@)
            },
            !old(self).contents().contains_key(server_id@) ==> {
                &&& r is Err
                &&& r->Err_0@ == spec_not_found_message(server_id@)
                &&& *final(self) == *old(self)
            },
    {
        let removed = self.registry.remove(server_id);
        proof {
            assert forall|k: Seq<char>| #[trigger] self.contents().contains_key(k)
                implies self.contents()[k] < self.next_handle by {
                assert(old(self).contents().contains_key(k));
            }
        }
        match removed {
            Some(h) => Ok(h),
            None => Err(not_found_message(server_id.as_str())),
        }
    }

    /// Send, first step: the handle registered under `server_id`, against
    /// which the caller performs the exchange; a "not found" error, before
    /// any I/O is attempted, when nothing is registered under it.
    pub fn lookup_server(&self, server_id: &String) -> (r: Result<u64, String>)
        requires
            self.wf(),
        ensures
            self.contents().contains_key(server_id@) ==> r is Ok
                && r->Ok_0 == self.contents()[server_id@],
            !self.contents().contains_key(server_id@) ==> r is Err
                && r->Err_0@ == spec_not_found_message(server_id@),
    {
        match self.registry.lookup(server_id) {
            Some(h) => Ok(h),
            None => Err(not_found_message(server_id.as_str())),
        }
    }
}

/// Servers registered under different identifiers are independent: after
/// registering `ha` under `a` and `hb` under `b`, both are retrievable
/// under their own identifier, and removing either leaves the other
/// registration exactly as it was.
pub proof fn lemma_independent_registrations(
    m: Map<Seq<char>, u64>,
    a: Seq<char>,
    b: Seq<char>,
    ha: u64,
    hb: u64,
)
    requires
        a != b,
    ensures
        m.insert(a, ha).insert(b, hb).contains_key(a),
        m.insert(a, ha).insert(b, hb)[a] == ha,
        m.insert(a, ha).insert(b, hb).contains_key(b),
        m.insert(a, ha).insert(b, hb)[b] == hb,
        !m.insert(a, ha).insert(b, hb).remove(a).contains_key(a),
        m.insert(a, ha).insert(b, hb).remove(a).contains_key(b),
        m.insert(a, ha).insert(b, hb).remove(a)[b] == hb,
        !m.insert(a, ha).insert(b, hb).remove(b).contains_key(b),
        m.insert(a, ha).insert(b, hb).remove(b).contains_key(a),
        m.insert(a, ha).insert(b, hb).remove(b)[a] == ha,
{
}

/// Replacing the registration under an identifier leaves exactly one entry
/// for it, holding the fresh handle; the fresh handle differs from the one
/// it replaces, and every other registration is untouched.
pub proof fn lemma_replacement_single_entry(m: Map<Seq<char>, u64>, id: Seq<char>, h: u64)
    requires
        forall|k: Seq<char>| #[trigger] m.contains_key(k) ==> m[k] != h,
    ensures
        m.remove(id).insert(id, h).contains_key(id),
        m.remove(id).insert(id, h)[id] == h,
        m.contains_key(id) ==> m[id] != h,
        forall|k: Seq<char>| k != id ==> (#[trigger] m.remove(id).insert(id, h).contains_key(k)
            <==> m.contains_key(k)),
        forall|k: Seq<char>| k != id && m.contains_key(k)
            ==> #[trigger] m.remove(id).insert(id, h)[k] == m[k],
{
}

} // verus!
