//! The controller's lifecycle and the configure decision.
//!
//! The kernel controller owns the loaded library and drives it through
//! `configure` and `run`. The parts of that flow that are plain decisions on
//! plain values live here: validating a configuration request and encoding
//! its path for the native loader, and the state the process-wide console
//! registry is left in by each step. The callers perform the native calls and
//! feed their observable results (does the file exist, how many partitions
//! did the parse report) back into this model.

use vstd::prelude::*;

use crate::console::console_line;
use crate::errors::SkeError;

verus! {

/// Whether a byte sequence contains a NUL byte anywhere. Such a path cannot
/// be turned into the NUL-terminated string the native loader takes.
pub open spec fn contains_nul(s: Seq<u8>) -> bool {
    exists|i: int| 0 <= i < s.len() && s[i] == 0u8
}

/// Validates a configuration request and encodes the path for the native
/// loader.
///
/// `file_exists` is the caller's observation of whether the path names an
/// existing regular file. The request is rejected with `NotFound` exactly
/// when it does not, and with `EncodingError` exactly when the path holds a
/// NUL byte; otherwise the result is the path with a terminating NUL
/// appended, ready for the native call.
#[verifier::loop_isolation(false)]
pub fn prepare_config_path(file_exists: bool, path: &Vec<u8>) -> (r: Result<Vec<u8>, SkeError>)
    ensures
        match r {
            Ok(c) => file_exists && !contains_nul(path@) && c@ == path@.push(0u8),
            Err(e) => (!file_exists && e == SkeError::NotFound) || (file_exists && contains_nul(
                path@,
            ) && e == SkeError::EncodingError),
        },
{
    if !file_exists {
        return Err(SkeError::NotFound);
    }
    let mut out: Vec<u8> = Vec::new();
    let mut i: usize = 0;
    proof {
        assert(out@ =~= path@.subrange(0, 0));
    }
    while i < path.len()
        invariant
            i <= path.len(),
            out@ == path@.subrange(0, i as int),
            forall|j: int| 0 <= j < i ==> path@[j] != 0u8,
        decreases path.len() - i,
    {
        let b = path[i];
        if b == 0 {
            proof {
                assert(path@[i as int] == 0u8);
                assert(contains_nul(path@));
            }
            return Err(SkeError::EncodingError);
        }
        out.push(b);
        proof {
            assert(out@ =~= path@.subrange(0, i as int + 1));
        }
        i = i + 1;
    }
    proof {
        assert(out@ =~= path@);
    }
    out.push(0);
    Ok(out)
}

/// The controller's view of the binding layer's lifecycle: whether a
/// configuration has completed, how many partitions the native parse
/// reported, and whether the handle has been published into the process-wide
/// console registry (which happens together with installing the console
/// callback on every partition).
pub struct Controller {
    configured: bool,
    published: bool,
    partitions: usize,
}

/// The controller state after a successful configuration reporting `n`
/// partitions. It does not depend on the state the controller was in before:
/// reconfiguring replaces the registry slot and reinstalls every console
/// callback rather than relying on a prior installation.
pub closed spec fn configured_with(n: usize) -> Controller {
    Controller { configured: true, published: true, partitions: n }
}

/// What the console bridge emits for one callback invocation: the formatted
/// line when a handle is published in the registry, and nothing at all when
/// none is.
pub open spec fn console_event_spec(published: bool, name_field: Seq<u8>, msg: Seq<u8>) -> Option<
    Seq<u8>,
> {
    if published {
        Some(console_line(name_field, msg))
    } else {
        None
    }
}

impl Controller {
    /// Whether a configuration has completed.
    pub closed spec fn configured(&self) -> bool {
        self.configured
    }

    /// Whether the handle stands in the process-wide console registry.
    pub closed spec fn published(&self) -> bool {
        self.published
    }

    /// The partition count reported by the most recent configuration.
    pub closed spec fn partition_count_spec(&self) -> int {
        self.partitions as int
    }

    /// A fresh controller: nothing configured, nothing published, no
    /// partitions known.
    pub fn new() -> (r: Controller)
        ensures
            !r.configured(),
            !r.published(),
            r.partition_count_spec() == 0,
    {
        Controller { configured: false, published: false, partitions: 0 }
    }

    /// Records a completed configuration whose native parse reported `n`
    /// partitions: the handle is published into the console registry and the
    /// console callback is installed on all `n` partitions. The resulting
    /// state depends on `n` alone, whatever the controller held before.
    pub fn complete_configure(&mut self, n: usize)
        ensures
            *final(self) == configured_with(n),
            final(self).configured(),
            final(self).published(),
            final(self).partition_count_spec() == n,
    {
        self.configured = true;
        self.published = true;
        self.partitions = n;
    }

    /// Answers the partition-count query: the count recorded by the most
    /// recent configuration (zero before any).
    pub fn partition_count(&self) -> (r: usize)
        ensures
            r == self.partition_count_spec(),
    {
        self.partitions
    }

    /// Whether a configuration has completed.
    pub fn is_configured(&self) -> (r: bool)
        ensures
            r == self.configured(),
    {
        self.configured
    }

    /// Whether the handle stands in the console registry.
    pub fn is_published(&self) -> (r: bool)
        ensures
            r == self.published(),
    {
        self.published
    }

    /// The bridge's decision for one console callback invocation carrying a
    /// partition's raw name field and a raw message buffer: the formatted
    /// line when a handle is published, nothing when the registry is empty
    /// (the caller treats that as a fatal contract violation, not as output).
    pub fn console_event(&self, name_field: &Vec<u8>, message: &Vec<u8>) -> (r: Option<Vec<u8>>)
        ensures
            match r {
                Some(line) => self.published() && line@ == console_line(
                    name_field@,
                    message@,
                ),
                None => !self.published(),
            },
            r is Some <==> console_event_spec(self.published(), name_field@, message@) is Some,
    {
        if self.published {
            Some(crate::console::format_console_line(name_field, message))
        } else {
            None
        }
    }
}

/// After a configuration reporting `n` partitions, the partition-count query
/// answers exactly `n`.
pub proof fn lemma_partition_count_after_configure(n: usize)
    ensures
        configured_with(n).partition_count_spec() == n,
{
}

/// Reconfiguring is idempotent: every successful configuration reporting `n`
/// partitions leaves the controller in the one state `configured_with(n)`,
/// and in that state the bridge emits every console event, attributed to the
/// name carried in the partition's own configuration record.
pub proof fn lemma_reconfigure_idempotent(n: usize)
    ensures
        forall|name_field: Seq<u8>, msg: Seq<u8>|
            console_event_spec(configured_with(n).published(), name_field, msg) == Some(
                console_line(name_field, msg),
            ),
{
    assert(configured_with(n).published());
}

/// A controller that never completed a configuration publishes nothing, and
/// the bridge then emits nothing for any callback invocation.
pub proof fn lemma_unpublished_silent(c: Controller)
    requires
        !c.published(),
    ensures
        forall|name_field: Seq<u8>, msg: Seq<u8>|
            console_event_spec(c.published(), name_field, msg) is None,
{
}

} // verus!
