//! Local resource accountant: free CPU units with reserve / release.
use vstd::prelude::*;
use crate::framing::utf8_of;
use crate::meminfo::{field_from, parse_meminfo};

verus! {

/// Errors of the admission layer.
#[derive(Debug, Clone, Copy, PartialEq, Eq, Structural)]
pub enum OrchestratorError {
    /// The requested units are not free.
    InsufficientResources,
    /// Releasing would raise the free units above the node's total.
    Overflow,
}

/// Relies on num_cpus::get: the number of logical CPUs usable by this process.
/// The documentation promises nothing about the value.
#[verifier::external_body]
fn logical_cpu_count() -> (r: usize) {
    num_cpus::get()
}

/// Free CPU units of the node. Memory is checked at admission, never counted.
pub struct LocalResources {
    cpus_total: usize,
    cpus_available: usize,
    /// Units reserved and not yet released, as a ledger of the calls made.
    held: Ghost<int>,
}

impl LocalResources {
    /// Number of CPU units the node was created with.
    pub closed spec fn total(&self) -> nat {
        self.cpus_total as nat
    }

    /// Number of CPU units currently free.
    pub closed spec fn available(&self) -> nat {
        self.cpus_available as nat
    }

    /// Sum of all successful reservations minus all successful releases.
    pub closed spec fn reserved(&self) -> int {
        self.held@
    }

    pub closed spec fn wf(&self) -> bool {
        &&& self.cpus_available <= self.cpus_total
        &&& self.held@ == self.cpus_total - self.cpus_available
    }

    /// Accountant for every logical CPU of this host, all of them free.
    pub fn new() -> (r: Self)
        ensures
            r.wf(),
            r.available() == r.total(),
            r.reserved() == 0,
    {
        let n = logical_cpu_count();
        Self::with_cpus(n)
    }

    /// Accountant for `cpus` units, all of them free.
    pub fn with_cpus(cpus: usize) -> (r: Self)
        ensures
            r.wf(),
            r.total() == cpus,
            r.available() == cpus,
            r.reserved() == 0,
    {
        LocalResources { cpus_total: cpus, cpus_available: cpus, held: Ghost(0) }
    }

    /// Current number of free CPU units.
    pub fn get_available_cpus(&self) -> (r: usize)
        ensures
            r == self.available(),
    {
        self.cpus_available
    }

    /// Number of CPU units the node was created with.
    pub fn get_total_cpus(&self) -> (r: usize)
        ensures
            r == self.total(),
    {
        self.cpus_total
    }

    /// Take `cpus` units if that many are free; otherwise change nothing.
    pub fn acquire_cpus(&mut self, cpus: usize) -> (r: Result<(), OrchestratorError>)
        requires
            old(self).wf(),
        ensures
            final(self).wf(),
            final(self).total() == old(self).total(),
            r is Ok <==> cpus <= old(self).available(),
            r is Ok ==> final(self).available() == old(self).available() - cpus
                && final(self).reserved() == old(self).reserved() + cpus,
            r is Err ==> r == Err::<(), _>(OrchestratorError::InsufficientResources)
                && *final(self) == *old(self),
    {
        match self.cpus_available.checked_sub(cpus) {
            Some(x) => {
                self.cpus_available = x;
                self.held = Ghost(self.held@ + cpus);
                Ok(())
            },
            None => Err(OrchestratorError::InsufficientResources),
        }
    }

    /// Give back `cpus` units, unless that would exceed the node's total.
    pub fn release_cpus(&mut self, cpus: usize) -> (r: Result<(), OrchestratorError>)
        requires
            old(self).wf(),
        ensures
            final(self).wf(),
            final(self).total() == old(self).total(),
            r is Ok <==> old(self).available() + cpus <= old(self).total(),
            r is Ok ==> final(self).available() == old(self).available() + cpus
                && final(self).reserved() == old(self).reserved() - cpus,
            r is Err ==> r == Err::<(), _>(OrchestratorError::Overflow)
                && *final(self) == *old(self),
    {
        if cpus <= self.cpus_total - self.cpus_available {
            self.cpus_available = self.cpus_available + cpus;
            self.held = Ghost(self.held@ - cpus);
            Ok(())
        } else {
            Err(OrchestratorError::Overflow)
        }
    }
}

/// The value of the field `key` of the memory report `meminfo`, or 0 when
/// it is missing, malformed or too large.
pub open spec fn field_or_zero(meminfo: Seq<u8>, key: Seq<u8>) -> nat {
    match field_from(meminfo, key, 0) {
        Some(v) => if v <= u64::MAX {
            v
        } else {
            0
        },
        None => 0,
    }
}

impl LocalResources {
    /// Free memory in KiB according to the kernel's memory report `meminfo`
    /// (its `MemAvailable` line); 0 when the report lacks it.
    pub fn get_available_memory(meminfo: &[u8]) -> (r: u64)
        ensures
            r == field_or_zero(meminfo@, utf8_of("MemAvailable"@)),
    {
        match parse_meminfo(meminfo, "MemAvailable".as_bytes()) {
            Some(v) => v,
            None => 0,
        }
    }

    /// Total memory in KiB according to the kernel's memory report `meminfo`
    /// (its `MemTotal` line); 0 when the report lacks it.
    pub fn get_total_memory(meminfo: &[u8]) -> (r: u64)
        ensures
            r == field_or_zero(meminfo@, utf8_of("MemTotal"@)),
    {
        match parse_meminfo(meminfo, "MemTotal".as_bytes()) {
            Some(v) => v,
            None => 0,
        }
    }
}

/// Whatever sequence of reservations and releases brought the accountant to its
/// present state, the free units lie within `[0, total]` and equal the total
/// minus what is reserved and not yet released.
pub proof fn lemma_accounting_balance(r: &LocalResources)
    requires
        r.wf(),
    ensures
        0 <= r.available() <= r.total(),
        r.available() == r.total() - r.reserved(),
        0 <= r.reserved() <= r.total(),
{
}

} // verus!
