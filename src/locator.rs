//! Locating the VM that owns a MAC address and choosing its lifecycle command.
//!
//! The search is a state machine driven by the caller: it asks for the
//! descriptor of one VM at a time, in enumeration order, and stops at the
//! first VM that declares the target address, at the first descriptor that
//! fails extraction, or when every VM was examined.

use vstd::prelude::*;
use crate::domain_xml::{extract_macs, get_mac_addresses, DomainDescriptor};
use crate::error::WolGatewayError;

verus! {

/// The lifecycle state that the platform reports for a VM.
#[derive(Debug, Clone, Copy, PartialEq, Eq, Structural)]
pub enum DomainState {
    /// Domain state is unknown or not set
    NoState,
    /// Domain is running and active
    Running,
    /// Domain is blocked on a resource
    Blocked,
    /// Domain is paused by user
    Paused,
    /// Domain is being shut down
    Shutdown,
    /// Domain is shut off
    Shutoff,
    /// Domain has crashed
    Crashed,
    /// Domain is suspended to disk (power management)
    PmSuspended,
    /// Last state marker
    Last,
}

/// The state for a platform state code; unknown codes are `NoState`.
pub open spec fn domain_state_of(code: u32) -> DomainState {
    match code {
        1 => DomainState::Running,
        2 => DomainState::Blocked,
        3 => DomainState::Paused,
        4 => DomainState::Shutdown,
        5 => DomainState::Shutoff,
        6 => DomainState::Crashed,
        7 => DomainState::PmSuspended,
        8 => DomainState::Last,
        _ => DomainState::NoState,
    }
}

impl From<u32> for DomainState {
    /// Converts a libvirt domain state code; unknown codes give `NoState`.
    fn from(state_code: u32) -> (r: Self) {
        match state_code {
            1 => DomainState::Running,
            2 => DomainState::Blocked,
            3 => DomainState::Paused,
            4 => DomainState::Shutdown,
            5 => DomainState::Shutoff,
            6 => DomainState::Crashed,
            7 => DomainState::PmSuspended,
            8 => DomainState::Last,
            _ => DomainState::NoState,
        }
    }
}

impl vstd::std_specs::convert::FromSpecImpl<u32> for DomainState {
    open spec fn obeys_from_spec() -> bool {
        true
    }

    open spec fn from_spec(v: u32) -> Self {
        domain_state_of(v)
    }
}

/// The command that wakes a VM from a given state.
#[derive(Debug, Clone, Copy, PartialEq, Eq, Structural)]
pub enum LifecycleCommand {
    /// Start (create) the VM.
    Start,
    /// Resume the paused VM.
    Resume,
    /// Leave the VM as it is.
    NoAction,
}

/// Shut off, shutting down and crashed VMs are started, paused ones resumed,
/// and no command is issued in any other state.
pub open spec fn command_for(state: DomainState) -> LifecycleCommand {
    match state {
        DomainState::Shutoff | DomainState::Shutdown | DomainState::Crashed => LifecycleCommand::Start,
        DomainState::Paused => LifecycleCommand::Resume,
        _ => LifecycleCommand::NoAction,
    }
}

/// Chooses the command for a VM found in `state`.
pub fn lifecycle_command(state: DomainState) -> (r: LifecycleCommand)
    ensures
        r == command_for(state),
{
    match state {
        DomainState::Shutoff | DomainState::Shutdown | DomainState::Crashed => LifecycleCommand::Start,
        DomainState::Paused => LifecycleCommand::Resume,
        _ => LifecycleCommand::NoAction,
    }
}

/// The lowercase form of a text, as `str::to_lowercase` gives it.
pub uninterp spec fn lower_of(s: Seq<char>) -> Seq<char>;

/// Relies on `str::to_lowercase`: the result depends on the characters alone.
#[verifier::external_body]
fn to_lowercase(s: &str) -> (r: String)
    ensures
        r@ == lower_of(s@),
{
    s.to_lowercase()
}

/// What the caller does next.
#[derive(Debug, Clone, PartialEq, Eq)]
pub enum SearchStep {
    /// Fetch the descriptor of the VM at this index and hand it to `on_descriptor`.
    FetchDescriptor(usize),
    /// The VM at this index owns the target address: drive its lifecycle.
    Found(usize),
    /// The search ended with this error.
    Finished(WolGatewayError),
}

/// `r` reports that no VM owns `target`.
pub open spec fn reports_not_found(r: SearchStep, target: Seq<char>) -> bool {
    match r {
        SearchStep::Finished(WolGatewayError::VmNotFound(t)) => t@ == target,
        _ => false,
    }
}

/// A search for the VM that owns a MAC address among `vm_count` enumerated VMs.
#[derive(Debug)]
pub struct DomainSearch {
    target: String,
    target_lower: String,
    vm_count: usize,
    next_vm: usize,
}

impl DomainSearch {
    /// The target address as it was requested.
    pub closed spec fn target(&self) -> Seq<char> {
        self.target@
    }

    /// The target address that descriptors are compared with.
    pub closed spec fn target_lower(&self) -> Seq<char> {
        self.target_lower@
    }

    /// How many VMs were enumerated.
    pub closed spec fn vm_count(&self) -> nat {
        self.vm_count as nat
    }

    /// The index of the next VM to examine; every earlier one was examined.
    pub closed spec fn next_vm(&self) -> nat {
        self.next_vm as nat
    }

    /// The next VM to examine is at most one past the last.
    pub closed spec fn wf(&self) -> bool {
        self.next_vm <= self.vm_count
    }

    /// The step that examines the next VM, or reports that none is left.
    pub open spec fn pending_step(&self, r: SearchStep) -> bool {
        if self.next_vm() < self.vm_count() {
            r == SearchStep::FetchDescriptor(self.next_vm() as usize)
        } else {
            reports_not_found(r, self.target())
        }
    }

    /// Starts a search for `target` among `vm_count` VMs, comparing in lowercase.
    pub fn new(target: &str, vm_count: usize) -> (r: Self)
        ensures
            r.wf(),
            r.target() == target@,
            r.target_lower() == lower_of(target@),
            r.vm_count() == vm_count,
            r.next_vm() == 0,
    {
        let lower = to_lowercase(target);
        Self::with_lowered_target(target, lower.as_str(), vm_count)
    }

    /// Starts a search for `target`, whose lowercase form `target_lower` is the
    /// text that descriptors are compared with.
    pub fn with_lowered_target(target: &str, target_lower: &str, vm_count: usize) -> (r: Self)
        ensures
            r.wf(),
            r.target() == target@,
            r.target_lower() == target_lower@,
            r.vm_count() == vm_count,
            r.next_vm() == 0,
    {
        DomainSearch {
            target: target.to_owned(),
            target_lower: target_lower.to_owned(),
            vm_count,
            next_vm: 0,
        }
    }

    /// The step to take before any descriptor was examined, or after the
    /// last one that did not match.
    pub fn next_step(&self) -> (r: SearchStep)
        requires
            self.wf(),
        ensures
            self.pending_step(r),
    {
        if self.next_vm < self.vm_count {
            SearchStep::FetchDescriptor(self.next_vm)
        } else {
            SearchStep::Finished(WolGatewayError::VmNotFound(self.target.clone()))
        }
    }

    /// Examines the descriptor of the VM at `next_vm`.
    ///
    /// A descriptor whose extraction fails ends the search with that error. A
    /// descriptor that declares the target address ends it with `Found`.
    /// Otherwise the search moves on to the next VM.
    pub fn on_descriptor(&mut self, desc: &DomainDescriptor) -> (r: SearchStep)
        requires
            old(self).wf(),
            old(self).next_vm() < old(self).vm_count(),
        ensures
            final(self).wf(),
            final(self).target() == old(self).target(),
            final(self).target_lower() == old(self).target_lower(),
            final(self).vm_count() == old(self).vm_count(),
            match extract_macs(desc@) {
                Err(e) => r == SearchStep::Finished(WolGatewayError::MacExtractionError(e))
                    && final(self).next_vm() == old(self).next_vm(),
                Ok(ms) => if ms.contains(old(self).target_lower()) {
                    r == SearchStep::Found(old(self).next_vm() as usize)
                        && final(self).next_vm() == old(self).next_vm()
                } else {
                    final(self).next_vm() == old(self).next_vm() + 1 && final(self).pending_step(r)
                },
            },
    {
        let macs = match get_mac_addresses(desc) {
            Ok(macs) => macs,
            Err(e) => {
                return SearchStep::Finished(e);
            },
        };
        let ghost ms = macs@.map_values(|s: String| s@);
        let mut j: usize = 0;
        while j < macs.len()
            invariant
                j <= macs@.len(),
                ms == macs@.map_values(|s: String| s@),
                extract_macs(desc@) == Ok::<Seq<Seq<char>>, crate::error::ExtractionError>(ms),
                *self == *old(self),
                self.next_vm < self.vm_count,
                forall|k: int| 0 <= k < j ==> ms[k] != self.target_lower@,
            decreases macs@.len() - j,
        {
            if macs[j] == self.target_lower {
                assert(ms[j as int] == self.target_lower@);
                return SearchStep::Found(self.next_vm);
            }
            j = j + 1;
        }
        self.next_vm = self.next_vm + 1;
        self.next_step()
    }
}

} // verus!
