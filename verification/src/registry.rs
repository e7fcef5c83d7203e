//! The table of external data requests that one invocation makes.
//!
//! A registry lives for one invocation. It starts empty and uninvoked,
//! accepts requests only while the invocation is preparing, and numbers
//! them from one in the order in which they are made.
use vstd::prelude::*;
use crate::error::RegistryMisuseError;

verus! {

/// Where an invocation stands.
#[derive(Debug, Clone, Copy, PartialEq, Eq, Structural)]
pub enum Phase {
    Uninvoked,
    Preparing,
    PrepareDone,
    Executing,
    ExecuteDone,
}

/// What moves an invocation from one phase to the next.
#[derive(Debug, Clone, Copy, PartialEq, Eq, Structural)]
pub enum Transition {
    BeginPrepare,
    BeginExecute,
    Finish,
}

/// The phase that follows `phase` on `transition`, if the state machine
/// has that step.
pub open spec fn phase_step(phase: Phase, transition: Transition) -> Option<Phase> {
    match (phase, transition) {
        (Phase::Uninvoked, Transition::BeginPrepare) => Some(Phase::Preparing),
        (Phase::Uninvoked, Transition::BeginExecute) => Some(Phase::Executing),
        (Phase::Preparing, Transition::Finish) => Some(Phase::PrepareDone),
        (Phase::Executing, Transition::Finish) => Some(Phase::ExecuteDone),
        _ => None,
    }
}

/// One request to an off-chain data source.
#[derive(Debug, Clone, PartialEq, Eq)]
pub struct ExternalRequest {
    pub data_source_id: i64,
    pub min_report_count: i64,
    pub payload: Vec<u8>,
}

/// A request as plain values.
pub struct RequestView {
    pub data_source_id: i64,
    pub min_report_count: i64,
    pub payload: Seq<u8>,
}

impl View for ExternalRequest {
    type V = RequestView;

    open spec fn view(&self) -> RequestView {
        RequestView {
            data_source_id: self.data_source_id,
            min_report_count: self.min_report_count,
            payload: self.payload@,
        }
    }
}

/// The requests of a sequence as plain values.
pub open spec fn request_views(v: Seq<ExternalRequest>) -> Seq<RequestView> {
    Seq::new(v.len(), |i: int| v[i]@)
}

/// A registry as plain values. The request at index `i` has slot `i + 1`.
pub struct RegistryView {
    pub phase: Phase,
    pub requests: Seq<RequestView>,
}

impl RegistryView {
    /// The slot that the next request gets.
    pub open spec fn next_slot(self) -> u64 {
        (self.requests.len() + 1) as u64
    }

    /// The registry after one more request.
    pub open spec fn with_request(self, request: RequestView) -> RegistryView {
        RegistryView { phase: self.phase, requests: self.requests.push(request) }
    }
}

/// The requests made so far in one invocation.
#[derive(Debug)]
pub struct RequestRegistry {
    phase: Phase,
    requests: Vec<ExternalRequest>,
}

impl View for RequestRegistry {
    type V = RegistryView;

    closed spec fn view(&self) -> RegistryView {
        RegistryView { phase: self.phase, requests: request_views(self.requests@) }
    }
}

impl RequestRegistry {
    /// A registry for a new invocation: uninvoked, with no requests.
    pub fn new() -> (r: RequestRegistry)
        ensures
            r@ == (RegistryView { phase: Phase::Uninvoked, requests: Seq::empty() }),
    {
        let r = RequestRegistry { phase: Phase::Uninvoked, requests: Vec::new() };
        proof {
            assert(request_views(r.requests@) =~= Seq::empty());
        }
        r
    }

    /// The current phase.
    pub fn phase(&self) -> (r: Phase)
        ensures
            r == self@.phase,
    {
        self.phase
    }

    /// The number of requests made so far, which is also the last slot.
    pub fn len(&self) -> (r: usize)
        ensures
            r == self@.requests.len(),
    {
        self.requests.len()
    }

    /// The requests made so far, in slot order.
    pub fn requests(&self) -> (r: &Vec<ExternalRequest>)
        ensures
            request_views(r@) == self@.requests,
    {
        &self.requests
    }

    /// Takes one step of the state machine. Fails, and changes nothing,
    /// exactly when the machine has no such step from the current phase.
    pub fn advance(&mut self, transition: Transition) -> (r: Result<(), RegistryMisuseError>)
        ensures
            match phase_step(old(self)@.phase, transition) {
                Some(next) => r is Ok && final(self)@ == (RegistryView {
                    phase: next,
                    requests: old(self)@.requests,
                }),
                None => r == Err::<(), RegistryMisuseError>(RegistryMisuseError::Misuse)
                    && final(self)@ == old(self)@,
            },
    {
        let next = match (self.phase, transition) {
            (Phase::Uninvoked, Transition::BeginPrepare) => Phase::Preparing,
            (Phase::Uninvoked, Transition::BeginExecute) => Phase::Executing,
            (Phase::Preparing, Transition::Finish) => Phase::PrepareDone,
            (Phase::Executing, Transition::Finish) => Phase::ExecuteDone,
            _ => {
                return Err(RegistryMisuseError::Misuse);
            },
        };
        self.phase = next;
        Ok(())
    }

    /// Appends a request and returns its slot: one more than the number of
    /// requests made before. Fails, and changes nothing, exactly when the
    /// invocation is not preparing.
    pub fn request(&mut self, data_source_id: i64, min_report_count: i64, payload: Vec<u8>) -> (r:
        Result<u64, RegistryMisuseError>)
        ensures
            old(self)@.phase == Phase::Preparing ==> r == Ok::<u64, RegistryMisuseError>(
                old(self)@.next_slot(),
            ) && final(self)@ == old(self)@.with_request(
                RequestView { data_source_id, min_report_count, payload: payload@ },
            ),
            old(self)@.phase != Phase::Preparing ==> r == Err::<u64, RegistryMisuseError>(
                RegistryMisuseError::Misuse,
            ) && final(self)@ == old(self)@,
    {
        match self.phase {
            Phase::Preparing => {},
            _ => {
                return Err(RegistryMisuseError::Misuse);
            },
        }
        let ghost before = self.requests@;
        let ghost added = RequestView { data_source_id, min_report_count, payload: payload@ };
        self.requests.push(ExternalRequest { data_source_id, min_report_count, payload });
        proof {
            assert(request_views(self.requests@) =~= request_views(before).push(added));
        }
        Ok(self.requests.len() as u64)
    }
}

/// Slots count up from one: an empty registry hands out slot one, and
/// each request moves the next slot on by one.
pub proof fn lemma_slots_count_up(registry: RegistryView, request: RequestView)
    requires
        registry.requests.len() + 1 < u64::MAX,
    ensures
        registry.requests.len() == 0 ==> registry.next_slot() == 1,
        registry.with_request(request).next_slot() == registry.next_slot() + 1,
        registry.with_request(request).requests[registry.next_slot() - 1] == request,
{
}

} // verus!
