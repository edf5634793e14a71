//! The runner registration loop, as decisions: from its state and what just happened,
//! the loop's next state and the next thing to do. The loop has no final state.
use vstd::prelude::*;

verus! {

/// Seconds between two registrations.
pub const REGISTRATION_INTERVAL_SECS: u64 = 5;

/// What a runner registers with its controller.
#[derive(Debug, Clone, PartialEq, Eq)]
pub struct RunnerRegistration {
    pub key: String,
    pub endpoint: String,
    pub labels: Vec<(String, String)>,
}

/// One registration message.
#[derive(Debug, Clone, PartialEq, Eq)]
pub struct RegisterRunnerRequest {
    pub key: String,
    pub endpoint: String,
    pub labels: Vec<(String, String)>,
    /// The error of the previous attempt, if it failed.
    pub error: Option<String>,
}

/// What happened since the last decision.
#[derive(Debug, Clone, PartialEq, Eq)]
pub enum RegistrationEvent {
    /// The loop starts.
    Started,
    /// The last registration was accepted.
    Registered,
    /// The last registration failed with this error.
    Failed(String),
    /// The wait is over.
    Elapsed,
}

/// What the loop does next.
#[derive(Debug, Clone, PartialEq, Eq)]
pub enum RegistrationAction {
    /// Send this registration.
    Register(RegisterRunnerRequest),
    /// Wait this many seconds.
    Wait(u64),
}

/// The loop's state: the registration it keeps current, and how it has fared.
pub struct RegistrationLoop {
    pub registration: RunnerRegistration,
    pub attempts: u64,
    pub consecutive_failures: u64,
    pub last_error: Option<String>,
}

pub struct LoopV {
    pub attempts: u64,
    pub consecutive_failures: u64,
    pub last_error: Option<Seq<char>>,
}

pub enum EventV {
    Started,
    Registered,
    Failed(Seq<char>),
    Elapsed,
}

pub enum ActionV {
    Register,
    Wait(u64),
}

impl View for RegistrationLoop {
    type V = LoopV;

    open spec fn view(&self) -> LoopV {
        LoopV {
            attempts: self.attempts,
            consecutive_failures: self.consecutive_failures,
            last_error: match self.last_error {
                Some(e) => Some(e@),
                None => None,
            },
        }
    }
}

impl View for RegistrationEvent {
    type V = EventV;

    open spec fn view(&self) -> EventV {
        match self {
            RegistrationEvent::Started => EventV::Started,
            RegistrationEvent::Registered => EventV::Registered,
            RegistrationEvent::Failed(e) => EventV::Failed(e@),
            RegistrationEvent::Elapsed => EventV::Elapsed,
        }
    }
}

impl View for RegistrationAction {
    type V = ActionV;

    open spec fn view(&self) -> ActionV {
        match self {
            RegistrationAction::Register(_) => ActionV::Register,
            RegistrationAction::Wait(s) => ActionV::Wait(*s),
        }
    }
}

pub open spec fn bump(n: u64) -> u64 {
    if n < u64::MAX {
        (n + 1) as u64
    } else {
        n
    }
}

/// One decision. Starting, or the end of a wait, sends a registration; the outcome of a
/// registration, success or failure, leads to a wait of the fixed interval. A failure is
/// recorded and retried on the next tick; nothing ends the loop.
pub open spec fn step_spec(s: LoopV, e: EventV) -> (LoopV, ActionV) {
    match e {
        EventV::Started | EventV::Elapsed => (LoopV { attempts: bump(s.attempts), ..s }, ActionV::Register),
        EventV::Registered => (
            LoopV { consecutive_failures: 0, last_error: None, ..s },
            ActionV::Wait(REGISTRATION_INTERVAL_SECS),
        ),
        EventV::Failed(m) => (
            LoopV { consecutive_failures: bump(s.consecutive_failures), last_error: Some(m), ..s },
            ActionV::Wait(REGISTRATION_INTERVAL_SECS),
        ),
    }
}

/// The state after a sequence of events, and the actions decided along the way.
pub open spec fn run(s: LoopV, events: Seq<EventV>) -> (LoopV, Seq<ActionV>)
    decreases events.len(),
{
    if events.len() == 0 {
        (s, seq![])
    } else {
        let (mid, acts) = run(s, events.drop_last());
        let (next, a) = step_spec(mid, events.last());
        (next, acts.push(a))
    }
}

/// A start, then `errors.len()` registrations that fail, each followed by the end of a wait.
pub open spec fn failing_schedule(errors: Seq<Seq<char>>) -> Seq<EventV>
    decreases errors.len(),
{
    if errors.len() == 0 {
        seq![EventV::Started]
    } else {
        failing_schedule(errors.drop_last()) + seq![EventV::Failed(errors.last()), EventV::Elapsed]
    }
}

/// A registration message carries the runner's key, endpoint and labels, and the error of
/// the previous attempt.
pub open spec fn carries(q: RegisterRunnerRequest, reg: RunnerRegistration, last_error: Option<String>) -> bool {
    &&& q.key@ == reg.key@
    &&& q.endpoint@ == reg.endpoint@
    &&& q.labels@.len() == reg.labels@.len()
    &&& forall|i: int| 0 <= i < q.labels@.len() ==> (#[trigger] q.labels@[i]).0@ == reg.labels@[i].0@
        && q.labels@[i].1@ == reg.labels@[i].1@
    &&& match (q.error, last_error) {
        (Some(a), Some(b)) => a@ == b@,
        (None, None) => true,
        _ => false,
    }
}

pub open spec fn initial_loop() -> LoopV {
    LoopV { attempts: 0, consecutive_failures: 0, last_error: None }
}

/// When the registration fails N consecutive times, the loop has issued N + 1 attempts,
/// each failure followed by a wait of the fixed interval, and it is still running.
pub proof fn lemma_registration_retries(errors: Seq<Seq<char>>)
    requires
        errors.len() + 1 <= u64::MAX,
    ensures
        ({
            let (s, acts) = run(initial_loop(), failing_schedule(errors));
            &&& acts.len() == 2 * errors.len() + 1
            &&& forall|k: int| 0 <= k <= errors.len() ==> #[trigger] acts[2 * k] == ActionV::Register
            &&& forall|k: int| 0 <= k < errors.len() ==> #[trigger] acts[2 * k + 1] == ActionV::Wait(REGISTRATION_INTERVAL_SECS)
            &&& s.attempts == errors.len() + 1
            &&& s.consecutive_failures == errors.len()
        }),
    decreases errors.len(),
{
    let sched = failing_schedule(errors);
    if errors.len() == 0 {
        assert(sched.drop_last() =~= Seq::<EventV>::empty());
    } else {
        let rest = errors.drop_last();
        lemma_registration_retries(rest);
        let prev = failing_schedule(rest);
        assert(sched.drop_last() =~= prev.push(EventV::Failed(errors.last())));
        assert(sched.drop_last().drop_last() =~= prev);
        let (s0, a0) = run(initial_loop(), prev);
        let (s1, a1) = run(initial_loop(), sched.drop_last());
        let (s2, a2) = run(initial_loop(), sched);
        assert(a1 == a0.push(ActionV::Wait(REGISTRATION_INTERVAL_SECS)));
        assert(a2 == a1.push(ActionV::Register));
        assert forall|k: int| 0 <= k <= errors.len() implies #[trigger] a2[2 * k] == ActionV::Register by {
            if k < errors.len() {
                assert(a2[2 * k] == a0[2 * k]);
            }
        }
        assert forall|k: int| 0 <= k < errors.len() implies #[trigger] a2[2 * k + 1] == ActionV::Wait(REGISTRATION_INTERVAL_SECS) by {
            if k < rest.len() {
                assert(a2[2 * k + 1] == a0[2 * k + 1]);
            }
        }
    }
}

impl RegistrationLoop {
    pub fn new(registration: RunnerRegistration) -> (r: Self)
        ensures
            r@ == initial_loop(),
            r.registration == registration,
    {
        RegistrationLoop { registration, attempts: 0, consecutive_failures: 0, last_error: None }
    }

    /// The registration message of the next attempt.
    pub fn request(&self) -> (r: RegisterRunnerRequest)
        ensures
            carries(r, self.registration, self.last_error),
    {
        let mut labels: Vec<(String, String)> = Vec::new();
        let mut i: usize = 0;
        while i < self.registration.labels.len()
            invariant
                i <= self.registration.labels@.len(),
                labels@.len() == i,
                forall|j: int| 0 <= j < i ==> (#[trigger] labels@[j]).0@ == self.registration.labels@[j].0@
                    && labels@[j].1@ == self.registration.labels@[j].1@,
            decreases self.registration.labels@.len() - i,
        {
            let (k, v) = &self.registration.labels[i];
            labels.push((k.clone(), v.clone()));
            i = i + 1;
        }
        let error = match &self.last_error {
            Some(e) => Some(e.clone()),
            None => None,
        };
        RegisterRunnerRequest {
            key: self.registration.key.clone(),
            endpoint: self.registration.endpoint.clone(),
            labels,
            error,
        }
    }

    /// Takes one decision.
    pub fn step(&mut self, event: RegistrationEvent) -> (r: RegistrationAction)
        ensures
            (final(self)@, r@) == step_spec(old(self)@, event@),
            final(self).registration == old(self).registration,
            r matches RegistrationAction::Register(q) ==> carries(q, old(self).registration, old(self).last_error),
    {
        match event {
            RegistrationEvent::Started | RegistrationEvent::Elapsed => {
                if self.attempts < u64::MAX {
                    self.attempts = self.attempts + 1;
                }
                RegistrationAction::Register(self.request())
            },
            RegistrationEvent::Registered => {
                self.consecutive_failures = 0;
                self.last_error = None;
                RegistrationAction::Wait(REGISTRATION_INTERVAL_SECS)
            },
            RegistrationEvent::Failed(e) => {
                if self.consecutive_failures < u64::MAX {
                    self.consecutive_failures = self.consecutive_failures + 1;
                }
                self.last_error = Some(e);
                RegistrationAction::Wait(REGISTRATION_INTERVAL_SECS)
            },
        }
    }
}

} // verus!
