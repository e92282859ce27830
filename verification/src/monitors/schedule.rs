//! When a monitor polls, and what it makes of time and replies.
use super::state::{accepted, coverage_failed, ticked, MonitorState, StateView};
use super::{
    Coverage, DefinitionView, Fault, MonitorDefinition, MonitorError, ObservationBatch, ObservationRequest,
};
use crate::recovery::incidents::{signals_of, IncidentSignal, SignalView};
use crate::text::copied;
use vstd::prelude::*;

verus! {

/// The reason recorded when a discovered target's presence changes under an observation.
pub open spec fn invalidated() -> Seq<char> {
    "discovered target absent or presence changed; fresh observation required"@
}

pub open spec fn deadline_elapsed() -> Seq<char> {
    "observation deadline elapsed"@
}

/// An observation call that has not ended.
#[derive(Debug, Clone, Copy, PartialEq, Eq, Structural)]
pub struct Call {
    /// The presence epoch when the call began.
    pub epoch: Option<u64>,
    pub start: u64,
    pub timed_out: bool,
}

/// One monitor's loop. Moments are nanoseconds of a clock that never runs backwards.
pub struct Runner {
    pub state: MonitorState,
    pub observed: Option<u64>,
    pub next_poll: u64,
    pub call: Option<Call>,
}

pub struct RunnerView {
    pub state: StateView,
    pub observed: Option<u64>,
    pub next_poll: u64,
    pub call: Option<Call>,
}

impl View for Runner {
    type V = RunnerView;

    open spec fn view(&self) -> RunnerView {
        RunnerView { state: self.state@, observed: self.observed, next_poll: self.next_poll, call: self.call }
    }
}

pub open spec fn smaller(a: u64, b: u64) -> u64 {
    if a <= b { a } else { b }
}

/// How often a monitor looks at its clocks.
pub open spec fn tick_period(d: DefinitionView) -> u64 {
    smaller(smaller(smaller(d.interval_ms, d.stale_after_ms), d.startup_grace_ms), 250)
}

/// A moment some milliseconds later.
pub open spec fn later_by(now: u64, millis: u64) -> u64 {
    if now + millis * 1000000 <= u64::MAX { (now + millis * 1000000) as u64 } else { u64::MAX }
}

/// The epoch last seen no longer holds.
pub open spec fn epoch_moved(observed: Option<u64>, current: Option<u64>) -> bool {
    observed is Some && current != observed
}

/// A call's epoch no longer holds.
pub open spec fn call_invalid(call: Call, current: Option<u64>) -> bool {
    current != call.epoch || call.epoch is None
}

/// One look at the clocks.
pub open spec fn clocked(r: RunnerView, current: Option<u64>, pending: bool, now: u64) -> (
    RunnerView,
    Seq<SignalView>,
    bool,
) {
    match r.call {
        None => {
            let (state, signals) = if (current is None && !pending) || epoch_moved(r.observed, current) {
                coverage_failed(r.state, invalidated(), Coverage::Unavailable)
            } else {
                ticked(r.state, now)
            };
            (RunnerView { state, observed: current, ..r }, signals, false)
        },
        Some(call) => {
            let cancel = call_invalid(call, current);
            let (state, signals) = if cancel {
                coverage_failed(r.state, invalidated(), Coverage::Unavailable)
            } else {
                ticked(r.state, now)
            };
            (RunnerView { state, ..r }, signals, cancel)
        },
    }
}

/// The reply that counts: one whose epoch held and that came in time.
pub open spec fn counted(call: Call, current: Option<u64>, reply: Result<ObservationBatch, Fault>) -> Result<
    super::BatchView,
    Fault,
> {
    if call_invalid(call, current) {
        Err(Fault::Observation(invalidated()))
    } else if call.timed_out {
        Err(Fault::Observation(deadline_elapsed()))
    } else {
        match reply {
            Ok(batch) => Ok(batch@),
            Err(fault) => Err(fault),
        }
    }
}

/// What a reply leaves: the batch taken in, or coverage lost for the reason it was refused.
#[verifier::opaque]
pub open spec fn replied(s: StateView, reply: Result<super::BatchView, Fault>, waited: u64, now: u64, wall_ms: u64) -> (
    StateView,
    Seq<SignalView>,
) {
    match reply {
        Err(fault) => coverage_failed(s, super::fault_message(fault), Coverage::Unavailable),
        Ok(batch) => {
            let (next, result) = accepted(s, batch, waited, now, wall_ms);
            match result {
                Ok(signals) => (next, signals),
                Err(fault) => coverage_failed(next, super::fault_message(fault), Coverage::Unavailable),
            }
        },
    }
}

/// The end of a call.
pub open spec fn ended(
    r: RunnerView,
    call: Call,
    reply: Result<ObservationBatch, Fault>,
    current: Option<u64>,
    now: u64,
    wall_ms: u64,
) -> (RunnerView, Seq<SignalView>) {
    let (before, first) = if epoch_moved(r.observed, current) {
        coverage_failed(r.state, invalidated(), Coverage::Unavailable)
    } else {
        (r.state, Seq::empty())
    };
    let waited = super::state::elapsed_ms(call.start, now);
    let (state, second) = replied(before, counted(call, current, reply), waited, now, wall_ms);
    (RunnerView { state, observed: current, call: None, ..r }, first + second)
}

pub open spec fn reply_fault(reply: Result<ObservationBatch, MonitorError>) -> Result<ObservationBatch, Fault> {
    match reply {
        Ok(batch) => Ok(batch),
        Err(e) => Err(e@),
    }
}

/// What a monitor does when a poll is due.
pub enum Due {
    /// The engine no longer accepts anything.
    Stop,
    /// The target waits for its first inventory.
    Wait,
    Call(ObservationRequest),
}

fn shorter(a: u64, b: u64) -> (r: u64)
    ensures
        r == smaller(a, b),
{
    if a <= b { a } else { b }
}

pub fn tick_ms(d: &MonitorDefinition) -> (r: u64)
    ensures
        r == tick_period(d@),
{
    shorter(shorter(shorter(d.interval_ms, d.stale_after_ms), d.startup_grace_ms), 250)
}

fn after(now: u64, millis: u64) -> (r: u64)
    ensures
        r == later_by(now, millis),
{
    if millis <= (u64::MAX - now) / 1000000 { now + millis * 1000000 } else { u64::MAX }
}

fn epochs_differ(a: Option<u64>, b: Option<u64>) -> (r: bool)
    ensures
        r == (a != b),
{
    match (a, b) {
        (Some(a), Some(b)) => a != b,
        (None, None) => false,
        _ => true,
    }
}

fn take_in(
    state: &mut MonitorState,
    reply: Result<ObservationBatch, MonitorError>,
    waited: u64,
    now: u64,
    wall_ms: u64,
) -> (r: Vec<IncidentSignal>)
    ensures
        replied(
            old(state)@,
            match reply {
                Ok(batch) => Ok(batch@),
                Err(e) => Err(e@),
            },
            waited,
            now,
            wall_ms,
        ) == (final(state)@, signals_of(r@)),
{
    reveal(replied);
    match reply {
        Ok(batch) => match state.accept(batch, waited, now, wall_ms) {
            Ok(more) => more,
            Err(error) => state.coverage_failure(&error.message(), Coverage::Unavailable),
        },
        Err(error) => state.coverage_failure(&error.message(), Coverage::Unavailable),
    }
}

impl Runner {
    pub fn new(state: MonitorState, epoch: Option<u64>, now: u64) -> (r: Self)
        ensures
            r@ == (RunnerView { state: state@, observed: epoch, next_poll: now, call: None }),
    {
        Runner { state, observed: epoch, next_poll: now, call: None }
    }

    fn invalidate(&mut self) -> (r: Vec<IncidentSignal>)
        ensures
            final(self)@ == (RunnerView {
                state: coverage_failed(old(self)@.state, invalidated(), Coverage::Unavailable).0,
                ..old(self)@
            }),
            signals_of(r@) == coverage_failed(old(self)@.state, invalidated(), Coverage::Unavailable).1,
    {
        self.state.coverage_failure(
            "discovered target absent or presence changed; fresh observation required",
            Coverage::Unavailable,
        )
    }

    /// A look at the clocks: the signals to commit, and whether the call must be cancelled.
    pub fn on_tick(&mut self, current: Option<u64>, pending: bool, now: u64) -> (r: (Vec<IncidentSignal>, bool))
        ensures
            clocked(old(self)@, current, pending, now) == (final(self)@, signals_of(r.0@), r.1),
    {
        match self.call {
            None => {
                let moved = self.observed.is_some() && epochs_differ(current, self.observed);
                let signals = if (current.is_none() && !pending) || moved {
                    self.invalidate()
                } else {
                    self.state.tick(now)
                };
                self.observed = current;
                (signals, false)
            },
            Some(call) => {
                let cancel = epochs_differ(current, call.epoch) || call.epoch.is_none();
                let signals = if cancel { self.invalidate() } else { self.state.tick(now) };
                (signals, cancel)
            },
        }
    }

    /// A poll is due.
    pub fn on_due(&mut self, accepting: bool, pending: bool, epoch: Option<u64>, now: u64) -> (r: Due)
        ensures
            if !accepting {
                r is Stop && final(self)@ == old(self)@
            } else if pending {
                r is Wait && final(self)@ == (RunnerView {
                    next_poll: later_by(now, tick_period(old(self)@.state.config)),
                    ..old(self)@
                })
            } else {
                &&& r is Call
                &&& r->Call_0.extension_id@ == old(self)@.state.config.extension_id
                &&& r->Call_0.contract@ == old(self)@.state.config.contract
                &&& r->Call_0.version == old(self)@.state.config.version
                &&& r->Call_0.method@ == old(self)@.state.config.method
                &&& r->Call_0.params@ == super::state::request_params(old(self)@.state)
                &&& r->Call_0.timeout_ms == old(self)@.state.config.timeout_ms
                &&& final(self)@ == (RunnerView { call: Some(Call { epoch, start: now, timed_out: false }), ..old(self)@ })
            },
    {
        if !accepting {
            return Due::Stop;
        }
        if pending {
            // The freshness and grace clocks go on while the target waits for inventory.
            self.next_poll = after(now, tick_ms(&self.state.config));
            return Due::Wait;
        }
        let request = self.state.request();
        self.call = Some(Call { epoch, start: now, timed_out: false });
        Due::Call(request)
    }

    /// The call's deadline has passed; the call must be cancelled and still awaited.
    pub fn on_deadline(&mut self) -> (r: Vec<IncidentSignal>)
        ensures
            ({
                let (state, signals) = coverage_failed(old(self)@.state, deadline_elapsed(), Coverage::Unavailable);
                &&& signals_of(r@) == signals
                &&& final(self)@ == (RunnerView {
                    state,
                    call: match old(self)@.call {
                        Some(call) => Some(Call { timed_out: true, ..call }),
                        None => None,
                    },
                    ..old(self)@
                })
            }),
    {
        self.call = match self.call {
            Some(call) => Some(Call { epoch: call.epoch, start: call.start, timed_out: true }),
            None => None,
        };
        self.state.coverage_failure("observation deadline elapsed", Coverage::Unavailable)
    }

    /// The call has ended; what it brought is taken in. Nothing happens without a call.
    pub fn on_reply(
        &mut self,
        reply: Result<ObservationBatch, MonitorError>,
        current: Option<u64>,
        now: u64,
        wall_ms: u64,
    ) -> (r: Vec<IncidentSignal>)
        ensures
            match old(self)@.call {
                Some(call) => ended(old(self)@, call, reply_fault(reply), current, now, wall_ms) == (
                    final(self)@,
                    signals_of(r@),
                ),
                None => final(self)@ == old(self)@ && r@.len() == 0,
            },
    {
        let ghost given = reply_fault(reply);
        let mut signals: Vec<IncidentSignal> = Vec::new();
        assert(signals_of(signals@) =~= Seq::<SignalView>::empty());
        let call = match self.call {
            Some(call) => call,
            None => {
                return signals;
            },
        };
        if self.observed.is_some() && epochs_differ(current, self.observed) {
            signals = self.invalidate();
        }
        self.observed = current;
        self.call = None;
        let reply = if epochs_differ(current, call.epoch) || call.epoch.is_none() {
            Err(
                MonitorError::Observation(
                    copied("discovered target absent or presence changed; fresh observation required"),
                ),
            )
        } else if call.timed_out {
            Err(MonitorError::Observation(copied("observation deadline elapsed")))
        } else {
            reply
        };
        let waited: u64 = if now > call.start { (now - call.start) / 1000000 } else { 0 };
        let mut more = take_in(&mut self.state, reply, waited, now, wall_ms);
        let ghost first = signals_of(signals@);
        let ghost second = signals_of(more@);
        signals.append(&mut more);
        assert(signals_of(signals@) =~= first + second);
        signals
    }

    /// The next poll comes one interval after the reply was committed.
    pub fn rest(&mut self, now: u64)
        ensures
            final(self)@ == (RunnerView {
                next_poll: later_by(now, old(self)@.state.config.interval_ms),
                ..old(self)@
            }),
    {
        self.next_poll = after(now, self.state.config.interval_ms);
    }
}

} // verus!
