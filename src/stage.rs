use vstd::prelude::*;

verus! {

/// Where a stage's loop stands.
#[derive(Debug, Clone, Copy, PartialEq, Eq, Structural)]
pub enum StageState {
    /// Waiting for or processing an item.
    Running,
    /// The inbound side is closed and drained; stage-local partial state is being flushed.
    Draining,
    /// The outbound side is closed and the loop has ended.
    Closed,
}

/// What the stage's loop observed.
#[derive(Debug, Clone, Copy, PartialEq, Eq, Structural)]
pub enum StageEvent {
    /// An item arrived from upstream.
    Received,
    /// Upstream is closed and no item is left.
    InboundClosed,
    /// Stage-local partial state has been handed downstream.
    Flushed,
    /// A send failed because downstream has closed its receiving end.
    DownstreamClosed,
}

/// What the stage's loop does next.
#[derive(Debug, Clone, Copy, PartialEq, Eq, Structural)]
pub enum StageAction {
    /// Transform the item and send it downstream before receiving the next one.
    Forward,
    /// Hand any partial state downstream.
    Flush,
    /// Close the outbound side and end the loop.
    CloseOutbound,
    /// End the loop without reporting a failure.
    Stop,
    /// Nothing to do.
    Wait,
}

/// The transition of a stage's loop on one event.
pub open spec fn stage_transition(state: StageState, event: StageEvent) -> (StageState, StageAction) {
    match (state, event) {
        (StageState::Closed, _) => (StageState::Closed, StageAction::Stop),
        (_, StageEvent::DownstreamClosed) => (StageState::Closed, StageAction::Stop),
        (StageState::Running, StageEvent::Received) => (StageState::Running, StageAction::Forward),
        (StageState::Running, StageEvent::InboundClosed) => (StageState::Draining, StageAction::Flush),
        (StageState::Draining, StageEvent::Flushed) => (StageState::Closed, StageAction::CloseOutbound),
        (s, _) => (s, StageAction::Wait),
    }
}

/// Decides a stage's next state and action from its state and what it observed.
pub fn stage_step(state: StageState, event: StageEvent) -> (r: (StageState, StageAction))
    ensures
        r == stage_transition(state, event),
{
    match (state, event) {
        (StageState::Closed, _) => (StageState::Closed, StageAction::Stop),
        (_, StageEvent::DownstreamClosed) => (StageState::Closed, StageAction::Stop),
        (StageState::Running, StageEvent::Received) => (StageState::Running, StageAction::Forward),
        (StageState::Running, StageEvent::InboundClosed) => (StageState::Draining, StageAction::Flush),
        (StageState::Draining, StageEvent::Flushed) => (StageState::Closed, StageAction::CloseOutbound),
        (s, _) => (s, StageAction::Wait),
    }
}

/// Once closed, a stage stays closed and only stops, whatever it observes.
pub proof fn closed_is_final(event: StageEvent)
    ensures
        stage_transition(StageState::Closed, event) == (StageState::Closed, StageAction::Stop),
{
}

/// A closed downstream ends every stage quietly: the stage stops and reports no failure.
pub proof fn downstream_close_stops(state: StageState)
    ensures
        stage_transition(state, StageEvent::DownstreamClosed) == (
            StageState::Closed,
            StageAction::Stop,
        ),
{
}

/// The numbers `start..=end`, handed out one at a time in increasing order.
#[derive(Debug)]
pub struct NumberRange {
    next: u32,
    end: u32,
    exhausted: bool,
}

impl NumberRange {
    /// The numbers still to come.
    pub closed spec fn view(&self) -> Seq<u32> {
        if self.exhausted || self.next > self.end {
            Seq::empty()
        } else {
            Seq::new((self.end - self.next + 1) as nat, |i: int| (self.next + i) as u32)
        }
    }

    /// The range `start..=end`; empty where `start > end`.
    pub fn new(start: u32, end: u32) -> (r: NumberRange)
        ensures
            r@ == (if start <= end {
                Seq::new((end - start + 1) as nat, |i: int| (start + i) as u32)
            } else {
                Seq::empty()
            }),
    {
        NumberRange { next: start, end, exhausted: false }
    }

    /// The next number, or `None` once all were handed out.
    pub fn next_number(&mut self) -> (r: Option<u32>)
        ensures
            old(self)@.len() == 0 ==> r is None && final(self)@.len() == 0,
            old(self)@.len() > 0 ==> r == Some(old(self)@[0]) && final(self)@ == old(self)@.drop_first(),
    {
        if self.exhausted || self.next > self.end {
            return None;
        }
        let n = self.next;
        if n == self.end {
            self.exhausted = true;
        } else {
            self.next = n + 1;
        }
        proof {
            assert(final(self)@ =~= old(self)@.drop_first());
        }
        Some(n)
    }
}

/// The square of a number, widened so that it cannot overflow.
pub fn square(message: u32) -> (r: u64)
    ensures
        r == message as int * message as int,
{
    let m = message as u64;
    assert(m * m <= u32::MAX as int * u32::MAX as int) by (nonlinear_arith)
        requires
            m <= u32::MAX,
    ;
    m * m
}

/// The numbers that producer `worker_id` of many sends: `id * size ..= (id + 1) * size`.
pub fn worker_range(worker_id: u32, chunk_size: u32) -> (r: (u32, u32))
    requires
        (worker_id as int + 1) * chunk_size as int <= u32::MAX,
    ensures
        r.0 == worker_id as int * chunk_size as int,
        r.1 == (worker_id as int + 1) * chunk_size as int,
{
    let id = worker_id as u64;
    let size = chunk_size as u64;
    assert(id * size <= (id + 1) * size <= u32::MAX) by (nonlinear_arith)
        requires
            (id + 1) * size <= u32::MAX,
    ;
    let start = id * size;
    let end = (id + 1) * size;
    (start as u32, end as u32)
}

} // verus!
