use vstd::prelude::*;
use crate::event::{Event, EventType};
use crate::graph::{
    BuildError, BuildFault, ModelDefBlock, ModelDefBlockConfig,
    ModelDefEventGeneratorConfiguration, NANOS_PER_KILOSECOND, valid_config,
};
use crate::port::{InputPort, OutputPort, Poll, handed_once};

verus! {

/// The capabilities every block kind offers.
pub trait Block {
    spec fn name(&self) -> Seq<char>;

    fn id(&self) -> (r: &str)
        ensures
            r@ == self.name(),
    ;

    /// Hook run once before the block's execution context starts.
    fn init(&self);

    /// Hook run once after every execution context has finished.
    fn shutdown(&self);
}

/// What a generator's timing is, in nanoseconds: its period, the epoch it
/// measures from, and the instant of its next emission.
pub struct GeneratorView {
    pub event_type: EventType,
    pub period: nat,
    pub initial: nat,
    pub next: nat,
}

pub open spec fn generator_wf(g: GeneratorView) -> bool {
    &&& 1 <= g.period
    &&& g.initial <= g.next <= u64::MAX
}

/// An emission is due once the clock has reached the next instant (and the
/// instant after it can still be counted).
pub open spec fn is_due(g: GeneratorView, now: nat) -> bool {
    now >= g.next && g.next + g.period <= u64::MAX
}

/// One work unit of a generator: at most one event, stamped with its
/// scheduled instant, after which the schedule moves on by exactly one period.
pub open spec fn tick_spec(g: GeneratorView, now: nat) -> (GeneratorView, Option<Event>) {
    if is_due(g, now) {
        (
            GeneratorView { next: g.next + g.period, ..g },
            Some(Event { timestamp: (g.next - g.initial) as u64, event_type: g.event_type }),
        )
    } else {
        (g, None)
    }
}

/// A source block that emits one event per period on its output port.
pub struct EventGenerator {
    id: String,
    event_type: EventType,
    period_ns: u64,
    initial_instant: u64,
    next_instant: u64,
}

impl View for EventGenerator {
    type V = GeneratorView;

    closed spec fn view(&self) -> GeneratorView {
        GeneratorView {
            event_type: self.event_type,
            period: self.period_ns as nat,
            initial: self.initial_instant as nat,
            next: self.next_instant as nat,
        }
    }
}

impl Block for EventGenerator {
    closed spec fn name(&self) -> Seq<char> {
        self.id@
    }

    fn id(&self) -> (r: &str) {
        self.id.as_str()
    }

    fn init(&self) {
    }

    fn shutdown(&self) {
    }
}

impl EventGenerator {
    /// A generator of `config.frequency_millihertz` events per thousand
    /// seconds, with period `NANOS_PER_KILOSECOND / frequency_millihertz`
    /// nanoseconds; refused when that is no whole, positive number.
    pub fn new(id: String, config: &ModelDefEventGeneratorConfiguration) -> (r: Result<
        EventGenerator,
        BuildError,
    >)
        ensures
            r is Ok <==> 1 <= config.frequency_millihertz <= NANOS_PER_KILOSECOND,
            r matches Ok(g) ==> {
                &&& g.name() == id@
                &&& g@ == GeneratorView {
                    event_type: config.event_type,
                    period: (NANOS_PER_KILOSECOND / config.frequency_millihertz) as nat,
                    initial: 0,
                    next: 0,
                }
                &&& generator_wf(g@)
            },
            r matches Err(e) ==> e@ == BuildFault::InvalidConfiguration(id@),
    {
        if config.frequency_millihertz < 1 || config.frequency_millihertz > NANOS_PER_KILOSECOND {
            return Err(BuildError::InvalidConfiguration { block: id });
        }
        let period_ns = NANOS_PER_KILOSECOND / config.frequency_millihertz;
        assert(period_ns >= 1) by (nonlinear_arith)
            requires
                period_ns == 1_000_000_000_000u64 / config.frequency_millihertz,
                1 <= config.frequency_millihertz <= 1_000_000_000_000u64,
        ;
        Ok(
            EventGenerator {
                id,
                event_type: config.event_type,
                period_ns,
                initial_instant: 0,
                next_instant: 0,
            },
        )
    }

    /// Records the epoch: the first emission is due at once.
    pub fn start(&mut self, epoch: u64)
        ensures
            final(self).name() == old(self).name(),
            final(self)@ == (GeneratorView { initial: epoch as nat, next: epoch as nat, ..old(self)@ }),
    {
        self.initial_instant = epoch;
        self.next_instant = epoch;
    }

    pub fn period_ns(&self) -> (r: u64)
        ensures
            r == self@.period,
    {
        self.period_ns
    }

    /// One work unit at clock reading `now`: the event due, if any.
    pub fn tick(&mut self, now: u64) -> (r: Option<Event>)
        requires
            generator_wf(old(self)@),
        ensures
            generator_wf(final(self)@),
            final(self).name() == old(self).name(),
            (final(self)@, r) == tick_spec(old(self)@, now as nat),
    {
        if now >= self.next_instant && self.period_ns <= u64::MAX - self.next_instant {
            let event = Event::new(self.next_instant - self.initial_instant, self.event_type);
            self.next_instant = self.next_instant + self.period_ns;
            Some(event)
        } else {
            None
        }
    }

    /// One work unit: sends the event due, if any, on `out`.
    pub fn process(&mut self, now: u64, out: &mut OutputPort) -> (r: Option<Event>)
        requires
            generator_wf(old(self)@),
        ensures
            generator_wf(final(self)@),
            final(self).name() == old(self).name(),
            (final(self)@, r) == tick_spec(old(self)@, now as nat),
            final(out).destinations() == old(out).destinations(),
            match r {
                Some(e) => handed_once(old(out)@, final(out)@, e),
                None => final(out)@ == old(out)@,
            },
    {
        let r = self.tick(now);
        if let Some(event) = r {
            out.send(event);
        }
        r
    }
}

/// A sink block that records every event reaching its input port.
pub struct LoggingSink {
    id: String,
}

impl Block for LoggingSink {
    closed spec fn name(&self) -> Seq<char> {
        self.id@
    }

    fn id(&self) -> (r: &str) {
        self.id.as_str()
    }

    fn init(&self) {
    }

    fn shutdown(&self) {
    }
}

impl LoggingSink {
    pub fn new(id: String) -> (r: LoggingSink)
        ensures
            r.name() == id@,
    {
        LoggingSink { id }
    }

    /// What one poll of the input gives to record: the event, if one came.
    /// `Empty` and `Disconnected` are both quiet.
    pub fn record(&self, polled: Poll<Event>) -> (r: Option<Event>)
        ensures
            polled matches Poll::Ready(e) ==> r == Some(e),
            !(polled is Ready) ==> r is None,
    {
        match polled {
            Poll::Ready(e) => Some(e),
            _ => None,
        }
    }

    /// One work unit: one non-blocking poll of `input`.
    pub fn process(&self, input: &InputPort<Event>) -> (r: Option<Event>)
        ensures
            !input@ ==> r is None,
    {
        self.record(input.receive())
    }
}

/// A block of one of the known kinds.
pub enum BlockInstance {
    EventGenerator(EventGenerator),
    LoggingSink(LoggingSink),
}

impl Block for BlockInstance {
    open spec fn name(&self) -> Seq<char> {
        match self {
            BlockInstance::EventGenerator(g) => g.name(),
            BlockInstance::LoggingSink(s) => s.name(),
        }
    }

    fn id(&self) -> (r: &str) {
        match self {
            BlockInstance::EventGenerator(g) => g.id(),
            BlockInstance::LoggingSink(s) => s.id(),
        }
    }

    fn init(&self) {
        match self {
            BlockInstance::EventGenerator(g) => g.init(),
            BlockInstance::LoggingSink(s) => s.init(),
        }
    }

    fn shutdown(&self) {
        match self {
            BlockInstance::EventGenerator(g) => g.shutdown(),
            BlockInstance::LoggingSink(s) => s.shutdown(),
        }
    }
}

/// Whether a block is of the kind a configuration asks for, freshly made.
pub open spec fn built_from(b: BlockInstance, c: ModelDefBlockConfig) -> bool {
    match (b, c) {
        (BlockInstance::EventGenerator(g), ModelDefBlockConfig::EventGenerator(gc)) => {
            &&& g@ == GeneratorView {
                event_type: gc.event_type,
                period: (NANOS_PER_KILOSECOND / gc.frequency_millihertz) as nat,
                initial: 0,
                next: 0,
            }
            &&& generator_wf(g@)
        },
        (BlockInstance::LoggingSink(_), ModelDefBlockConfig::LoggingSink) => true,
        _ => false,
    }
}

/// Makes the block that a definition describes.
pub fn build_block(def: &ModelDefBlock) -> (r: Result<BlockInstance, BuildError>)
    ensures
        r is Ok <==> valid_config(def.configuration),
        r matches Ok(b) ==> b.name() == def.id@ && built_from(b, def.configuration),
        r matches Err(e) ==> e@ == BuildFault::InvalidConfiguration(def.id@),
{
    let id = def.id.clone();
    match &def.configuration {
        ModelDefBlockConfig::EventGenerator(config) => match EventGenerator::new(id, config) {
            Ok(g) => Ok(BlockInstance::EventGenerator(g)),
            Err(e) => Err(e),
        },
        ModelDefBlockConfig::LoggingSink => Ok(BlockInstance::LoggingSink(LoggingSink::new(id))),
    }
}

/// A generator's timing after a series of clock readings, one work unit
/// each, and the events it emitted, in order.
pub open spec fn run_ticks(g: GeneratorView, nows: Seq<nat>) -> (GeneratorView, Seq<Event>)
    decreases nows.len(),
{
    if nows.len() == 0 {
        (g, seq![])
    } else {
        let before = run_ticks(g, nows.drop_last());
        let after = tick_spec(before.0, nows.last());
        (
            after.0,
            match after.1 {
                Some(e) => before.1.push(e),
                None => before.1,
            },
        )
    }
}

/// Emission is phase-locked to the epoch: started at epoch `g.initial`, the
/// k-th event of any series of work units is stamped exactly k periods after
/// the epoch, so successive stamps differ by exactly one period, whatever the
/// clock readings were. And when no reading is more than `t` after the epoch,
/// at most `t / period + 1` events are emitted.
pub proof fn lemma_phase_locked(g: GeneratorView, nows: Seq<nat>, t: nat)
    requires
        generator_wf(g),
        g.next == g.initial,
        forall|i: int| 0 <= i < nows.len() ==> #[trigger] nows[i] <= g.initial + t,
    ensures
        ({
            let (h, out) = run_ticks(g, nows);
            &&& generator_wf(h)
            &&& h.initial == g.initial
            &&& h.period == g.period
            &&& h.event_type == g.event_type
            &&& h.next == g.initial + out.len() * g.period
            &&& forall|k: int| 0 <= k < out.len() ==> (#[trigger] out[k]).timestamp == k * g.period
            &&& forall|k: int|
                0 <= k < out.len() ==> (#[trigger] out[k]).event_type == g.event_type
            &&& out.len() <= t / g.period + 1
        }),
    decreases nows.len(),
{
    let p = g.period;
    if nows.len() == 0 {
        assert(0 <= t / p) by (nonlinear_arith)
            requires
                p >= 1,
        ;
    } else {
        let rest = nows.drop_last();
        assert forall|i: int| 0 <= i < rest.len() implies #[trigger] rest[i] <= g.initial + t by {
            assert(rest[i] == nows[i]);
        }
        lemma_phase_locked(g, rest, t);
        let (h, out) = run_ticks(g, rest);
        let now = nows.last();
        assert(now == nows[nows.len() - 1]);
        if is_due(h, now) {
            let len = out.len();
            assert((len + 1) * p == len * p + p) by (nonlinear_arith);
            vstd::arithmetic::div_mod::lemma_fundamental_div_mod(t as int, p as int);
            vstd::arithmetic::div_mod::lemma_mod_bound(t as int, p as int);
            assert(len <= t / p) by (nonlinear_arith)
                requires
                    len * p <= t,
                    p >= 1,
                    t == p * (t / p) + t % p,
                    0 <= t % p < p,
            {
                if len > t / p {
                    assert(len * p >= (t / p + 1) * p);
                }
            }
            let out2 = run_ticks(g, nows).1;
            assert(out2 == out.push(tick_spec(h, now).1->Some_0));
            assert forall|k: int| 0 <= k < out2.len() implies (#[trigger] out2[k]).timestamp == k * p
                && out2[k].event_type == g.event_type by {
                if k < len {
                    assert(out2[k] == out[k]);
                }
            }
        }
    }
}

/// Readings that start less than a period after the epoch and never leave a
/// gap of a full period keep the schedule ahead of the clock.
proof fn lemma_dense_keeps_up(g: GeneratorView, nows: Seq<nat>, t: nat)
    requires
        generator_wf(g),
        g.next == g.initial,
        g.initial + t + g.period <= u64::MAX,
        nows.len() > 0,
        nows[0] < g.initial + g.period,
        forall|i: int| 0 <= i < nows.len() ==> #[trigger] nows[i] <= g.initial + t,
        forall|i: int| 0 < i < nows.len() ==> #[trigger] nows[i] < nows[i - 1] + g.period,
    ensures
        run_ticks(g, nows).0.next > nows.last(),
        run_ticks(g, nows).0.period == g.period,
    decreases nows.len(),
{
    let rest = nows.drop_last();
    let now = nows.last();
    if rest.len() == 0 {
        assert(run_ticks(g, rest).0 == g);
    } else {
        assert forall|i: int| 0 <= i < rest.len() implies #[trigger] rest[i] <= g.initial + t by {
            assert(rest[i] == nows[i]);
        }
        assert forall|i: int| 0 < i < rest.len() implies #[trigger] rest[i] < rest[i - 1] + g.period by {
            assert(rest[i] == nows[i] && rest[i - 1] == nows[i - 1]);
        }
        lemma_dense_keeps_up(g, rest, t);
        assert(nows[nows.len() - 1] < nows[nows.len() - 2] + g.period);
        assert(rest.last() == nows[nows.len() - 2]);
    }
    lemma_phase_locked(g, rest, t);
    assert(now == nows[nows.len() - 1]);
}

/// Over readings that start less than a period after the epoch, never leave
/// a gap of a full period, and end `t` after the epoch, a generator emits
/// exactly `t / period + 1` events: one at the epoch and one per whole period.
pub proof fn lemma_dense_count(g: GeneratorView, nows: Seq<nat>, t: nat)
    requires
        generator_wf(g),
        g.next == g.initial,
        g.initial + t + g.period <= u64::MAX,
        nows.len() > 0,
        nows[0] < g.initial + g.period,
        forall|i: int| 0 <= i < nows.len() ==> #[trigger] nows[i] <= g.initial + t,
        forall|i: int| 0 < i < nows.len() ==> #[trigger] nows[i] < nows[i - 1] + g.period,
        nows.last() == g.initial + t,
    ensures
        run_ticks(g, nows).1.len() == t / g.period + 1,
{
    lemma_dense_keeps_up(g, nows, t);
    lemma_phase_locked(g, nows, t);
    let len = run_ticks(g, nows).1.len();
    let p = g.period;
    vstd::arithmetic::div_mod::lemma_fundamental_div_mod(t as int, p as int);
    vstd::arithmetic::div_mod::lemma_mod_bound(t as int, p as int);
    assert(len >= t / p + 1) by (nonlinear_arith)
        requires
            len * p > t,
            p >= 1,
            t == p * (t / p) + t % p,
            0 <= t % p,
    {
        if len < t / p + 1 {
            assert(len * p <= (t / p) * p);
        }
    }
}

} // verus!
