use vstd::prelude::*;
use crate::blocks::{Block, BlockInstance, GeneratorView, generator_wf, tick_spec};
use crate::clock::now_ns;
use crate::event::{Event, SystemEvent};
use crate::port::{InputPort, OutputPort, Poll, PortError, handed_once};
use std::sync::mpsc::{Receiver, Sender};

verus! {

/// Where a block's execution loop stands.
#[derive(Clone, Copy, Debug, PartialEq, Eq, Structural)]
pub enum Phase {
    AwaitingStart,
    /// Started; `epoch` is the run's time origin.
    Running { epoch: u64 },
    Terminated,
}

/// The phase after one poll of the system port. `Start` counts only while
/// awaiting it; `Stop` and a closed system port end the block from any phase.
pub open spec fn phase_after(phase: Phase, sys: Poll<SystemEvent>) -> Phase {
    match phase {
        Phase::Terminated => Phase::Terminated,
        _ => match sys {
            Poll::Ready(SystemEvent::Stop) => Phase::Terminated,
            Poll::Disconnected => Phase::Terminated,
            Poll::Ready(SystemEvent::Start(epoch)) => match phase {
                Phase::AwaitingStart => Phase::Running { epoch },
                _ => phase,
            },
            Poll::Empty => phase,
        },
    }
}

pub fn next_phase(phase: Phase, sys: &Poll<SystemEvent>) -> (r: Phase)
    ensures
        r == phase_after(phase, *sys),
{
    match phase {
        Phase::Terminated => Phase::Terminated,
        _ => match sys {
            Poll::Ready(SystemEvent::Stop) => Phase::Terminated,
            Poll::Disconnected => Phase::Terminated,
            Poll::Ready(SystemEvent::Start(epoch)) => match phase {
                Phase::AwaitingStart => Phase::Running { epoch: *epoch },
                _ => phase,
            },
            Poll::Empty => phase,
        },
    }
}

/// Every block that awaits its start and is handed the same `Start` runs
/// from the same epoch.
pub proof fn lemma_shared_epoch(phases: Seq<Phase>, epoch: u64)
    requires
        forall|i: int| 0 <= i < phases.len() ==> #[trigger] phases[i] is AwaitingStart,
    ensures
        forall|i: int, j: int|
            0 <= i < phases.len() && 0 <= j < phases.len() ==> #[trigger] phase_after(
                phases[i],
                Poll::Ready(SystemEvent::Start(epoch)),
            ) == #[trigger] phase_after(phases[j], Poll::Ready(SystemEvent::Start(epoch))),
        forall|i: int|
            0 <= i < phases.len() ==> #[trigger] phase_after(
                phases[i],
                Poll::Ready(SystemEvent::Start(epoch)),
            ) == (Phase::Running { epoch }),
{
    assert forall|i: int| 0 <= i < phases.len() implies #[trigger] phase_after(
        phases[i],
        Poll::Ready(SystemEvent::Start(epoch)),
    ) == (Phase::Running { epoch }) by {
        assert(phases[i] is AwaitingStart);
    }
}

/// What one iteration of a block's loop did.
#[derive(Clone, Copy, Debug, PartialEq, Eq, Structural)]
pub enum Activity {
    Idle,
    /// `Start` was observed, with this epoch.
    Started(u64),
    /// The block sent this event on its output.
    Emitted(Event),
    /// The block took this event from its input.
    Logged(Event),
    /// The block has ended.
    Stopped,
}

/// A block's ports, in the order its kind declares them, and its system port.
pub struct BlockPorts {
    pub system_port: InputPort<SystemEvent>,
    pub input_ports: Vec<InputPort<Event>>,
    pub output_ports: Vec<OutputPort>,
}

/// Whether the ports are those the block's kind declares.
pub open spec fn ports_fit(block: BlockInstance, ports: BlockPorts) -> bool {
    match block {
        BlockInstance::EventGenerator(g) => {
            &&& generator_wf(g@)
            &&& ports.input_ports@.len() == 0
            &&& ports.output_ports@.len() == 1
        },
        BlockInstance::LoggingSink(_) => {
            &&& ports.input_ports@.len() == 1
            &&& ports.output_ports@.len() == 0
        },
    }
}

pub open spec fn generator_of(block: BlockInstance) -> Option<GeneratorView> {
    match block {
        BlockInstance::EventGenerator(g) => Some(g@),
        BlockInstance::LoggingSink(_) => None,
    }
}

/// One block with its wired ports, and the state of its execution loop.
pub struct BlockRunner {
    block: BlockInstance,
    ports: BlockPorts,
    phase: Phase,
}

impl BlockRunner {
    pub closed spec fn wf(&self) -> bool {
        &&& ports_fit(self.block, self.ports)
        &&& (self.phase matches Phase::Running { epoch } ==> (generator_of(self.block) matches Some(
            g,
        ) ==> g.initial == epoch))
    }

    pub closed spec fn phase_of(&self) -> Phase {
        self.phase
    }

    pub closed spec fn generator(&self) -> Option<GeneratorView> {
        generator_of(self.block)
    }

    pub closed spec fn name(&self) -> Seq<char> {
        self.block.name()
    }

    pub closed spec fn ports_view(&self) -> (bool, Seq<bool>, Seq<nat>) {
        (
            self.ports.system_port@,
            self.ports.input_ports@.map_values(|p: InputPort<Event>| p@),
            self.ports.output_ports@.map_values(|p: OutputPort| p@.len()),
        )
    }

    /// What each output port's destinations were handed, by port.
    pub closed spec fn output_records(&self) -> Seq<Seq<Seq<(Event, bool)>>> {
        self.ports.output_ports@.map_values(|p: OutputPort| p@)
    }

    pub fn new(block: BlockInstance, ports: BlockPorts) -> (r: BlockRunner)
        requires
            ports_fit(block, ports),
        ensures
            r.wf(),
            r.phase_of() is AwaitingStart,
            r.generator() == generator_of(block),
            r.name() == block.name(),
            r.ports_view() == (
                ports.system_port@,
                ports.input_ports@.map_values(|p: InputPort<Event>| p@),
                ports.output_ports@.map_values(|p: OutputPort| p@.len()),
            ),
    {
        BlockRunner { block, ports, phase: Phase::AwaitingStart }
    }

    /// Adds a destination to output port `p`.
    pub fn connect_output(&mut self, p: usize, sender: Sender<Event>)
        requires
            old(self).wf(),
            p < old(self).ports_view().2.len(),
        ensures
            final(self).wf(),
            final(self).phase_of() == old(self).phase_of(),
            final(self).generator() == old(self).generator(),
            final(self).name() == old(self).name(),
            final(self).ports_view() == (
                old(self).ports_view().0,
                old(self).ports_view().1,
                old(self).ports_view().2.update(p as int, old(self).ports_view().2[p as int] + 1),
            ),
    {
        self.ports.output_ports[p].add_sender(sender);
        assert(self.ports.output_ports@.map_values(|q: OutputPort| q@.len()) =~= old(
            self,
        ).ports_view().2.update(p as int, old(self).ports_view().2[p as int] + 1));
    }

    /// Binds the receiver of input port `p`; refused when it is bound.
    pub fn connect_input(&mut self, p: usize, receiver: Receiver<Event>) -> (r: Result<
        (),
        PortError,
    >)
        requires
            old(self).wf(),
            p < old(self).ports_view().1.len(),
        ensures
            r is Ok <==> !old(self).ports_view().1[p as int],
            final(self).wf(),
            final(self).phase_of() == old(self).phase_of(),
            final(self).generator() == old(self).generator(),
            final(self).name() == old(self).name(),
            final(self).ports_view() == (
                old(self).ports_view().0,
                old(self).ports_view().1.update(p as int, true),
                old(self).ports_view().2,
            ),
    {
        let r = self.ports.input_ports[p].set_receiver(receiver);
        assert(self.ports.input_ports@.map_values(|q: InputPort<Event>| q@) =~= old(
            self,
        ).ports_view().1.update(p as int, true));
        r
    }

    pub fn phase(&self) -> (r: Phase)
        ensures
            r == self.phase_of(),
    {
        self.phase
    }

    pub fn id(&self) -> (r: &str)
        ensures
            r@ == self.name(),
    {
        self.block.id()
    }

    pub fn block(&self) -> (r: &BlockInstance)
        ensures
            r.name() == self.name(),
            generator_of(*r) == self.generator(),
    {
        &self.block
    }

    /// One iteration of the loop, given what the system port gave and the
    /// clock reading. Work is done only while running with no system event
    /// pending; `Stop` ends the block at once, whatever its inputs hold.
    pub fn step(&mut self, sys: Poll<SystemEvent>, now: u64) -> (r: Activity)
        requires
            old(self).wf(),
        ensures
            final(self).wf(),
            final(self).name() == old(self).name(),
            final(self).ports_view() == old(self).ports_view(),
            final(self).phase_of() == phase_after(old(self).phase_of(), sys),
            r is Stopped <==> final(self).phase_of() is Terminated,
            r matches Activity::Emitted(e) ==> handed_once(
                old(self).output_records()[0],
                final(self).output_records()[0],
                e,
            ) && final(self).output_records().len() == old(self).output_records().len(),
            !(r is Emitted) ==> final(self).output_records() == old(self).output_records(),
            sys matches Poll::Ready(SystemEvent::Start(epoch)) ==> (old(
                self,
            ).phase_of() is AwaitingStart ==> {
                &&& r == Activity::Started(epoch)
                &&& (old(self).generator() matches Some(g) ==> final(self).generator() == Some(
                    GeneratorView { initial: epoch as nat, next: epoch as nat, ..g },
                ))
            }),
            old(self).phase_of() is Running && sys is Empty ==> match old(self).generator() {
                Some(g) => {
                    &&& final(self).generator() == Some(tick_spec(g, now as nat).0)
                    &&& r == match tick_spec(g, now as nat).1 {
                        Some(e) => Activity::Emitted(e),
                        None => Activity::Idle,
                    }
                },
                None => final(self).generator() is None && (r is Idle || r is Logged),
            },
            !(final(self).phase_of() is Terminated) && !(old(self).phase_of() is AwaitingStart
                && sys matches Poll::Ready(SystemEvent::Start(_))) && !(old(self).phase_of() is Running
                && sys is Empty) ==> r is Idle && final(self).generator() == old(self).generator(),
    {
        let old_phase = self.phase;
        self.phase = next_phase(old_phase, &sys);
        if let Phase::Terminated = self.phase {
            return Activity::Stopped;
        }
        match (old_phase, sys) {
            (Phase::AwaitingStart, Poll::Ready(SystemEvent::Start(epoch))) => {
                if let BlockInstance::EventGenerator(g) = &mut self.block {
                    g.start(epoch);
                }
                Activity::Started(epoch)
            },
            (Phase::Running { .. }, Poll::Empty) => match &mut self.block {
                BlockInstance::EventGenerator(g) => match g.process(now, &mut self.ports.output_ports[0]) {
                    Some(e) => Activity::Emitted(e),
                    None => Activity::Idle,
                },
                BlockInstance::LoggingSink(s) => match s.process(&self.ports.input_ports[0]) {
                    Some(e) => Activity::Logged(e),
                    None => Activity::Idle,
                },
            },
            _ => Activity::Idle,
        }
    }

    /// One iteration of the loop: polls the system port and reads the clock.
    pub fn iterate(&mut self) -> (r: Activity)
        requires
            old(self).wf(),
        ensures
            final(self).wf(),
            final(self).name() == old(self).name(),
            final(self).ports_view() == old(self).ports_view(),
            r is Stopped <==> final(self).phase_of() is Terminated,
            old(self).phase_of() is Terminated ==> r is Stopped,
            !old(self).ports_view().0 ==> r is Stopped,
            r matches Activity::Emitted(e) ==> handed_once(
                old(self).output_records()[0],
                final(self).output_records()[0],
                e,
            ),
            !(r is Emitted) ==> final(self).output_records() == old(self).output_records(),
    {
        let sys = self.ports.system_port.receive();
        let now = now_ns();
        self.step(sys, now)
    }
}

} // verus!
