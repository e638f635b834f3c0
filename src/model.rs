use vstd::prelude::*;
use std::sync::mpsc::Sender;
use crate::blocks::{Block, GeneratorView, build_block};
use crate::clock::now_ns;
use crate::event::{Event, SystemEvent};
use crate::graph::{
    BuildError, BuildFault, Link, ModelDef, ModelDefBlock, ModelDefBlockConfig, NANOS_PER_KILOSECOND,
    block_ids, build_outcome, declared_inputs, declared_outputs, endpoint_pairs, first_invalid,
    input_names, lemma_position_found, lemma_wiring_ok, output_names, plan_links, position,
    resolves_to,
    targeted, valid_config, wiring,
};
use crate::port::{
    Destination, InputPort, OutputPort, channel, hand_to_all, handed_once, records_of, senders_of,
    taken_count,
};
use crate::runner::{BlockPorts, BlockRunner};

verus! {

/// How many links leave output port `p` of block `b`.
pub open spec fn fan(links: Seq<Link>, b: int, p: int) -> nat
    decreases links.len(),
{
    if links.len() == 0 {
        0
    } else {
        fan(links.drop_last(), b, p) + if links.last().from_block == b && links.last().from_port
            == p {
            1nat
        } else {
            0nat
        }
    }
}

/// The timing a freshly made block of this kind has, if it is a generator.
pub open spec fn generator_for(c: ModelDefBlockConfig) -> Option<GeneratorView> {
    match c {
        ModelDefBlockConfig::EventGenerator(gc) => Some(
            GeneratorView {
                event_type: gc.event_type,
                period: (NANOS_PER_KILOSECOND / gc.frequency_millihertz) as nat,
                initial: 0,
                next: 0,
            },
        ),
        ModelDefBlockConfig::LoggingSink => None,
    }
}

/// Block `b` awaits its start, with a bound system port, the ports its kind
/// declares, each input bound exactly when a link targets it, and one
/// destination on each output per link that leaves it.
pub open spec fn runner_wired(r: BlockRunner, def: ModelDefBlock, links: Seq<Link>, b: int) -> bool {
    let v = r.ports_view();
    &&& r.wf()
    &&& r.phase_of() is AwaitingStart
    &&& r.name() == def.id@
    &&& r.generator() == generator_for(def.configuration)
    &&& v.0
    &&& v.1.len() == input_names(def.configuration).len()
    &&& v.2.len() == output_names(def.configuration).len()
    &&& forall|p: int| 0 <= p < v.1.len() ==> v.1[p] == targeted(links, b, p)
    &&& forall|p: int| 0 <= p < v.2.len() ==> v.2[p] == fan(links, b, p)
}

/// The blocks of one run, wired, and the senders of their system ports.
pub struct Model {
    runners: Vec<BlockRunner>,
    system_channels: Vec<Destination<SystemEvent>>,
}

proof fn lemma_all_valid(blocks: Seq<ModelDefBlock>, k: int)
    requires
        0 <= k,
        first_invalid(blocks, k) is None,
    ensures
        forall|i: int| k <= i < blocks.len() ==> valid_config(#[trigger] blocks[i].configuration),
    decreases blocks.len() - k,
{
    if k < blocks.len() {
        lemma_all_valid(blocks, k + 1);
    }
}

fn fresh_ports(c: &ModelDefBlockConfig) -> (r: (Vec<InputPort<Event>>, Vec<OutputPort>))
    ensures
        r.0@.len() == input_names(*c).len(),
        r.1@.len() == output_names(*c).len(),
        forall|p: int| 0 <= p < r.0@.len() ==> !(#[trigger] r.0@[p])@,
        forall|p: int| 0 <= p < r.1@.len() ==> (#[trigger] r.1@[p])@.len() == 0,
{
    let n_in = declared_inputs(c).len();
    let n_out = declared_outputs(c).len();
    let mut inputs: Vec<InputPort<Event>> = Vec::new();
    let mut i: usize = 0;
    while i < n_in
        invariant
            i <= n_in,
            inputs@.len() == i,
            forall|p: int| 0 <= p < inputs@.len() ==> !(#[trigger] inputs@[p])@,
        decreases n_in - i,
    {
        inputs.push(InputPort::new());
        i = i + 1;
    }
    let mut outputs: Vec<OutputPort> = Vec::new();
    let mut o: usize = 0;
    while o < n_out
        invariant
            o <= n_out,
            outputs@.len() == o,
            forall|p: int| 0 <= p < outputs@.len() ==> (#[trigger] outputs@[p])@.len() == 0,
        decreases n_out - o,
    {
        outputs.push(OutputPort::new());
        o = o + 1;
    }
    (inputs, outputs)
}

impl Model {
    pub closed spec fn runners_view(&self) -> Seq<BlockRunner> {
        self.runners@
    }

    pub closed spec fn system_count(&self) -> nat {
        self.system_channels@.len()
    }

    /// Makes every block, then wires every connection; fails, with nothing
    /// made, on the first invalid configuration or unresolvable connection.
    pub fn new(model_def: ModelDef) -> (r: Result<Model, BuildError>)
        ensures
            r is Ok <==> build_outcome(model_def) is Ok,
            r matches Err(e) ==> build_outcome(model_def) == Err::<Seq<Link>, BuildFault>(e@),
            r matches Ok(m) ==> {
                &&& m.runners_view().len() == model_def.blocks@.len()
                &&& m.system_count() == model_def.blocks@.len()
                &&& forall|b: int|
                    0 <= b < model_def.blocks@.len() ==> runner_wired(
                        #[trigger] m.runners_view()[b],
                        model_def.blocks@[b],
                        build_outcome(model_def)->Ok_0,
                        b,
                    )
            },
    {
        let links = match plan_links(&model_def) {
            Ok(links) => links,
            Err(e) => {
                return Err(e);
            },
        };
        let ghost blocks = model_def.blocks@;
        let ghost pairs = endpoint_pairs(model_def.connections@);
        let n = model_def.blocks.len();
        proof {
            lemma_all_valid(blocks, 0);
            lemma_wiring_ok(blocks, pairs);
        }
        let mut runners: Vec<BlockRunner> = Vec::new();
        let mut system_channels: Vec<Destination<SystemEvent>> = Vec::new();
        let mut b: usize = 0;
        while b < n
            invariant
                n == blocks.len(),
                blocks == model_def.blocks@,
                b <= n,
                runners@.len() == b,
                system_channels@.len() == b,
                forall|i: int| 0 <= i < blocks.len() ==> valid_config(#[trigger] blocks[i].configuration),
                forall|i: int| 0 <= i < b ==> runner_wired(#[trigger] runners@[i], blocks[i], seq![], i),
            decreases n - b,
        {
            let def = &model_def.blocks[b];
            let block = match build_block(def) {
                Ok(block) => block,
                Err(e) => {
                    assert(valid_config(blocks[b as int].configuration));
                    return Err(e);
                },
            };
            let (input_ports, output_ports) = fresh_ports(&def.configuration);
            let (tx, rx) = channel();
            let mut system_port = InputPort::new();
            let _ = system_port.set_receiver(rx);
            system_channels.push(Destination::new(tx));
            let ports = BlockPorts { system_port, input_ports, output_ports };
            let runner = BlockRunner::new(block, ports);
            proof {
                let v = runner.ports_view();
                assert forall|p: int| 0 <= p < v.1.len() implies v.1[p] == targeted(seq![], b as int, p) by {
                    assert(!ports.input_ports@[p]@);
                }
                assert forall|p: int| 0 <= p < v.2.len() implies v.2[p] == fan(seq![], b as int, p) by {
                    assert(ports.output_ports@[p]@.len() == 0);
                }
            }
            runners.push(runner);
            b = b + 1;
        }
        let ghost all = links@;
        let mut k: usize = 0;
        while k < links.len()
            invariant
                n == blocks.len(),
                blocks == model_def.blocks@,
                all == links@,
                build_outcome(model_def) == Ok::<Seq<Link>, BuildFault>(all),
                wiring(blocks, pairs) == Ok::<Seq<Link>, BuildFault>(all),
                all.len() == pairs.len(),
                forall|j: int| 0 <= j < all.len() ==> resolves_to(blocks, #[trigger] pairs[j], all[j]),
                forall|i: int, j: int|
                    0 <= i < j < all.len() ==> !(all[i].to_block == all[j].to_block
                        && all[i].to_port == all[j].to_port),
                k <= all.len(),
                runners@.len() == n,
                system_channels@.len() == n,
                forall|i: int|
                    0 <= i < n ==> runner_wired(#[trigger] runners@[i], blocks[i], all.take(k as int), i),
            decreases all.len() - k,
        {
            let l = links[k];
            proof {
                assert(resolves_to(blocks, pairs[k as int], all[k as int]));
                lemma_position_found(block_ids(blocks), pairs[k as int].0.0, 0);
                lemma_position_found(block_ids(blocks), pairs[k as int].1.0, 0);
                lemma_position_found(
                    output_names(blocks[l.from_block as int].configuration),
                    pairs[k as int].0.1,
                    0,
                );
                lemma_position_found(
                    input_names(blocks[l.to_block as int].configuration),
                    pairs[k as int].1.1,
                    0,
                );
                assert(runner_wired(runners@[l.from_block as int], blocks[l.from_block as int], all.take(k as int), l.from_block as int));
                assert(runner_wired(runners@[l.to_block as int], blocks[l.to_block as int], all.take(k as int), l.to_block as int));
                assert(!targeted(all.take(k as int), l.to_block as int, l.to_port as int));
            }
            let ghost before = runners@;
            let (tx, rx) = channel();
            runners[l.from_block].connect_output(l.from_port, tx);
            let bound = runners[l.to_block].connect_input(l.to_port, rx);
            assert(bound is Ok);
            proof {
                let next = all.take(k + 1);
                assert(next.drop_last() =~= all.take(k as int));
                assert forall|i: int| 0 <= i < n implies runner_wired(#[trigger] runners@[i], blocks[i], next, i) by {
                    assert(runner_wired(before[i], blocks[i], all.take(k as int), i));
                    let v = runners@[i].ports_view();
                    assert forall|p: int| 0 <= p < v.1.len() implies v.1[p] == targeted(next, i, p) by {
                        if targeted(all.take(k as int), i, p) {
                            let w = choose|w: int| 0 <= w < all.take(k as int).len() && all.take(k as int)[w].to_block == i && all.take(k as int)[w].to_port == p;
                            assert(next[w] == all.take(k as int)[w]);
                        }
                        if i == l.to_block && p == l.to_port {
                            assert(next[k as int] == l);
                        }
                        if targeted(next, i, p) && !(i == l.to_block && p == l.to_port) {
                            let w = choose|w: int| 0 <= w < next.len() && next[w].to_block == i && next[w].to_port == p;
                            assert(all.take(k as int)[w] == next[w]);
                        }
                    }
                }
            }
            k = k + 1;
        }
        assert(all.take(k as int) =~= all);
        Ok(Model { runners, system_channels })
    }

    /// Runs every block's `init` hook.
    pub fn init_blocks(&self) {
        let mut i: usize = 0;
        while i < self.runners.len()
            invariant
                i <= self.runners@.len(),
            decreases self.runners@.len() - i,
        {
            self.runners[i].block().init();
            i = i + 1;
        }
    }

    /// Hands the wired blocks over, in definition order, to be run each in
    /// its own execution context; the model keeps their system senders.
    pub fn take_runners(&mut self) -> (r: Vec<BlockRunner>)
        ensures
            r@ == old(self).runners_view(),
            final(self).runners_view().len() == 0,
            final(self).system_count() == old(self).system_count(),
    {
        let mut r: Vec<BlockRunner> = Vec::new();
        std::mem::swap(&mut r, &mut self.runners);
        r
    }

    /// What each block's system sender was handed, in block order.
    pub closed spec fn system_records(&self) -> Seq<Seq<(SystemEvent, bool)>> {
        records_of(self.system_channels@)
    }

    pub closed spec fn system_senders(&self) -> Seq<Sender<SystemEvent>> {
        senders_of(self.system_channels@)
    }

    /// Reads the clock once and hands `Start` with that one epoch to every
    /// block's system sender; returns the epoch.
    pub fn send_start_events(&mut self) -> (epoch: u64)
        ensures
            handed_once(old(self).system_records(), final(self).system_records(), SystemEvent::Start(epoch)),
            final(self).system_senders() == old(self).system_senders(),
            final(self).runners_view() == old(self).runners_view(),
    {
        let epoch = now_ns();
        hand_to_all(&mut self.system_channels, SystemEvent::Start(epoch));
        epoch
    }

    /// Hands `Stop` to every block's system sender; returns how many took it.
    pub fn send_stop_events(&mut self) -> (r: usize)
        ensures
            handed_once(old(self).system_records(), final(self).system_records(), SystemEvent::Stop),
            r == taken_count(final(self).system_records()),
            final(self).system_senders() == old(self).system_senders(),
            final(self).runners_view() == old(self).runners_view(),
    {
        hand_to_all(&mut self.system_channels, SystemEvent::Stop)
    }

    /// Drops the system senders: a block still running then sees its system
    /// port closed.
    pub fn close_system_channels(&mut self)
        ensures
            final(self).system_count() == 0,
            final(self).runners_view() == old(self).runners_view(),
    {
        self.system_channels = Vec::new();
    }

    pub fn block_count(&self) -> (r: usize)
        ensures
            r == self.runners_view().len(),
    {
        self.runners.len()
    }
}

proof fn lemma_fan_positive(links: Seq<Link>, k: int)
    requires
        0 <= k < links.len(),
    ensures
        fan(links, links[k].from_block as int, links[k].from_port as int) >= 1,
    decreases links.len(),
{
    if k < links.len() - 1 {
        lemma_fan_positive(links.drop_last(), k);
        assert(links.drop_last()[k] == links[k]);
    }
}

/// Wiring is complete: once a definition is built and its blocks wired, for
/// every (source, target) pair of its connections, the input port the target
/// names is bound and the output port the source names has a destination.
pub proof fn lemma_targets_bound(def: ModelDef, runners: Seq<BlockRunner>)
    requires
        def.blocks@.len() <= usize::MAX,
        build_outcome(def) is Ok,
        runners.len() == def.blocks@.len(),
        forall|b: int|
            0 <= b < runners.len() ==> runner_wired(
                #[trigger] runners[b],
                def.blocks@[b],
                build_outcome(def)->Ok_0,
                b,
            ),
    ensures
        forall|k: int|
            0 <= k < endpoint_pairs(def.connections@).len() ==> {
                let pair = #[trigger] endpoint_pairs(def.connections@)[k];
                let fb = position(block_ids(def.blocks@), pair.0.0, 0)->0;
                let fp = position(output_names(def.blocks@[fb].configuration), pair.0.1, 0)->0;
                let tb = position(block_ids(def.blocks@), pair.1.0, 0)->0;
                let tp = position(input_names(def.blocks@[tb].configuration), pair.1.1, 0)->0;
                &&& 0 <= fb < runners.len()
                &&& 0 <= fp < runners[fb].ports_view().2.len()
                &&& runners[fb].ports_view().2[fp] >= 1
                &&& 0 <= tb < runners.len()
                &&& 0 <= tp < runners[tb].ports_view().1.len()
                &&& runners[tb].ports_view().1[tp]
            },
{
    let blocks = def.blocks@;
    let pairs = endpoint_pairs(def.connections@);
    let links = build_outcome(def)->Ok_0;
    lemma_wiring_ok(blocks, pairs);
    assert forall|k: int| 0 <= k < pairs.len() implies {
        let pair = #[trigger] pairs[k];
        let fb = position(block_ids(blocks), pair.0.0, 0)->0;
        let fp = position(output_names(blocks[fb].configuration), pair.0.1, 0)->0;
        let tb = position(block_ids(blocks), pair.1.0, 0)->0;
        let tp = position(input_names(blocks[tb].configuration), pair.1.1, 0)->0;
        &&& 0 <= fb < runners.len()
        &&& 0 <= fp < runners[fb].ports_view().2.len()
        &&& runners[fb].ports_view().2[fp] >= 1
        &&& 0 <= tb < runners.len()
        &&& 0 <= tp < runners[tb].ports_view().1.len()
        &&& runners[tb].ports_view().1[tp]
    } by {
        let l = links[k];
        assert(resolves_to(blocks, pairs[k], l));
        lemma_position_found(block_ids(blocks), pairs[k].0.0, 0);
        lemma_position_found(block_ids(blocks), pairs[k].1.0, 0);
        lemma_position_found(output_names(blocks[l.from_block as int].configuration), pairs[k].0.1, 0);
        lemma_position_found(input_names(blocks[l.to_block as int].configuration), pairs[k].1.1, 0);
        assert(runner_wired(runners[l.from_block as int], blocks[l.from_block as int], links, l.from_block as int));
        assert(runner_wired(runners[l.to_block as int], blocks[l.to_block as int], links, l.to_block as int));
        lemma_fan_positive(links, k);
        assert(targeted(links, l.to_block as int, l.to_port as int));
    }
}

} // verus!
