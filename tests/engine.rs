use softeelab::blocks::{build_block, Block, BlockInstance, EventGenerator, LoggingSink};
use softeelab::event::{event_type_named, Event, EventType, SystemEvent};
use softeelab::graph::{
    plan_links, BuildError, Link, ModelDef, ModelDefBlock, ModelDefBlockConfig, ModelDefConnection,
    ModelDefConnectionPort, ModelDefEventGeneratorConfiguration,
};
use softeelab::model::Model;
use softeelab::port::{InputPort, OutputPort, Poll, PortError};
use softeelab::runner::{next_phase, Activity, BlockRunner, Phase};
use std::sync::mpsc;

const MS: u64 = 1_000_000;

fn endpoint(block: &str, port: &str) -> ModelDefConnectionPort {
    ModelDefConnectionPort::new(block.to_string(), port.to_string())
}

fn generator(id: &str, hertz: u64) -> ModelDefBlock {
    ModelDefBlock {
        id: id.to_string(),
        configuration: ModelDefBlockConfig::EventGenerator(ModelDefEventGeneratorConfiguration {
            event_type: EventType::Trigger,
            frequency_millihertz: hertz * 1000,
        }),
    }
}

fn sink(id: &str) -> ModelDefBlock {
    ModelDefBlock { id: id.to_string(), configuration: ModelDefBlockConfig::LoggingSink }
}

fn connection(from: (&str, &str), to: &[(&str, &str)]) -> ModelDefConnection {
    ModelDefConnection {
        from: endpoint(from.0, from.1),
        to: to.iter().map(|(b, p)| endpoint(b, p)).collect(),
    }
}

fn unwrap_model(def: ModelDef) -> Model {
    match Model::new(def) {
        Ok(m) => m,
        Err(e) => panic!("build failed: {:?}", e),
    }
}

fn is_logged(a: &Activity) -> Option<u64> {
    match a {
        Activity::Logged(e) => Some(e.timestamp),
        _ => None,
    }
}

#[test]
fn event_new_keeps_fields() {
    let e = Event::new(42, EventType::Trigger);
    assert_eq!(e.timestamp, 42);
    assert_eq!(e.event_type, EventType::Trigger);
}

#[test]
fn unbound_input_reads_disconnected() {
    let port: InputPort<Event> = InputPort::new();
    assert!(!port.is_bound());
    assert!(matches!(port.receive(), Poll::Disconnected));
}

#[test]
fn input_port_polls_empty_value_then_disconnected() {
    let (tx, rx) = mpsc::channel();
    let mut port = InputPort::new();
    assert_eq!(port.set_receiver(rx), Ok(()));
    assert!(matches!(port.receive(), Poll::Empty));
    tx.send(Event::new(7, EventType::Trigger)).unwrap();
    assert!(matches!(port.receive(), Poll::Ready(e) if e.timestamp == 7));
    drop(tx);
    assert!(matches!(port.receive(), Poll::Disconnected));
}

#[test]
fn second_receiver_is_refused() {
    let (_tx1, rx1) = mpsc::channel::<Event>();
    let (tx2, rx2) = mpsc::channel::<Event>();
    let mut port = InputPort::new();
    assert_eq!(port.set_receiver(rx1), Ok(()));
    assert_eq!(port.set_receiver(rx2), Err(PortError::AlreadyBound));
    assert!(port.is_bound());
    assert!(tx2.send(Event::new(1, EventType::Trigger)).is_err());
}

#[test]
fn fan_out_delivers_every_event_to_both_inputs_in_order() {
    let mut out = OutputPort::new();
    let (tx_a, rx_a) = mpsc::channel();
    let (tx_b, rx_b) = mpsc::channel();
    out.add_sender(tx_a);
    out.add_sender(tx_b);
    assert_eq!(out.fan_out(), 2);
    let mut a = InputPort::new();
    let mut b = InputPort::new();
    a.set_receiver(rx_a).unwrap();
    b.set_receiver(rx_b).unwrap();
    for ts in [5u64, 6, 7] {
        assert_eq!(out.send(Event::new(ts, EventType::Trigger)), 2);
    }
    // One consumer reads eagerly, the other only after all were sent.
    let mut seen_a = Vec::new();
    while let Poll::Ready(e) = a.receive() {
        seen_a.push(e.timestamp);
    }
    let mut seen_b = Vec::new();
    while let Poll::Ready(e) = b.receive() {
        seen_b.push(e.timestamp);
    }
    assert_eq!(seen_a, vec![5, 6, 7]);
    assert_eq!(seen_b, vec![5, 6, 7]);
}

#[test]
fn departed_consumer_does_not_stop_the_producer() {
    let mut out = OutputPort::new();
    let (tx_a, rx_a) = mpsc::channel();
    let (tx_b, rx_b) = mpsc::channel();
    out.add_sender(tx_a);
    out.add_sender(tx_b);
    drop(rx_a);
    assert_eq!(out.send(Event::new(1, EventType::Trigger)), 1);
    assert_eq!(rx_b.try_recv().unwrap().timestamp, 1);
}

#[test]
fn plan_resolves_links_in_order() {
    let def = ModelDef {
        blocks: vec![generator("gen", 10), sink("a"), sink("b")],
        connections: vec![connection(("gen", "out"), &[("a", "in"), ("b", "in")])],
    };
    let links = plan_links(&def).unwrap();
    assert_eq!(
        links,
        vec![
            Link { from_block: 0, from_port: 0, to_block: 1, to_port: 0 },
            Link { from_block: 0, from_port: 0, to_block: 2, to_port: 0 },
        ]
    );
}

#[test]
fn unknown_target_block_is_rejected() {
    let def = ModelDef {
        blocks: vec![generator("gen", 10)],
        connections: vec![connection(("gen", "out"), &[("nowhere", "in")])],
    };
    match Model::new(def) {
        Err(BuildError::UnknownBlockReference { block }) => assert_eq!(block, "nowhere"),
        other => panic!("unexpected: {:?}", other.err()),
    }
}

#[test]
fn unknown_source_block_is_rejected() {
    let def = ModelDef {
        blocks: vec![sink("s")],
        connections: vec![connection(("gen", "out"), &[("s", "in")])],
    };
    assert!(matches!(
        plan_links(&def),
        Err(BuildError::UnknownBlockReference { block }) if block == "gen"
    ));
}

#[test]
fn undeclared_port_is_rejected() {
    let def = ModelDef {
        blocks: vec![generator("gen", 10), sink("s")],
        connections: vec![connection(("gen", "out"), &[("s", "input")])],
    };
    assert!(matches!(
        plan_links(&def),
        Err(BuildError::UnknownPortReference { block, port }) if block == "s" && port == "input"
    ));
}

#[test]
fn input_targeted_twice_is_rejected() {
    let def = ModelDef {
        blocks: vec![generator("g1", 10), generator("g2", 10), sink("s")],
        connections: vec![
            connection(("g1", "out"), &[("s", "in")]),
            connection(("g2", "out"), &[("s", "in")]),
        ],
    };
    match Model::new(def) {
        Err(BuildError::PortAlreadyBound { block, port }) => {
            assert_eq!(block, "s");
            assert_eq!(port, "in");
        }
        other => panic!("unexpected: {:?}", other.err()),
    }
}

#[test]
fn zero_frequency_is_invalid() {
    let def = ModelDef { blocks: vec![sink("s"), generator("g", 0)], connections: vec![] };
    assert!(matches!(
        Model::new(def).err(),
        Some(BuildError::InvalidConfiguration { block }) if block == "g"
    ));
    assert!(EventGenerator::new(
        "g".to_string(),
        &ModelDefEventGeneratorConfiguration { event_type: EventType::Trigger, frequency_millihertz: 0 }
    )
    .is_err());
}

#[test]
fn build_block_makes_the_configured_kind() {
    match build_block(&generator("g", 4)).unwrap() {
        BlockInstance::EventGenerator(g) => {
            assert_eq!(g.period_ns(), 250_000_000);
            assert_eq!(g.id(), "g");
        }
        _ => panic!("expected a generator"),
    }
    let s = build_block(&sink("s")).unwrap();
    assert!(matches!(s, BlockInstance::LoggingSink(_)));
    assert_eq!(s.id(), "s");
    assert_eq!(LoggingSink::new("x".to_string()).id(), "x");
}

#[test]
fn phase_transitions() {
    assert_eq!(
        next_phase(Phase::AwaitingStart, &Poll::Ready(SystemEvent::Start(9))),
        Phase::Running { epoch: 9 }
    );
    assert_eq!(next_phase(Phase::AwaitingStart, &Poll::Empty), Phase::AwaitingStart);
    assert_eq!(next_phase(Phase::AwaitingStart, &Poll::Ready(SystemEvent::Stop)), Phase::Terminated);
    assert_eq!(next_phase(Phase::Running { epoch: 9 }, &Poll::Disconnected), Phase::Terminated);
    assert_eq!(
        next_phase(Phase::Running { epoch: 9 }, &Poll::Ready(SystemEvent::Start(11))),
        Phase::Running { epoch: 9 }
    );
}

#[test]
fn generator_stamps_are_whole_periods() {
    let config = ModelDefEventGeneratorConfiguration { event_type: EventType::Trigger, frequency_millihertz: 10_000 };
    let mut g = EventGenerator::new("g".to_string(), &config).unwrap();
    let epoch = 5_000 * MS;
    g.start(epoch);
    let mut stamps = Vec::new();
    // Irregular, late clock readings.
    for t in [0, 30, 130, 131, 250, 260, 370, 999] {
        if let Some(e) = g.tick(epoch + t * MS) {
            stamps.push(e.timestamp);
        }
    }
    assert_eq!(stamps, vec![0, 100 * MS, 200 * MS, 300 * MS, 400 * MS]);
    for pair in stamps.windows(2) {
        assert_eq!(pair[1] - pair[0], 100 * MS);
    }
}

fn scenario_model() -> Vec<BlockRunner> {
    let def = ModelDef {
        blocks: vec![generator("gen", 10), sink("log")],
        connections: vec![connection(("gen", "out"), &[("log", "in")])],
    };
    let mut model = unwrap_model(def);
    assert_eq!(model.block_count(), 2);
    model.take_runners()
}

#[test]
fn generator_to_sink_logs_three_events_before_300ms() {
    let mut runners = scenario_model();
    let epoch = 1_000 * MS;
    for r in runners.iter_mut() {
        assert_eq!(r.step(Poll::Ready(SystemEvent::Start(epoch)), epoch), Activity::Started(epoch));
    }
    let mut logged = Vec::new();
    let mut t = 0;
    while t < 300 {
        for r in runners.iter_mut() {
            let a = r.step(Poll::Empty, epoch + t * MS);
            if let Some(ts) = is_logged(&a) {
                logged.push(ts);
            }
        }
        t += 10;
    }
    assert_eq!(logged, vec![0, 100_000_000, 200_000_000]);
    for r in runners.iter_mut() {
        assert_eq!(r.step(Poll::Ready(SystemEvent::Stop), epoch + 299 * MS), Activity::Stopped);
        assert_eq!(r.phase(), Phase::Terminated);
    }
}

#[test]
fn stop_discards_queued_input() {
    let mut runners = scenario_model();
    let epoch = 0;
    for r in runners.iter_mut() {
        r.step(Poll::Ready(SystemEvent::Start(epoch)), epoch);
    }
    // The generator emits three events that the sink never reads.
    for t in [0u64, 100, 200] {
        let a = runners[0].step(Poll::Empty, t * MS);
        assert!(matches!(a, Activity::Emitted(_)));
    }
    assert_eq!(runners[1].step(Poll::Ready(SystemEvent::Stop), 0), Activity::Stopped);
    assert_eq!(runners[1].step(Poll::Empty, 0), Activity::Stopped);
}

#[test]
fn every_block_runs_from_the_broadcast_epoch() {
    let def = ModelDef {
        blocks: vec![generator("g1", 10), generator("g2", 1000), sink("s")],
        connections: vec![connection(("g1", "out"), &[("s", "in")])],
    };
    let mut model = unwrap_model(def);
    model.init_blocks();
    let mut runners = model.take_runners();
    assert_eq!(runners.len(), 3);
    for r in runners.iter_mut() {
        assert_eq!(r.iterate(), Activity::Idle);
    }
    let epoch = model.send_start_events();
    for r in runners.iter_mut() {
        assert_eq!(r.iterate(), Activity::Started(epoch));
        assert_eq!(r.phase(), Phase::Running { epoch });
    }
    model.send_stop_events();
    for r in runners.iter_mut() {
        assert_eq!(r.iterate(), Activity::Stopped);
        r.block().shutdown();
    }
    model.close_system_channels();
}

#[test]
fn closed_system_port_ends_a_block() {
    let mut model = unwrap_model(ModelDef { blocks: vec![sink("s")], connections: vec![] });
    let mut runners = model.take_runners();
    model.close_system_channels();
    assert_eq!(runners[0].iterate(), Activity::Stopped);
}

#[test]
fn dense_readings_emit_once_per_whole_period() {
    let config = ModelDefEventGeneratorConfiguration { event_type: EventType::Trigger, frequency_millihertz: 10_000 };
    let mut g = EventGenerator::new("g".to_string(), &config).unwrap();
    g.start(0);
    let mut count = 0;
    let mut t = 0;
    while t <= 350 {
        if g.tick(t * MS).is_some() {
            count += 1;
        }
        t += 10;
    }
    // 350 ms / 100 ms rounds down to 3, plus the emission at the epoch.
    assert_eq!(count, 4);
}

#[test]
fn unconnected_sink_keeps_running() {
    let mut model = unwrap_model(ModelDef { blocks: vec![sink("s")], connections: vec![] });
    let mut runners = model.take_runners();
    let r = &mut runners[0];
    assert_eq!(r.step(Poll::Ready(SystemEvent::Start(3)), 3), Activity::Started(3));
    for now in 0..5u64 {
        assert_eq!(r.step(Poll::Empty, now), Activity::Idle);
    }
    assert_eq!(r.phase(), Phase::Running { epoch: 3 });
}

#[test]
fn fan_out_graph_feeds_both_sinks() {
    let def = ModelDef {
        blocks: vec![generator("gen", 1000), sink("a"), sink("b")],
        connections: vec![connection(("gen", "out"), &[("a", "in"), ("b", "in")])],
    };
    let mut runners = unwrap_model(def).take_runners();
    for r in runners.iter_mut() {
        r.step(Poll::Ready(SystemEvent::Start(0)), 0);
    }
    for ms in 0..3u64 {
        assert!(matches!(runners[0].step(Poll::Empty, ms * MS), Activity::Emitted(_)));
    }
    for i in [1usize, 2] {
        let mut seen = Vec::new();
        for _ in 0..4 {
            if let Some(ts) = is_logged(&runners[i].step(Poll::Empty, 0)) {
                seen.push(ts);
            }
        }
        assert_eq!(seen, vec![0, MS, 2 * MS]);
    }
}

#[test]
fn connection_from_unknown_block_without_targets_is_rejected() {
    let def = ModelDef { blocks: vec![], connections: vec![connection(("ghost", "out"), &[])] };
    assert!(matches!(
        Model::new(def).err(),
        Some(BuildError::UnknownBlockReference { block }) if block == "ghost"
    ));
}

#[test]
fn connection_from_undeclared_output_without_targets_is_rejected() {
    let def = ModelDef { blocks: vec![sink("s")], connections: vec![connection(("s", "out"), &[])] };
    assert!(matches!(
        plan_links(&def),
        Err(BuildError::UnknownPortReference { block, port }) if block == "s" && port == "out"
    ));
}

#[test]
fn fractional_frequency_gives_its_period() {
    let config = ModelDefEventGeneratorConfiguration {
        event_type: EventType::Trigger,
        frequency_millihertz: 2_500,
    };
    let g = EventGenerator::new("g".to_string(), &config).unwrap();
    assert_eq!(g.period_ns(), 400_000_000);
    let slow = ModelDefEventGeneratorConfiguration {
        event_type: EventType::Trigger,
        frequency_millihertz: 500,
    };
    assert_eq!(EventGenerator::new("s".to_string(), &slow).unwrap().period_ns(), 2_000_000_000);
}

#[test]
fn every_event_type_name_is_trigger() {
    assert_eq!(event_type_named("Trigger"), EventType::Trigger);
    assert_eq!(event_type_named("Other"), EventType::Trigger);
}

#[test]
fn stop_reaches_every_block() {
    let mut model = unwrap_model(ModelDef { blocks: vec![sink("a"), sink("b")], connections: vec![] });
    let mut runners = model.take_runners();
    assert_eq!(model.send_stop_events(), 2);
    for r in runners.iter_mut() {
        assert_eq!(r.iterate(), Activity::Stopped);
    }
    drop(runners);
    assert_eq!(model.send_stop_events(), 0);
}

#[test]
fn repeated_block_id_is_rejected() {
    let def = ModelDef { blocks: vec![sink("s"), generator("g", 1), sink("s")], connections: vec![] };
    assert!(matches!(
        Model::new(def).err(),
        Some(BuildError::DuplicateBlockId { block }) if block == "s"
    ));
}
