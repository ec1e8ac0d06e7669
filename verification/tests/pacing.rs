use traffic_generation::flow::FlowParameters;
use traffic_generation::flow::TrafficModel;
use traffic_generation::address::Ipv4Address;
use traffic_generation::pacing::burst_duration_ns;
use traffic_generation::pacing::PacingAction;
use traffic_generation::pacing::PacingEngine;
use traffic_generation::pacing::PacingError;
use traffic_generation::pacing::PacingEvent;
use traffic_generation::pacing::SendError;
use traffic_generation::pacing::BURST_SIZE;
use traffic_generation::pacing::NANOS_PER_SECOND;

fn answer(action: PacingAction) -> PacingEvent {
    match action {
        PacingAction::Transmit => PacingEvent::Transmitted(Ok(1500)),
        PacingAction::Sleep(_) => PacingEvent::Slept,
    }
}

fn flow(packet_len: usize, tx_rate: u64) -> FlowParameters {
    FlowParameters {
        dest_port: 9000,
        dest_addr: Ipv4Address::new(10, 0, 0, 2),
        source_addr: Ipv4Address::new(10, 0, 0, 1),
        prob_mat: vec![],
        tx_rate,
        variance: 0,
        traffic_model: TrafficModel::Uniform,
        packet_len,
        src_host: 0,
        time_slice: 0,
        tag_value: vec![],
        transmit_rates: None,
    }
}

#[test]
fn burst_duration_of_1500_units_at_a_million_per_second() {
    assert_eq!(burst_duration_ns(1500, 1_000_000), Ok(1_500_000));
}

#[test]
fn burst_duration_depends_on_its_arguments_alone() {
    assert_eq!(burst_duration_ns(1500, 1_000_000), burst_duration_ns(1500, 1_000_000));
    assert_eq!(burst_duration_ns(64, 7), burst_duration_ns(64, 7));
}

#[test]
fn burst_duration_refuses_a_zero_rate() {
    assert_eq!(burst_duration_ns(1500, 0), Err(PacingError::ZeroRate));
    assert_eq!(burst_duration_ns(0, 0), Err(PacingError::ZeroRate));
}

#[test]
fn burst_duration_of_an_empty_payload_is_zero() {
    assert_eq!(burst_duration_ns(0, 1), Ok(0));
    assert_eq!(burst_duration_ns(0, u64::MAX), Ok(0));
}

#[test]
fn burst_duration_rounds_to_the_nearest_nanosecond() {
    // 1e9 / 3 = 333_333_333.33..
    assert_eq!(burst_duration_ns(1, 3), Ok(333_333_333));
    // 2e9 / 3 = 666_666_666.66..
    assert_eq!(burst_duration_ns(2, 3), Ok(666_666_667));
    // 1e9 / 7 = 142_857_142.857..
    assert_eq!(burst_duration_ns(1, 7), Ok(142_857_143));
    // 0.25 ns
    assert_eq!(burst_duration_ns(1, 4_000_000_000), Ok(0));
    // 0.75 ns
    assert_eq!(burst_duration_ns(3, 4_000_000_000), Ok(1));
}

#[test]
fn burst_duration_rounds_a_half_up() {
    // 0.5 ns
    assert_eq!(burst_duration_ns(1, 2_000_000_000), Ok(1));
    // 1.5 ns
    assert_eq!(burst_duration_ns(3, 2_000_000_000), Ok(2));
    // 2.5 ns
    assert_eq!(burst_duration_ns(5, 2_000_000_000), Ok(3));
}

#[test]
fn burst_duration_of_one_unit_per_second_is_a_second_per_unit() {
    assert_eq!(burst_duration_ns(1, 1), Ok(NANOS_PER_SECOND));
    assert_eq!(burst_duration_ns(42, 1), Ok(42 * NANOS_PER_SECOND));
}

#[test]
fn burst_duration_is_clamped_to_64_bits() {
    // 18_446_744_073 s fit in 64 bits of nanoseconds, 18_446_744_074 s do not.
    assert_eq!(burst_duration_ns(18_446_744_073, 1), Ok(18_446_744_073_000_000_000));
    assert_eq!(burst_duration_ns(18_446_744_074, 1), Ok(u64::MAX));
    assert_eq!(burst_duration_ns(usize::MAX, 1), Ok(u64::MAX));
    assert_eq!(burst_duration_ns(usize::MAX, u64::MAX), Ok(NANOS_PER_SECOND));
}

#[test]
fn engine_refuses_a_zero_rate() {
    assert_eq!(PacingEngine::new(1500, 0).err(), Some(PacingError::ZeroRate));
    assert_eq!(PacingEngine::for_flow(&flow(1500, 0)).err(), Some(PacingError::ZeroRate));
}

#[test]
fn engine_rests_for_the_burst_duration() {
    let engine = PacingEngine::new(1500, 1_000_000).unwrap();
    assert_eq!(engine.burst_tx_duration_ns(), 1_500_000);
}

#[test]
fn engine_of_a_flow_uses_its_packet_length_and_rate() {
    let engine = PacingEngine::for_flow(&flow(1500, 1_000_000)).unwrap();
    assert_eq!(engine.burst_tx_duration_ns(), 1_500_000);
    let engine = PacingEngine::for_flow(&flow(2, 3)).unwrap();
    assert_eq!(engine.burst_tx_duration_ns(), 666_666_667);
}

#[test]
fn engine_sends_ten_datagrams_then_rests() {
    let mut engine = PacingEngine::new(1500, 1_000_000).unwrap();
    for _cycle in 0..3 {
        for _ in 0..10 {
            assert_eq!(engine.next_action(), PacingAction::Transmit);
            engine.handle(PacingEvent::Transmitted(Ok(1500)));
        }
        assert_eq!(engine.next_action(), PacingAction::Sleep(1_500_000));
        engine.handle(PacingEvent::Slept);
    }
    assert_eq!(engine.next_action(), PacingAction::Transmit);
}

#[test]
fn effective_rate_is_ten_times_the_configured_one() {
    let packet_len: usize = 1500;
    let tx_rate: u64 = 1_000_000;
    let mut engine = PacingEngine::new(packet_len, tx_rate).unwrap();
    let cycles: u64 = 50;
    let mut datagrams: u64 = 0;
    let mut slept_ns: u64 = 0;
    for _ in 0..cycles * (BURST_SIZE + 1) {
        let action = engine.next_action();
        match action {
            PacingAction::Transmit => datagrams += 1,
            PacingAction::Sleep(ns) => slept_ns += ns,
        }
        engine.handle(answer(action));
    }
    assert_eq!(datagrams, 10 * cycles);
    assert_eq!(slept_ns, cycles * 1_500_000);
    let observed = datagrams as f64 / (slept_ns as f64 / 1e9);
    let naive = tx_rate as f64 / packet_len as f64;
    assert!((observed - 6666.666_666_666_667).abs() < 1e-6);
    assert!((naive - 666.666_666_666_666_7).abs() < 1e-6);
    assert!((observed / naive - 10.0).abs() < 1e-9);
}

#[test]
fn failed_sends_count_like_successful_ones() {
    let mut failing = PacingEngine::new(100, 1000).unwrap();
    let mut working = PacingEngine::new(100, 1000).unwrap();
    for _ in 0..25 {
        let action = failing.next_action();
        assert_eq!(action, working.next_action());
        match action {
            PacingAction::Transmit => {
                failing.handle(PacingEvent::Transmitted(Err(SendError)));
                working.handle(PacingEvent::Transmitted(Ok(100)));
            },
            PacingAction::Sleep(ns) => {
                assert_eq!(ns, 100_000_000);
                failing.handle(PacingEvent::Slept);
                working.handle(PacingEvent::Slept);
            },
        }
    }
}

#[test]
fn events_nobody_asked_for_change_nothing() {
    let mut engine = PacingEngine::new(1, 1).unwrap();
    engine.handle(PacingEvent::Slept);
    for _ in 0..10 {
        assert_eq!(engine.next_action(), PacingAction::Transmit);
        engine.handle(PacingEvent::Slept);
        engine.handle(PacingEvent::Transmitted(Ok(1)));
    }
    assert_eq!(engine.next_action(), PacingAction::Sleep(NANOS_PER_SECOND));
    engine.handle(PacingEvent::Transmitted(Ok(1)));
    engine.handle(PacingEvent::Transmitted(Err(SendError)));
    assert_eq!(engine.next_action(), PacingAction::Sleep(NANOS_PER_SECOND));
    engine.handle(PacingEvent::Slept);
    assert_eq!(engine.next_action(), PacingAction::Transmit);
}

#[test]
fn empty_payload_is_paced_without_rest() {
    let mut engine = PacingEngine::new(0, 1_000_000).unwrap();
    for _ in 0..10 {
        assert_eq!(engine.next_action(), PacingAction::Transmit);
        engine.handle(PacingEvent::Transmitted(Ok(0)));
    }
    assert_eq!(engine.next_action(), PacingAction::Sleep(0));
}
