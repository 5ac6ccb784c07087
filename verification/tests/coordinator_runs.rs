use port_scan::address::IpAddress;
use port_scan::coordinator::{Coordinator, OutputEvent, ScanConfig};

fn config(start_port: u16, end_port: u16, max_tasks: usize, verbose: bool) -> ScanConfig {
    ScanConfig {
        target: IpAddress::V4(127, 0, 0, 1),
        start_port,
        end_port,
        max_tasks,
        verbose,
    }
}

/// Drives one whole run the way a caller with real sockets would: dispatch
/// whenever a permit is free, otherwise finish one pending probe (the most
/// recent one when `lifo` is set, to exercise out-of-order completion).
/// A port counts as open exactly when it appears in `listeners`.
/// Returns the emitted events, the dispatched ports in dispatch order, and
/// the largest number of probes ever in flight at once.
fn drive(config: ScanConfig, listeners: &[u16], lifo: bool) -> (Vec<OutputEvent>, Vec<u16>, usize) {
    let mut coordinator = Coordinator::new(config);
    let mut events = vec![coordinator.start()];
    let mut dispatched: Vec<u16> = vec![];
    let mut pending: Vec<u16> = vec![];
    let mut max_in_flight: usize = 0;
    while coordinator.has_next_port() {
        if coordinator.can_dispatch() {
            let (request, announce) = coordinator.dispatch_next();
            if let Some(event) = announce {
                events.push(event);
            }
            dispatched.push(request.port);
            pending.push(request.port);
            if coordinator.probes_in_flight() > max_in_flight {
                max_in_flight = coordinator.probes_in_flight();
            }
        } else {
            let port = if lifo { pending.pop().unwrap() } else { pending.remove(0) };
            if let Some(event) = coordinator.probe_finished(port, listeners.contains(&port)) {
                events.push(event);
            }
        }
    }
    coordinator.begin_join();
    while !coordinator.all_finished() {
        let port = if lifo { pending.pop().unwrap() } else { pending.remove(0) };
        if let Some(event) = coordinator.probe_finished(port, listeners.contains(&port)) {
            events.push(event);
        }
    }
    events.push(coordinator.complete());
    (events, dispatched, max_in_flight)
}

fn scanning_lines(events: &[OutputEvent]) -> Vec<u16> {
    events
        .iter()
        .filter_map(|event| match event {
            OutputEvent::Scanning { port } => Some(*port),
            _ => None,
        })
        .collect()
}

fn open_lines(events: &[OutputEvent]) -> Vec<u16> {
    events
        .iter()
        .filter_map(|event| match event {
            OutputEvent::PortOpen { port } => Some(*port),
            _ => None,
        })
        .collect()
}

#[test]
fn full_range_dispatches_each_port_once() {
    let (_, dispatched, _) = drive(config(10, 14, 2, false), &[], false);
    assert_eq!(dispatched, vec![10, 11, 12, 13, 14]);
}

#[test]
fn single_port_range_dispatches_one_probe() {
    let cfg = ScanConfig {
        target: IpAddress::V6(0, 0, 0, 0, 0, 0, 0, 1),
        start_port: 443,
        end_port: 443,
        max_tasks: 100,
        verbose: false,
    };
    let (events, dispatched, _) = drive(cfg, &[443], false);
    assert_eq!(dispatched, vec![443]);
    assert_eq!(open_lines(&events), vec![443]);
}

#[test]
fn top_of_port_space_dispatches_all() {
    let (_, dispatched, _) = drive(config(65530, 65535, 3, false), &[], true);
    assert_eq!(dispatched, vec![65530, 65531, 65532, 65533, 65534, 65535]);
}

#[test]
fn whole_port_space_probes_every_port() {
    let (_, dispatched, _) = drive(config(1, 65535, 100, false), &[], true);
    assert_eq!(dispatched.len(), 65535);
    assert_eq!(dispatched[0], 1);
    assert_eq!(dispatched[65534], 65535);
}

#[test]
fn empty_range_emits_summary_and_completion() {
    let cfg = config(5, 3, 2, false);
    let (events, dispatched, _) = drive(cfg, &[], false);
    assert_eq!(dispatched.len(), 0);
    assert_eq!(
        events,
        vec![
            OutputEvent::Summary {
                target: IpAddress::V4(127, 0, 0, 1),
                start_port: 5,
                end_port: 3
            },
            OutputEvent::Completed,
        ]
    );
}

#[test]
fn in_flight_never_exceeds_ceiling() {
    let (_, _, max_in_flight) = drive(config(1, 40, 3, false), &[7, 13], false);
    assert!(max_in_flight <= 3);
    assert_eq!(max_in_flight, 3);
}

#[test]
fn loopback_three_ports_one_open() {
    let cfg = config(1, 3, 2, false);
    let (events, dispatched, _) = drive(cfg, &[2], false);
    assert_eq!(dispatched, vec![1, 2, 3]);
    assert_eq!(open_lines(&events), vec![2]);
    assert_eq!(events.first().unwrap(), &OutputEvent::Summary {
        target: IpAddress::V4(127, 0, 0, 1),
        start_port: 1,
        end_port: 3,
    });
    assert_eq!(events.last().unwrap(), &OutputEvent::Completed);
    let completions = events
        .iter()
        .filter(|event| matches!(event, OutputEvent::Completed))
        .count();
    assert_eq!(completions, 1);
}

#[test]
fn quiet_run_emits_no_scanning_line() {
    let (events, _, _) = drive(config(1, 8, 3, false), &[4], true);
    assert_eq!(scanning_lines(&events), Vec::<u16>::new());
}

#[test]
fn verbose_run_announces_each_port_in_order() {
    // completions run newest-first here, yet the scanning lines stay in
    // ascending dispatch order
    let (events, dispatched, _) = drive(config(20, 27, 3, true), &[22, 25], true);
    assert_eq!(scanning_lines(&events), dispatched);
    assert_eq!(scanning_lines(&events), vec![20, 21, 22, 23, 24, 25, 26, 27]);
    assert_eq!(open_lines(&events).len(), 2);
}

#[test]
fn capacity_one_serializes_probes() {
    let cfg = config(1, 5, 1, false);
    let mut coordinator = Coordinator::new(cfg);
    coordinator.start();
    // record, per probe, the driver steps at which its attempt started and
    // ended; with one permit no two attempts may overlap
    let mut step: usize = 0;
    let mut spans: Vec<(u16, usize, usize)> = vec![];
    while coordinator.has_next_port() {
        assert!(coordinator.can_dispatch());
        let (request, _) = coordinator.dispatch_next();
        let started = step;
        step += 1;
        // the next probe must not begin while this one holds the permit
        assert!(!coordinator.can_dispatch());
        assert_eq!(coordinator.probes_in_flight(), 1);
        coordinator.probe_finished(request.port, false);
        let ended = step;
        step += 1;
        spans.push((request.port, started, ended));
    }
    coordinator.begin_join();
    assert!(coordinator.all_finished());
    coordinator.complete();
    for pair in spans.windows(2) {
        let (_, _, first_end) = pair[0];
        let (_, second_start, _) = pair[1];
        assert!(first_end < second_start);
    }
}
