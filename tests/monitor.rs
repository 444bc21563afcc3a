use register_poller::{
    apply_read, inter_tick_delay_ms, parse_registers, Action, AddressRange, ChangeEvent,
    LastValueTable, MonitorEvent, MonitorState, PollingMonitor, RangeFailure, RegisterDescriptor,
    RegisterValue,
};

fn reg(address: u16, label: &str) -> RegisterDescriptor {
    RegisterDescriptor { address, label: Some(label.to_string()) }
}

fn vals(pairs: &[(u16, u16)]) -> Vec<RegisterValue> {
    pairs.iter().map(|&(address, value)| RegisterValue { address, value }).collect()
}

fn change(address: u16, label: &str, old_value: u16, new_value: u16) -> ChangeEvent {
    ChangeEvent { address, label: Some(label.to_string()), old_value, new_value }
}

fn three_ranges() -> Vec<AddressRange> {
    vec![
        AddressRange { start: 1, count: 2 },
        AddressRange { start: 10, count: 1 },
        AddressRange { start: 20, count: 1 },
    ]
}

fn registers() -> Vec<RegisterDescriptor> {
    vec![reg(1, "a1"), reg(2, "a2"), reg(10, "b"), reg(20, "c")]
}

#[test]
fn delay_formula() {
    assert_eq!(inter_tick_delay_ms(0), 500);
    assert_eq!(inter_tick_delay_ms(4), 900);
    assert_eq!(inter_tick_delay_ms(usize::MAX), u64::MAX);
}

#[test]
fn first_observation_emits_from_zero() {
    let mut t = LastValueTable::new();
    let regs = registers();
    let cs = apply_read(&mut t, &regs, &vals(&[(10, 42)]));
    assert_eq!(cs, vec![change(10, "b", 0, 42)]);
    assert_eq!(t.get(10), 42);
    assert_eq!(t.len(), 1);
}

#[test]
fn first_observation_of_zero_is_silent_but_stored() {
    let mut t = LastValueTable::new();
    let cs = apply_read(&mut t, &registers(), &vals(&[(10, 0)]));
    assert!(cs.is_empty());
    assert!(t.contains(10));
    assert_eq!(t.len(), 1);
}

#[test]
fn diff_idempotent() {
    let mut t = LastValueTable::new();
    let regs = registers();
    let read = vals(&[(1, 3), (2, 4)]);
    apply_read(&mut t, &regs, &read);
    let cs = apply_read(&mut t, &regs, &read);
    assert!(cs.is_empty());
    assert_eq!(t.len(), 2);
    assert_eq!(t.get(1), 3);
    assert_eq!(t.get(2), 4);
}

#[test]
fn changed_value_reports_old_and_new() {
    let mut t = LastValueTable::new();
    let regs = registers();
    apply_read(&mut t, &regs, &vals(&[(1, 3), (2, 4)]));
    let cs = apply_read(&mut t, &regs, &vals(&[(1, 3), (2, 9)]));
    assert_eq!(cs, vec![change(2, "a2", 4, 9)]);
}

#[test]
fn unlabelled_register() {
    let mut t = LastValueTable::new();
    let regs = vec![RegisterDescriptor { address: 5, label: None }];
    let cs = apply_read(&mut t, &regs, &vals(&[(5, 1), (6, 2)]));
    assert_eq!(
        cs,
        vec![
            ChangeEvent { address: 5, label: None, old_value: 0, new_value: 1 },
            ChangeEvent { address: 6, label: None, old_value: 0, new_value: 2 },
        ]
    );
}

#[test]
fn partial_failure_isolation() {
    let mut m = PollingMonitor::new(registers(), three_ranges());
    assert_eq!(m.state(), MonitorState::Idle);
    assert_eq!(m.delay_ms(), 900);
    let r = m.step(MonitorEvent::Started);
    assert_eq!(r.action, Action::Read(AddressRange { start: 1, count: 2 }));

    // First tick: everything succeeds.
    m.step(MonitorEvent::ReadDone(Ok(vals(&[(1, 1), (2, 2)]))));
    m.step(MonitorEvent::ReadDone(Ok(vals(&[(10, 5)]))));
    let r = m.step(MonitorEvent::ReadDone(Ok(vals(&[(20, 7)]))));
    assert_eq!(r.action, Action::Sleep(900));
    assert_eq!(m.state(), MonitorState::Sleeping);

    // Second tick: the middle range fails.
    let r = m.step(MonitorEvent::Woke);
    assert_eq!(r.action, Action::Read(AddressRange { start: 1, count: 2 }));
    let r = m.step(MonitorEvent::ReadDone(Ok(vals(&[(1, 1), (2, 3)]))));
    assert_eq!(r.changes, vec![change(2, "a2", 2, 3)]);
    assert_eq!(r.action, Action::Read(AddressRange { start: 10, count: 1 }));
    let r = m.step(MonitorEvent::ReadDone(Err("timeout".to_string())));
    assert!(r.changes.is_empty());
    assert_eq!(
        r.failure,
        Some(RangeFailure { range: AddressRange { start: 10, count: 1 }, error: "timeout".to_string() })
    );
    assert_eq!(r.action, Action::Read(AddressRange { start: 20, count: 1 }));
    let r = m.step(MonitorEvent::ReadDone(Ok(vals(&[(20, 8)]))));
    assert_eq!(r.changes, vec![change(20, "c", 7, 8)]);
    assert_eq!(r.action, Action::Sleep(900));

    assert_eq!(m.table().get(2), 3);
    assert_eq!(m.table().get(10), 5);
    assert_eq!(m.table().get(20), 8);
    assert_eq!(m.table().len(), 4);
}

#[test]
fn cancel_stops() {
    let mut m = PollingMonitor::new(registers(), three_ranges());
    m.step(MonitorEvent::Started);
    let r = m.step(MonitorEvent::Cancelled);
    assert_eq!(r.action, Action::Halt);
    assert_eq!(m.state(), MonitorState::Stopped);
    let r = m.step(MonitorEvent::Woke);
    assert_eq!(r.action, Action::Halt);
}

#[test]
fn unexpected_event_stops() {
    let mut m = PollingMonitor::new(registers(), three_ranges());
    let r = m.step(MonitorEvent::ReadDone(Ok(vals(&[(1, 1)]))));
    assert_eq!(r.action, Action::Halt);
    assert_eq!(m.state(), MonitorState::Stopped);
    assert_eq!(m.table().len(), 0);
}

#[test]
fn no_ranges_only_sleeps() {
    let mut m = PollingMonitor::new(vec![], vec![]);
    assert_eq!(m.step(MonitorEvent::Started).action, Action::Sleep(500));
    assert_eq!(m.step(MonitorEvent::Woke).action, Action::Sleep(500));
}

#[test]
fn parse_registers_keeps_labels() {
    let entries = vec![("10".to_string(), Some("b".to_string())), ("3".to_string(), None)];
    let ds = parse_registers(&entries).unwrap();
    assert_eq!(ds, vec![reg(10, "b"), RegisterDescriptor { address: 3, label: None }]);
}
