use vstd::prelude::*;

use crate::config::RegisterDescriptor;
use crate::ranges::AddressRange;
use crate::table::{stored_value, LastValueTable};

verus! {

/// One register value returned by a range read.
#[derive(Clone, Copy, Debug, PartialEq, Eq, Structural)]
pub struct RegisterValue {
    pub address: u16,
    pub value: u16,
}

/// A register whose value differs from the one last observed.
#[derive(Debug, PartialEq, Eq)]
pub struct ChangeEvent {
    pub address: u16,
    pub label: Option<String>,
    pub old_value: u16,
    pub new_value: u16,
}

/// The label of the first descriptor for `a`, if any.
pub open spec fn label_of(ds: Seq<RegisterDescriptor>, a: u16) -> Option<String>
    decreases ds.len(),
{
    if ds.len() == 0 {
        None
    } else if ds[0].address == a {
        ds[0].label
    } else {
        label_of(ds.drop_first(), a)
    }
}

/// The table after recording each value of `vals` in order.
pub open spec fn table_after(m: Map<u16, u16>, vals: Seq<RegisterValue>) -> Map<u16, u16>
    decreases vals.len(),
{
    if vals.len() == 0 {
        m
    } else {
        table_after(m, vals.drop_last()).insert(vals.last().address, vals.last().value)
    }
}

/// The change notifications that recording `vals` in order emits: one for
/// each value that differs from what the table holds just before it.
pub open spec fn changes_of(
    m: Map<u16, u16>,
    ds: Seq<RegisterDescriptor>,
    vals: Seq<RegisterValue>,
) -> Seq<ChangeEvent>
    decreases vals.len(),
{
    if vals.len() == 0 {
        Seq::empty()
    } else {
        let before = table_after(m, vals.drop_last());
        let earlier = changes_of(m, ds, vals.drop_last());
        let v = vals.last();
        if stored_value(before, v.address) != v.value {
            earlier.push(
                ChangeEvent {
                    address: v.address,
                    label: label_of(ds, v.address),
                    old_value: stored_value(before, v.address),
                    new_value: v.value,
                },
            )
        } else {
            earlier
        }
    }
}

/// Finds the label of the first descriptor for `address`.
pub fn find_label(registers: &Vec<RegisterDescriptor>, address: u16) -> (r: Option<String>)
    ensures
        r == label_of(registers@, address),
{
    let mut i: usize = 0;
    assert(registers@.subrange(0, registers@.len() as int) == registers@);
    while i < registers.len()
        invariant
            0 <= i <= registers.len(),
            label_of(registers@, address) == label_of(registers@.subrange(i as int, registers@.len() as int), address),
        decreases registers.len() - i,
    {
        let ghost rest = registers@.subrange(i as int, registers@.len() as int);
        assert(rest.drop_first() == registers@.subrange(i + 1, registers@.len() as int));
        if registers[i].address == address {
            return match &registers[i].label {
                Some(l) => Some(l.clone()),
                None => None,
            };
        }
        i += 1;
    }
    None
}

/// Diffs one successful range read against the table: each value that
/// differs from the stored one (0 where none is stored) yields a change
/// notification, and every value is stored, changed or not.
pub fn apply_read(
    table: &mut LastValueTable,
    registers: &Vec<RegisterDescriptor>,
    vals: &Vec<RegisterValue>,
) -> (changes: Vec<ChangeEvent>)
    ensures
        final(table)@ == table_after(old(table)@, vals@),
        changes@ == changes_of(old(table)@, registers@, vals@),
{
    let ghost m = table@;
    let mut changes: Vec<ChangeEvent> = Vec::new();
    let mut i: usize = 0;
    while i < vals.len()
        invariant
            0 <= i <= vals.len(),
            table@ == table_after(m, vals@.subrange(0, i as int)),
            changes@ == changes_of(m, registers@, vals@.subrange(0, i as int)),
        decreases vals.len() - i,
    {
        assert(vals@.subrange(0, i + 1).drop_last() == vals@.subrange(0, i as int));
        let v = vals[i];
        let old_value = table.get(v.address);
        if old_value != v.value {
            let label = find_label(registers, v.address);
            changes.push(ChangeEvent { address: v.address, label, old_value, new_value: v.value });
        }
        table.record(v.address, v.value);
        i += 1;
    }
    assert(vals@.subrange(0, vals@.len() as int) == vals@);
    changes
}

/// Pause between ticks in milliseconds: 500 plus 100 per configured
/// register, capped at the largest `u64`.
pub open spec fn delay_spec(register_count: int) -> int {
    if 500 + 100 * register_count <= u64::MAX {
        500 + 100 * register_count
    } else {
        u64::MAX as int
    }
}

/// The pause between ticks for a configuration of `register_count` registers.
pub fn inter_tick_delay_ms(register_count: usize) -> (ms: u64)
    ensures
        ms as int == delay_spec(register_count as int),
{
    let n = register_count as u64;
    if n > (u64::MAX - 500) / 100 {
        assert(500 + 100 * n > u64::MAX) by (nonlinear_arith)
            requires n > (u64::MAX - 500) / 100;
        u64::MAX
    } else {
        assert(500 + 100 * n <= u64::MAX) by (nonlinear_arith)
            requires n <= (u64::MAX - 500) / 100;
        500 + 100 * n
    }
}/// Where the polling loop stands.
#[derive(Clone, Copy, Debug, PartialEq, Eq, Structural)]
pub enum MonitorState {
    /// Built, not started.
    Idle,
    /// Waiting for the read of the range at `index`.
    Reading { index: usize },
    /// A tick has ended; waiting out the pause before the next one.
    Sleeping,
    /// The loop has ended.
    Stopped,
}

/// What the driver reports back to the monitor.
#[derive(Debug)]
pub enum MonitorEvent {
    /// The loop begins.
    Started,
    /// The read that was asked for completed, with the values read or a
    /// description of the failure.
    ReadDone(Result<Vec<RegisterValue>, String>),
    /// The pause between ticks is over.
    Woke,
    /// The loop is to end.
    Cancelled,
}

/// What the driver is to do next.
#[derive(Clone, Copy, Debug, PartialEq, Eq, Structural)]
pub enum Action {
    /// Read this range.
    Read(AddressRange),
    /// Pause this many milliseconds, then report `Woke`.
    Sleep(u64),
    /// Stop polling.
    Halt,
}

/// A range read that failed; the tick goes on without it.
#[derive(Debug, PartialEq, Eq)]
pub struct RangeFailure {
    pub range: AddressRange,
    pub error: String,
}

/// What one step of the monitor produced.
#[derive(Debug)]
pub struct StepReport {
    pub changes: Vec<ChangeEvent>,
    pub failure: Option<RangeFailure>,
    pub action: Action,
}

/// The change-detecting poller: a fixed list of ranges, the configured
/// registers for labels, the last value seen at each address, and where the
/// loop stands.
#[derive(Debug)]
pub struct PollingMonitor {
    ranges: Vec<AddressRange>,
    registers: Vec<RegisterDescriptor>,
    table: LastValueTable,
    state: MonitorState,
    delay_ms: u64,
}

/// The state and action that begin a tick.
pub open spec fn tick_start(ranges: Seq<AddressRange>, delay: u64) -> (MonitorState, Action) {
    if ranges.len() > 0 {
        (MonitorState::Reading { index: 0 }, Action::Read(ranges[0]))
    } else {
        (MonitorState::Sleeping, Action::Sleep(delay))
    }
}

/// The state and action after the read of range `i` completed, whatever
/// its outcome: the next range, or the pause once the tick is over.
pub open spec fn after_read(ranges: Seq<AddressRange>, delay: u64, i: int) -> (MonitorState, Action) {
    if i + 1 < ranges.len() {
        (MonitorState::Reading { index: (i + 1) as usize }, Action::Read(ranges[i + 1]))
    } else {
        (MonitorState::Sleeping, Action::Sleep(delay))
    }
}

impl PollingMonitor {
    pub closed spec fn ranges_spec(&self) -> Seq<AddressRange> {
        self.ranges@
    }

    pub closed spec fn registers_spec(&self) -> Seq<RegisterDescriptor> {
        self.registers@
    }

    pub closed spec fn table_spec(&self) -> Map<u16, u16> {
        self.table@
    }

    pub closed spec fn state_spec(&self) -> MonitorState {
        self.state
    }

    pub closed spec fn delay_spec(&self) -> u64 {
        self.delay_ms
    }

    /// A read is only awaited for a range of the list.
    pub open spec fn wf(&self) -> bool {
        match self.state_spec() {
            MonitorState::Reading { index } => index < self.ranges_spec().len(),
            _ => true,
        }
    }

    /// A monitor that has observed nothing and is not started; its pause
    /// between ticks follows the number of configured registers.
    pub fn new(registers: Vec<RegisterDescriptor>, ranges: Vec<AddressRange>) -> (m: PollingMonitor)
        ensures
            m.wf(),
            m.ranges_spec() == ranges@,
            m.registers_spec() == registers@,
            m.table_spec() == Map::<u16, u16>::empty(),
            m.state_spec() == MonitorState::Idle,
            m.delay_spec() as int == delay_spec(registers@.len() as int),
    {
        let delay_ms = inter_tick_delay_ms(registers.len());
        PollingMonitor { ranges, registers, table: LastValueTable::new(), state: MonitorState::Idle, delay_ms }
    }

    /// Where the loop stands.
    pub fn state(&self) -> (s: MonitorState)
        ensures
            s == self.state_spec(),
    {
        self.state
    }

    /// The ranges read in each tick, in order.
    pub fn ranges(&self) -> (r: &Vec<AddressRange>)
        ensures
            r@ == self.ranges_spec(),
    {
        &self.ranges
    }

    /// The configured registers.
    pub fn registers(&self) -> (r: &Vec<RegisterDescriptor>)
        ensures
            r@ == self.registers_spec(),
    {
        &self.registers
    }

    /// The last value observed at each address.
    pub fn table(&self) -> (t: &LastValueTable)
        ensures
            t@ == self.table_spec(),
    {
        &self.table
    }

    /// The pause between ticks, in milliseconds.
    pub fn delay_ms(&self) -> (ms: u64)
        ensures
            ms == self.delay_spec(),
    {
        self.delay_ms
    }

    /// The state and action that begin a tick.
    fn begin_tick(&mut self) -> (a: Action)
        ensures
            (final(self).state_spec(), a) == tick_start(old(self).ranges_spec(), old(self).delay_spec()),
            final(self).ranges_spec() == old(self).ranges_spec(),
            final(self).registers_spec() == old(self).registers_spec(),
            final(self).table_spec() == old(self).table_spec(),
            final(self).delay_spec() == old(self).delay_spec(),
    {
        if self.ranges.len() > 0 {
            self.state = MonitorState::Reading { index: 0 };
            Action::Read(self.ranges[0])
        } else {
            self.state = MonitorState::Sleeping;
            Action::Sleep(self.delay_ms)
        }
    }

    /// Takes one event and says what to do next. `Started` in `Idle` and
    /// `Woke` in `Sleeping` begin a tick; a completed read is diffed into the
    /// table on success, reported as a failure otherwise, and the tick goes
    /// on with the next range either way; `Cancelled`, or an event that the
    /// state does not await, stops the loop. Only a successful read changes
    /// the table.
    pub fn step(&mut self, event: MonitorEvent) -> (r: StepReport)
        requires
            old(self).wf(),
        ensures
            final(self).wf(),
            final(self).ranges_spec() == old(self).ranges_spec(),
            final(self).registers_spec() == old(self).registers_spec(),
            final(self).delay_spec() == old(self).delay_spec(),
            match (old(self).state_spec(), event) {
                (MonitorState::Idle, MonitorEvent::Started) | (MonitorState::Sleeping, MonitorEvent::Woke) => {
                    &&& (final(self).state_spec(), r.action) == tick_start(old(self).ranges_spec(), old(self).delay_spec())
                    &&& final(self).table_spec() == old(self).table_spec()
                    &&& r.changes@.len() == 0
                    &&& r.failure is None
                },
                (MonitorState::Reading { index }, MonitorEvent::ReadDone(Ok(vals))) => {
                    &&& (final(self).state_spec(), r.action) == after_read(old(self).ranges_spec(), old(self).delay_spec(), index as int)
                    &&& final(self).table_spec() == table_after(old(self).table_spec(), vals@)
                    &&& r.changes@ == changes_of(old(self).table_spec(), old(self).registers_spec(), vals@)
                    &&& r.failure is None
                },
                (MonitorState::Reading { index }, MonitorEvent::ReadDone(Err(e))) => {
                    &&& (final(self).state_spec(), r.action) == after_read(old(self).ranges_spec(), old(self).delay_spec(), index as int)
                    &&& final(self).table_spec() == old(self).table_spec()
                    &&& r.changes@.len() == 0
                    &&& r.failure == Some(RangeFailure { range: old(self).ranges_spec()[index as int], error: e })
                },
                _ => {
                    &&& final(self).state_spec() == MonitorState::Stopped
                    &&& r.action == Action::Halt
                    &&& final(self).table_spec() == old(self).table_spec()
                    &&& r.changes@.len() == 0
                    &&& r.failure is None
                },
            },
    {
        match (self.state, event) {
            (MonitorState::Idle, MonitorEvent::Started) | (MonitorState::Sleeping, MonitorEvent::Woke) => {
                let action = self.begin_tick();
                StepReport { changes: Vec::new(), failure: None, action }
            },
            (MonitorState::Reading { index }, MonitorEvent::ReadDone(result)) => {
                assert(index < self.ranges@.len());
                let (changes, failure) = match result {
                    Ok(vals) => (apply_read(&mut self.table, &self.registers, &vals), None),
                    Err(error) => (Vec::new(), Some(RangeFailure { range: self.ranges[index], error })),
                };
                let action = if index < self.ranges.len() - 1 {
                    self.state = MonitorState::Reading { index: index + 1 };
                    Action::Read(self.ranges[index + 1])
                } else {
                    self.state = MonitorState::Sleeping;
                    Action::Sleep(self.delay_ms)
                };
                StepReport { changes, failure, action }
            },
            _ => {
                self.state = MonitorState::Stopped;
                StepReport { changes: Vec::new(), failure: None, action: Action::Halt }
            },
        }
    }
}

} // verus!
