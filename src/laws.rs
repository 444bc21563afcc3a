use vstd::prelude::*;

use crate::config::RegisterDescriptor;
use crate::monitor::{changes_of, label_of, table_after, ChangeEvent, RegisterValue};
use crate::table::stored_value;

verus! {

/// No value of `vals` is for address `a`.
pub open spec fn not_read(vals: Seq<RegisterValue>, a: u16) -> bool {
    forall|j: int| 0 <= j < vals.len() ==> (#[trigger] vals[j]).address != a
}

/// No two values of `vals` are for the same address, as in one range read.
pub open spec fn distinct_addresses(vals: Seq<RegisterValue>) -> bool {
    forall|i: int, j: int|
        0 <= i < vals.len() && 0 <= j < vals.len() && i != j ==> (#[trigger] vals[i]).address != (#[trigger] vals[j]).address
}

/// How many of the notifications are for address `a`.
pub open spec fn notifications_for(cs: Seq<ChangeEvent>, a: u16) -> nat
    decreases cs.len(),
{
    if cs.len() == 0 {
        0
    } else {
        notifications_for(cs.drop_last(), a) + if cs.last().address == a { 1nat } else { 0nat }
    }
}

/// The table after one tick: each read outcome in turn, `Some` for the
/// values of a successful read, `None` for a failed one, which changes nothing.
pub open spec fn tick_table(m: Map<u16, u16>, outcomes: Seq<Option<Seq<RegisterValue>>>) -> Map<u16, u16>
    decreases outcomes.len(),
{
    if outcomes.len() == 0 {
        m
    } else {
        let before = tick_table(m, outcomes.drop_last());
        match outcomes.last() {
            Some(vals) => table_after(before, vals),
            None => before,
        }
    }
}

/// Recording values for other addresses leaves the entry of `a` as it was.
pub proof fn lemma_entry_untouched(m: Map<u16, u16>, vals: Seq<RegisterValue>, a: u16)
    requires
        not_read(vals, a),
    ensures
        table_after(m, vals).contains_key(a) == m.contains_key(a),
        stored_value(table_after(m, vals), a) == stored_value(m, a),
    decreases vals.len(),
{
    if vals.len() > 0 {
        assert(vals.last() == vals[vals.len() - 1]);
        lemma_entry_untouched(m, vals.drop_last(), a);
    }
}

/// No notification is emitted for an address that was not read.
pub proof fn lemma_no_notification_unread(m: Map<u16, u16>, ds: Seq<RegisterDescriptor>, vals: Seq<RegisterValue>, a: u16)
    requires
        not_read(vals, a),
    ensures
        notifications_for(changes_of(m, ds, vals), a) == 0,
    decreases vals.len(),
{
    if vals.len() > 0 {
        assert(vals.last() == vals[vals.len() - 1]);
        lemma_no_notification_unread(m, ds, vals.drop_last(), a);
        let cs = changes_of(m, ds, vals);
        let earlier = changes_of(m, ds, vals.drop_last());
        if cs != earlier {
            assert(cs.drop_last() == earlier);
        }
    }
}

/// Reading back exactly the stored values emits no notification and leaves
/// the table as it was, in size and in values.
pub proof fn lemma_diff_idempotent(m: Map<u16, u16>, ds: Seq<RegisterDescriptor>, vals: Seq<RegisterValue>)
    requires
        forall|j: int|
            0 <= j < vals.len() ==> m.contains_key((#[trigger] vals[j]).address) && m[vals[j].address] == vals[j].value,
    ensures
        changes_of(m, ds, vals).len() == 0,
        table_after(m, vals) == m,
    decreases vals.len(),
{
    if vals.len() > 0 {
        let v = vals.last();
        assert(v == vals[vals.len() - 1]);
        lemma_diff_idempotent(m, ds, vals.drop_last());
        assert(m.insert(v.address, v.value) =~= m);
    }
}

/// A failed read changes no entry: over a tick, an address that no
/// successful read returned keeps its entry, whatever the other ranges did.
pub proof fn lemma_failed_range_untouched(m: Map<u16, u16>, outcomes: Seq<Option<Seq<RegisterValue>>>, a: u16)
    requires
        forall|i: int| 0 <= i < outcomes.len() && (#[trigger] outcomes[i]) is Some ==> not_read(outcomes[i]->0, a),
    ensures
        tick_table(m, outcomes).contains_key(a) == m.contains_key(a),
        stored_value(tick_table(m, outcomes), a) == stored_value(m, a),
    decreases outcomes.len(),
{
    if outcomes.len() > 0 {
        assert(outcomes.last() == outcomes[outcomes.len() - 1]);
        lemma_failed_range_untouched(m, outcomes.drop_last(), a);
        match outcomes.last() {
            Some(vals) => lemma_entry_untouched(tick_table(m, outcomes.drop_last()), vals, a),
            None => {},
        }
    }
}

/// The first successful read of a value other than 0 at an address with no
/// entry emits exactly one notification for it, from 0 to that value.
pub proof fn lemma_first_observation(m: Map<u16, u16>, ds: Seq<RegisterDescriptor>, vals: Seq<RegisterValue>, i: int)
    requires
        distinct_addresses(vals),
        0 <= i < vals.len(),
        !m.contains_key(vals[i].address),
        vals[i].value != 0,
    ensures
        notifications_for(changes_of(m, ds, vals), vals[i].address) == 1,
        changes_of(m, ds, vals).contains(
            ChangeEvent {
                address: vals[i].address,
                label: label_of(ds, vals[i].address),
                old_value: 0,
                new_value: vals[i].value,
            },
        ),
    decreases vals.len(),
{
    let a = vals[i].address;
    let prev = vals.drop_last();
    let cs = changes_of(m, ds, vals);
    let earlier = changes_of(m, ds, prev);
    let ev = ChangeEvent { address: a, label: label_of(ds, a), old_value: 0, new_value: vals[i].value };
    if i == vals.len() - 1 {
        assert forall|j: int| 0 <= j < prev.len() implies (#[trigger] prev[j]).address != a by {
            assert(prev[j] == vals[j]);
        }
        lemma_entry_untouched(m, prev, a);
        lemma_no_notification_unread(m, ds, prev, a);
        assert(cs == earlier.push(ev));
        assert(cs.drop_last() == earlier);
        assert(cs[cs.len() - 1] == ev);
    } else {
        assert(distinct_addresses(prev));
        assert(prev[i] == vals[i]);
        lemma_first_observation(m, ds, prev, i);
        assert(vals.last().address != a);
        let k = choose|k: int| 0 <= k < earlier.len() && earlier[k] == ev;
        if cs != earlier {
            assert(cs.drop_last() == earlier);
            assert(cs[k] == ev);
        }
    }
}

} // verus!
