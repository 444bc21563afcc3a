use vstd::prelude::*;

verus! {

/// The contiguous interval of register addresses `[start, start + count)`.
#[derive(Clone, Copy, Debug, PartialEq, Eq, Structural)]
pub struct AddressRange {
    pub start: u16,
    pub count: u32,
}

impl AddressRange {
    /// One past the last address of the range.
    pub open spec fn end(self) -> int {
        self.start as int + self.count as int
    }

    pub open spec fn contains(self, a: int) -> bool {
        self.start as int <= a < self.end()
    }

    /// Non-empty and within the 16-bit address space.
    pub open spec fn wf(self) -> bool {
        self.count >= 1 && self.end() <= 0x10000
    }
}

/// Two ranges that neither overlap nor touch.
pub open spec fn apart(x: AddressRange, y: AddressRange) -> bool {
    x.end() < y.start as int || y.end() < x.start as int
}

/// Every range is well formed and no two ranges overlap or touch, so each
/// range is a maximal run of the covered addresses.
pub open spec fn well_separated(rs: Seq<AddressRange>) -> bool {
    &&& forall|i: int| 0 <= i < rs.len() ==> (#[trigger] rs[i]).wf()
    &&& forall|i: int, j: int|
        0 <= i < rs.len() && 0 <= j < rs.len() && i != j ==> apart(#[trigger] rs[i], #[trigger] rs[j])
}

/// Some range of `rs` holds address `a`.
pub open spec fn covered(rs: Seq<AddressRange>, a: int) -> bool {
    exists|i: int| 0 <= i < rs.len() && (#[trigger] rs[i]).contains(a)
}

/// Index of a range that ends right before `k`, or -1.
pub open spec fn index_ending_at(rs: Seq<AddressRange>, k: int) -> int {
    if exists|i: int| 0 <= i < rs.len() && (#[trigger] rs[i]).end() == k {
        choose|i: int| 0 <= i < rs.len() && (#[trigger] rs[i]).end() == k
    } else {
        -1
    }
}

/// Index of a range that starts at `k`, or -1.
pub open spec fn index_starting_at(rs: Seq<AddressRange>, k: int) -> int {
    if exists|i: int| 0 <= i < rs.len() && (#[trigger] rs[i]).start as int == k {
        choose|i: int| 0 <= i < rs.len() && (#[trigger] rs[i]).start as int == k
    } else {
        -1
    }
}

/// Adds address `k` to the ranges: nothing changes if `k` is already covered;
/// a range ending at `k` grows by one, a range starting at `k + 1` moves its
/// start down to `k`, and where both exist they merge into one range that
/// takes the lower one's place. Otherwise `{k, 1}` is appended.
pub open spec fn insert_range_spec(rs: Seq<AddressRange>, k: u16) -> Seq<AddressRange> {
    if covered(rs, k as int) {
        rs
    } else {
        let lo = index_ending_at(rs, k as int);
        let hi = index_starting_at(rs, k as int + 1);
        if lo >= 0 && hi >= 0 {
            rs.update(
                lo,
                AddressRange { start: rs[lo].start, count: (rs[lo].count + 1 + rs[hi].count) as u32 },
            ).remove(hi)
        } else if lo >= 0 {
            rs.update(lo, AddressRange { start: rs[lo].start, count: (rs[lo].count + 1) as u32 })
        } else if hi >= 0 {
            rs.update(hi, AddressRange { start: k, count: (rs[hi].count + 1) as u32 })
        } else {
            rs.push(AddressRange { start: k, count: 1 })
        }
    }
}

/// The ranges built from `addrs`, taken in order.
pub open spec fn coalesce_spec(addrs: Seq<u16>) -> Seq<AddressRange>
    decreases addrs.len(),
{
    if addrs.len() == 0 {
        Seq::empty()
    } else {
        insert_range_spec(coalesce_spec(addrs.drop_last()), addrs.last())
    }
}

proof fn lemma_insert_range(rs: Seq<AddressRange>, k: u16)
    requires
        well_separated(rs),
    ensures
        well_separated(insert_range_spec(rs, k)),
        forall|a: int| covered(insert_range_spec(rs, k), a) <==> (covered(rs, a) || a == k as int),
{
    let r2 = insert_range_spec(rs, k);
    let kk = k as int;
    if covered(rs, kk) {
        return;
    }
    let lo = index_ending_at(rs, kk);
    let hi = index_starting_at(rs, kk + 1);
    if lo >= 0 && hi >= 0 {
        let m = AddressRange { start: rs[lo].start, count: (rs[lo].count + 1 + rs[hi].count) as u32 };
        let r1 = rs.update(lo, m);
        assert(lo != hi);
        assert(r2 == r1.remove(hi));
        assert forall|i: int| 0 <= i < r2.len() implies (#[trigger] r2[i]).wf() by {
            if i < hi {
                assert(r2[i] == r1[i]);
            } else {
                assert(r2[i] == r1[i + 1]);
            }
        }
        assert forall|i: int, j: int|
            0 <= i < r2.len() && 0 <= j < r2.len() && i != j implies apart(
                #[trigger] r2[i],
                #[trigger] r2[j],
            ) by {
            let ii = if i < hi { i } else { i + 1 };
            let jj = if j < hi { j } else { j + 1 };
            assert(r2[i] == r1[ii]);
            assert(r2[j] == r1[jj]);
            assert(apart(rs[ii], rs[jj]));
            if ii != lo {
                assert(apart(rs[ii], rs[lo]));
                assert(apart(rs[ii], rs[hi]));
                assert(!rs[ii].contains(kk));
            }
            if jj != lo {
                assert(apart(rs[jj], rs[lo]));
                assert(apart(rs[jj], rs[hi]));
                assert(!rs[jj].contains(kk));
            }
        }
        assert forall|a: int| covered(r2, a) <==> (covered(rs, a) || a == kk) by {
            if covered(r2, a) {
                let i = choose|i: int| 0 <= i < r2.len() && (#[trigger] r2[i]).contains(a);
                let ii = if i < hi { i } else { i + 1 };
                assert(r2[i] == r1[ii]);
                if ii != lo {
                    assert(rs[ii].contains(a));
                } else if a != kk {
                    if a < kk {
                        assert(rs[lo].contains(a));
                    } else {
                        assert(rs[hi].contains(a));
                    }
                }
            }
            if covered(rs, a) || a == kk {
                let ilo = if lo < hi { lo } else { lo - 1 };
                assert(r2[ilo] == m);
                if a == kk {
                    assert(r2[ilo].contains(a));
                } else {
                    let i = choose|i: int| 0 <= i < rs.len() && (#[trigger] rs[i]).contains(a);
                    if i == lo || i == hi {
                        assert(r2[ilo].contains(a));
                    } else {
                        let i2 = if i < hi { i } else { i - 1 };
                        assert(r2[i2] == rs[i]);
                        assert(r2[i2].contains(a));
                    }
                }
            }
        }
    } else if lo >= 0 {
        let m = AddressRange { start: rs[lo].start, count: (rs[lo].count + 1) as u32 };
        assert(r2 == rs.update(lo, m));
        assert forall|i: int| 0 <= i < rs.len() && i != lo implies apart(#[trigger] rs[i], m) by {
            assert(apart(rs[i], rs[lo]));
            assert(!rs[i].contains(kk));
            assert(rs[i].start as int != kk + 1);
        }
        assert forall|a: int| covered(r2, a) <==> (covered(rs, a) || a == kk) by {
            if covered(r2, a) {
                let i = choose|i: int| 0 <= i < r2.len() && (#[trigger] r2[i]).contains(a);
                if i != lo || a != kk {
                    assert(rs[i].contains(a));
                }
            }
            if covered(rs, a) || a == kk {
                if a == kk {
                    assert(r2[lo].contains(a));
                } else {
                    let i = choose|i: int| 0 <= i < rs.len() && (#[trigger] rs[i]).contains(a);
                    assert(r2[i].contains(a));
                }
            }
        }
    } else if hi >= 0 {
        let m = AddressRange { start: k, count: (rs[hi].count + 1) as u32 };
        assert(r2 == rs.update(hi, m));
        assert forall|i: int| 0 <= i < rs.len() && i != hi implies apart(#[trigger] rs[i], m) by {
            assert(apart(rs[i], rs[hi]));
            assert(!rs[i].contains(kk));
            assert(rs[i].end() != kk);
        }
        assert forall|a: int| covered(r2, a) <==> (covered(rs, a) || a == kk) by {
            if covered(r2, a) {
                let i = choose|i: int| 0 <= i < r2.len() && (#[trigger] r2[i]).contains(a);
                if i != hi || a != kk {
                    assert(rs[i].contains(a));
                }
            }
            if covered(rs, a) || a == kk {
                if a == kk {
                    assert(r2[hi].contains(a));
                } else {
                    let i = choose|i: int| 0 <= i < rs.len() && (#[trigger] rs[i]).contains(a);
                    assert(r2[i].contains(a));
                }
            }
        }
    } else {
        let m = AddressRange { start: k, count: 1 };
        assert(r2 == rs.push(m));
        assert forall|i: int| 0 <= i < rs.len() implies apart(#[trigger] rs[i], m) by {
            assert(!rs[i].contains(kk));
            assert(rs[i].end() != kk);
            assert(rs[i].start as int != kk + 1);
        }
        assert forall|a: int| covered(r2, a) <==> (covered(rs, a) || a == kk) by {
            if covered(r2, a) {
                let i = choose|i: int| 0 <= i < r2.len() && (#[trigger] r2[i]).contains(a);
                if i < rs.len() {
                    assert(rs[i].contains(a));
                }
            }
            if covered(rs, a) || a == kk {
                if a == kk {
                    assert(r2[rs.len() as int].contains(a));
                } else {
                    let i = choose|i: int| 0 <= i < rs.len() && (#[trigger] rs[i]).contains(a);
                    assert(r2[i].contains(a));
                }
            }
        }
    }
}

/// The ranges built from any sequence of addresses cover exactly the
/// addresses given, and no two of them overlap (nor even touch).
pub proof fn lemma_coalesce_partition(addrs: Seq<u16>)
    ensures
        well_separated(coalesce_spec(addrs)),
        forall|a: int| covered(coalesce_spec(addrs), a) <==> (exists|i: int| 0 <= i < addrs.len() && addrs[i] as int == a),
    decreases addrs.len(),
{
    if addrs.len() > 0 {
        let prev = addrs.drop_last();
        lemma_coalesce_partition(prev);
        lemma_insert_range(coalesce_spec(prev), addrs.last());
        assert(coalesce_spec(addrs) == insert_range_spec(coalesce_spec(prev), addrs.last()));
        assert forall|a: int| covered(coalesce_spec(addrs), a) <==> (exists|i: int| 0 <= i < addrs.len() && addrs[i] as int == a) by {
            if exists|i: int| 0 <= i < addrs.len() && addrs[i] as int == a {
                let i = choose|i: int| 0 <= i < addrs.len() && addrs[i] as int == a;
                if i < prev.len() {
                    assert(prev[i] as int == a);
                } else {
                    assert(addrs.last() as int == a);
                }
            }
            let cur = insert_range_spec(coalesce_spec(prev), addrs.last());
            assert(covered(coalesce_spec(addrs), a) == covered(cur, a));
            assert(covered(cur, a) <==> (covered(coalesce_spec(prev), a) || a == addrs.last() as int));
            assert(covered(coalesce_spec(prev), a) <==> (exists|i: int| 0 <= i < prev.len() && prev[i] as int == a));
            if a == addrs.last() as int {
                assert(addrs[addrs.len() - 1] as int == a);
            }
            if exists|i: int| 0 <= i < prev.len() && prev[i] as int == a {
                let i = choose|i: int| 0 <= i < prev.len() && prev[i] as int == a;
                assert(addrs[i] as int == a);
            }
        }
    }
}

/// Adds address `k` to `ranges` as `insert_range_spec` says.
fn insert_address(ranges: &mut Vec<AddressRange>, k: u16)
    requires
        well_separated(old(ranges)@),
    ensures
        final(ranges)@ == insert_range_spec(old(ranges)@, k),
{
    let ghost rs = ranges@;
    let ghost kk = k as int;
    let n = ranges.len();
    let key = k as u32;
    let mut lo: usize = n;
    let mut hi: usize = n;
    let mut inside = false;
    let mut i: usize = 0;
    while i < n
        invariant
            ranges@ == rs,
            n == rs.len(),
            well_separated(rs),
            key == k as u32,
            kk == k as int,
            0 <= i <= n,
            lo <= n,
            hi <= n,
            inside <==> exists|j: int| 0 <= j < i && (#[trigger] rs[j]).contains(kk),
            lo < n ==> lo < i && rs[lo as int].end() == kk,
            lo == n ==> forall|j: int| 0 <= j < i ==> (#[trigger] rs[j]).end() != kk,
            hi < n ==> hi < i && rs[hi as int].start as int == kk + 1,
            hi == n ==> forall|j: int| 0 <= j < i ==> (#[trigger] rs[j]).start as int != kk + 1,
        decreases n - i,
    {
        let r = ranges[i];
        assert(r == rs[i as int] && r.wf());
        let s = r.start as u32;
        let e = s + r.count;
        if s <= key && key < e {
            assert(rs[i as int].contains(kk));
            inside = true;
        }
        if e == key {
            lo = i;
        }
        if s == key + 1 {
            hi = i;
        }
        i += 1;
    }
    if inside {
        return;
    }
    proof {
        assert(!covered(rs, kk));
        if lo < n {
            let c = index_ending_at(rs, kk);
            assert(rs[lo as int].end() == kk);
            assert(0 <= c < rs.len() && rs[c].end() == kk);
            if c != lo as int {
                assert(apart(rs[c], rs[lo as int]));
            }
        } else {
            assert(index_ending_at(rs, kk) == -1);
        }
        if hi < n {
            let c = index_starting_at(rs, kk + 1);
            assert(rs[hi as int].start as int == kk + 1);
            assert(0 <= c < rs.len() && rs[c].start as int == kk + 1);
            if c != hi as int {
                assert(apart(rs[c], rs[hi as int]));
            }
        } else {
            assert(index_starting_at(rs, kk + 1) == -1);
        }
    }
    if lo < n && hi < n {
        let a = ranges[lo];
        let b = ranges[hi];
        assert(a.wf() && b.wf());
        ranges.set(lo, AddressRange { start: a.start, count: a.count + 1 + b.count });
        ranges.remove(hi);
    } else if lo < n {
        let a = ranges[lo];
        assert(a.wf() && a.end() == kk);
        ranges.set(lo, AddressRange { start: a.start, count: a.count + 1 });
    } else if hi < n {
        let b = ranges[hi];
        assert(b.wf());
        ranges.set(hi, AddressRange { start: k, count: b.count + 1 });
    } else {
        ranges.push(AddressRange { start: k, count: 1 });
    }
}

/// Coalesces register addresses, taken in the order given, into contiguous
/// ranges: the result covers exactly the given addresses (duplicates are
/// absorbed), and no two ranges overlap or touch.
pub fn coalesce_addresses(addrs: &Vec<u16>) -> (r: Vec<AddressRange>)
    ensures
        r@ == coalesce_spec(addrs@),
        well_separated(r@),
        forall|a: int| covered(r@, a) <==> (exists|i: int| 0 <= i < addrs@.len() && addrs@[i] as int == a),
{
    let mut out: Vec<AddressRange> = Vec::new();
    let mut i: usize = 0;
    while i < addrs.len()
        invariant
            0 <= i <= addrs.len(),
            out@ == coalesce_spec(addrs@.subrange(0, i as int)),
        decreases addrs.len() - i,
    {
        proof {
            lemma_coalesce_partition(addrs@.subrange(0, i as int));
            assert(addrs@.subrange(0, i as int + 1).drop_last() == addrs@.subrange(0, i as int));
        }
        insert_address(&mut out, addrs[i]);
        i += 1;
    }
    proof {
        assert(addrs@.subrange(0, addrs@.len() as int) == addrs@);
        lemma_coalesce_partition(addrs@);
    }
    out
}

} // verus!
