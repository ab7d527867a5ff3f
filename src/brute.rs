use vstd::prelude::*;

use crate::problem::VariableKind;

verus! {

/// The integer range that brute force sweeps for a variable. A continuous variable
/// has no integer range of its own and is held at zero.
pub open spec fn spec_bounds(kind: VariableKind) -> (i32, i32) {
    match kind {
        VariableKind::Continuous => (0, 0),
        VariableKind::Integer(min, max) => (min, max),
    }
}

pub fn integer_bounds(kind: VariableKind) -> (b: (i32, i32))
    ensures
        b == spec_bounds(kind),
{
    match kind {
        VariableKind::Continuous => (0, 0),
        VariableKind::Integer(min, max) => (min, max),
    }
}

/// `p` assigns each variable a value inside its inclusive range.
pub open spec fn in_box(p: Seq<i32>, bounds: Seq<(i32, i32)>) -> bool {
    &&& p.len() == bounds.len()
    &&& forall|i: int| 0 <= i < p.len() ==> bounds[i].0 <= #[trigger] p[i] <= bounds[i].1
}

/// `p` comes before `q` in the order of enumeration: at the first variable where
/// they differ, `p` holds the smaller value.
pub open spec fn lex_lt(p: Seq<i32>, q: Seq<i32>) -> bool {
    exists|k: int|
        0 <= k < p.len() && k < q.len() && p[k] < q[k] && (forall|i: int|
            0 <= i < k ==> #[trigger] p[i] == q[i])
}

/// The first point of the enumeration, with every variable at its minimum; `None`
/// when some range is empty, so that there is no point at all.
pub fn first_point(bounds: &[(i32, i32)]) -> (r: Option<Vec<i32>>)
    ensures
        r matches Some(p) ==> p@.len() == bounds@.len() && (forall|i: int|
            0 <= i < p@.len() ==> #[trigger] p@[i] == bounds@[i].0) && in_box(p@, bounds@)
            && forall|q: Seq<i32>|
            in_box(q, bounds@) ==> !lex_lt(q, p@),
        r is None <==> exists|i: int| 0 <= i < bounds@.len() && (#[trigger] bounds@[i]).0 > bounds@[i].1,
{
    let mut p: Vec<i32> = Vec::new();
    let mut i: usize = 0;
    while i < bounds.len()
        invariant
            0 <= i <= bounds@.len(),
            p@.len() == i,
            forall|k: int| 0 <= k < i ==> #[trigger] p@[k] == bounds@[k].0,
            forall|k: int| 0 <= k < i ==> (#[trigger] bounds@[k]).0 <= bounds@[k].1,
        decreases bounds@.len() - i,
    {
        let (min, max) = bounds[i];
        if min > max {
            return None;
        }
        p.push(min);
        i = i + 1;
    }
    assert forall|q: Seq<i32>| in_box(q, bounds@) implies !lex_lt(q, p@) by {
        if lex_lt(q, p@) {
            let k = choose|k: int|
                0 <= k < q.len() && k < p@.len() && q[k] < p@[k] && (forall|i: int|
                    0 <= i < k ==> #[trigger] q[i] == p@[i]);
            assert(bounds@[k].0 <= q[k]);
        }
    }
    Some(p)
}

/// Moves `point` to the next point of the enumeration: the last variable that is
/// below its maximum goes up by one and every variable after it returns to its
/// minimum. Returns false, leaving `point` as it was, when `point` is the last one.
pub fn next_point(point: &mut Vec<i32>, bounds: &[(i32, i32)]) -> (more: bool)
    requires
        in_box(old(point)@, bounds@),
    ensures
        more ==> in_box(final(point)@, bounds@) && lex_lt(old(point)@, final(point)@)
            && forall|q: Seq<i32>|
            in_box(q, bounds@) && lex_lt(old(point)@, q) ==> !lex_lt(q, final(point)@),
        !more ==> final(point)@ == old(point)@ && forall|q: Seq<i32>|
            in_box(q, bounds@) ==> !lex_lt(old(point)@, q),
{
    let ghost p0 = point@;
    let mut k: usize = point.len();
    while k > 0 && point[k - 1] >= bounds[k - 1].1
        invariant
            0 <= k <= p0.len(),
            point@ == p0,
            in_box(p0, bounds@),
            forall|i: int| k <= i < p0.len() ==> #[trigger] p0[i] == bounds@[i].1,
        decreases k,
    {
        k = k - 1;
    }
    if k == 0 {
        assert forall|q: Seq<i32>| in_box(q, bounds@) implies !lex_lt(p0, q) by {
            if lex_lt(p0, q) {
                let j = choose|j: int|
                    0 <= j < p0.len() && j < q.len() && p0[j] < q[j] && (forall|i: int|
                        0 <= i < j ==> #[trigger] p0[i] == q[i]);
                assert(q[j] <= bounds@[j].1);
            }
        }
        return false;
    }
    let pos: usize = k - 1;
    assert(p0[pos as int] < bounds@[pos as int].1);
    let bumped = point[pos] + 1;
    point.set(pos, bumped);
    let mut i: usize = k;
    while i < point.len()
        invariant
            k <= i <= p0.len(),
            pos == k - 1,
            point@.len() == p0.len(),
            in_box(p0, bounds@),
            forall|j: int| 0 <= j < pos ==> #[trigger] point@[j] == p0[j],
            point@[pos as int] == p0[pos as int] + 1,
            forall|j: int| k <= j < i ==> #[trigger] point@[j] == bounds@[j].0,
            forall|j: int| i <= j < p0.len() ==> #[trigger] point@[j] == p0[j],
        decreases p0.len() - i,
    {
        let min = bounds[i].0;
        point.set(i, min);
        i = i + 1;
    }
    let ghost p1 = point@;
    assert(in_box(p1, bounds@)) by {
        assert forall|j: int| 0 <= j < p1.len() implies bounds@[j].0 <= #[trigger] p1[j]
            <= bounds@[j].1 by {
            if j < pos {
                assert(p1[j] == p0[j]);
            } else if j > pos {
                assert(p1[j] == bounds@[j].0);
                assert(bounds@[j].0 <= p0[j]);
            }
        }
    }
    assert(lex_lt(p0, p1)) by {
        assert(forall|j: int| 0 <= j < pos ==> #[trigger] p0[j] == p1[j]);
    }
    assert forall|q: Seq<i32>| in_box(q, bounds@) && lex_lt(p0, q) implies !lex_lt(q, p1) by {
        let j = choose|j: int|
            0 <= j < p0.len() && j < q.len() && p0[j] < q[j] && (forall|i: int|
                0 <= i < j ==> #[trigger] p0[i] == q[i]);
        if lex_lt(q, p1) {
            let m = choose|m: int|
                0 <= m < q.len() && m < p1.len() && q[m] < p1[m] && (forall|i: int|
                    0 <= i < m ==> #[trigger] q[i] == p1[i]);
            if j > pos {
                assert(q[j] <= bounds@[j].1);
            } else if m < j {
                assert(q[m] == p0[m]);
            } else if j < m {
                assert(q[j] == p1[j]);
            } else {
                assert(j == m);
                if j == pos {
                } else {
                    assert(q[j] == p0[j]);
                }
            }
            if m > pos {
                assert(bounds@[m].0 <= q[m]);
            }
        }
    }
    true
}

proof fn lemma_first_difference(p: Seq<i32>, q: Seq<i32>, i: int)
    requires
        p.len() == q.len(),
        0 <= i <= p.len(),
        forall|j: int| 0 <= j < i ==> #[trigger] p[j] == q[j],
        p != q,
    ensures
        exists|k: int|
            0 <= k < p.len() && p[k] != q[k] && (forall|j: int| 0 <= j < k ==> #[trigger] p[j] == q[j]),
    decreases p.len() - i,
{
    if i == p.len() {
        assert(p =~= q);
    } else if p[i] != q[i] {
        assert(forall|j: int| 0 <= j < i ==> #[trigger] p[j] == q[j]);
    } else {
        lemma_first_difference(p, q, i + 1);
    }
}

/// Two different points of the same box are always ordered one way or the other.
/// With `first_point` giving the least point and `next_point` stepping to the next
/// one with nothing in between, the sweep therefore meets every point of the box,
/// each once.
pub proof fn lemma_sweep_order_total(p: Seq<i32>, q: Seq<i32>, bounds: Seq<(i32, i32)>)
    requires
        in_box(p, bounds),
        in_box(q, bounds),
        p != q,
    ensures
        lex_lt(p, q) || lex_lt(q, p),
{
    lemma_first_difference(p, q, 0);
    let k = choose|k: int|
        0 <= k < p.len() && p[k] != q[k] && (forall|j: int| 0 <= j < k ==> #[trigger] p[j] == q[j]);
    if p[k] < q[k] {
        assert(lex_lt(p, q));
    } else {
        assert(forall|j: int| 0 <= j < k ==> #[trigger] q[j] == p[j]);
        assert(lex_lt(q, p));
    }
}

} // verus!
