//! Reading order: from top to bottom, and from left to right within a row. Lists of
//! machines are shown in it so that they resemble the desk.

use vstd::prelude::*;

use crate::geometry::Point;

verus! {

/// Whether `a` is read strictly before `b`.
pub open spec fn reads_before(a: Point, b: Point) -> bool {
    a.y < b.y || (a.y == b.y && a.x < b.x)
}

/// `i` put into a list of indices, behind every one whose corner is not read after
/// its own.
pub open spec fn put(list: Seq<int>, corners: Seq<Point>, i: int) -> Seq<int>
    decreases list.len(),
{
    if list.len() == 0 || !reads_before(corners[i], corners[list.last()]) {
        list.push(i)
    } else {
        put(list.drop_last(), corners, i).push(list.last())
    }
}

/// The indices of the first `n` corners in reading order; those at the same place
/// keep their order.
pub open spec fn reading_order(corners: Seq<Point>, n: int) -> Seq<int>
    decreases n,
{
    if n <= 0 {
        Seq::empty()
    } else {
        put(reading_order(corners, n - 1), corners, n - 1)
    }
}

/// Indices as contracts speak of them.
pub open spec fn indices(list: Seq<usize>) -> Seq<int> {
    Seq::new(list.len(), |k: int| list[k] as int)
}

proof fn put_at(list: Seq<int>, corners: Seq<Point>, i: int, at: int)
    requires
        0 <= at <= list.len(),
        at > 0 ==> !reads_before(corners[i], corners[list[at - 1]]),
        forall|k: int|
            at <= k < list.len() ==> reads_before(corners[i], corners[#[trigger] list[k]]),
    ensures
        put(list, corners, i) == list.insert(at, i),
    decreases list.len(),
{
    if at == list.len() {
        assert(list.insert(at, i) =~= list.push(i));
    } else {
        let init = list.drop_last();
        put_at(init, corners, i, at);
        assert(init.insert(at, i).push(list.last()) =~= list.insert(at, i));
    }
}

/// Whether `before` may stand in front of `after`: it is read before it, or is at
/// the same place and came first.
pub open spec fn in_order(corners: Seq<Point>, before: int, after: int) -> bool {
    reads_before(corners[before], corners[after]) || (corners[before] == corners[after] && before
        < after)
}

/// Putting an index into an ordered list keeps it ordered, and adds that index and
/// no other.
proof fn put_keeps_order(list: Seq<int>, corners: Seq<Point>, i: int)
    requires
        forall|a: int, b: int| 0 <= a < b < list.len() ==> in_order(corners, list[a], list[b]),
        forall|a: int| 0 <= a < list.len() ==> 0 <= #[trigger] list[a] < i,
    ensures
        ({
            let out = put(list, corners, i);
            &&& out.len() == list.len() + 1
            &&& forall|a: int, b: int| 0 <= a < b < out.len() ==> in_order(corners, out[a], out[b])
            &&& forall|x: int| out.contains(x) <==> list.contains(x) || x == i
        }),
    decreases list.len(),
{
    let out = put(list, corners, i);
    if list.len() == 0 || !reads_before(corners[i], corners[list.last()]) {
        assert forall|a: int, b: int| 0 <= a < b < out.len() implies in_order(
            corners,
            out[a],
            out[b],
        ) by {
            if b == list.len() {
                assert(out[a] == list[a]);
                assert(list[a] < i);
                if a < list.len() - 1 {
                    assert(in_order(corners, list[a], list[list.len() - 1]));
                }
            }
        }
        assert forall|x: int| out.contains(x) <==> list.contains(x) || x == i by {
            if list.contains(x) {
                let k = choose|k: int| 0 <= k < list.len() && list[k] == x;
                assert(out[k] == x);
            }
            assert(out[list.len() as int] == i);
        }
    } else {
        let init = list.drop_last();
        assert forall|a: int, b: int| 0 <= a < b < init.len() implies in_order(
            corners,
            init[a],
            init[b],
        ) by {
            assert(in_order(corners, list[a], list[b]));
        }
        put_keeps_order(init, corners, i);
        let inner = put(init, corners, i);
        assert forall|a: int, b: int| 0 <= a < b < out.len() implies in_order(
            corners,
            out[a],
            out[b],
        ) by {
            if b == inner.len() {
                assert(inner.contains(inner[a]));
                if inner[a] != i {
                    let k = choose|k: int| 0 <= k < init.len() && init[k] == inner[a];
                    assert(in_order(corners, list[k], list[list.len() - 1]));
                }
            } else {
                assert(in_order(corners, inner[a], inner[b]));
            }
        }
        assert forall|x: int| out.contains(x) <==> list.contains(x) || x == i by {
            if out.contains(x) {
                let k = choose|k: int| 0 <= k < out.len() && out[k] == x;
                if k < inner.len() {
                    assert(inner[k] == x);
                    assert(inner.contains(x));
                    if x != i {
                        let m = choose|m: int| 0 <= m < init.len() && init[m] == x;
                        assert(list[m] == x);
                    }
                } else {
                    assert(list[list.len() - 1] == x);
                }
            }
            if list.contains(x) || x == i {
                if x == list.last() {
                    assert(out[inner.len() as int] == x);
                } else {
                    if x != i {
                        let m = choose|m: int| 0 <= m < list.len() && list[m] == x;
                        assert(init[m] == x);
                    }
                    assert(inner.contains(x));
                    let k = choose|k: int| 0 <= k < inner.len() && inner[k] == x;
                    assert(out[k] == x);
                }
            }
        }
    }
}

/// Reading order lists every corner exactly once, from top to bottom and from left
/// to right, and keeps those at the same place as they came.
pub proof fn reading_order_is_sorted_and_complete(corners: Seq<Point>, n: int)
    requires
        0 <= n <= corners.len(),
    ensures
        reading_order(corners, n).len() == n,
        forall|a: int, b: int|
            0 <= a < b < n ==> in_order(
                corners,
                #[trigger] reading_order(corners, n)[a],
                #[trigger] reading_order(corners, n)[b],
            ),
        forall|x: int| #[trigger] reading_order(corners, n).contains(x) <==> 0 <= x < n,
    decreases n,
{
    if n > 0 {
        reading_order_is_sorted_and_complete(corners, n - 1);
        let list = reading_order(corners, n - 1);
        assert forall|a: int| 0 <= a < list.len() implies 0 <= #[trigger] list[a] < n - 1 by {
            assert(list.contains(list[a]));
        }
        put_keeps_order(list, corners, n - 1);
        assert forall|x: int| #[trigger] reading_order(corners, n).contains(x) <==> 0 <= x < n by {
            assert(put(list, corners, n - 1).contains(x) <==> list.contains(x) || x == n - 1);
        }
    }
}

/// The indices of the corners in reading order.
pub fn in_reading_order(corners: &Vec<Point>) -> (r: Vec<usize>)
    ensures
        indices(r@) == reading_order(corners@, corners@.len() as int),
{
    let mut out: Vec<usize> = Vec::new();
    let mut i: usize = 0;
    assert(indices(out@) =~= Seq::empty());
    while i < corners.len()
        invariant
            i <= corners@.len(),
            indices(out@) == reading_order(corners@, i as int),
            forall|k: int| 0 <= k < out@.len() ==> #[trigger] out@[k] < i,
        decreases corners@.len() - i,
    {
        let ghost list = indices(out@);
        let mut at: usize = out.len();
        while at > 0 && before(corners[i], corners[out[at - 1]])
            invariant
                at <= out@.len(),
                i < corners@.len(),
                list == indices(out@),
                forall|k: int| 0 <= k < out@.len() ==> #[trigger] out@[k] < i,
                forall|k: int|
                    at <= k < list.len() ==> reads_before(
                        corners@[i as int],
                        corners@[#[trigger] list[k]],
                    ),
            decreases at,
        {
            assert(list[at - 1] == out@[at - 1]);
            at = at - 1;
        }
        proof {
            if at > 0 {
                assert(list[at - 1] == out@[at - 1]);
            }
            put_at(list, corners@, i as int, at as int);
        }
        let ghost was = out@;
        out.insert(at, i);
        assert(indices(out@) =~= list.insert(at as int, i as int));
        assert forall|k: int| 0 <= k < out@.len() implies #[trigger] out@[k] < i + 1 by {
            if k < at {
                assert(out@[k] == was[k]);
            } else if k > at {
                assert(out@[k] == was[k - 1]);
            }
        }
        i = i + 1;
    }
    out
}

fn before(a: Point, b: Point) -> (r: bool)
    ensures
        r == reads_before(a, b),
{
    a.y < b.y || (a.y == b.y && a.x < b.x)
}

/// A list in reading order goes down the desk: what comes later is never higher up, and
/// never further left in the same row; what is at the same place keeps its order.
pub proof fn reading_order_goes_down_the_desk(corners: Seq<Point>, a: int, b: int)
    requires
        0 <= a < b < corners.len(),
    ensures
        ({
            let listed = reading_order(corners, corners.len() as int);
            let p = corners[listed[a]];
            let q = corners[listed[b]];
            &&& p.y <= q.y
            &&& p.y == q.y ==> p.x <= q.x
            &&& p.y == q.y && p.x == q.x ==> listed[a] < listed[b]
        }),
{
    let n = corners.len() as int;
    reading_order_is_sorted_and_complete(corners, n);
    let listed = reading_order(corners, n);
    assert(in_order(corners, listed[a], listed[b]));
}

} // verus!
