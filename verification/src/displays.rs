//! The monitor layout of this machine.

use vstd::prelude::*;

use crate::model;
use crate::model::{DisplayInfo, DisplayView, Scale};
use crate::text;

verus! {

/// Whether two layouts differ in any way that matters to the workspace.
///
/// Used to avoid rewriting the document, and bumping its revision on every peer,
/// when a machine restarts with the monitors it already had.
pub fn differ(a: &Vec<DisplayInfo>, b: &Vec<DisplayInfo>) -> (r: bool)
    ensures
        r == !model::displays_equal(model::displays_view(a@), model::displays_view(b@)),
{
    !model::same_displays(a, b)
}

/// `one` put behind every display of a list whose identity does not sort after
/// its own.
pub open spec fn put(list: Seq<DisplayView>, one: DisplayView) -> Seq<DisplayView>
    decreases list.len(),
{
    if list.len() == 0 || !text::text_before(one.id, list.last().id) {
        list.push(one)
    } else {
        put(list.drop_last(), one).push(list.last())
    }
}

/// The displays ordered by identity; those alike keep their order.
pub open spec fn by_identity(list: Seq<DisplayView>) -> Seq<DisplayView>
    decreases list.len(),
{
    if list.len() == 0 {
        list
    } else {
        put(by_identity(list.drop_last()), list.last())
    }
}

proof fn put_at(list: Seq<DisplayView>, one: DisplayView, at: int)
    requires
        0 <= at <= list.len(),
        at > 0 ==> !text::text_before(one.id, list[at - 1].id),
        forall|k: int| at <= k < list.len() ==> text::text_before(one.id, (#[trigger] list[k]).id),
    ensures
        put(list, one) == list.insert(at, one),
    decreases list.len(),
{
    if at == list.len() {
        assert(list.insert(at, one) =~= list.push(one));
    } else {
        let init = list.drop_last();
        put_at(init, one, at);
        assert(init.insert(at, one).push(list.last()) =~= list.insert(at, one));
    }
}

proof fn bytes_order(a: Seq<u8>, b: Seq<u8>)
    ensures
        !(text::bytes_before(a, b) && text::bytes_before(b, a)),
    decreases a.len(),
{
    if a.len() > 0 && b.len() > 0 && a[0] == b[0] {
        bytes_order(a.drop_first(), b.drop_first());
    }
}

proof fn put_is_sound(list: Seq<DisplayView>, one: DisplayView)
    requires
        forall|i: int|
            0 < i < list.len() ==> !text::text_before((#[trigger] list[i]).id, list[i - 1].id),
    ensures
        ({
            let out = put(list, one);
            &&& out.to_multiset() == list.to_multiset().insert(one)
            &&& out.len() == list.len() + 1
            &&& out.last() == one || (list.len() > 0 && out.last() == list.last())
            &&& forall|i: int|
                0 < i < out.len() ==> !text::text_before((#[trigger] out[i]).id, out[i - 1].id)
        }),
    decreases list.len(),
{
    broadcast use vstd::seq_lib::group_to_multiset_ensures;

    let out = put(list, one);
    if list.len() == 0 || !text::text_before(one.id, list.last().id) {
        assert forall|i: int| 0 < i < out.len() implies !text::text_before(
            (#[trigger] out[i]).id,
            out[i - 1].id,
        ) by {
            if i < list.len() {
                assert(out[i] == list[i] && out[i - 1] == list[i - 1]);
            }
        }
    } else {
        let init = list.drop_last();
        assert forall|i: int| 0 < i < init.len() implies !text::text_before(
            (#[trigger] init[i]).id,
            init[i - 1].id,
        ) by {
            assert(init[i] == list[i] && init[i - 1] == list[i - 1]);
        }
        put_is_sound(init, one);
        let inner = put(init, one);
        bytes_order(
            vstd::utf8::encode_utf8(one.id),
            vstd::utf8::encode_utf8(list.last().id),
        );
        assert forall|i: int| 0 < i < out.len() implies !text::text_before(
            (#[trigger] out[i]).id,
            out[i - 1].id,
        ) by {
            if i < inner.len() {
                assert(out[i] == inner[i] && out[i - 1] == inner[i - 1]);
            } else {
                assert(out[i] == list.last() && out[i - 1] == inner.last());
                if init.len() > 0 && inner.last() == init.last() {
                    assert(list[list.len() - 1] == list.last());
                    assert(init.last() == list[list.len() - 2]);
                }
            }
        }
        assert(init.push(list.last()) =~= list);
        assert(out.to_multiset() =~= list.to_multiset().insert(one));
    }
}

/// The displays come out by identity, and they are the ones that went in.
pub proof fn displays_are_sorted_and_complete(list: Seq<DisplayView>)
    ensures
        by_identity(list).to_multiset() == list.to_multiset(),
        forall|i: int|
            0 < i < list.len() ==> !text::text_before(
                (#[trigger] by_identity(list)[i]).id,
                by_identity(list)[i - 1].id,
            ),
        by_identity(list).len() == list.len(),
    decreases list.len(),
{
    broadcast use vstd::seq_lib::group_to_multiset_ensures;

    if list.len() > 0 {
        displays_are_sorted_and_complete(list.drop_last());
        put_is_sound(by_identity(list.drop_last()), list.last());
        assert(list.drop_last().push(list.last()) =~= list);
    }
}

/// Displays in a stable order, so an unchanged layout produces an unchanged record
/// and does not churn the workspace revision on every startup.
pub fn ordered(displays: Vec<DisplayInfo>) -> (r: Vec<DisplayInfo>)
    ensures
        model::displays_view(r@) == by_identity(model::displays_view(displays@)),
{
    let ghost all = model::displays_view(displays@);
    let mut out: Vec<DisplayInfo> = Vec::new();
    let mut i: usize = 0;
    assert(all.take(0) =~= Seq::empty());
    assert(model::displays_view(out@) =~= Seq::empty());
    while i < displays.len()
        invariant
            i <= displays@.len(),
            all == model::displays_view(displays@),
            model::displays_view(out@) == by_identity(all.take(i as int)),
        decreases displays@.len() - i,
    {
        assert(all.take(i + 1).drop_last() =~= all.take(i as int));
        let one = displays[i].clone();
        let ghost list = model::displays_view(out@);
        let mut at: usize = out.len();
        while at > 0 && text::sorts_before(one.id.as_str(), out[at - 1].id.as_str())
            invariant
                at <= out@.len(),
                list == model::displays_view(out@),
                forall|k: int|
                    at <= k < list.len() ==> text::text_before(one@.id, (#[trigger] list[k]).id),
            decreases at,
        {
            assert(list[at - 1].id == out@[at - 1].id@);
            at = at - 1;
        }
        proof {
            if at > 0 {
                assert(list[at - 1].id == out@[at - 1].id@);
            }
            put_at(list, one@, at as int);
        }
        let ghost before = out@;
        let ghost added = one@;
        out.insert(at, one);
        assert(model::displays_view(out@) =~= list.insert(at as int, added));
        i = i + 1;
    }
    assert(all.take(i as int) =~= all);
    out
}

/// The extent of a span from `from` to `to`, zero where it ends before it starts.
fn extent(from: i32, to: i32) -> (r: u32)
    ensures
        r == (if to > from {
            to - from
        } else {
            0
        }),
{
    if to > from {
        (to as i64 - from as i64) as u32
    } else {
        0
    }
}

/// A monitor as a display.
pub open spec fn monitor_view(
    device: Seq<char>,
    left: i32,
    top: i32,
    right: i32,
    bottom: i32,
    scale: Scale,
    flags: u32,
) -> DisplayView {
    DisplayView {
        id: device,
        name: device,
        x: left,
        y: top,
        width: (if right > left {
            right - left
        } else {
            0
        }) as u32,
        height: (if bottom > top {
            bottom - top
        } else {
            0
        }) as u32,
        scale,
        primary: flags % 2 == 1,
    }
}

/// A monitor as a display: its device name is both its identity and its name, and
/// the lowest bit of its flags says whether it is the primary one.
pub fn monitor(
    device: String,
    left: i32,
    top: i32,
    right: i32,
    bottom: i32,
    scale: Scale,
    flags: u32,
) -> (r: DisplayInfo)
    ensures
        r@ == monitor_view(device@, left, top, right, bottom, scale, flags),
{
    DisplayInfo {
        id: device.clone(),
        name: device,
        x: left,
        y: top,
        width: extent(left, right),
        height: extent(top, bottom),
        scale,
        primary: flags % 2 == 1,
    }
}

/// A display of a Mac, known by its number.
pub open spec fn mac_display_view(
    id: u32,
    main: u32,
    x: i32,
    y: i32,
    width: u32,
    height: u32,
    scale: Scale,
) -> DisplayView {
    DisplayView {
        id: "display-"@ + text::decimal(id as nat),
        name: if id == main {
            "Main display"@
        } else {
            "Display "@ + text::decimal(id as nat)
        },
        x,
        y,
        width,
        height,
        scale,
        primary: id == main,
    }
}

/// A display of a Mac, known by its number; `main` is the number of the main one.
pub fn mac_display(
    id: u32,
    main: u32,
    x: i32,
    y: i32,
    width: u32,
    height: u32,
    scale: Scale,
) -> (r: DisplayInfo)
    ensures
        r@ == mac_display_view(id, main, x, y, width, height, scale),
{
    let number = text::decimal_text(id as u64);
    DisplayInfo {
        id: text::joined("display-", number.as_str()),
        name: if id == main {
            String::from_str("Main display")
        } else {
            text::joined("Display ", number.as_str())
        },
        x,
        y,
        width,
        height,
        scale,
        primary: id == main,
    }
}

/// A monitor covers exactly the points between its edges, the left and the top one
/// included and the others not, and is the primary one exactly if the lowest bit of its
/// flags is set.
pub proof fn a_monitor_covers_what_lies_between_its_edges(
    device: Seq<char>,
    left: i32,
    top: i32,
    right: i32,
    bottom: i32,
    scale: Scale,
    flags: u32,
    p: crate::geometry::Point,
)
    requires
        left <= right,
        top <= bottom,
        right - left <= i32::MAX,
        bottom - top <= i32::MAX,
    ensures
        ({
            let d = monitor_view(device, left, top, right, bottom, scale, flags);
            &&& d.area().covers(p) <==> left <= p.x < right && top <= p.y < bottom
            &&& d.primary <==> flags & 1u32 == 1
            &&& d.id == device
            &&& d.scale == scale
        }),
{
    assert(flags & 1u32 == flags % 2) by (bit_vector);
}

/// Different displays of a Mac have different identities, whatever else they share, so
/// that each is found again; exactly the main one is the primary one.
pub proof fn displays_of_a_mac_are_told_apart(
    a: DisplayView,
    b: DisplayView,
    i: u32,
    j: u32,
    main: u32,
)
    requires
        a == mac_display_view(i, main, a.x, a.y, a.width, a.height, a.scale),
        b == mac_display_view(j, main, b.x, b.y, b.width, b.height, b.scale),
        i != j,
    ensures
        a.id != b.id,
        !(a.primary && b.primary),
        a.primary <==> i == main,
{
    let head = "display-"@;
    if a.id == b.id {
        let x = text::decimal(i as nat);
        let y = text::decimal(j as nat);
        assert((head + x).skip(head.len() as int) =~= x);
        assert((head + y).skip(head.len() as int) =~= y);
        text::decimals_tell_numbers_apart(i as nat, j as nat);
    }
}

} // verus!
