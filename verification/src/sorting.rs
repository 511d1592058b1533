//! The order of streams and their displays: the primary display first, then the rest in the
//! order of the layout.
use crate::capturable::Display;
use crate::display::{Displays, WaylandDisplayInfo};
use crate::stream::PwStreamInfo;
use vstd::multiset::Multiset;
use vstd::prelude::*;

verus! {

/// The places of the first `n` displays, without the primary one.
pub open spec fn secondary_places(ds: Seq<WaylandDisplayInfo>, primary: usize, n: nat) -> Seq<
    (i32, i32),
>
    decreases n,
{
    if n == 0 {
        seq![]
    } else {
        let before = secondary_places(ds, primary, (n - 1) as nat);
        if n - 1 == primary {
            before
        } else {
            before.push((ds[n - 1].x, ds[n - 1].y))
        }
    }
}

/// The places of the displays, that of the primary one first.
pub open spec fn display_order(ds: Seq<WaylandDisplayInfo>, primary: usize) -> Seq<(i32, i32)> {
    let first = if primary < ds.len() {
        seq![(ds[primary as int].x, ds[primary as int].y)]
    } else {
        seq![]
    };
    first + secondary_places(ds, primary, ds.len())
}

/// The index of the first stream at a place.
pub open spec fn first_at(streams: Seq<PwStreamInfo>, place: (i32, i32)) -> Option<int>
    decreases streams.len(),
{
    if streams.len() == 0 {
        None
    } else {
        match first_at(streams.drop_last(), place) {
            Some(i) => Some(i),
            None => if streams.last().position == place {
                Some(streams.len() - 1)
            } else {
                None
            },
        }
    }
}

/// Streams and displays on their way: those that wait, and those that are already in order.
pub ghost struct Sorting {
    pub streams: Seq<PwStreamInfo>,
    pub displays: Seq<Display>,
    pub sorted_streams: Seq<PwStreamInfo>,
    pub sorted_displays: Seq<Display>,
}

impl Sorting {
    /// All wait.
    pub open spec fn start(streams: Seq<PwStreamInfo>, displays: Seq<Display>) -> Sorting {
        Sorting { streams, displays, sorted_streams: seq![], sorted_displays: seq![] }
    }

    /// The first stream that waits at a place goes to the end of those in order, and the display
    /// with its index goes along.
    pub open spec fn take(self, place: (i32, i32)) -> Sorting {
        match first_at(self.streams, place) {
            None => self,
            Some(i) => {
                let moved = Sorting {
                    streams: self.streams.remove(i),
                    sorted_streams: self.sorted_streams.push(self.streams[i]),
                    ..self
                };
                if i < self.displays.len() {
                    Sorting {
                        displays: self.displays.remove(i),
                        sorted_displays: self.sorted_displays.push(self.displays[i]),
                        ..moved
                    }
                } else {
                    moved
                }
            },
        }
    }

    /// One place after the other.
    pub open spec fn take_all(self, order: Seq<(i32, i32)>) -> Sorting
        decreases order.len(),
    {
        if order.len() == 0 {
            self
        } else {
            self.take_all(order.drop_last()).take(order.last())
        }
    }
}

/// All streams and displays found their place in the order.
pub open spec fn sorts_fully(
    streams: Seq<PwStreamInfo>,
    displays: Seq<Display>,
    order: Seq<(i32, i32)>,
) -> bool {
    let s = Sorting::start(streams, displays).take_all(order);
    s.sorted_streams.len() == streams.len() && s.sorted_displays.len() == displays.len()
}

/// The streams and displays after sorting. Where not all of them found a place in the order, the
/// sort is skipped, and all stay as they were.
pub open spec fn sorted(
    streams: Seq<PwStreamInfo>,
    displays: Seq<Display>,
    order: Seq<(i32, i32)>,
) -> (Seq<PwStreamInfo>, Seq<Display>) {
    let s = Sorting::start(streams, displays).take_all(order);
    if streams.len() > 0 && sorts_fully(streams, displays, order) {
        (s.sorted_streams, s.sorted_displays)
    } else {
        (streams, displays)
    }
}

proof fn lemma_first_at(streams: Seq<PwStreamInfo>, place: (i32, i32))
    ensures
        match first_at(streams, place) {
            Some(i) => {
                &&& 0 <= i < streams.len()
                &&& streams[i].position == place
                &&& forall|k: int| 0 <= k < i ==> streams[k].position != place
            },
            None => forall|k: int| 0 <= k < streams.len() ==> streams[k].position != place,
        },
    decreases streams.len(),
{
    if streams.len() > 0 {
        lemma_first_at(streams.drop_last(), place);
        assert forall|k: int| 0 <= k < streams.len() - 1 implies streams[k]
            == streams.drop_last()[k] by {}
    }
}

/// The first stream at a place.
fn find_at(streams: &Vec<PwStreamInfo>, place: (i32, i32)) -> (r: Option<usize>)
    ensures
        match r {
            Some(i) => first_at(streams@, place) == Some(i as int) && i < streams@.len(),
            None => first_at(streams@, place) is None,
        },
{
    let mut i: usize = 0;
    proof {
        lemma_first_at(streams@, place);
    }
    while i < streams.len()
        invariant
            i <= streams.len(),
            forall|k: int| 0 <= k < i ==> streams@[k].position != place,
        decreases streams.len() - i,
    {
        if streams[i].position.0 == place.0 && streams[i].position.1 == place.1 {
            proof {
                lemma_first_at(streams@, place);
            }
            return Some(i);
        }
        i = i + 1;
    }
    None
}

/// The places of the displays, that of the primary one first.
fn order_of(displays: &Displays) -> (r: Vec<(i32, i32)>)
    ensures
        r@ == display_order(displays.displays@, displays.primary),
{
    let ds: &Vec<WaylandDisplayInfo> = &displays.displays;
    let mut order: Vec<(i32, i32)> = Vec::new();
    if displays.primary < ds.len() {
        order.push((ds[displays.primary].x, ds[displays.primary].y));
    }
    let ghost first = order@;
    let mut i: usize = 0;
    while i < ds.len()
        invariant
            i <= ds.len(),
            ds@ == displays.displays@,
            order@ == first + secondary_places(ds@, displays.primary, i as nat),
        decreases ds.len() - i,
    {
        if i != displays.primary {
            order.push((ds[i].x, ds[i].y));
        }
        i = i + 1;
        assert(order@ =~= first + secondary_places(ds@, displays.primary, i as nat));
    }
    order
}

/// Puts the streams and their displays in the order of the layout, the primary display first.
/// Where not all of them are at the place of a display, nothing changes.
pub fn sort_streams(
    displays: &Displays,
    shared_displays: &mut Vec<Display>,
    streams: &mut Vec<PwStreamInfo>,
)
    ensures
        (final(streams)@, final(shared_displays)@) == sorted(
            old(streams)@,
            old(shared_displays)@,
            display_order(displays.displays@, displays.primary),
        ),
{
    if streams.len() == 0 {
        return;
    }
    let order: Vec<(i32, i32)> = order_of(displays);
    let mut waiting_streams: Vec<PwStreamInfo> = streams.clone();
    let mut waiting_displays: Vec<Display> = shared_displays.clone();
    assert(waiting_streams@ =~= streams@);
    assert(waiting_displays@ =~= shared_displays@);
    let ghost start = Sorting::start(streams@, shared_displays@);
    let mut sorted_streams: Vec<PwStreamInfo> = Vec::new();
    let mut sorted_displays: Vec<Display> = Vec::new();
    let mut i: usize = 0;
    assert(order@.take(0) =~= seq![]);
    while i < order.len()
        invariant
            i <= order.len(),
            start.take_all(order@.take(i as int)) == (Sorting {
                streams: waiting_streams@,
                displays: waiting_displays@,
                sorted_streams: sorted_streams@,
                sorted_displays: sorted_displays@,
            }),
        decreases order.len() - i,
    {
        assert(order@.take(i + 1).drop_last() =~= order@.take(i as int));
        assert(order@.take(i + 1).last() == order@[i as int]);
        match find_at(&waiting_streams, order[i]) {
            Some(k) => {
                sorted_streams.push(waiting_streams.remove(k));
                if waiting_displays.len() > k {
                    sorted_displays.push(waiting_displays.remove(k));
                }
            },
            None => {},
        }
        i = i + 1;
    }
    assert(order@.take(order@.len() as int) =~= order@);
    if sorted_streams.len() == streams.len() && sorted_displays.len() == shared_displays.len() {
        *streams = sorted_streams;
        *shared_displays = sorted_displays;
    }
}

/// Streams with the displays of their indices.
pub open spec fn paired(streams: Seq<PwStreamInfo>, displays: Seq<Display>) -> Seq<
    (PwStreamInfo, Display),
> {
    Seq::new(streams.len(), |i: int| (streams[i], displays[i]))
}

proof fn lemma_pairs_are_kept(start: Sorting, order: Seq<(i32, i32)>)
    requires
        start.streams.len() == start.displays.len(),
        start.sorted_streams.len() == start.sorted_displays.len(),
    ensures
        ({
            let s = start.take_all(order);
            &&& s.streams.len() == s.displays.len()
            &&& s.sorted_streams.len() == s.sorted_displays.len()
            &&& s.streams.len() + s.sorted_streams.len() == start.streams.len()
                + start.sorted_streams.len()
            &&& paired(s.streams, s.displays).to_multiset().add(
                paired(s.sorted_streams, s.sorted_displays).to_multiset(),
            ) == paired(start.streams, start.displays).to_multiset().add(
                paired(start.sorted_streams, start.sorted_displays).to_multiset(),
            )
        }),
    decreases order.len(),
{
    broadcast use vstd::seq_lib::group_to_multiset_ensures;

    if order.len() > 0 {
        lemma_pairs_are_kept(start, order.drop_last());
        let s = start.take_all(order.drop_last());
        let t = s.take(order.last());
        lemma_first_at(s.streams, order.last());
        match first_at(s.streams, order.last()) {
            Some(i) => {
                let waiting = paired(s.streams, s.displays);
                let done = paired(s.sorted_streams, s.sorted_displays);
                assert(paired(t.streams, t.displays) =~= waiting.remove(i));
                assert(paired(t.sorted_streams, t.sorted_displays) =~= done.push(waiting[i]));
                assert(waiting.contains(waiting[i]));
                assert(paired(t.streams, t.displays).to_multiset().add(
                    paired(t.sorted_streams, t.sorted_displays).to_multiset(),
                ) =~= waiting.to_multiset().add(done.to_multiset()));
            },
            None => {},
        }
    }
}

/// Sorting neither loses nor invents nor parts anything: each stream is there as often as before,
/// with the display that it had.
pub proof fn law_sorting_keeps_pairs(
    streams: Seq<PwStreamInfo>,
    displays: Seq<Display>,
    order: Seq<(i32, i32)>,
)
    requires
        streams.len() == displays.len(),
    ensures
        ({
            let (s, d) = sorted(streams, displays, order);
            &&& s.len() == d.len()
            &&& paired(s, d).to_multiset() == paired(streams, displays).to_multiset()
        }),
{
    broadcast use vstd::seq_lib::group_to_multiset_ensures;

    let start = Sorting::start(streams, displays);
    lemma_pairs_are_kept(start, order);
    let s = start.take_all(order);
    let none = Seq::<(PwStreamInfo, Display)>::empty();
    let before = paired(streams, displays).to_multiset();
    let after = paired(s.sorted_streams, s.sorted_displays).to_multiset();
    assert(paired(start.sorted_streams, start.sorted_displays) =~= none);
    if streams.len() > 0 && sorts_fully(streams, displays, order) {
        assert(paired(s.streams, s.displays) =~= none);
        assert(none.to_multiset() =~= Multiset::empty());
        assert(before =~= before.add(none.to_multiset()));
        assert(after =~= none.to_multiset().add(after));
    }
}

/// Where each of some streams stands in an order: at an index with its place, the indices
/// ascending.
pub open spec fn follows_order(
    streams: Seq<PwStreamInfo>,
    order: Seq<(i32, i32)>,
    indices: Seq<int>,
) -> bool {
    &&& indices.len() == streams.len()
    &&& forall|i: int|
        0 <= i < streams.len() ==> 0 <= #[trigger] indices[i] < order.len() && order[indices[i]]
            == streams[i].position
    &&& forall|i: int, j: int| 0 <= i < j < indices.len() ==> indices[i] < indices[j]
}

proof fn lemma_order_is_followed(
    start: Sorting,
    order: Seq<(i32, i32)>,
) -> (indices: Seq<int>)
    requires
        start.sorted_streams.len() == 0,
    ensures
        follows_order(start.take_all(order).sorted_streams, order, indices),
    decreases order.len(),
{
    if order.len() == 0 {
        seq![]
    } else {
        let before = lemma_order_is_followed(start, order.drop_last());
        let s = start.take_all(order.drop_last());
        lemma_first_at(s.streams, order.last());
        match first_at(s.streams, order.last()) {
            Some(_) => before.push(order.len() - 1),
            None => before,
        }
    }
}

/// If all streams found a place, they stand in order: their places are those of an ascending
/// part of it.
pub proof fn law_sorted_in_display_order(
    streams: Seq<PwStreamInfo>,
    displays: Seq<Display>,
    order: Seq<(i32, i32)>,
)
    requires
        sorts_fully(streams, displays, order),
    ensures
        exists|indices: Seq<int>|
            follows_order(sorted(streams, displays, order).0, order, indices),
{
    let indices = lemma_order_is_followed(Sorting::start(streams, displays), order);
    if streams.len() == 0 {
        assert(follows_order(sorted(streams, displays, order).0, order, Seq::<int>::empty()));
    } else {
        assert(follows_order(sorted(streams, displays, order).0, order, indices));
    }
}

/// Where some stream is at the place of no display, the sort is skipped: all streams and displays
/// stay as they were, also those that are at the place of one.
pub proof fn law_partial_match_changes_nothing(
    streams: Seq<PwStreamInfo>,
    displays: Seq<Display>,
    order: Seq<(i32, i32)>,
    i: int,
)
    requires
        streams.len() == displays.len(),
        0 <= i < streams.len(),
        !order.contains(streams[i].position),
    ensures
        sorted(streams, displays, order) == (streams, displays),
{
    broadcast use vstd::seq_lib::group_to_multiset_ensures;

    if sorts_fully(streams, displays, order) {
        let (s, d) = sorted(streams, displays, order);
        let indices = lemma_order_is_followed(Sorting::start(streams, displays), order);
        law_sorting_keeps_pairs(streams, displays, order);
        let pair = paired(streams, displays)[i];
        assert(paired(streams, displays).contains(pair));
        assert(paired(streams, displays).to_multiset().count(pair) > 0);
        assert(paired(s, d).to_multiset().count(pair) > 0);
        assert(paired(s, d).contains(pair));
        let k = choose|k: int| 0 <= k < paired(s, d).len() && paired(s, d)[k] == pair;
        assert(order[indices[k]] == s[k].position);
    }
}

proof fn lemma_first_place_is_kept(start: Sorting, order: Seq<(i32, i32)>)
    requires
        start.sorted_streams.len() == 0,
        order.len() > 0,
        first_at(start.streams, order[0]) is Some,
    ensures
        start.take_all(order).sorted_streams.len() > 0,
        start.take_all(order).sorted_streams[0].position == order[0],
    decreases order.len(),
{
    let rest = order.drop_last();
    if order.len() == 1 {
        assert(start.take_all(rest) == start);
        lemma_first_at(start.streams, order[0]);
    } else {
        lemma_first_place_is_kept(start, rest);
        lemma_first_at(start.take_all(rest).streams, order.last());
    }
}

/// If all streams found a place and one is at the place of the primary display, the first is.
pub proof fn law_primary_comes_first(
    streams: Seq<PwStreamInfo>,
    displays: Seq<Display>,
    ds: Seq<WaylandDisplayInfo>,
    primary: usize,
    i: int,
)
    requires
        primary < ds.len(),
        sorts_fully(streams, displays, display_order(ds, primary)),
        0 <= i < streams.len(),
        streams[i].position == (ds[primary as int].x, ds[primary as int].y),
    ensures
        sorted(streams, displays, display_order(ds, primary)).0[0].position == (
            ds[primary as int].x,
            ds[primary as int].y,
        ),
{
    let order = display_order(ds, primary);
    lemma_first_at(streams, order[0]);
    lemma_first_place_is_kept(Sorting::start(streams, displays), order);
}

/// No two streams are at one place.
pub open spec fn distinct_places(streams: Seq<PwStreamInfo>) -> bool {
    forall|i: int, j: int|
        0 <= i < j < streams.len() ==> #[trigger] streams[i].position
            != #[trigger] streams[j].position
}

proof fn lemma_taken_places(start: Sorting, order: Seq<(i32, i32)>)
    requires
        distinct_places(start.streams),
    ensures
        ({
            let s = start.take_all(order);
            &&& distinct_places(s.streams)
            &&& forall|k: int|
                0 <= k < s.streams.len() ==> start.streams.contains(#[trigger] s.streams[k])
            &&& forall|k: int, n: int|
                0 <= k < s.streams.len() && 0 <= n < order.len() ==> (
                #[trigger] s.streams[k]).position != #[trigger] order[n]
        }),
    decreases order.len(),
{
    if order.len() == 0 {
        assert forall|k: int| 0 <= k < start.streams.len() implies start.streams.contains(
            #[trigger] start.streams[k],
        ) by {}
    } else {
        let rest = order.drop_last();
        lemma_taken_places(start, rest);
        let s = start.take_all(rest);
        let t = start.take_all(order);
        let place = order.last();
        lemma_first_at(s.streams, place);
        match first_at(s.streams, place) {
            Some(i) => {
                assert(t.streams == s.streams.remove(i));
                assert forall|k: int| 0 <= k < t.streams.len() implies (start.streams.contains(
                    #[trigger] t.streams[k],
                ) && t.streams[k].position != place && forall|n: int|
                    0 <= n < rest.len() ==> t.streams[k].position != #[trigger] rest[n]) by {
                    let from = if k < i {
                        k
                    } else {
                        k + 1
                    };
                    assert(t.streams[k] == s.streams[from]);
                    assert(s.streams[from].position != s.streams[i].position);
                }
            },
            None => {},
        }
        assert forall|k: int, n: int|
            0 <= k < t.streams.len() && 0 <= n < order.len() implies (
        #[trigger] t.streams[k]).position != #[trigger] order[n] by {
            if n < rest.len() {
                assert(order[n] == rest[n]);
            }
        }
        assert forall|a: int, b: int|
            0 <= a < b < t.streams.len() implies #[trigger] t.streams[a].position
            != #[trigger] t.streams[b].position by {
            match first_at(s.streams, place) {
                Some(i) => {
                    let from_a = if a < i {
                        a
                    } else {
                        a + 1
                    };
                    let from_b = if b < i {
                        b
                    } else {
                        b + 1
                    };
                    assert(t.streams[a] == s.streams[from_a]);
                    assert(t.streams[b] == s.streams[from_b]);
                },
                None => {},
            }
        }
    }
}

/// All streams find a place if each is at the place of a display and no two are at one place.
pub proof fn law_placed_streams_sort_fully(
    streams: Seq<PwStreamInfo>,
    displays: Seq<Display>,
    order: Seq<(i32, i32)>,
)
    requires
        streams.len() == displays.len(),
        distinct_places(streams),
        forall|i: int| 0 <= i < streams.len() ==> order.contains(#[trigger] streams[i].position),
    ensures
        sorts_fully(streams, displays, order),
{
    let start = Sorting::start(streams, displays);
    lemma_pairs_are_kept(start, order);
    lemma_taken_places(start, order);
    let s = start.take_all(order);
    if s.streams.len() > 0 {
        let left = s.streams[0];
        assert(streams.contains(left));
        let i = choose|i: int| 0 <= i < streams.len() && streams[i] == left;
        assert(order.contains(streams[i].position));
        let n = choose|n: int| 0 <= n < order.len() && order[n] == left.position;
        assert(s.streams[0].position != order[n]);
    }
}

proof fn lemma_secondary_place(ds: Seq<WaylandDisplayInfo>, primary: usize, n: nat, k: int)
    requires
        n <= ds.len(),
    ensures
        secondary_places(ds, primary, n).len() == (if primary < n {
            n - 1
        } else {
            n as int
        }),
        0 <= k < n && k < primary ==> secondary_places(ds, primary, n)[k] == (ds[k].x, ds[k].y),
        primary < k < n ==> secondary_places(ds, primary, n)[k - 1] == (ds[k].x, ds[k].y),
    decreases n,
{
    if n > 0 {
        lemma_secondary_place(ds, primary, (n - 1) as nat, k);
    }
}

/// The order of places, index by index: first the place of the primary display, then those of the
/// displays 0, 1 and so on, without the primary one. Without a primary display they are just
/// those of the displays, in their order.
pub proof fn law_display_order(ds: Seq<WaylandDisplayInfo>, primary: usize, k: int)
    requires
        0 <= k < ds.len(),
    ensures
        display_order(ds, primary).len() == ds.len(),
        k == primary ==> display_order(ds, primary)[0] == (ds[k].x, ds[k].y),
        k < primary < ds.len() ==> display_order(ds, primary)[k + 1] == (ds[k].x, ds[k].y),
        primary < k ==> display_order(ds, primary)[k] == (ds[k].x, ds[k].y),
        primary >= ds.len() ==> display_order(ds, primary)[k] == (ds[k].x, ds[k].y),
{
    lemma_secondary_place(ds, primary, ds.len(), k);
}

/// No two displays of the layout are at one place.
pub open spec fn distinct_layout(ds: Seq<WaylandDisplayInfo>) -> bool {
    forall|i: int, j: int|
        0 <= i < j < ds.len() ==> (#[trigger] ds[i]).x != (#[trigger] ds[j]).x || ds[i].y != ds[j].y
}

/// Each stream is at the place of a display, and no two are at one place.
pub open spec fn all_placed(
    streams: Seq<PwStreamInfo>,
    ds: Seq<WaylandDisplayInfo>,
) -> bool {
    &&& forall|a: int, b: int|
        0 <= a < b < streams.len() ==> #[trigger] streams[a].position
            != #[trigger] streams[b].position
    &&& forall|a: int|
        0 <= a < streams.len() ==> exists|k: int|
            0 <= k < ds.len() && #[trigger] ds[k].x == (#[trigger] streams[a]).position.0 && ds[k].y
                == streams[a].position.1
}

/// Where the place of a display stands in the order of places.
spec fn rank(primary: usize, k: int) -> int {
    if k == primary {
        0
    } else if k < primary {
        k + 1
    } else {
        k
    }
}

proof fn lemma_rank(ds: Seq<WaylandDisplayInfo>, primary: usize, k: int)
    requires
        primary < ds.len(),
        0 <= k < ds.len(),
    ensures
        0 <= rank(primary, k) < ds.len(),
        display_order(ds, primary).len() == ds.len(),
        display_order(ds, primary)[rank(primary, k)] == (ds[k].x, ds[k].y),
{
    law_display_order(ds, primary, k);
}

/// An index of the order of places is that of just one display, if all places differ.
proof fn lemma_rank_is_only(ds: Seq<WaylandDisplayInfo>, primary: usize, k: int, n: int)
    requires
        primary < ds.len(),
        0 <= k < ds.len(),
        0 <= n < ds.len(),
        distinct_layout(ds),
        display_order(ds, primary)[n] == (ds[k].x, ds[k].y),
    ensures
        n == rank(primary, k),
{
    let other = if n == 0 {
        primary as int
    } else if n <= primary {
        n - 1
    } else {
        n
    };
    lemma_rank(ds, primary, other);
    if other != k {
        assert(ds[other].x != ds[k].x || ds[other].y != ds[k].y);
    }
}

/// Sorted streams stand in the order of the layout. If each stream is at the place of a display
/// and no two are at one place, and the displays are at distinct places, then of two streams in
/// the result the one at the primary display comes first, and of two at other displays the one
/// whose display comes first in the layout.
pub proof fn law_streams_stand_in_layout_order(
    streams: Seq<PwStreamInfo>,
    shared: Seq<Display>,
    ds: Seq<WaylandDisplayInfo>,
    primary: usize,
    a: int,
    b: int,
    i: int,
    j: int,
)
    requires
        streams.len() == shared.len(),
        all_placed(streams, ds),
        distinct_layout(ds),
        primary < ds.len(),
        0 <= i < ds.len(),
        0 <= j < ds.len(),
        i != j,
        i == primary || (j != primary && i < j),
        ({
            let s = sorted(streams, shared, display_order(ds, primary)).0;
            &&& 0 <= a < s.len() && 0 <= b < s.len()
            &&& s[a].position == (ds[i].x, ds[i].y)
            &&& s[b].position == (ds[j].x, ds[j].y)
        }),
    ensures
        a < b,
{
    let order = display_order(ds, primary);
    assert forall|n: int| 0 <= n < streams.len() implies order.contains(
        #[trigger] streams[n].position,
    ) by {
        assert(streams[n] == streams[n]);
        let k = choose|k: int|
            0 <= k < ds.len() && #[trigger] ds[k].x == streams[n].position.0 && ds[k].y
                == streams[n].position.1;
        lemma_rank(ds, primary, k);
        assert(order[rank(primary, k)] == streams[n].position);
    }
    law_placed_streams_sort_fully(streams, shared, order);
    let s = sorted(streams, shared, order).0;
    let indices = lemma_order_is_followed(Sorting::start(streams, shared), order);
    lemma_rank(ds, primary, i);
    lemma_rank(ds, primary, j);
    assert(streams.len() > 0) by {
        if streams.len() == 0 {
            assert(s.len() == 0);
        }
    }
    assert(follows_order(s, order, indices));
    assert(order[indices[a]] == s[a].position && order[indices[b]] == s[b].position);
    lemma_rank_is_only(ds, primary, i, indices[a]);
    lemma_rank_is_only(ds, primary, j, indices[b]);
    assert(rank(primary, i) < rank(primary, j));
    if b <= a {
        if b < a {
            assert(indices[b] < indices[a]);
        }
    }
}

/// All streams whose places are known are sorted: if each stream is at the place of a display and
/// no two are at one place, the sort is not skipped, and the first stream is at the place of the
/// primary display, if any stream is.
pub proof fn law_placed_streams_are_sorted(
    streams: Seq<PwStreamInfo>,
    shared: Seq<Display>,
    ds: Seq<WaylandDisplayInfo>,
    primary: usize,
    n: int,
)
    requires
        streams.len() == shared.len(),
        all_placed(streams, ds),
        primary < ds.len(),
        0 <= n < streams.len(),
        streams[n].position == (ds[primary as int].x, ds[primary as int].y),
    ensures
        ({
            let (s, d) = sorted(streams, shared, display_order(ds, primary));
            &&& s.len() == streams.len() && d.len() == shared.len()
            &&& s[0] == streams[n]
            &&& d[0] == shared[n]
        }),
{
    broadcast use vstd::seq_lib::group_to_multiset_ensures;

    let order = display_order(ds, primary);
    assert forall|m: int| 0 <= m < streams.len() implies order.contains(
        #[trigger] streams[m].position,
    ) by {
        assert(streams[m] == streams[m]);
        let k = choose|k: int|
            0 <= k < ds.len() && #[trigger] ds[k].x == streams[m].position.0 && ds[k].y
                == streams[m].position.1;
        lemma_rank(ds, primary, k);
        assert(order[rank(primary, k)] == streams[m].position);
    }
    law_placed_streams_sort_fully(streams, shared, order);
    law_primary_comes_first(streams, shared, ds, primary, n);
    law_sorting_keeps_pairs(streams, shared, order);
    let (s, d) = sorted(streams, shared, order);
    vstd::seq_lib::to_multiset_len(paired(s, d));
    vstd::seq_lib::to_multiset_len(paired(streams, shared));
    let pair = paired(s, d)[0];
    assert(paired(s, d).contains(pair));
    assert(paired(s, d).to_multiset().count(pair) > 0);
    assert(paired(streams, shared).to_multiset().count(pair) > 0);
    assert(paired(streams, shared).contains(pair));
    let m = choose|m: int|
        0 <= m < paired(streams, shared).len() && paired(streams, shared)[m] == pair;
    assert(streams[m].position == streams[n].position);
    assert(m == n);
}

/// The streams at a place, with their displays, in the order that they have.
pub open spec fn pairs_at(
    streams: Seq<PwStreamInfo>,
    displays: Seq<Display>,
    place: (i32, i32),
) -> Seq<(PwStreamInfo, Display)> {
    paired(streams, displays).filter(|p: (PwStreamInfo, Display)| p.0.position == place)
}

proof fn lemma_filter_remove_first<A>(s: Seq<A>, p: spec_fn(A) -> bool, i: int)
    requires
        0 <= i < s.len(),
        p(s[i]) ==> forall|k: int| 0 <= k < i ==> !p(#[trigger] s[k]),
    ensures
        p(s[i]) ==> s.filter(p) == seq![s[i]] + s.remove(i).filter(p),
        !p(s[i]) ==> s.filter(p) == s.remove(i).filter(p),
    decreases s.len(),
{
    reveal(Seq::filter);
    let last = s.len() - 1;
    if i < last {
        lemma_filter_remove_first(s.drop_last(), p, i);
        assert(s.remove(i).drop_last() =~= s.drop_last().remove(i));
        assert(s.remove(i).last() == s.last());
        assert(s.drop_last()[i] == s[i]);
        if p(s[i]) {
            assert(s.filter(p) =~= seq![s[i]] + s.remove(i).filter(p));
        }
    } else {
        assert(s.remove(i) =~= s.drop_last());
        if p(s[i]) {
            lemma_filter_none(s.drop_last(), p);
            assert(s.filter(p) =~= seq![s[i]] + s.remove(i).filter(p));
        }
    }
}

proof fn lemma_filter_none<A>(s: Seq<A>, p: spec_fn(A) -> bool)
    requires
        forall|k: int| 0 <= k < s.len() ==> !p(#[trigger] s[k]),
    ensures
        s.filter(p).len() == 0,
    decreases s.len(),
{
    reveal(Seq::filter);
    if s.len() > 0 {
        assert forall|k: int| 0 <= k < s.drop_last().len() implies !p(#[trigger] s.drop_last()[k])
            by {
            assert(s.drop_last()[k] == s[k]);
        }
        lemma_filter_none(s.drop_last(), p);
        assert(!p(s[s.len() - 1]));
    }
}

proof fn lemma_pairs_at_are_kept(start: Sorting, order: Seq<(i32, i32)>, place: (i32, i32))
    requires
        start.streams.len() == start.displays.len(),
        start.sorted_streams.len() == start.sorted_displays.len(),
    ensures
        ({
            let s = start.take_all(order);
            pairs_at(s.sorted_streams, s.sorted_displays, place) + pairs_at(
                s.streams,
                s.displays,
                place,
            ) == pairs_at(start.sorted_streams, start.sorted_displays, place) + pairs_at(
                start.streams,
                start.displays,
                place,
            )
        }),
    decreases order.len(),
{
    if order.len() > 0 {
        let rest = order.drop_last();
        lemma_pairs_at_are_kept(start, rest, place);
        lemma_pairs_are_kept(start, rest);
        let s = start.take_all(rest);
        let t = s.take(order.last());
        let p = |q: (PwStreamInfo, Display)| q.0.position == place;
        lemma_first_at(s.streams, order.last());
        match first_at(s.streams, order.last()) {
            Some(i) => {
                let waiting = paired(s.streams, s.displays);
                let done = paired(s.sorted_streams, s.sorted_displays);
                assert(paired(t.streams, t.displays) =~= waiting.remove(i));
                assert(paired(t.sorted_streams, t.sorted_displays) =~= done.push(waiting[i]));
                assert forall|k: int| 0 <= k < i && p(waiting[i]) implies !p(
                    #[trigger] waiting[k],
                ) by {
                    assert(s.streams[k].position != order.last());
                }
                lemma_filter_remove_first(waiting, p, i);
                assert(done.push(waiting[i]).filter(p) == (if p(waiting[i]) {
                    done.filter(p).push(waiting[i])
                } else {
                    done.filter(p)
                })) by {
                    reveal(Seq::filter);
                    assert(done.push(waiting[i]).drop_last() =~= done);
                }
                assert(done.push(waiting[i]).filter(p) + waiting.remove(i).filter(p)
                    =~= done.filter(p) + waiting.filter(p));
            },
            None => {},
        }
    }
}

/// Sorting keeps the order of streams that are at one place, each with its display, as it is where
/// displays mirror each other.
pub proof fn law_sorting_is_stable(
    streams: Seq<PwStreamInfo>,
    displays: Seq<Display>,
    order: Seq<(i32, i32)>,
    place: (i32, i32),
)
    requires
        streams.len() == displays.len(),
    ensures
        pairs_at(
            sorted(streams, displays, order).0,
            sorted(streams, displays, order).1,
            place,
        ) == pairs_at(streams, displays, place),
{
    let start = Sorting::start(streams, displays);
    lemma_pairs_at_are_kept(start, order, place);
    lemma_pairs_are_kept(start, order);
    let s = start.take_all(order);
    let p = |q: (PwStreamInfo, Display)| q.0.position == place;
    if streams.len() > 0 && sorts_fully(streams, displays, order) {
        lemma_filter_none(paired(s.streams, s.displays), p);
        lemma_filter_none(paired(start.sorted_streams, start.sorted_displays), p);
        assert(pairs_at(s.sorted_streams, s.sorted_displays, place) =~= pairs_at(
            s.sorted_streams,
            s.sorted_displays,
            place,
        ) + pairs_at(s.streams, s.displays, place));
        assert(pairs_at(streams, displays, place) =~= pairs_at(
            start.sorted_streams,
            start.sorted_displays,
            place,
        ) + pairs_at(streams, displays, place));
    }
}

} // verus!
