//! The displays that the compositor reports, and what follows from their layout.
use vstd::prelude::*;

verus! {

/// One display of the compositor's layout.
#[derive(Debug)]
pub struct WaylandDisplayInfo {
    pub name: String,
    pub x: i32,
    pub y: i32,
    pub width: i32,
    pub height: i32,
    pub logical_size: Option<(i32, i32)>,
}

/// All displays of the compositor; `primary` is the index of the main one.
#[derive(Debug)]
pub struct Displays {
    pub primary: usize,
    pub displays: Vec<WaylandDisplayInfo>,
}

impl WaylandDisplayInfo {
    /// The size of the display: its logical size if that is asked for and known, else its pixels.
    pub open spec fn spec_size(self, logical: bool) -> (i32, i32) {
        match self.logical_size {
            Some(s) if logical => s,
            _ => (self.width, self.height),
        }
    }

    /// The display has this many pixels.
    pub open spec fn has_pixels(self, size: (usize, usize)) -> bool {
        self.width as usize == size.0 && self.height as usize == size.1
    }

    /// The size of the display, logical or in pixels.
    pub fn size(&self, logical: bool) -> (r: (i32, i32))
        ensures
            r == self.spec_size(logical),
    {
        if logical {
            match self.logical_size {
                Some(s) => s,
                None => (self.width, self.height),
            }
        } else {
            (self.width, self.height)
        }
    }

    /// Whether the display has this many pixels.
    pub fn matches_pixels(&self, size: (usize, usize)) -> (r: bool)
        ensures
            r == self.has_pixels(size),
    {
        self.width as usize == size.0 && self.height as usize == size.1
    }
}

/// The left edges.
pub open spec fn lefts(ds: Seq<WaylandDisplayInfo>) -> Seq<int> {
    ds.map_values(|d: WaylandDisplayInfo| d.x as int)
}

/// The top edges.
pub open spec fn tops(ds: Seq<WaylandDisplayInfo>) -> Seq<int> {
    ds.map_values(|d: WaylandDisplayInfo| d.y as int)
}

/// The right edges.
pub open spec fn rights(ds: Seq<WaylandDisplayInfo>, logical: bool) -> Seq<int> {
    ds.map_values(|d: WaylandDisplayInfo| d.x + d.spec_size(logical).0)
}

/// The bottom edges.
pub open spec fn bottoms(ds: Seq<WaylandDisplayInfo>, logical: bool) -> Seq<int> {
    ds.map_values(|d: WaylandDisplayInfo| d.y + d.spec_size(logical).1)
}

/// The smallest rectangle that spans from the outermost left and top edge to the outermost
/// right and bottom edge, as position and size; none where it has no area.
pub open spec fn spec_desktop_bounds(ds: Seq<WaylandDisplayInfo>, logical: bool) -> Option<
    (i32, i32, usize, usize),
> {
    let (left, top) = (lefts(ds).min(), tops(ds).min());
    let (right, bottom) = (rights(ds, logical).max(), bottoms(ds, logical).max());
    if ds.len() == 0 || right <= left || bottom <= top {
        None
    } else {
        Some((left as i32, top as i32, (right - left) as usize, (bottom - top) as usize))
    }
}

/// All edges of the displays, and the extent of a desktop with an area, fit in 32 bits.
pub open spec fn desktop_fits(ds: Seq<WaylandDisplayInfo>, logical: bool) -> bool {
    let (left, top) = (lefts(ds).min(), tops(ds).min());
    let (right, bottom) = (rights(ds, logical).max(), bottoms(ds, logical).max());
    &&& forall|i: int|
        0 <= i < ds.len() ==> {
            &&& i32::MIN <= #[trigger] rights(ds, logical)[i] <= i32::MAX
            &&& i32::MIN <= bottoms(ds, logical)[i] <= i32::MAX
        }
    &&& ds.len() > 0 && right > left && bottom > top ==> right - left <= i32::MAX && bottom - top
        <= i32::MAX
}

/// The extreme edges of a layout, in 64 bits: left, top, right, bottom.
fn edges(displays: &Vec<WaylandDisplayInfo>, logical: bool) -> (r: (i64, i64, i64, i64))
    requires
        displays@.len() > 0,
    ensures
        r.0 == lefts(displays@).min(),
        r.1 == tops(displays@).min(),
        r.2 == rights(displays@, logical).max(),
        r.3 == bottoms(displays@, logical).max(),
        i32::MIN <= r.0 <= i32::MAX,
        i32::MIN <= r.1 <= i32::MAX,
        2 * i32::MIN <= r.2 <= 2 * i32::MAX,
        2 * i32::MIN <= r.3 <= 2 * i32::MAX,
{
    let ghost ds = displays@;
    let first: (i32, i32) = displays[0].size(logical);
    let mut left: i64 = displays[0].x as i64;
    let mut top: i64 = displays[0].y as i64;
    let mut right: i64 = displays[0].x as i64 + first.0 as i64;
    let mut bottom: i64 = displays[0].y as i64 + first.1 as i64;
    let mut i: usize = 1;
    assert(lefts(ds)[0] == left && tops(ds)[0] == top);
    assert(rights(ds, logical)[0] == right && bottoms(ds, logical)[0] == bottom);
    while i < displays.len()
        invariant
            ds == displays@,
            1 <= i <= displays.len(),
            lefts(ds).contains(left as int),
            tops(ds).contains(top as int),
            rights(ds, logical).contains(right as int),
            bottoms(ds, logical).contains(bottom as int),
            forall|k: int| 0 <= k < i ==> left <= #[trigger] lefts(ds)[k],
            forall|k: int| 0 <= k < i ==> top <= #[trigger] tops(ds)[k],
            forall|k: int| 0 <= k < i ==> right >= #[trigger] rights(ds, logical)[k],
            forall|k: int| 0 <= k < i ==> bottom >= #[trigger] bottoms(ds, logical)[k],
        decreases displays.len() - i,
    {
        let size: (i32, i32) = displays[i].size(logical);
        let (l, t): (i64, i64) = (displays[i].x as i64, displays[i].y as i64);
        let (r, b): (i64, i64) = (l + size.0 as i64, t + size.1 as i64);
        assert(lefts(ds)[i as int] == l && tops(ds)[i as int] == t);
        assert(rights(ds, logical)[i as int] == r && bottoms(ds, logical)[i as int] == b);
        if l < left {
            left = l;
        }
        if t < top {
            top = t;
        }
        if r > right {
            right = r;
        }
        if b > bottom {
            bottom = b;
        }
        i = i + 1;
    }
    proof {
        lefts(ds).min_ensures();
        tops(ds).min_ensures();
        rights(ds, logical).max_ensures();
        bottoms(ds, logical).max_ensures();
    }
    (left, top, right, bottom)
}

/// Whether the layout can be measured in 32 bits.
pub fn desktop_is_representable(displays: &Vec<WaylandDisplayInfo>, logical: bool) -> (r: bool)
    ensures
        r == desktop_fits(displays@, logical),
{
    if displays.len() == 0 {
        return true;
    }
    let ghost ds = displays@;
    let mut i: usize = 0;
    while i < displays.len()
        invariant
            ds == displays@,
            i <= displays.len(),
            forall|k: int|
                0 <= k < i ==> {
                    &&& i32::MIN <= #[trigger] rights(ds, logical)[k] <= i32::MAX
                    &&& i32::MIN <= bottoms(ds, logical)[k] <= i32::MAX
                },
        decreases displays.len() - i,
    {
        let size: (i32, i32) = displays[i].size(logical);
        let r: i64 = displays[i].x as i64 + size.0 as i64;
        let b: i64 = displays[i].y as i64 + size.1 as i64;
        assert(rights(ds, logical)[i as int] == r && bottoms(ds, logical)[i as int] == b);
        if r < i32::MIN as i64 || r > i32::MAX as i64 || b < i32::MIN as i64 || b > i32::MAX as i64 {
            return false;
        }
        i = i + 1;
    }
    let (left, top, right, bottom) = edges(displays, logical);
    right <= left || bottom <= top || (right - left <= i32::MAX as i64 && bottom - top
        <= i32::MAX as i64)
}

/// The rectangle that all displays span: left, top, width, height.
pub fn desktop_bounds(displays: &Vec<WaylandDisplayInfo>, logical: bool) -> (r: Option<
    (i32, i32, usize, usize),
>)
    requires
        desktop_fits(displays@, logical),
    ensures
        r == spec_desktop_bounds(displays@, logical),
{
    if displays.len() == 0 {
        return None;
    }
    let (left, top, right, bottom) = edges(displays, logical);
    if right <= left || bottom <= top {
        return None;
    }
    Some((left as i32, top as i32, (right - left) as usize, (bottom - top) as usize))
}

/// The index of the first display with a property.
pub open spec fn first_where(
    ds: Seq<WaylandDisplayInfo>,
    p: spec_fn(WaylandDisplayInfo) -> bool,
) -> Option<int>
    decreases ds.len(),
{
    if ds.len() == 0 {
        None
    } else {
        match first_where(ds.drop_last(), p) {
            Some(i) => Some(i),
            None => if p(ds.last()) {
                Some(ds.len() - 1)
            } else {
                None
            },
        }
    }
}

/// To be called so.
pub open spec fn named(name: Seq<char>) -> spec_fn(WaylandDisplayInfo) -> bool {
    |d: WaylandDisplayInfo| d.name@ == name
}

/// To have this many pixels.
pub open spec fn sized(size: (usize, usize)) -> spec_fn(WaylandDisplayInfo) -> bool {
    |d: WaylandDisplayInfo| d.has_pixels(size)
}

/// To stand there.
pub open spec fn placed(position: (i32, i32)) -> spec_fn(WaylandDisplayInfo) -> bool {
    |d: WaylandDisplayInfo| d.x == position.0 && d.y == position.1
}

/// `i` is the index of the first display with a property.
pub open spec fn is_first_where(
    ds: Seq<WaylandDisplayInfo>,
    p: spec_fn(WaylandDisplayInfo) -> bool,
    i: int,
) -> bool {
    &&& 0 <= i < ds.len()
    &&& p(ds[i])
    &&& forall|k: int| 0 <= k < i ==> !p(#[trigger] ds[k])
}

/// What `first_where` finds is the first display with the property, and it finds none only
/// where no display has it.
pub proof fn lemma_first_where(
    ds: Seq<WaylandDisplayInfo>,
    p: spec_fn(WaylandDisplayInfo) -> bool,
)
    ensures
        match first_where(ds, p) {
            Some(i) => is_first_where(ds, p, i),
            None => forall|k: int| 0 <= k < ds.len() ==> !p(#[trigger] ds[k]),
        },
    decreases ds.len(),
{
    if ds.len() > 0 {
        lemma_first_where(ds.drop_last(), p);
        match first_where(ds.drop_last(), p) {
            Some(i) => {
                assert forall|k: int| 0 <= k < i implies !p(#[trigger] ds[k]) by {
                    assert(!p(ds.drop_last()[k]));
                }
            },
            None => {
                assert forall|k: int| 0 <= k < ds.len() - 1 implies !p(#[trigger] ds[k]) by {
                    assert(!p(ds.drop_last()[k]));
                }
            },
        }
    }
}

/// The first display of a name.
pub fn find_named(displays: &Vec<WaylandDisplayInfo>, name: &String) -> (r: Option<usize>)
    ensures
        match r {
            Some(i) => first_where(displays@, named(name@)) == Some(i as int),
            None => first_where(displays@, named(name@)) is None,
        },
{
    let mut i: usize = 0;
    proof {
        lemma_first_where(displays@, named(name@));
    }
    while i < displays.len()
        invariant
            i <= displays.len(),
            forall|k: int| 0 <= k < i ==> !named(name@)(#[trigger] displays@[k]),
        decreases displays.len() - i,
    {
        if displays[i].name == *name {
            proof {
                lemma_first_where(displays@, named(name@));
            }
            return Some(i);
        }
        i = i + 1;
    }
    None
}

/// The first display of so many pixels.
pub fn find_sized(displays: &Vec<WaylandDisplayInfo>, size: (usize, usize)) -> (r: Option<usize>)
    ensures
        match r {
            Some(i) => first_where(displays@, sized(size)) == Some(i as int),
            None => first_where(displays@, sized(size)) is None,
        },
{
    let mut i: usize = 0;
    proof {
        lemma_first_where(displays@, sized(size));
    }
    while i < displays.len()
        invariant
            i <= displays.len(),
            forall|k: int| 0 <= k < i ==> !sized(size)(#[trigger] displays@[k]),
        decreases displays.len() - i,
    {
        if displays[i].matches_pixels(size) {
            proof {
                lemma_first_where(displays@, sized(size));
            }
            return Some(i);
        }
        i = i + 1;
    }
    None
}

/// The first display at a place.
pub fn find_placed(displays: &Vec<WaylandDisplayInfo>, position: (i32, i32)) -> (r: Option<usize>)
    ensures
        match r {
            Some(i) => first_where(displays@, placed(position)) == Some(i as int),
            None => first_where(displays@, placed(position)) is None,
        },
{
    let mut i: usize = 0;
    proof {
        lemma_first_where(displays@, placed(position));
    }
    while i < displays.len()
        invariant
            i <= displays.len(),
            forall|k: int| 0 <= k < i ==> !placed(position)(#[trigger] displays@[k]),
        decreases displays.len() - i,
    {
        if displays[i].x == position.0 && displays[i].y == position.1 {
            proof {
                lemma_first_where(displays@, placed(position));
            }
            return Some(i);
        }
        i = i + 1;
    }
    None
}

/// A display is so wide and so high: in logical units that the compositor tells, if they are asked
/// for and told, else in pixels.
pub open spec fn measures(d: WaylandDisplayInfo, logical: bool, w: int, h: int) -> bool {
    if logical && d.logical_size is Some {
        let size = d.logical_size->0;
        w == size.0 && h == size.1
    } else {
        w == d.width && h == d.height
    }
}

/// The size of a display is what it measures.
pub proof fn law_size_is_measured(d: WaylandDisplayInfo, logical: bool, w: int, h: int)
    ensures
        measures(d, logical, w, h) <==> w == d.spec_size(logical).0 && h == d.spec_size(logical).1,
{
}

/// A rectangle, by its edges, spans a layout: each display lies inside it, and each of its edges is
/// the edge of some display.
pub open spec fn spans(
    ds: Seq<WaylandDisplayInfo>,
    logical: bool,
    left: int,
    top: int,
    right: int,
    bottom: int,
) -> bool {
    &&& forall|i: int, w: int, h: int|
        0 <= i < ds.len() && #[trigger] measures(ds[i], logical, w, h) ==> left <= ds[i].x && top
            <= ds[i].y && ds[i].x + w <= right && ds[i].y + h <= bottom
    &&& exists|i: int| 0 <= i < ds.len() && #[trigger] ds[i].x == left
    &&& exists|i: int| 0 <= i < ds.len() && #[trigger] ds[i].y == top
    &&& exists|i: int, w: int, h: int|
        0 <= i < ds.len() && #[trigger] measures(ds[i], logical, w, h) && ds[i].x + w == right
    &&& exists|i: int, w: int, h: int|
        0 <= i < ds.len() && #[trigger] measures(ds[i], logical, w, h) && ds[i].y + h == bottom
}

proof fn lemma_spans_edges(
    ds: Seq<WaylandDisplayInfo>,
    logical: bool,
    left: int,
    top: int,
    right: int,
    bottom: int,
)
    requires
        spans(ds, logical, left, top, right, bottom),
    ensures
        ds.len() > 0,
        left == lefts(ds).min(),
        top == tops(ds).min(),
        right == rights(ds, logical).max(),
        bottom == bottoms(ds, logical).max(),
{
    let (i, j) = (
        choose|i: int| 0 <= i < ds.len() && #[trigger] ds[i].x == left,
        choose|i: int| 0 <= i < ds.len() && #[trigger] ds[i].y == top,
    );
    let (k, kw, kh) = choose|i: int, w: int, h: int|
        0 <= i < ds.len() && #[trigger] measures(ds[i], logical, w, h) && ds[i].x + w == right;
    let (n, nw, nh) = choose|i: int, w: int, h: int|
        0 <= i < ds.len() && #[trigger] measures(ds[i], logical, w, h) && ds[i].y + h == bottom;
    assert forall|m: int| 0 <= m < ds.len() implies left <= #[trigger] lefts(ds)[m] by {
        let size = ds[m].spec_size(logical);
        assert(measures(ds[m], logical, size.0 as int, size.1 as int));
    }
    assert forall|m: int| 0 <= m < ds.len() implies top <= #[trigger] tops(ds)[m] by {
        let size = ds[m].spec_size(logical);
        assert(measures(ds[m], logical, size.0 as int, size.1 as int));
    }
    assert forall|m: int| 0 <= m < ds.len() implies #[trigger] rights(ds, logical)[m] <= right by {
        let size = ds[m].spec_size(logical);
        assert(measures(ds[m], logical, size.0 as int, size.1 as int));
    }
    assert forall|m: int| 0 <= m < ds.len() implies #[trigger] bottoms(ds, logical)[m]
        <= bottom by {
        let size = ds[m].spec_size(logical);
        assert(measures(ds[m], logical, size.0 as int, size.1 as int));
    }
    lefts(ds).min_ensures();
    tops(ds).min_ensures();
    rights(ds, logical).max_ensures();
    bottoms(ds, logical).max_ensures();
    assert(lefts(ds)[i] == left && tops(ds)[j] == top);
    assert(rights(ds, logical)[k] == right && bottoms(ds, logical)[n] == bottom);
    assert(lefts(ds).contains(lefts(ds).min()));
    assert(tops(ds).contains(tops(ds).min()));
    assert(rights(ds, logical).contains(rights(ds, logical).max()));
    assert(bottoms(ds, logical).contains(bottoms(ds, logical).max()));
    let a = choose|a: int| 0 <= a < lefts(ds).len() && lefts(ds)[a] == lefts(ds).min();
    let b = choose|b: int| 0 <= b < tops(ds).len() && tops(ds)[b] == tops(ds).min();
    let c = choose|c: int|
        0 <= c < rights(ds, logical).len() && rights(ds, logical)[c] == rights(ds, logical).max();
    let e = choose|e: int|
        0 <= e < bottoms(ds, logical).len() && bottoms(ds, logical)[e] == bottoms(
            ds,
            logical,
        ).max();
    assert(left <= lefts(ds)[a] && top <= tops(ds)[b]);
    assert(rights(ds, logical)[c] <= right && bottoms(ds, logical)[e] <= bottom);
}

/// The bounds of a desktop are the rectangle that spans its displays: its left and top edge, its
/// width and its height. There are none where that rectangle has no area, or without displays.
pub proof fn law_bounds_span_the_layout(
    ds: Seq<WaylandDisplayInfo>,
    logical: bool,
    left: int,
    top: int,
    right: int,
    bottom: int,
)
    requires
        spans(ds, logical, left, top, right, bottom),
        right - left <= i32::MAX,
        bottom - top <= i32::MAX,
    ensures
        left < right && top < bottom ==> (spec_desktop_bounds(ds, logical) matches Some(b) && b.0
            == left && b.1 == top && b.2 == right - left && b.3 == bottom - top),
        left >= right || top >= bottom ==> spec_desktop_bounds(ds, logical) is None,
        spec_desktop_bounds(Seq::<WaylandDisplayInfo>::empty(), logical) is None,
{
    lemma_spans_edges(ds, logical, left, top, right, bottom);
    let i = choose|i: int| 0 <= i < ds.len() && #[trigger] ds[i].x == left;
    let j = choose|j: int| 0 <= j < ds.len() && #[trigger] ds[j].y == top;
    assert(i32::MIN <= left <= i32::MAX && i32::MIN <= top <= i32::MAX);
}

/// A layout can be measured where its edges, and the size of the rectangle that spans it, fit in
/// 32 bits.
pub proof fn law_ordinary_layouts_can_be_measured(
    ds: Seq<WaylandDisplayInfo>,
    logical: bool,
    left: int,
    top: int,
    right: int,
    bottom: int,
)
    requires
        spans(ds, logical, left, top, right, bottom),
        right - left <= i32::MAX,
        bottom - top <= i32::MAX,
        forall|i: int, w: int, h: int|
            0 <= i < ds.len() && #[trigger] measures(ds[i], logical, w, h) ==> i32::MIN <= ds[i].x
                + w <= i32::MAX && i32::MIN <= ds[i].y + h <= i32::MAX,
    ensures
        desktop_fits(ds, logical),
{
    lemma_spans_edges(ds, logical, left, top, right, bottom);
    assert forall|i: int| 0 <= i < ds.len() implies {
        &&& i32::MIN <= #[trigger] rights(ds, logical)[i] <= i32::MAX
        &&& i32::MIN <= bottoms(ds, logical)[i] <= i32::MAX
    } by {
        let size = ds[i].spec_size(logical);
        assert(measures(ds[i], logical, size.0 as int, size.1 as int));
    }
}

} // verus!
