//! The places of streams whose positions the portal does not report.
use crate::cache::{
    law_key_identifies_layout, layout_text, plain_name, same_place, PipewireDisplayOffsetCache,
};
use crate::capturable::{Display, PipeWireCapturable};
use crate::display::{sized, Displays, WaylandDisplayInfo};
use crate::stream::PwStreamInfo;
use crate::tokens::{LocalOptions, OptionsView};
use vstd::prelude::*;

verus! {

/// How many displays have a property.
pub open spec fn count_where(
    ds: Seq<WaylandDisplayInfo>,
    p: spec_fn(WaylandDisplayInfo) -> bool,
) -> nat
    decreases ds.len(),
{
    if ds.len() == 0 {
        0
    } else {
        count_where(ds.drop_last(), p) + if p(ds.last()) {
            1nat
        } else {
            0nat
        }
    }
}

/// The index of the last display with a property.
pub open spec fn last_where(
    ds: Seq<WaylandDisplayInfo>,
    p: spec_fn(WaylandDisplayInfo) -> bool,
) -> Option<int>
    decreases ds.len(),
{
    if ds.len() == 0 {
        None
    } else if p(ds.last()) {
        Some(ds.len() - 1)
    } else {
        last_where(ds.drop_last(), p)
    }
}

/// The place of the last display that has as many pixels as a capturable.
pub open spec fn place_by_size(c: PipeWireCapturable, ds: Seq<WaylandDisplayInfo>) -> Option<
    (i32, i32),
> {
    match last_where(ds, sized(c.physical_size)) {
        Some(i) => Some((ds[i].x, ds[i].y)),
        None => None,
    }
}

/// A capturable at a place, if one is given.
pub open spec fn moved(c: PipeWireCapturable, place: Option<(i32, i32)>) -> PipeWireCapturable {
    match place {
        Some(p) => PipeWireCapturable { position: p, ..c },
        None => c,
    }
}

/// A display at a place, if one is given. Only a capturable can be moved.
pub open spec fn moved_display(d: Display, place: Option<(i32, i32)>) -> Display {
    match d {
        Display::WAYLAND(c) => Display::WAYLAND(moved(c, place)),
        Display::X11(_) => d,
    }
}

/// A stream at a place, if one is given.
pub open spec fn moved_stream(s: PwStreamInfo, place: Option<(i32, i32)>) -> PwStreamInfo {
    match place {
        Some(p) => PwStreamInfo { position: p, ..s },
        None => s,
    }
}

/// The displays after each got the place that is given for it.
pub open spec fn moved_displays(
    shared: Seq<Display>,
    places: Seq<Option<(i32, i32)>>,
) -> Seq<Display> {
    Seq::new(shared.len(), |i: int| moved_display(shared[i], places[i]))
}

/// The streams after each got the place of the display with its index.
pub open spec fn moved_streams(
    streams: Seq<PwStreamInfo>,
    places: Seq<Option<(i32, i32)>>,
) -> Seq<PwStreamInfo> {
    Seq::new(
        streams.len(),
        |i: int|
            if i < places.len() {
                moved_stream(streams[i], places[i])
            } else {
                streams[i]
            },
    )
}

/// For each display, the place that follows from its size.
pub open spec fn places_by_size(
    shared: Seq<Display>,
    ds: Seq<WaylandDisplayInfo>,
) -> Seq<Option<(i32, i32)>> {
    shared.map_values(
        |d: Display|
            match d {
                Display::WAYLAND(c) => place_by_size(c, ds),
                Display::X11(_) => None,
            },
    )
}

/// The size of a display fits several displays of the layout.
pub open spec fn is_ambiguous(d: Display, ds: Seq<WaylandDisplayInfo>) -> bool {
    d matches Display::WAYLAND(c) && count_where(ds, sized(c.physical_size)) > 1
}

/// Those of the first `n` displays, by index, whose sizes fit several displays of the layout.
pub open spec fn ambiguous_indices(
    shared: Seq<Display>,
    ds: Seq<WaylandDisplayInfo>,
    n: nat,
) -> Seq<usize>
    decreases n,
{
    if n == 0 {
        seq![]
    } else {
        let before = ambiguous_indices(shared, ds, (n - 1) as nat);
        if is_ambiguous(shared[n - 1], ds) {
            before.push((n - 1) as usize)
        } else {
            before
        }
    }
}

/// The place of the last display with so many pixels, and how many there are.
fn match_size(size: (usize, usize), ds: &Vec<WaylandDisplayInfo>) -> (r: (
    Option<(i32, i32)>,
    usize,
))
    ensures
        r.1 == count_where(ds@, sized(size)),
        match last_where(ds@, sized(size)) {
            Some(i) => 0 <= i < ds@.len() && r.0 == Some((ds@[i].x, ds@[i].y)),
            None => r.0 is None,
        },
{
    let mut place: Option<(i32, i32)> = None;
    let mut count: usize = 0;
    let mut i: usize = 0;
    while i < ds.len()
        invariant
            i <= ds.len(),
            count <= i,
            count == count_where(ds@.take(i as int), sized(size)),
            match last_where(ds@.take(i as int), sized(size)) {
                Some(k) => 0 <= k < i && place == Some((ds@[k].x, ds@[k].y)),
                None => place is None,
            },
        decreases ds.len() - i,
    {
        assert(ds@.take(i + 1).drop_last() =~= ds@.take(i as int));
        assert(ds@.take(i + 1).last() == ds@[i as int]);
        if ds[i].matches_pixels(size) {
            place = Some((ds[i].x, ds[i].y));
            count = count + 1;
        }
        i = i + 1;
    }
    assert(ds@.take(ds@.len() as int) =~= ds@);
    (place, count)
}

/// Places each display, and the stream with its index, where a display of the layout has the same
/// size. Gives the indices of the displays whose sizes fit several displays of the layout.
pub fn match_positions_by_size(
    displays: &Displays,
    shared_displays: &mut Vec<Display>,
    streams: &mut Vec<PwStreamInfo>,
) -> (r: Vec<usize>)
    ensures
        ({
            let places = places_by_size(old(shared_displays)@, displays.displays@);
            &&& final(shared_displays)@ == moved_displays(old(shared_displays)@, places)
            &&& final(streams)@ == moved_streams(old(streams)@, places)
        }),
        r@ == ambiguous_indices(
            old(shared_displays)@,
            displays.displays@,
            old(shared_displays)@.len(),
        ),
{
    let ds: &Vec<WaylandDisplayInfo> = &displays.displays;
    let ghost shared = shared_displays@;
    let ghost grants = streams@;
    let ghost places = places_by_size(shared, ds@);
    let ghost shared_after = moved_displays(shared, places);
    let ghost grants_after = moved_streams(grants, places);
    let mut ambiguous: Vec<usize> = Vec::new();
    let mut i: usize = 0;
    while i < shared_displays.len()
        invariant
            i <= shared_displays.len(),
            ds@ == displays.displays@,
            shared_displays.len() == shared.len(),
            streams.len() == grants.len(),
            places == places_by_size(shared, ds@),
            shared_after == moved_displays(shared, places),
            grants_after == moved_streams(grants, places),
            forall|k: int| 0 <= k < i ==> shared_displays@[k] == shared_after[k],
            forall|k: int| i <= k < shared.len() ==> shared_displays@[k] == shared[k],
            forall|k: int| 0 <= k < i && k < grants.len() ==> streams@[k] == grants_after[k],
            forall|k: int| i <= k < grants.len() ==> streams@[k] == grants[k],
            ambiguous@ == ambiguous_indices(shared, ds@, i as nat),
        decreases shared_displays.len() - i,
    {
        match shared_displays[i] {
            Display::WAYLAND(capturable) => {
                let (place, count) = match_size(capturable.physical_size, ds);
                assert(places[i as int] == place);
                match place {
                    Some(p) => {
                        let mut placed: PipeWireCapturable = capturable;
                        placed.position = p;
                        shared_displays.set(i, Display::WAYLAND(placed));
                        if i < streams.len() {
                            streams[i].position = p;
                        }
                    },
                    None => {},
                }
                if count > 1 {
                    ambiguous.push(i);
                }
            },
            Display::X11(_) => {
                assert(places[i as int] is None);
            },
        }
        i = i + 1;
    }
    assert(shared_displays@ =~= shared_after);
    assert(streams@ =~= grants_after);
    ambiguous
}

/// A cache fits: it was made for as many displays, for this layout, and for this grant.
pub open spec fn cache_fits(
    cache: PipewireDisplayOffsetCache,
    ds: Seq<WaylandDisplayInfo>,
    restore_token: Seq<char>,
    count: nat,
) -> bool {
    &&& cache.offsets@.len() == count
    &&& cache.display_key@ == layout_text(ds)
    &&& cache.restore_token@ == restore_token
}

/// For each display, the place in a cache.
pub open spec fn cached_places(
    shared: Seq<Display>,
    offsets: Seq<(i32, i32)>,
) -> Seq<Option<(i32, i32)>> {
    Seq::new(
        shared.len(),
        |i: int|
            if shared[i] is WAYLAND && i < offsets.len() {
                Some(offsets[i])
            } else {
                None
            },
    )
}

/// Places the displays and their streams as a cache tells, if the cache fits. `cache` is `None`
/// where what was saved is no cache.
pub fn try_fill_positions_from_cache(
    cache: &Option<PipewireDisplayOffsetCache>,
    restore_token: &String,
    displays: &Displays,
    shared_displays: &mut Vec<Display>,
    streams: &mut Vec<PwStreamInfo>,
) -> (r: bool)
    ensures
        r == (cache matches Some(c) && cache_fits(
            *c,
            displays.displays@,
            restore_token@,
            old(shared_displays)@.len(),
        )),
        r ==> {
            let places = cached_places(old(shared_displays)@, cache->0.offsets@);
            &&& final(shared_displays)@ == moved_displays(old(shared_displays)@, places)
            &&& final(streams)@ == moved_streams(old(streams)@, places)
        },
        !r ==> *final(shared_displays) == *old(shared_displays) && *final(streams) == *old(streams),
{
    let cache: &PipewireDisplayOffsetCache = match cache {
        Some(cache) => cache,
        None => {
            return false;
        },
    };
    if cache.offsets.len() != shared_displays.len() {
        return false;
    }
    let display_key: String = PipewireDisplayOffsetCache::displays_to_key(displays);
    if cache.display_key != display_key {
        return false;
    }
    if cache.restore_token != *restore_token {
        return false;
    }
    let ghost shared = shared_displays@;
    let ghost grants = streams@;
    let ghost places = cached_places(shared, cache.offsets@);
    let ghost shared_after = moved_displays(shared, places);
    let ghost grants_after = moved_streams(grants, places);
    let mut i: usize = 0;
    while i < shared_displays.len()
        invariant
            i <= shared_displays.len(),
            shared_displays.len() == shared.len(),
            cache.offsets.len() == shared.len(),
            streams.len() == grants.len(),
            places == cached_places(shared, cache.offsets@),
            shared_after == moved_displays(shared, places),
            grants_after == moved_streams(grants, places),
            forall|k: int| 0 <= k < i ==> shared_displays@[k] == shared_after[k],
            forall|k: int| i <= k < shared.len() ==> shared_displays@[k] == shared[k],
            forall|k: int| 0 <= k < i && k < grants.len() ==> streams@[k] == grants_after[k],
            forall|k: int| i <= k < grants.len() ==> streams@[k] == grants[k],
        decreases shared_displays.len() - i,
    {
        match shared_displays[i] {
            Display::WAYLAND(capturable) => {
                let mut placed: PipeWireCapturable = capturable;
                placed.position = cache.offsets[i];
                shared_displays.set(i, Display::WAYLAND(placed));
                if i < streams.len() {
                    streams[i].position = cache.offsets[i];
                }
            },
            Display::X11(_) => {},
        }
        i = i + 1;
    }
    assert(shared_displays@ =~= shared_after);
    assert(streams@ =~= grants_after);
    true
}

/// The places of the first `n` displays, as far as they are capturables.
pub open spec fn capturable_places(shared: Seq<Display>, n: nat) -> Seq<(i32, i32)>
    decreases n,
{
    if n == 0 {
        seq![]
    } else {
        let before = capturable_places(shared, (n - 1) as nat);
        match shared[n - 1] {
            Display::WAYLAND(c) => before.push(c.position),
            Display::X11(_) => before,
        }
    }
}

/// The cache of the places of the displays, to be saved. There is none without a restore token:
/// the next grant could then be another.
pub fn save_positions_to_cache(
    restore_token: &String,
    displays: &Displays,
    shared_displays: &Vec<Display>,
) -> (r: Option<PipewireDisplayOffsetCache>)
    ensures
        match r {
            Some(cache) => {
                &&& restore_token@.len() > 0
                &&& cache.restore_token@ == restore_token@
                &&& cache.display_key@ == layout_text(displays.displays@)
                &&& cache.offsets@ == capturable_places(
                    shared_displays@,
                    shared_displays@.len(),
                )
            },
            None => restore_token@.len() == 0,
        },
{
    if restore_token.as_str().is_empty() {
        return None;
    }
    let mut offsets: Vec<(i32, i32)> = Vec::new();
    let mut i: usize = 0;
    while i < shared_displays.len()
        invariant
            i <= shared_displays.len(),
            offsets@ == capturable_places(shared_displays@, i as nat),
        decreases shared_displays.len() - i,
    {
        match shared_displays[i] {
            Display::WAYLAND(capturable) => {
                offsets.push(capturable.position);
            },
            Display::X11(_) => {},
        }
        i = i + 1;
    }
    Some(
        PipewireDisplayOffsetCache {
            display_key: PipewireDisplayOffsetCache::displays_to_key(displays),
            restore_token: restore_token.clone(),
            offsets,
        },
    )
}

/// How the positions were filled in.
#[derive(Debug)]
pub enum Filled {
    /// As the cache tells.
    FromCache,
    /// By size. The sizes of these displays fit several displays of the layout.
    BySize(Vec<usize>),
}

/// The cache is used: there is one, it fits, and the desktop is not Hyprland.
pub open spec fn uses_cache(
    options: OptionsView,
    cache: Option<PipewireDisplayOffsetCache>,
    ds: Seq<WaylandDisplayInfo>,
    count: nat,
    hyprland: bool,
) -> bool {
    &&& !hyprland
    &&& options.display_offset.len() > 0
    &&& cache matches Some(c) && cache_fits(c, ds, options.restore_token, count)
}

/// Fills in the positions of displays and their streams, from the cache or else by size. `cache`
/// is what the saved cache reads as, if it does. A saved cache that is not used is forgotten.
pub fn try_fill_positions(
    options: &mut LocalOptions,
    cache: &Option<PipewireDisplayOffsetCache>,
    displays: &Displays,
    shared_displays: &mut Vec<Display>,
    streams: &mut Vec<PwStreamInfo>,
    hyprland: bool,
) -> (r: Filled)
    ensures
        ({
            let cached = uses_cache(
                old(options)@,
                *cache,
                displays.displays@,
                old(shared_displays)@.len(),
                hyprland,
            );
            let places = if cached {
                cached_places(old(shared_displays)@, cache->0.offsets@)
            } else {
                places_by_size(old(shared_displays)@, displays.displays@)
            };
            &&& final(shared_displays)@ == moved_displays(old(shared_displays)@, places)
            &&& final(streams)@ == moved_streams(old(streams)@, places)
            &&& final(options)@ == (if cached {
                old(options)@
            } else {
                OptionsView { display_offset: seq![], ..old(options)@ }
            })
            &&& match r {
                Filled::FromCache => cached,
                Filled::BySize(indices) => !cached && indices@ == ambiguous_indices(
                    old(shared_displays)@,
                    displays.displays@,
                    old(shared_displays)@.len(),
                ),
            }
        }),
{
    if hyprland {
        options.display_offset = String::new();
    }
    if !options.display_offset.as_str().is_empty() {
        if try_fill_positions_from_cache(
            cache,
            &options.restore_token,
            displays,
            shared_displays,
            streams,
        ) {
            return Filled::FromCache;
        }
        options.display_offset = String::new();
    }
    assert(options@.display_offset =~= seq![]);
    Filled::BySize(match_positions_by_size(displays, shared_displays, streams))
}

proof fn lemma_capturable_places(shared: Seq<Display>, n: nat)
    requires
        n <= shared.len(),
        forall|i: int| 0 <= i < shared.len() ==> shared[i] is WAYLAND,
    ensures
        capturable_places(shared, n).len() == n,
        forall|i: int|
            0 <= i < n ==> #[trigger] capturable_places(shared, n)[i]
                == shared[i]->WAYLAND_0.position,
    decreases n,
{
    if n > 0 {
        lemma_capturable_places(shared, (n - 1) as nat);
    }
}

/// What was saved is restored: a cache of the places of some displays, all of them capturables,
/// fits as many displays on the same layout and under the same grant, and gives each of them,
/// and its stream, the place that the display with its index had.
pub proof fn law_saved_positions_are_restored(
    saved: Seq<Display>,
    cache: PipewireDisplayOffsetCache,
    ds: Seq<WaylandDisplayInfo>,
    restore_token: Seq<char>,
    later: Seq<Display>,
    streams: Seq<PwStreamInfo>,
)
    requires
        forall|i: int| 0 <= i < saved.len() ==> saved[i] is WAYLAND,
        forall|i: int| 0 <= i < later.len() ==> later[i] is WAYLAND,
        later.len() == saved.len(),
        cache.restore_token@ == restore_token,
        cache.display_key@ == layout_text(ds),
        cache.offsets@ == capturable_places(saved, saved.len()),
    ensures
        cache_fits(cache, ds, restore_token, later.len()),
        ({
            let places = cached_places(later, cache.offsets@);
            &&& forall|i: int|
                0 <= i < later.len() ==> (#[trigger] moved_displays(
                    later,
                    places,
                )[i])->WAYLAND_0.position == saved[i]->WAYLAND_0.position
            &&& forall|i: int|
                0 <= i < streams.len() && i < later.len() ==> (#[trigger] moved_streams(
                    streams,
                    places,
                )[i]).position == saved[i]->WAYLAND_0.position
        }),
{
    lemma_capturable_places(saved, saved.len());
}

/// A display of the layout has both the width and the height of a capturable, in pixels.
pub open spec fn same_pixels(c: PipeWireCapturable, d: WaylandDisplayInfo) -> bool {
    d.width as usize == c.physical_size.0 && d.height as usize == c.physical_size.1
}

proof fn lemma_last_where(ds: Seq<WaylandDisplayInfo>, c: PipeWireCapturable)
    ensures
        match last_where(ds, sized(c.physical_size)) {
            Some(i) => 0 <= i < ds.len() && same_pixels(c, ds[i]) && forall|k: int|
                i < k < ds.len() ==> !same_pixels(c, #[trigger] ds[k]),
            None => forall|k: int| 0 <= k < ds.len() ==> !same_pixels(c, #[trigger] ds[k]),
        },
    decreases ds.len(),
{
    if ds.len() > 0 {
        lemma_last_where(ds.drop_last(), c);
        assert forall|k: int| 0 <= k < ds.len() - 1 implies ds.drop_last()[k] == #[trigger] ds[k]
            by {}
        if !same_pixels(c, ds.last()) {
            match last_where(ds.drop_last(), sized(c.physical_size)) {
                Some(i) => {
                    assert forall|k: int| i < k < ds.len() implies !same_pixels(c, #[trigger] ds[k])
                        by {
                        if k < ds.len() - 1 {
                            assert(!same_pixels(c, ds.drop_last()[k]));
                        }
                    }
                },
                None => {
                    assert forall|k: int| 0 <= k < ds.len() implies !same_pixels(c, #[trigger] ds[k])
                        by {
                        if k < ds.len() - 1 {
                            assert(!same_pixels(c, ds.drop_last()[k]));
                        }
                    }
                },
            }
        }
    }
}

/// By size, a capturable is put at the place of the last display of the layout that has its width
/// and its height, and the stream with its index along with it. Nothing else of them changes.
pub proof fn law_size_tells_the_place(
    shared: Seq<Display>,
    streams: Seq<PwStreamInfo>,
    ds: Seq<WaylandDisplayInfo>,
    n: int,
    c: PipeWireCapturable,
    i: int,
)
    requires
        0 <= n < shared.len(),
        shared[n] == Display::WAYLAND(c),
        0 <= i < ds.len(),
        same_pixels(c, ds[i]),
        forall|k: int| i < k < ds.len() ==> !same_pixels(c, #[trigger] ds[k]),
    ensures
        ({
            let places = places_by_size(shared, ds);
            &&& moved_displays(shared, places).len() == shared.len()
            &&& moved_streams(streams, places).len() == streams.len()
            &&& moved_displays(shared, places)[n] == Display::WAYLAND(
                PipeWireCapturable { position: (ds[i].x, ds[i].y), ..c },
            )
            &&& n < streams.len() ==> moved_streams(streams, places)[n] == (PwStreamInfo {
                position: (ds[i].x, ds[i].y),
                ..streams[n]
            })
        }),
{
    lemma_last_where(ds, c);
    match last_where(ds, sized(c.physical_size)) {
        Some(k) => {
            if i < k {
                assert(!same_pixels(c, ds[k]));
            } else if k < i {
                assert(!same_pixels(c, ds[i]));
            }
        },
        None => {
            assert(!same_pixels(c, ds[i]));
        },
    }
}

/// By size, a capturable of a size that no display of the layout has, a display of the X server,
/// and a stream without a display of its index stay where they are.
pub proof fn law_unknown_size_changes_nothing(
    shared: Seq<Display>,
    streams: Seq<PwStreamInfo>,
    ds: Seq<WaylandDisplayInfo>,
    n: int,
)
    requires
        0 <= n < shared.len() ==> (shared[n] matches Display::WAYLAND(c) ==> forall|k: int|
            0 <= k < ds.len() ==> !same_pixels(c, #[trigger] ds[k])),
    ensures
        0 <= n < shared.len() ==> moved_displays(shared, places_by_size(shared, ds))[n]
            == shared[n],
        0 <= n < streams.len() ==> moved_streams(streams, places_by_size(shared, ds))[n]
            == streams[n],
{
    if 0 <= n < shared.len() {
        match shared[n] {
            Display::WAYLAND(c) => {
                lemma_last_where(ds, c);
            },
            Display::X11(_) => {},
        }
    }
}

proof fn lemma_count_where(ds: Seq<WaylandDisplayInfo>, c: PipeWireCapturable)
    ensures
        count_where(ds, sized(c.physical_size)) > 0 <==> exists|i: int|
            0 <= i < ds.len() && same_pixels(c, #[trigger] ds[i]),
        count_where(ds, sized(c.physical_size)) > 1 <==> exists|i: int, j: int|
            0 <= i < j < ds.len() && same_pixels(c, #[trigger] ds[i]) && same_pixels(
                c,
                #[trigger] ds[j],
            ),
    decreases ds.len(),
{
    if ds.len() > 0 {
        let less = ds.drop_last();
        let last = ds.len() - 1;
        let p = sized(c.physical_size);
        lemma_count_where(less, c);
        assert forall|k: int| 0 <= k < last implies less[k] == #[trigger] ds[k] by {}
        if count_where(less, p) > 0 {
            let i = choose|i: int| 0 <= i < less.len() && same_pixels(c, #[trigger] less[i]);
            assert(same_pixels(c, ds[i]));
            if same_pixels(c, ds[last]) {
                assert(0 <= i < last && same_pixels(c, ds[i]) && same_pixels(c, ds[last]));
            }
        }
        if count_where(less, p) > 1 {
            let (i, j) = choose|i: int, j: int|
                0 <= i < j < less.len() && same_pixels(c, #[trigger] less[i]) && same_pixels(
                    c,
                    #[trigger] less[j],
                );
            assert(same_pixels(c, ds[i]) && same_pixels(c, ds[j]));
        }
        if same_pixels(c, ds[last]) {
            assert(same_pixels(c, ds[last]));
        }
        if exists|i: int| 0 <= i < ds.len() && same_pixels(c, #[trigger] ds[i]) {
            let i = choose|i: int| 0 <= i < ds.len() && same_pixels(c, #[trigger] ds[i]);
            if i < last {
                assert(same_pixels(c, less[i]));
            }
        }
        if exists|i: int, j: int|
            0 <= i < j < ds.len() && same_pixels(c, #[trigger] ds[i]) && same_pixels(
                c,
                #[trigger] ds[j],
            ) {
            let (i, j) = choose|i: int, j: int|
                0 <= i < j < ds.len() && same_pixels(c, #[trigger] ds[i]) && same_pixels(
                    c,
                    #[trigger] ds[j],
                );
            assert(same_pixels(c, less[i]));
            if j < last {
                assert(same_pixels(c, less[j]));
            }
        }
    }
}

/// A size does not tell the place of a display where two displays of the layout have it, and only
/// there.
pub proof fn law_when_size_is_ambiguous(d: Display, ds: Seq<WaylandDisplayInfo>)
    ensures
        is_ambiguous(d, ds) <==> (d matches Display::WAYLAND(c) && exists|i: int, j: int|
            0 <= i < j < ds.len() && same_pixels(c, #[trigger] ds[i]) && same_pixels(
                c,
                #[trigger] ds[j],
            )),
{
    match d {
        Display::WAYLAND(c) => {
            lemma_count_where(ds, c);
        },
        Display::X11(_) => {},
    }
}

/// The indices of the displays whose sizes tell no place are just those, each once, ascending.
pub proof fn law_ambiguous_indices(
    shared: Seq<Display>,
    ds: Seq<WaylandDisplayInfo>,
    n: nat,
    i: usize,
)
    requires
        n <= shared.len() <= usize::MAX,
    ensures
        ambiguous_indices(shared, ds, n).contains(i) <==> i < n && is_ambiguous(
            shared[i as int],
            ds,
        ),
        forall|a: int, b: int|
            0 <= a < b < ambiguous_indices(shared, ds, n).len() ==> #[trigger] ambiguous_indices(
                shared,
                ds,
                n,
            )[a] < #[trigger] ambiguous_indices(shared, ds, n)[b],
        forall|a: int|
            0 <= a < ambiguous_indices(shared, ds, n).len() ==> #[trigger] ambiguous_indices(
                shared,
                ds,
                n,
            )[a] < n,
    decreases n,
{
    if n > 0 {
        let before = ambiguous_indices(shared, ds, (n - 1) as nat);
        let all = ambiguous_indices(shared, ds, n);
        law_ambiguous_indices(shared, ds, (n - 1) as nat, i);
        if is_ambiguous(shared[n - 1], ds) {
            assert(all == before.push((n - 1) as usize));
            assert(all[before.len() as int] == (n - 1) as usize);
            if before.contains(i) {
                let k = choose|k: int| 0 <= k < before.len() && before[k] == i;
                assert(all[k] == i);
            }
        }
    }
}

/// A cache that was saved under a grant is used again under the same grant, on the same layout, for
/// as many displays, off Hyprland.
pub proof fn law_saved_cache_is_used(
    saved: Seq<Display>,
    cache: PipewireDisplayOffsetCache,
    ds: Seq<WaylandDisplayInfo>,
    options: OptionsView,
)
    requires
        forall|i: int| 0 <= i < saved.len() ==> saved[i] is WAYLAND,
        cache.restore_token@ == options.restore_token,
        cache.display_key@ == layout_text(ds),
        cache.offsets@ == capturable_places(saved, saved.len()),
        options.display_offset.len() > 0,
    ensures
        uses_cache(options, Some(cache), ds, saved.len(), false),
{
    lemma_capturable_places(saved, saved.len());
}

/// A cache is not used on Hyprland, nor where nothing is saved or it cannot be read, nor under
/// another grant, nor for another number of displays, nor on a layout with other displays, told by
/// name, place and size.
pub proof fn law_stale_cache_is_not_used(
    options: OptionsView,
    cache: Option<PipewireDisplayOffsetCache>,
    ds: Seq<WaylandDisplayInfo>,
    then: Seq<WaylandDisplayInfo>,
    count: nat,
    hyprland: bool,
)
    requires
        cache is Some ==> cache->0.display_key@ == layout_text(then),
        forall|i: int| 0 <= i < ds.len() ==> plain_name((#[trigger] ds[i]).name@),
        forall|i: int| 0 <= i < then.len() ==> plain_name((#[trigger] then[i]).name@),
        ({
            ||| hyprland
            ||| options.display_offset.len() == 0
            ||| cache is None
            ||| cache->0.restore_token@ != options.restore_token
            ||| cache->0.offsets@.len() != count
            ||| ds.len() != then.len()
            ||| exists|i: int|
                0 <= i < ds.len() && ((#[trigger] ds[i]).name@ != then[i].name@ || ds[i].x
                    != then[i].x || ds[i].y != then[i].y || ds[i].width != then[i].width
                    || ds[i].height != then[i].height)
        }),
    ensures
        !uses_cache(options, cache, ds, count, hyprland),
{
    law_key_identifies_layout(then, ds);
    if uses_cache(options, cache, ds, count, hyprland) {
        assert(layout_text(then) == layout_text(ds));
        assert forall|i: int| 0 <= i < ds.len() implies {
            &&& (#[trigger] ds[i]).name@ == then[i].name@
            &&& ds[i].x == then[i].x && ds[i].y == then[i].y
            &&& ds[i].width == then[i].width && ds[i].height == then[i].height
        } by {
            assert(same_place(then[i], ds[i]));
        }
    }
}

/// From a cache a capturable, and the stream with its index, get the place that is saved at that
/// index; nothing else of them changes, and a display of the X server not at all.
pub proof fn law_cache_tells_the_place(
    shared: Seq<Display>,
    streams: Seq<PwStreamInfo>,
    offsets: Seq<(i32, i32)>,
    n: int,
)
    requires
        offsets.len() == shared.len(),
        0 <= n < shared.len(),
    ensures
        ({
            let places = cached_places(shared, offsets);
            &&& moved_displays(shared, places).len() == shared.len()
            &&& moved_streams(streams, places).len() == streams.len()
            &&& (shared[n] matches Display::WAYLAND(c) ==> moved_displays(shared, places)[n]
                == Display::WAYLAND(PipeWireCapturable { position: offsets[n], ..c }))
            &&& shared[n] is WAYLAND && n < streams.len() ==> moved_streams(streams, places)[n] == (
            PwStreamInfo { position: offsets[n], ..streams[n] })
            &&& shared[n] is X11 ==> moved_displays(shared, places)[n] == shared[n]
            &&& shared[n] is X11 && n < streams.len() ==> moved_streams(streams, places)[n]
                == streams[n]
            &&& forall|k: int|
                shared.len() <= k < streams.len() ==> #[trigger] moved_streams(streams, places)[k]
                    == streams[k]
        }),
{
}

/// The places that are saved are those of the capturables, one after the other; displays of the X
/// server have none.
pub proof fn law_saved_places_are_those_of_capturables(shared: Seq<Display>, n: nat)
    requires
        n < shared.len(),
    ensures
        capturable_places(shared, 0).len() == 0,
        shared[n as int] matches Display::WAYLAND(c) ==> capturable_places(shared, n + 1)
            == capturable_places(shared, n).push(c.position),
        shared[n as int] is X11 ==> capturable_places(shared, n + 1) == capturable_places(
            shared,
            n,
        ),
{
}

} // verus!
