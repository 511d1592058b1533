//! The displays that are shared: where they are, how they are ordered, and which is primary.
use crate::cache::PipewireDisplayOffsetCache;
use crate::capturable::{Display, PipeWireCapturable};
use crate::display::{Displays, WaylandDisplayInfo};
use crate::portal::supports_embedded_cursor;
use crate::positions::{
    ambiguous_indices, cached_places, moved_displays, moved_streams, places_by_size,
    try_fill_positions, uses_cache, Filled,
};
use crate::session::{CaptureState, RdpSessionInfo};
use crate::sorting::{
    all_placed, display_order, law_placed_streams_are_sorted, law_sorting_keeps_pairs, paired,
    sort_streams, sorted,
};
use crate::stream::PwStreamInfo;
use crate::tokens::{LocalOptions, OptionsView};
use vstd::prelude::*;

verus! {

/// What is left to do before the displays can be finished.
#[derive(Debug)]
pub enum FillStep {
    /// The server does not run: the displays stay as they are.
    Idle,
    /// The positions are known: the displays can be finished.
    Known,
    /// The positions follow from the sizes, but for these displays there are several choices.
    /// The pointer may tell them apart. Then the positions are to be saved, and the displays can
    /// be finished.
    Placed(Vec<usize>),
}

/// The positions have to be filled in: the portal did not report them, and there are several
/// displays.
pub open spec fn needs_positions(state: CaptureState, ds: Seq<WaylandDisplayInfo>) -> bool {
    !state.has_position_attr && ds.len() > 1
}

/// A session is another one with other streams.
pub open spec fn same_but_streams(
    before: RdpSessionInfo,
    after: RdpSessionInfo,
    streams: Seq<PwStreamInfo>,
) -> bool {
    &&& after.id == before.id
    &&& after.session == before.session
    &&& after.is_support_restore_token == before.is_support_restore_token
    &&& after.resolution == before.resolution
    &&& after.streams@ == streams
}

/// A state is another one with other streams in the primary session.
pub open spec fn same_but_primary_streams(
    before: CaptureState,
    after: CaptureState,
    streams: Seq<PwStreamInfo>,
) -> bool {
    &&& after.extras == before.extras
    &&& after.server_running == before.server_running
    &&& after.tried_additional_grants == before.tried_additional_grants
    &&& before.primary is Some
    &&& after.primary is Some
    &&& same_but_streams(before.primary->0, after.primary->0, streams)
}

/// The place of each display, as they are filled in.
pub open spec fn filled_places(
    cached: bool,
    cache: Option<PipewireDisplayOffsetCache>,
    shared: Seq<Display>,
    ds: Seq<WaylandDisplayInfo>,
) -> Seq<Option<(i32, i32)>> {
    if cached {
        cached_places(shared, cache->0.offsets@)
    } else {
        places_by_size(shared, ds)
    }
}

/// Fills in where the displays are, if that is not known. [`finish_displays`] completes the work,
/// after the step that is returned was done.
///
/// `cache` is what the saved cache of positions reads as, if it does.
pub fn fill_displays(
    state: &mut CaptureState,
    options: &mut LocalOptions,
    cache: &Option<PipewireDisplayOffsetCache>,
    displays: &Displays,
    shared_displays: &mut Vec<Display>,
    server_running: bool,
    hyprland: bool,
) -> (r: Result<FillStep, String>)
    ensures
        match r {
            Ok(FillStep::Idle) => !server_running,
            Err(message) => {
                &&& server_running
                &&& old(state).primary is None
                &&& message@ == "RDP session info is None when filling display positions."@
            },
            Ok(FillStep::Known) => {
                &&& server_running
                &&& old(state).primary is Some
                &&& needs_positions(*old(state), displays.displays@) ==> uses_cache(
                    old(options)@,
                    *cache,
                    displays.displays@,
                    old(shared_displays)@.len(),
                    hyprland,
                )
            },
            Ok(FillStep::Placed(indices)) => {
                &&& server_running
                &&& old(state).primary is Some
                &&& needs_positions(*old(state), displays.displays@)
                &&& !uses_cache(
                    old(options)@,
                    *cache,
                    displays.displays@,
                    old(shared_displays)@.len(),
                    hyprland,
                )
                &&& indices@ == ambiguous_indices(
                    old(shared_displays)@,
                    displays.displays@,
                    old(shared_displays)@.len(),
                )
            },
        },
        !(server_running && old(state).primary is Some && needs_positions(
            *old(state),
            displays.displays@,
        )) ==> {
            &&& *final(state) == *old(state)
            &&& *final(options) == *old(options)
            &&& *final(shared_displays) == *old(shared_displays)
        },
        server_running && old(state).primary is Some && needs_positions(
            *old(state),
            displays.displays@,
        ) ==> {
            let cached = uses_cache(
                old(options)@,
                *cache,
                displays.displays@,
                old(shared_displays)@.len(),
                hyprland,
            );
            let places = filled_places(
                cached,
                *cache,
                old(shared_displays)@,
                displays.displays@,
            );
            &&& final(shared_displays)@ == moved_displays(old(shared_displays)@, places)
            &&& same_but_primary_streams(
                *old(state),
                *final(state),
                moved_streams(old(state).primary->0.streams@, places),
            )
            &&& !final(state).has_position_attr
            &&& final(options)@ == (if cached {
                old(options)@
            } else {
                OptionsView { display_offset: seq![], ..old(options)@ }
            })
        },
{
    if !server_running {
        return Ok(FillStep::Idle);
    }
    if state.primary.is_none() {
        return Err("RDP session info is None when filling display positions.".to_owned());
    }
    if state.has_position_attr || displays.displays.len() <= 1 {
        return Ok(FillStep::Known);
    }
    let mut step: FillStep = FillStep::Known;
    if let Some(mut info) = state.primary.take() {
        let filled: Filled = try_fill_positions(
            options,
            cache,
            displays,
            shared_displays,
            &mut info.streams,
            hyprland,
        );
        state.primary = Some(info);
        match filled {
            Filled::FromCache => {},
            Filled::BySize(indices) => {
                step = FillStep::Placed(indices);
            },
        }
    }
    Ok(step)
}

/// Whether the pointer is used to tell displays apart: there are some to tell apart, and the
/// portal can draw the pointer into a stream.
pub fn fill_multi_matched_positions(
    multi_matched_indices: &Vec<usize>,
    cursor_modes: Option<u32>,
) -> (r: bool)
    ensures
        r == (multi_matched_indices@.len() > 0 && (cursor_modes matches Some(m) && m & 2 != 0)),
{
    if multi_matched_indices.len() == 0 {
        return false;
    }
    supports_embedded_cursor(cursor_modes)
}

/// The displays with the first one marked as primary.
pub open spec fn first_is_primary(shared: Seq<Display>) -> Seq<Display> {
    if shared.len() > 0 {
        match shared[0] {
            Display::WAYLAND(c) => shared.update(
                0,
                Display::WAYLAND(PipeWireCapturable { primary: true, ..c }),
            ),
            Display::X11(_) => shared,
        }
    } else {
        shared
    }
}

/// The streams and displays in their final order.
pub open spec fn arranged(
    streams: Seq<PwStreamInfo>,
    shared: Seq<Display>,
    ds: Seq<WaylandDisplayInfo>,
    primary: usize,
) -> (Seq<PwStreamInfo>, Seq<Display>) {
    if ds.len() > 1 && streams.len() == shared.len() {
        sorted(streams, shared, display_order(ds, primary))
    } else {
        (streams, shared)
    }
}

/// Notes that the positions are known, puts the displays and the streams of the primary session
/// in order, and marks the first display as primary. Without a session nothing changes.
pub fn finish_displays(
    state: &mut CaptureState,
    displays: &Displays,
    shared_displays: &mut Vec<Display>,
)
    ensures
        match old(state).primary {
            None => *final(state) == *old(state) && *final(shared_displays) == *old(
                shared_displays,
            ),
            Some(info) => {
                let (streams, shared) = arranged(
                    info.streams@,
                    old(shared_displays)@,
                    displays.displays@,
                    displays.primary,
                );
                &&& final(shared_displays)@ == first_is_primary(shared)
                &&& same_but_primary_streams(*old(state), *final(state), streams)
                &&& final(state).has_position_attr
            },
        },
{
    match state.primary.take() {
        None => {},
        Some(mut info) => {
            if displays.displays.len() > 1 && info.streams.len() == shared_displays.len() {
                sort_streams(displays, shared_displays, &mut info.streams);
            }
            state.primary = Some(info);
            state.has_position_attr = true;
            if shared_displays.len() > 0 {
                match shared_displays[0] {
                    Display::WAYLAND(capturable) => {
                        let mut first: PipeWireCapturable = capturable;
                        first.primary = true;
                        shared_displays.set(0, Display::WAYLAND(first));
                    },
                    Display::X11(_) => {},
                }
            }
        },
    }
}

/// No display and no stream that was granted is lost when the displays are finished: each is there
/// as often as before, and where there are as many streams as displays, with its partner.
pub proof fn law_finishing_keeps_all(
    streams: Seq<PwStreamInfo>,
    shared: Seq<Display>,
    ds: Seq<WaylandDisplayInfo>,
    primary: usize,
)
    ensures
        ({
            let (after, after_shared) = arranged(streams, shared, ds, primary);
            &&& after.len() == streams.len()
            &&& first_is_primary(after_shared).len() == shared.len()
            &&& streams.len() != shared.len() ==> after == streams && after_shared == shared
            &&& streams.len() == shared.len() ==> paired(after, after_shared).to_multiset()
                == paired(streams, shared).to_multiset()
        }),
{
    if streams.len() == shared.len() {
        law_sorting_keeps_pairs(streams, shared, display_order(ds, primary));
        vstd::seq_lib::to_multiset_len(paired(streams, shared));
        let (s, d) = sorted(streams, shared, display_order(ds, primary));
        vstd::seq_lib::to_multiset_len(paired(s, d));
    }
}

/// The first of the finished displays, if it is a capturable, is the primary one, and is else as it
/// was; all others stay as they were.
pub proof fn law_first_display_becomes_primary(shared: Seq<Display>, n: int)
    requires
        0 <= n < shared.len(),
    ensures
        first_is_primary(shared).len() == shared.len(),
        n > 0 ==> first_is_primary(shared)[n] == shared[n],
        shared[0] is X11 ==> first_is_primary(shared)[0] == shared[0],
        shared[0] matches Display::WAYLAND(c) ==> first_is_primary(shared)[0] == Display::WAYLAND(
            PipeWireCapturable { primary: true, ..c },
        ),
        first_is_primary(Seq::<Display>::empty()).len() == 0,
{
}

/// Positions have to be filled in exactly where they are not known and there are several displays.
/// Then they come from the cache, if it is used, else from the sizes.
pub proof fn law_where_positions_come_from(
    state: CaptureState,
    ds: Seq<WaylandDisplayInfo>,
    cache: PipewireDisplayOffsetCache,
    shared: Seq<Display>,
)
    ensures
        state.has_position_attr ==> !needs_positions(state, ds),
        ds.len() <= 1 ==> !needs_positions(state, ds),
        !state.has_position_attr && ds.len() > 1 ==> needs_positions(state, ds),
        filled_places(true, Some(cache), shared, ds) == cached_places(shared, cache.offsets@),
        filled_places(false, Some(cache), shared, ds) == places_by_size(shared, ds),
        filled_places(false, None, shared, ds) == places_by_size(shared, ds),
{
}

/// The display that shows the primary display of the layout is the first of those that are
/// offered, and marked so: if there are several displays, and each stream is at the place of one,
/// no two at one place.
pub proof fn law_primary_display_is_offered_first(
    streams: Seq<PwStreamInfo>,
    shared: Seq<Display>,
    ds: Seq<WaylandDisplayInfo>,
    primary: usize,
    n: int,
    c: PipeWireCapturable,
)
    requires
        ds.len() > 1,
        streams.len() == shared.len(),
        all_placed(streams, ds),
        primary < ds.len(),
        0 <= n < streams.len(),
        streams[n].position == (ds[primary as int].x, ds[primary as int].y),
        shared[n] == Display::WAYLAND(c),
    ensures
        ({
            let (after, after_shared) = arranged(streams, shared, ds, primary);
            &&& after[0] == streams[n]
            &&& first_is_primary(after_shared)[0] == Display::WAYLAND(
                PipeWireCapturable { primary: true, ..c },
            )
        }),
{
    law_placed_streams_are_sorted(streams, shared, ds, primary, n);
}

/// With a single display, or where there are not as many streams as displays, the order stays.
pub proof fn law_order_stays_without_pairs(
    streams: Seq<PwStreamInfo>,
    shared: Seq<Display>,
    ds: Seq<WaylandDisplayInfo>,
    primary: usize,
)
    requires
        ds.len() <= 1 || streams.len() != shared.len(),
    ensures
        arranged(streams, shared, ds, primary) == (streams, shared),
{
}

/// When positions are filled in or displays are finished, of the sessions that are held nothing
/// changes but the streams of the primary one.
pub proof fn law_only_streams_change(
    before: CaptureState,
    after: CaptureState,
    streams: Seq<PwStreamInfo>,
)
    requires
        same_but_primary_streams(before, after, streams),
    ensures
        after.extras == before.extras,
        after.server_running == before.server_running,
        after.tried_additional_grants == before.tried_additional_grants,
        before.primary is Some && after.primary is Some,
        after.primary->0.id == before.primary->0.id,
        after.primary->0.session == before.primary->0.session,
        after.primary->0.is_support_restore_token == before.primary->0.is_support_restore_token,
        after.primary->0.resolution == before.primary->0.resolution,
        after.primary->0.streams@ == streams,
{
}

} // verus!
