//! What can be captured: a stream, or a monitor's part of one.
use crate::display::{
    bottoms, desktop_bounds, desktop_fits, desktop_is_representable, find_placed, first_where,
    law_bounds_span_the_layout, law_ordinary_layouts_can_be_measured, law_size_is_measured, lefts,
    lemma_first_where, measures, placed, rights, spans, spec_desktop_bounds, tops, Displays,
    WaylandDisplayInfo,
};
use crate::stream::PwStreamInfo;
use crate::text::{decimal, push_u64};
use vstd::prelude::*;

verus! {

/// A stream that can be captured, or a part of one.
///
/// `session` tells the portal session that granted the stream. The application keeps its
/// connection and its file descriptor under that number.
#[derive(Debug, Clone, Copy)]
pub struct PipeWireCapturable {
    pub session: u64,
    pub path: u64,
    pub source_type: u64,
    pub crop: Option<(usize, usize, usize, usize)>,
    pub primary: bool,
    pub position: (i32, i32),
    pub logical_size: (usize, usize),
    pub physical_size: (usize, usize),
}

/// A display that is offered to the peer. A display of the X server is known by a number.
#[derive(Debug, Clone, Copy)]
pub enum Display {
    X11(usize),
    WAYLAND(PipeWireCapturable),
}

/// The stream as a whole, with a physical size.
pub open spec fn whole_stream(
    session: u64,
    stream: PwStreamInfo,
    physical_size: (usize, usize),
) -> PipeWireCapturable {
    PipeWireCapturable {
        session,
        path: stream.path,
        source_type: stream.source_type,
        crop: None,
        primary: false,
        position: stream.position,
        logical_size: stream.size,
        physical_size,
    }
}

/// The physical size of a stream: the size that the portal reports, where no probe is made or
/// the probe gave no size, else the probed size.
pub open spec fn physical_size_of(
    stream: PwStreamInfo,
    server_running: bool,
    hyprland: bool,
    probed: Option<(usize, usize)>,
) -> (usize, usize) {
    match probed {
        Some(size) if !(server_running && hyprland) => size,
        _ => stream.size,
    }
}

/// The kind of a source, in words.
pub open spec fn kind_text(source_type: u64) -> Seq<char> {
    if source_type == 1 {
        "Desktop"@
    } else if source_type == 2 {
        "Window"@
    } else {
        "Unknow"@
    }
}

impl PipeWireCapturable {
    /// What to record in order to measure a stream, or `None` where it need not be measured.
    ///
    /// Hyprland reports the size of the selected monitor with the stream, and several streams
    /// can become unstable when each is probed. Elsewhere the reported size is not always
    /// correct, for instance under fractional scaling.
    pub fn probe(session: u64, stream: &PwStreamInfo, server_running: bool, hyprland: bool) -> (r:
        Option<PipeWireCapturable>)
        ensures
            r == (if server_running && hyprland {
                None
            } else {
                Some(whole_stream(session, *stream, (0, 0)))
            }),
    {
        if server_running && hyprland {
            None
        } else {
            Some(
                PipeWireCapturable {
                    session,
                    path: stream.path,
                    source_type: stream.source_type,
                    crop: None,
                    primary: false,
                    position: stream.position,
                    logical_size: stream.size,
                    physical_size: (0, 0),
                },
            )
        }
    }

    /// A capturable for a stream. `probed` is what the probe measured, if it did; `resolution`
    /// keeps the physical size of the session's last stream.
    pub fn new(
        session: u64,
        resolution: &mut Option<(usize, usize)>,
        stream: &PwStreamInfo,
        server_running: bool,
        hyprland: bool,
        probed: Option<(usize, usize)>,
    ) -> (r: Self)
        ensures
            r == whole_stream(
                session,
                *stream,
                physical_size_of(*stream, server_running, hyprland, probed),
            ),
            *final(resolution) == Some(r.physical_size),
    {
        let physical_size: (usize, usize) = if server_running && hyprland {
            stream.size
        } else {
            match probed {
                Some(size) => size,
                None => stream.size,
            }
        };
        *resolution = Some(physical_size);
        PipeWireCapturable {
            session,
            path: stream.path,
            source_type: stream.source_type,
            crop: None,
            primary: false,
            position: stream.position,
            logical_size: stream.size,
            physical_size,
        }
    }

    /// A name for the user.
    pub fn name(&self) -> (r: String)
        ensures
            r@ == "Pipewire "@ + kind_text(self.source_type) + ", path: "@ + decimal(
                self.path as nat,
            ),
    {
        let mut out: String = "Pipewire ".to_owned();
        if self.source_type == 1 {
            out.append("Desktop");
        } else if self.source_type == 2 {
            out.append("Window");
        } else {
            out.append("Unknow");
        }
        out.append(", path: ");
        push_u64(&mut out, self.path);
        out
    }
}

/// The measure by which a stream shows the whole desktop: the bounds of the desktop, in pixels
/// or else in logical units, that have just the size of the stream.
pub open spec fn workspace_basis(ds: Seq<WaylandDisplayInfo>, size: (usize, usize)) -> Option<
    ((i32, i32, usize, usize), bool),
> {
    match spec_desktop_bounds(ds, false) {
        Some(b) if size == (b.2, b.3) => Some((b, false)),
        _ => match spec_desktop_bounds(ds, true) {
            Some(b) if size == (b.2, b.3) => Some((b, true)),
            _ => None,
        },
    }
}

/// The display has a positive size.
pub open spec fn has_area(d: WaylandDisplayInfo, logical: bool) -> bool {
    d.spec_size(logical).0 > 0 && d.spec_size(logical).1 > 0
}

/// A stream of the desktop is divided among several displays: it is not yet a part, it has the
/// size of the desktop, and each display has an area.
pub open spec fn is_divisible(c: PipeWireCapturable, ds: Seq<WaylandDisplayInfo>) -> bool {
    &&& ds.len() > 1
    &&& c.crop is None
    &&& workspace_basis(ds, c.physical_size) matches Some(basis) && forall|i: int|
        0 <= i < ds.len() ==> has_area(#[trigger] ds[i], basis.1)
}

/// The part of a stream that shows one display.
pub open spec fn display_part(
    c: PipeWireCapturable,
    d: WaylandDisplayInfo,
    basis: ((i32, i32, usize, usize), bool),
) -> PipeWireCapturable {
    let (w, h) = (d.spec_size(basis.1).0 as usize, d.spec_size(basis.1).1 as usize);
    PipeWireCapturable {
        crop: Some(((d.x - basis.0.0) as usize, (d.y - basis.0.1) as usize, w, h)),
        position: (d.x, d.y),
        logical_size: (d.spec_size(true).0 as usize, d.spec_size(true).1 as usize),
        physical_size: (w, h),
        ..c
    }
}

/// The parts of a stream, one for each display.
pub open spec fn display_parts(c: PipeWireCapturable, ds: Seq<WaylandDisplayInfo>) -> Seq<
    PipeWireCapturable,
> {
    ds.map_values(
        |d: WaylandDisplayInfo| display_part(c, d, workspace_basis(ds, c.physical_size)->0),
    )
}

/// All that has to be computed to divide the stream fits in 32 bits: the bounds that are
/// measured, and each display's distance from them, up to the first display without an area.
pub open spec fn division_fits(c: PipeWireCapturable, ds: Seq<WaylandDisplayInfo>) -> bool {
    ds.len() > 1 && c.crop is None ==> {
        let basis = workspace_basis(ds, c.physical_size);
        &&& desktop_fits(ds, false)
        &&& !(basis matches Some(b) && !b.1) ==> desktop_fits(ds, true)
        &&& basis matches Some(b) ==> forall|i: int|
            0 <= i < ds.len() && (forall|k: int| 0 <= k < i ==> has_area(#[trigger] ds[k], b.1))
                ==> {
                &&& (#[trigger] ds[i]).x - b.0.0 <= i32::MAX
                &&& ds[i].y - b.0.1 <= i32::MAX
            }
    }
}

proof fn lemma_display_inside(ds: Seq<WaylandDisplayInfo>, logical: bool, i: int)
    requires
        0 <= i < ds.len(),
    ensures
        lefts(ds).min() <= ds[i].x,
        tops(ds).min() <= ds[i].y,
        ds[i].x + ds[i].spec_size(logical).0 <= rights(ds, logical).max(),
        ds[i].y + ds[i].spec_size(logical).1 <= bottoms(ds, logical).max(),
        lefts(ds).min() >= i32::MIN,
        tops(ds).min() >= i32::MIN,
{
    lefts(ds).min_ensures();
    tops(ds).min_ensures();
    rights(ds, logical).max_ensures();
    bottoms(ds, logical).max_ensures();
    assert(lefts(ds)[i] == ds[i].x && tops(ds)[i] == ds[i].y);
    assert(rights(ds, logical)[i] == ds[i].x + ds[i].spec_size(logical).0);
    assert(bottoms(ds, logical)[i] == ds[i].y + ds[i].spec_size(logical).1);
}

fn find_basis(capturable: &PipeWireCapturable, displays: &Vec<WaylandDisplayInfo>) -> (r: Option<
    ((i32, i32, usize, usize), bool),
>)
    requires
        displays@.len() > 1,
        capturable.crop is None,
        division_fits(*capturable, displays@),
    ensures
        r == workspace_basis(displays@, capturable.physical_size),
{
    match desktop_bounds(displays, false) {
        Some(b) => {
            if capturable.physical_size.0 == b.2 && capturable.physical_size.1 == b.3 {
                return Some((b, false));
            }
        },
        None => {},
    }
    match desktop_bounds(displays, true) {
        Some(b) => {
            if capturable.physical_size.0 == b.2 && capturable.physical_size.1 == b.3 {
                return Some((b, true));
            }
        },
        None => {},
    }
    None
}

/// Whether a stream can be divided without leaving 32 bits.
pub fn division_is_representable(capturable: &PipeWireCapturable, displays: &Displays) -> (r: bool)
    ensures
        r == division_fits(*capturable, displays.displays@),
{
    let ds: &Vec<WaylandDisplayInfo> = &displays.displays;
    if ds.len() <= 1 || capturable.crop.is_some() {
        return true;
    }
    if !desktop_is_representable(ds, false) {
        return false;
    }
    let in_pixels: bool = match desktop_bounds(ds, false) {
        Some(b) => capturable.physical_size.0 == b.2 && capturable.physical_size.1 == b.3,
        None => false,
    };
    if !in_pixels && !desktop_is_representable(ds, true) {
        return false;
    }
    let ghost found = workspace_basis(ds@, capturable.physical_size);
    let bounds: (i32, i32, usize, usize) = match desktop_bounds(ds, !in_pixels) {
        Some(b) => {
            if capturable.physical_size.0 != b.2 || capturable.physical_size.1 != b.3 {
                return true;
            }
            b
        },
        None => {
            return true;
        },
    };
    let mut i: usize = 0;
    while i < ds.len()
        invariant
            i <= ds.len(),
            ds@ == displays.displays@,
            found == Some((bounds, !in_pixels)),
            found == workspace_basis(ds@, capturable.physical_size),
            ds@.len() > 1 && capturable.crop is None && desktop_fits(ds@, false),
            !in_pixels ==> desktop_fits(ds@, true),
            forall|k: int| 0 <= k < i ==> has_area(#[trigger] ds@[k], !in_pixels),
            forall|k: int|
                0 <= k < i ==> (#[trigger] ds@[k]).x - bounds.0 <= i32::MAX && ds@[k].y - bounds.1
                    <= i32::MAX,
        decreases ds.len() - i,
    {
        let dx: i64 = ds[i].x as i64 - bounds.0 as i64;
        let dy: i64 = ds[i].y as i64 - bounds.1 as i64;
        if dx > i32::MAX as i64 || dy > i32::MAX as i64 {
            assert(ds@[i as int].x - bounds.0 == dx);
            return false;
        }
        let size: (i32, i32) = ds[i].size(!in_pixels);
        if size.0 <= 0 || size.1 <= 0 {
            assert(!has_area(ds@[i as int], !in_pixels));
            return true;
        }
        i = i + 1;
    }
    true
}

/// Divides a stream of the whole desktop into one capturable for each display. A stream that
/// cannot be divided comes back as it is.
pub fn split_workspace_capturable(capturable: PipeWireCapturable, displays: &Displays) -> (r:
    Result<Vec<PipeWireCapturable>, PipeWireCapturable>)
    requires
        division_fits(capturable, displays.displays@),
    ensures
        match r {
            Ok(parts) => {
                &&& is_divisible(capturable, displays.displays@)
                &&& parts@ == display_parts(capturable, displays.displays@)
            },
            Err(c) => c == capturable && !is_divisible(capturable, displays.displays@),
        },
{
    let ds: &Vec<WaylandDisplayInfo> = &displays.displays;
    if ds.len() <= 1 || capturable.crop.is_some() {
        return Err(capturable);
    }
    let (bounds, logical_basis) = match find_basis(&capturable, ds) {
        Some(basis) => basis,
        None => {
            return Err(capturable);
        },
    };
    let (min_x, min_y, desktop_w, desktop_h) = bounds;
    let mut capturables: Vec<PipeWireCapturable> = Vec::new();
    let mut i: usize = 0;
    while i < ds.len()
        invariant
            i <= ds.len(),
            ds@ == displays.displays@,
            ds@.len() > 1,
            capturable.crop is None,
            division_fits(capturable, ds@),
            bounds == (min_x, min_y, desktop_w, desktop_h),
            workspace_basis(ds@, capturable.physical_size) == Some((bounds, logical_basis)),
            spec_desktop_bounds(ds@, logical_basis) == Some(bounds),
            desktop_fits(ds@, logical_basis),
            capturables@ == display_parts(capturable, ds@).take(i as int),
            forall|k: int| 0 <= k < i ==> has_area(#[trigger] ds@[k], logical_basis),
        decreases ds.len() - i,
    {
        let wd: &WaylandDisplayInfo = &ds[i];
        proof {
            lemma_display_inside(ds@, logical_basis, i as int);
            lefts(ds@).min_ensures();
            tops(ds@).min_ensures();
            assert(lefts(ds@).contains(lefts(ds@).min()));
            assert(tops(ds@).contains(tops(ds@).min()));
            assert(min_x == lefts(ds@).min() && min_y == tops(ds@).min());
        }
        let x: i32 = wd.x - min_x;
        let y: i32 = wd.y - min_y;
        if x < 0 || y < 0 {
            return Err(capturable);
        }
        let (crop_w, crop_h) = wd.size(logical_basis);
        if crop_w <= 0 || crop_h <= 0 {
            assert(!has_area(ds@[i as int], logical_basis));
            return Err(capturable);
        }
        let crop: (usize, usize, usize, usize) = (
            x as usize,
            y as usize,
            crop_w as usize,
            crop_h as usize,
        );
        if crop.0 + crop.2 > desktop_w || crop.1 + crop.3 > desktop_h {
            return Err(capturable);
        }
        let (logical_w, logical_h) = wd.size(true);
        let part: PipeWireCapturable = PipeWireCapturable {
            crop: Some(crop),
            position: (wd.x, wd.y),
            logical_size: (logical_w as usize, logical_h as usize),
            physical_size: (crop.2, crop.3),
            ..capturable
        };
        proof {
            assert(display_parts(capturable, ds@)[i as int] == part);
            assert(display_parts(capturable, ds@).take(i + 1) =~= display_parts(
                capturable,
                ds@,
            ).take(i as int).push(part));
        }
        capturables.push(part);
        i = i + 1;
    }
    assert(display_parts(capturable, ds@).take(ds@.len() as int) =~= display_parts(
        capturable,
        ds@,
    ));
    Ok(capturables)
}

/// The parts into which a stream is divided lie inside the stream, have an area, and stand at
/// the places of the displays relative to the outermost edges.
pub proof fn law_parts_lie_inside(c: PipeWireCapturable, ds: Seq<WaylandDisplayInfo>, i: int)
    requires
        is_divisible(c, ds),
        division_fits(c, ds),
        0 <= i < ds.len(),
    ensures
        display_parts(c, ds)[i].crop matches Some(crop) && {
            &&& crop.0 + crop.2 <= c.physical_size.0
            &&& crop.1 + crop.3 <= c.physical_size.1
            &&& crop.2 > 0
            &&& crop.3 > 0
            &&& crop.0 == ds[i].x - lefts(ds).min()
            &&& crop.1 == ds[i].y - tops(ds).min()
        },
{
    let basis = workspace_basis(ds, c.physical_size)->0;
    assert(has_area(ds[i], basis.1));
    assert(spec_desktop_bounds(ds, basis.1) == Some(basis.0));
    assert(desktop_fits(ds, basis.1));
    lemma_display_inside(ds, basis.1, i);
    lefts(ds).min_ensures();
    tops(ds).min_ensures();
    assert(lefts(ds).contains(lefts(ds).min()));
    assert(tops(ds).contains(tops(ds).min()));
}

/// A capturable with the logical size of the display at its place, if that display has as many
/// pixels as the capturable and tells its logical size.
pub open spec fn fixed_logical_size(
    c: PipeWireCapturable,
    ds: Seq<WaylandDisplayInfo>,
) -> PipeWireCapturable {
    match first_where(ds, placed(c.position)) {
        Some(i) => match ds[i].logical_size {
            Some(size) if ds[i].has_pixels(c.physical_size) => PipeWireCapturable {
                logical_size: (size.0 as usize, size.1 as usize),
                ..c
            },
            _ => c,
        },
        None => c,
    }
}

/// A display after its logical size was put right.
pub open spec fn fixed_display(d: Display, ds: Seq<WaylandDisplayInfo>) -> Display {
    match d {
        Display::WAYLAND(c) => Display::WAYLAND(fixed_logical_size(c, ds)),
        Display::X11(_) => d,
    }
}

fn fix_capturable(capturable: PipeWireCapturable, ds: &Vec<WaylandDisplayInfo>) -> (r:
    PipeWireCapturable)
    ensures
        r == fixed_logical_size(capturable, ds@),
{
    let mut fixed: PipeWireCapturable = capturable;
    proof {
        lemma_first_where(ds@, placed(capturable.position));
    }
    match find_placed(ds, capturable.position) {
        Some(i) => match ds[i].logical_size {
            Some(size) => {
                if ds[i].matches_pixels(capturable.physical_size) {
                    fixed.logical_size = (size.0 as usize, size.1 as usize);
                }
            },
            None => {},
        },
        None => {},
    }
    fixed
}

/// The logical size that the portal reports may differ from the compositor's. Takes it from the
/// layout, where the stream shows exactly one display.
pub fn try_fix_logical_size(
    shared_displays: &mut Vec<Display>,
    displays: &Displays,
    server_running: bool,
)
    ensures
        final(shared_displays)@.len() == old(shared_displays)@.len(),
        forall|i: int|
            0 <= i < old(shared_displays)@.len() ==> #[trigger] final(shared_displays)@[i] == (
            if server_running {
                fixed_display(old(shared_displays)@[i], displays.displays@)
            } else {
                old(shared_displays)@[i]
            }),
{
    if !server_running {
        return;
    }
    let ghost before = shared_displays@;
    let mut i: usize = 0;
    while i < shared_displays.len()
        invariant
            i <= shared_displays.len(),
            shared_displays.len() == before.len(),
            forall|k: int|
                0 <= k < i ==> #[trigger] shared_displays@[k] == fixed_display(
                    before[k],
                    displays.displays@,
                ),
            forall|k: int| i <= k < before.len() ==> #[trigger] shared_displays@[k] == before[k],
        decreases shared_displays.len() - i,
    {
        match shared_displays[i] {
            Display::WAYLAND(capturable) => {
                let fixed: PipeWireCapturable = fix_capturable(capturable, &displays.displays);
                shared_displays.set(i, Display::WAYLAND(fixed));
            },
            Display::X11(_) => {},
        }
        i = i + 1;
    }
}

/// To put the logical size right a second time changes nothing more.
pub proof fn law_fixing_twice(d: Display, ds: Seq<WaylandDisplayInfo>)
    ensures
        fixed_display(fixed_display(d, ds), ds) == fixed_display(d, ds),
{
}

/// The logical size of a capturable is that of the first display at its place, exactly where that
/// display tells one and has both the width and the height of the capturable in pixels. A
/// capturable with another width or another height, such as one of the whole workspace, stays as
/// it was; so does one that is at the place of no display. Nothing but the logical size changes.
pub proof fn law_logical_size_is_that_of_the_same_display(
    c: PipeWireCapturable,
    ds: Seq<WaylandDisplayInfo>,
    i: int,
)
    requires
        0 <= i < ds.len(),
        ds[i].x == c.position.0 && ds[i].y == c.position.1,
        forall|k: int|
            0 <= k < i ==> (#[trigger] ds[k]).x != c.position.0 || ds[k].y != c.position.1,
    ensures
        fixed_display(Display::WAYLAND(c), ds) matches Display::WAYLAND(fixed) && {
            &&& ds[i].width as usize != c.physical_size.0 ==> fixed == c
            &&& ds[i].height as usize != c.physical_size.1 ==> fixed == c
            &&& ds[i].logical_size is None ==> fixed == c
            &&& (ds[i].logical_size matches Some(size) ==> (ds[i].width as usize
                == c.physical_size.0 && ds[i].height as usize == c.physical_size.1
                ==> fixed.logical_size == (size.0 as usize, size.1 as usize)))
            &&& fixed.session == c.session && fixed.path == c.path
            &&& fixed.source_type == c.source_type && fixed.crop == c.crop
            &&& fixed.primary == c.primary && fixed.position == c.position
            &&& fixed.physical_size == c.physical_size
        },
{
    lemma_first_where(ds, placed(c.position));
    match first_where(ds, placed(c.position)) {
        Some(k) => {
            if k < i {
                assert(ds[k].x != c.position.0 || ds[k].y != c.position.1);
            } else if i < k {
                assert(!placed(c.position)(ds[i]));
            }
        },
        None => {
            assert(!placed(c.position)(ds[i]));
        },
    }
}

/// A capturable that is at the place of no display, and a display of the X server, keep all that
/// they had.
pub proof fn law_logical_size_elsewhere_stays(
    c: PipeWireCapturable,
    n: usize,
    ds: Seq<WaylandDisplayInfo>,
)
    requires
        forall|k: int|
            0 <= k < ds.len() ==> (#[trigger] ds[k]).x != c.position.0 || ds[k].y != c.position.1,
    ensures
        fixed_display(Display::WAYLAND(c), ds) == Display::WAYLAND(c),
        fixed_display(Display::X11(n), ds) == Display::X11(n),
{
    lemma_first_where(ds, placed(c.position));
}

/// The capturable has the size of the rectangle that spans the layout.
pub open spec fn shows_span(
    c: PipeWireCapturable,
    ds: Seq<WaylandDisplayInfo>,
    logical: bool,
    left: int,
    top: int,
    right: int,
    bottom: int,
) -> bool {
    &&& spans(ds, logical, left, top, right, bottom)
    &&& left < right <= left + i32::MAX
    &&& top < bottom <= top + i32::MAX
    &&& c.physical_size.0 == right - left
    &&& c.physical_size.1 == bottom - top
}

/// A stream of the whole desktop, by its size in pixels or else in logical units, is divided where
/// there are several displays and each has an area. There is one part for each display, in their
/// order: at the place of the display, cut out at its distance from the left and the top edge of
/// the desktop, and of its size; with its logical size; and in all else like the stream.
pub proof fn law_desktop_stream_is_divided(
    c: PipeWireCapturable,
    ds: Seq<WaylandDisplayInfo>,
    logical: bool,
    left: int,
    top: int,
    right: int,
    bottom: int,
    other: (int, int, int, int),
    i: int,
    w: int,
    h: int,
    lw: int,
    lh: int,
)
    requires
        ds.len() > 1,
        c.crop is None,
        shows_span(c, ds, logical, left, top, right, bottom),
        // In logical units only where the stream has not the size of the desktop in pixels.
        logical ==> {
            &&& spans(ds, false, other.0, other.1, other.2, other.3)
            &&& other.2 - other.0 <= i32::MAX && other.3 - other.1 <= i32::MAX
            &&& other.0 >= other.2 || other.1 >= other.3 || c.physical_size.0 != other.2 - other.0
                || c.physical_size.1 != other.3 - other.1
        },
        forall|k: int, kw: int, kh: int|
            0 <= k < ds.len() && #[trigger] measures(ds[k], logical, kw, kh) ==> kw > 0 && kh > 0,
        0 <= i < ds.len(),
        measures(ds[i], logical, w, h),
        measures(ds[i], true, lw, lh),
        0 <= lw,
        0 <= lh,
    ensures
        is_divisible(c, ds),
        display_parts(c, ds).len() == ds.len(),
        ({
            let part = display_parts(c, ds)[i];
            &&& part.crop matches Some(crop) && crop.0 == ds[i].x - left && crop.1 == ds[i].y - top
                && crop.2 == w && crop.3 == h
            &&& part.position.0 == ds[i].x && part.position.1 == ds[i].y
            &&& part.physical_size.0 == w && part.physical_size.1 == h
            &&& part.logical_size.0 == lw && part.logical_size.1 == lh
            &&& part.session == c.session && part.path == c.path
            &&& part.source_type == c.source_type && part.primary == c.primary
        }),
{
    law_bounds_span_the_layout(ds, logical, left, top, right, bottom);
    if logical {
        law_bounds_span_the_layout(ds, false, other.0, other.1, other.2, other.3);
    }
    let basis = workspace_basis(ds, c.physical_size)->0;
    assert(workspace_basis(ds, c.physical_size) is Some && basis.1 == logical);
    assert forall|k: int| 0 <= k < ds.len() implies has_area(#[trigger] ds[k], logical) by {
        let size = ds[k].spec_size(logical);
        assert(measures(ds[k], logical, size.0 as int, size.1 as int));
    }
    law_size_is_measured(ds[i], logical, w, h);
    law_size_is_measured(ds[i], true, lw, lh);
    assert(left <= ds[i].x && top <= ds[i].y && ds[i].x + w <= right && ds[i].y + h <= bottom);
}

/// A stream that has neither the size of the desktop in pixels nor that in logical units is not
/// divided; nor is one that is a part already, nor one where there are fewer than two displays.
pub proof fn law_other_streams_are_not_divided(
    c: PipeWireCapturable,
    ds: Seq<WaylandDisplayInfo>,
    pixels: (int, int, int, int),
    units: (int, int, int, int),
)
    requires
        ds.len() > 0 ==> {
            &&& spans(ds, false, pixels.0, pixels.1, pixels.2, pixels.3)
            &&& spans(ds, true, units.0, units.1, units.2, units.3)
            &&& pixels.2 - pixels.0 <= i32::MAX && pixels.3 - pixels.1 <= i32::MAX
            &&& units.2 - units.0 <= i32::MAX && units.3 - units.1 <= i32::MAX
        },
        ({
            ||| ds.len() < 2
            ||| c.crop is Some
            ||| (c.physical_size.0 != pixels.2 - pixels.0 || c.physical_size.1 != pixels.3
                - pixels.1) && (c.physical_size.0 != units.2 - units.0 || c.physical_size.1
                != units.3 - units.1)
        }),
    ensures
        !is_divisible(c, ds),
{
    if ds.len() > 1 {
        law_bounds_span_the_layout(ds, false, pixels.0, pixels.1, pixels.2, pixels.3);
        law_bounds_span_the_layout(ds, true, units.0, units.1, units.2, units.3);
    }
}

/// A capturable is the whole stream: its node, kind, place and logical size are those of the
/// stream, and it belongs to the session that granted it. Its physical size is the measured one;
/// that of the stream where nothing was measured, and always on Hyprland while the server runs.
pub proof fn law_capturable_is_the_whole_stream(
    session: u64,
    stream: PwStreamInfo,
    server_running: bool,
    hyprland: bool,
    probed: Option<(usize, usize)>,
)
    ensures
        ({
            let size = physical_size_of(stream, server_running, hyprland, probed);
            let c = whole_stream(session, stream, size);
            &&& c.session == session && c.path == stream.path
            &&& c.source_type == stream.source_type && c.position == stream.position
            &&& c.logical_size == stream.size
            &&& c.crop is None && !c.primary
            &&& probed is Some && !server_running ==> c.physical_size == probed->0
            &&& probed is Some && !hyprland ==> c.physical_size == probed->0
            &&& probed is None ==> c.physical_size == stream.size
            &&& server_running && hyprland ==> c.physical_size == stream.size
        }),
{
}

/// The edges of the displays fit in 32 bits, and so does the size of the rectangle that spans them.
pub open spec fn is_ordinary_layout(
    ds: Seq<WaylandDisplayInfo>,
    logical: bool,
    left: int,
    top: int,
    right: int,
    bottom: int,
) -> bool {
    &&& spans(ds, logical, left, top, right, bottom)
    &&& right - left <= i32::MAX && bottom - top <= i32::MAX
    &&& forall|i: int, w: int, h: int|
        0 <= i < ds.len() && #[trigger] measures(ds[i], logical, w, h) ==> i32::MIN <= ds[i].x + w
            <= i32::MAX && i32::MIN <= ds[i].y + h <= i32::MAX
}

/// On ordinary layouts every stream can be divided, or found to be indivisible.
pub proof fn law_ordinary_streams_can_be_divided(
    c: PipeWireCapturable,
    ds: Seq<WaylandDisplayInfo>,
    pixels: (int, int, int, int),
    units: (int, int, int, int),
)
    requires
        is_ordinary_layout(ds, false, pixels.0, pixels.1, pixels.2, pixels.3),
        is_ordinary_layout(ds, true, units.0, units.1, units.2, units.3),
        forall|i: int, logical: bool, w: int, h: int|
            0 <= i < ds.len() && #[trigger] measures(ds[i], logical, w, h) ==> w >= 0 && h >= 0,
    ensures
        division_fits(c, ds),
{
    law_ordinary_layouts_can_be_measured(ds, false, pixels.0, pixels.1, pixels.2, pixels.3);
    law_ordinary_layouts_can_be_measured(ds, true, units.0, units.1, units.2, units.3);
    law_bounds_span_the_layout(ds, false, pixels.0, pixels.1, pixels.2, pixels.3);
    law_bounds_span_the_layout(ds, true, units.0, units.1, units.2, units.3);
    match workspace_basis(ds, c.physical_size) {
        Some(b) => {
            assert forall|i: int| 0 <= i < ds.len() implies (#[trigger] ds[i]).x - b.0.0 <= i32::MAX
                && ds[i].y - b.0.1 <= i32::MAX by {
                let size = ds[i].spec_size(b.1);
                assert(measures(ds[i], b.1, size.0 as int, size.1 as int));
            }
        },
        None => {},
    }
}

/// The kind of a source is told for desktops and windows, and of no other.
pub proof fn law_kinds_of_sources(source_type: u64)
    ensures
        source_type == 1 ==> kind_text(source_type) == "Desktop"@,
        source_type == 2 ==> kind_text(source_type) == "Window"@,
        source_type != 1 && source_type != 2 ==> kind_text(source_type) == "Unknow"@,
{
}

} // verus!
