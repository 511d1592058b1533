//! Displays of one size are told apart by the pointer: it is moved onto one after the other, and
//! the stream in which it shows up is that of the display.
use crate::capturable::{whole_stream, Display, PipeWireCapturable};
use crate::cursor::{compare_left_up_corner, corners_differ};
use crate::display::{Displays, WaylandDisplayInfo};
use crate::recorder::PixelProvider;
use crate::stream::PwStreamInfo;
use vstd::prelude::*;

verus! {

/// Where the pointer waits while the first frame is captured.
pub const PARK_X: i32 = 300;

pub const PARK_Y: i32 = 300;

/// How far inside the upper left corner of a display the pointer is moved.
pub const PROBE_INSET: i32 = 8;

/// How long a frame is waited for, in milliseconds.
pub const CAPTURE_TIMEOUT_MS: u64 = 1000;

/// A frame that was captured: its format, its width, and its bytes.
#[derive(Debug)]
pub struct Frame {
    pub is_bgr: bool,
    pub width: usize,
    pub pixels: Vec<u8>,
}

/// The frame in what a capture gave, if it gave one.
pub fn frame_of(pixels: &PixelProvider) -> (r: Option<Frame>)
    ensures
        match *pixels {
            PixelProvider::BGR0(w, _, data) => r matches Some(f) && f.is_bgr && f.width == w
                && f.pixels@ == data@,
            PixelProvider::RGB0(w, _, data) => r matches Some(f) && !f.is_bgr && f.width == w
                && f.pixels@ == data@,
            PixelProvider::NONE => r is None,
        },
{
    match pixels {
        PixelProvider::BGR0(w, _, data) => Some(
            Frame { is_bgr: true, width: *w, pixels: copied(data) },
        ),
        PixelProvider::RGB0(w, _, data) => Some(
            Frame { is_bgr: false, width: *w, pixels: copied(data) },
        ),
        PixelProvider::NONE => None,
    }
}

/// A copy of some bytes.
fn copied(data: &[u8]) -> (r: Vec<u8>)
    ensures
        r@ == data@,
{
    let mut out: Vec<u8> = Vec::new();
    out.extend_from_slice(data);
    assert(out@ =~= data@);
    out
}

/// The first frame of a stream, and the display that the pointer is moved onto next.
#[derive(Debug)]
pub struct Baseline {
    pub frame: Frame,
    pub next: usize,
}

/// The search for the displays of some streams.
///
/// `pending` are the indices of the streams that have none yet, the one that is worked on first.
/// `matched` are the indices of the displays that were found to belong to a stream. `baseline` is
/// there while the pointer is moved about.
#[derive(Debug)]
pub struct CursorSearch {
    pub pending: Vec<usize>,
    pub matched: Vec<usize>,
    pub baseline: Option<Baseline>,
}

/// What is to be done next.
#[derive(Debug)]
pub enum ProbeAction {
    /// Park the pointer, record this stream, and hand in its first frame.
    Open(PipeWireCapturable),
    /// Move the pointer onto the display with this index, and hand in the next frame of the
    /// stream that is recorded.
    Probe(usize),
    /// Nothing.
    Done,
}

/// A search, with the displays and the streams that it works on.
pub ghost struct Search {
    pub pending: Seq<usize>,
    pub matched: Seq<usize>,
    pub baseline: Option<(Frame, usize)>,
    pub shared: Seq<Display>,
    pub streams: Seq<PwStreamInfo>,
}

/// A display of the layout is not yet taken, and has so many pixels.
pub open spec fn is_free_match(
    size: (usize, usize),
    ds: Seq<WaylandDisplayInfo>,
    matched: Seq<usize>,
    j: int,
) -> bool {
    &&& 0 <= j < ds.len()
    &&& !matched.contains(j as usize)
    &&& ds[j].has_pixels(size)
}

/// How many of the first `n` displays are not yet taken and have so many pixels.
pub open spec fn free_matches(
    size: (usize, usize),
    ds: Seq<WaylandDisplayInfo>,
    matched: Seq<usize>,
    n: nat,
) -> nat
    decreases n,
{
    if n == 0 {
        0
    } else {
        free_matches(size, ds, matched, (n - 1) as nat) + if is_free_match(
            size,
            ds,
            matched,
            n - 1,
        ) {
            1nat
        } else {
            0nat
        }
    }
}

/// The first display from an index on that is not yet taken and has so many pixels.
pub open spec fn next_free_match(
    size: (usize, usize),
    ds: Seq<WaylandDisplayInfo>,
    matched: Seq<usize>,
    from: int,
) -> Option<int>
    decreases ds.len() - from,
{
    if from < 0 || from >= ds.len() {
        None
    } else if is_free_match(size, ds, matched, from) {
        Some(from)
    } else {
        next_free_match(size, ds, matched, from + 1)
    }
}

impl CursorSearch {
    /// The search, with the displays and streams that it works on.
    pub open spec fn on(self, shared: Seq<Display>, streams: Seq<PwStreamInfo>) -> Search {
        Search {
            pending: self.pending@,
            matched: self.matched@,
            baseline: match self.baseline {
                Some(b) => Some((b.frame, b.next)),
                None => None,
            },
            shared,
            streams,
        }
    }
}

impl Search {
    /// The capturable that is worked on, if its display and stream are there.
    pub open spec fn current(self) -> Option<PipeWireCapturable> {
        if self.pending.len() > 0 && self.pending[0] < self.shared.len() && self.pending[0]
            < self.streams.len() {
            match self.shared[self.pending[0] as int] {
                Display::WAYLAND(c) => Some(c),
                Display::X11(_) => None,
            }
        } else {
            None
        }
    }

    /// The capturable that is worked on is left alone.
    pub open spec fn pass(self) -> Search {
        Search {
            pending: if self.pending.len() == 0 {
                self.pending
            } else {
                self.pending.drop_first()
            },
            baseline: None,
            ..self
        }
    }

    /// The capturable that is worked on, and its stream, are at the place of a display, which is
    /// thereby taken.
    pub open spec fn assign(self, ds: Seq<WaylandDisplayInfo>, j: int) -> Search {
        let i = self.pending[0] as int;
        let place = (ds[j].x, ds[j].y);
        Search {
            shared: self.shared.update(
                i,
                Display::WAYLAND(PipeWireCapturable { position: place, ..self.current()->0 }),
            ),
            streams: self.streams.update(
                i,
                PwStreamInfo { position: place, ..self.streams[i] },
            ),
            matched: self.matched.push(j as usize),
            ..self.pass()
        }
    }

    /// The pointer is needed for the capturable that is worked on: several displays are left for
    /// it, and its stream with the pointer is there.
    pub open spec fn needs_pointer(
        self,
        ds: Seq<WaylandDisplayInfo>,
        cursor_streams: Seq<PwStreamInfo>,
    ) -> bool {
        &&& self.current() matches Some(c) && free_matches(
            c.physical_size,
            ds,
            self.matched,
            ds.len(),
        ) > 1
        &&& self.pending[0] < cursor_streams.len()
    }

    /// One step without the pointer: the capturable gets the only display that is left for it,
    /// or is left alone.
    pub open spec fn settle_one(
        self,
        ds: Seq<WaylandDisplayInfo>,
        cursor_streams: Seq<PwStreamInfo>,
    ) -> Search {
        match self.current() {
            Some(c) => if self.pending[0] < cursor_streams.len() && free_matches(
                c.physical_size,
                ds,
                self.matched,
                ds.len(),
            ) == 1 {
                self.assign(ds, next_free_match(c.physical_size, ds, self.matched, 0)->0)
            } else {
                self.pass()
            },
            None => self.pass(),
        }
    }

    /// Steps without the pointer, as long as it is not needed.
    pub open spec fn settle(
        self,
        ds: Seq<WaylandDisplayInfo>,
        cursor_streams: Seq<PwStreamInfo>,
    ) -> Search
        decreases self.pending.len(),
    {
        if self.pending.len() == 0 || self.needs_pointer(ds, cursor_streams) {
            self
        } else {
            self.settle_one(ds, cursor_streams).settle(ds, cursor_streams)
        }
    }

    /// The next display that the pointer is moved onto, if one is left.
    pub open spec fn candidate(self, ds: Seq<WaylandDisplayInfo>) -> Option<int> {
        match (self.baseline, self.current()) {
            (Some((_, next)), Some(c)) => next_free_match(
                c.physical_size,
                ds,
                self.matched,
                next as int,
            ),
            _ => None,
        }
    }

    /// The search as it goes on: to the next display, or, where none is left for the capturable
    /// that is worked on, to the next capturable that needs the pointer.
    pub open spec fn advance(
        self,
        ds: Seq<WaylandDisplayInfo>,
        cursor_streams: Seq<PwStreamInfo>,
    ) -> Search {
        match self.baseline {
            Some((frame, _)) => match self.candidate(ds) {
                Some(j) => Search { baseline: Some((frame, j as usize)), ..self },
                None => self.pass().settle(ds, cursor_streams),
            },
            None => self.settle(ds, cursor_streams),
        }
    }

    /// What is to be done next.
    pub open spec fn action(self, session: u64, cursor_streams: Seq<PwStreamInfo>) -> ProbeAction {
        match self.baseline {
            Some((_, next)) => ProbeAction::Probe(next),
            None => if self.pending.len() == 0 {
                ProbeAction::Done
            } else {
                ProbeAction::Open(
                    whole_stream(session, cursor_streams[self.pending[0] as int], (0, 0)),
                )
            },
        }
    }

    /// The first frame came, or did not.
    pub open spec fn take_baseline(self, frame: Option<Frame>) -> Search {
        if self.pending.len() == 0 || self.baseline is Some {
            self
        } else {
            match frame {
                Some(f) => Search { baseline: Some((f, 0)), ..self },
                None => self.pass(),
            }
        }
    }

    /// The pointer shows up: the frame is of the same format as the first one, and differs from
    /// it in the corner.
    pub open spec fn shows_pointer(first: Frame, frame: Option<Frame>) -> bool {
        frame matches Some(f) && f.is_bgr == first.is_bgr && corners_differ(
            first.width,
            first.pixels@,
            f.pixels@,
        )
    }

    /// The frame came that was captured with the pointer on a display, or did not.
    pub open spec fn take_probe(self, ds: Seq<WaylandDisplayInfo>, frame: Option<Frame>) -> Search {
        match self.baseline {
            Some((first, next)) => if self.candidate(ds) != Some(next as int) {
                self
            } else if Self::shows_pointer(first, frame) {
                self.assign(ds, next as int)
            } else {
                Search { baseline: Some((first, (next + 1) as usize)), ..self }
            },
            None => self,
        }
    }
}

proof fn lemma_next_free_match(
    size: (usize, usize),
    ds: Seq<WaylandDisplayInfo>,
    matched: Seq<usize>,
    from: int,
)
    requires
        0 <= from,
    ensures
        match next_free_match(size, ds, matched, from) {
            Some(j) => from <= j && is_free_match(size, ds, matched, j) && forall|k: int|
                from <= k < j ==> !is_free_match(size, ds, matched, k),
            None => forall|k: int| from <= k ==> !is_free_match(size, ds, matched, k),
        },
    decreases ds.len() - from,
{
    if from < ds.len() && !is_free_match(size, ds, matched, from) {
        lemma_next_free_match(size, ds, matched, from + 1);
    }
}

proof fn lemma_free_matches(
    size: (usize, usize),
    ds: Seq<WaylandDisplayInfo>,
    matched: Seq<usize>,
    n: nat,
)
    ensures
        free_matches(size, ds, matched, n) > 0 <==> exists|k: int|
            0 <= k < n && is_free_match(size, ds, matched, k),
    decreases n,
{
    if n > 0 {
        lemma_free_matches(size, ds, matched, (n - 1) as nat);
        if is_free_match(size, ds, matched, n - 1) {
            assert(0 <= n - 1 < n && is_free_match(size, ds, matched, n - 1));
        }
        if exists|k: int| 0 <= k < n && is_free_match(size, ds, matched, k) {
            let k = choose|k: int| 0 <= k < n && is_free_match(size, ds, matched, k);
            if k < n - 1 {
                assert(0 <= k < n - 1 && is_free_match(size, ds, matched, k));
            }
        }
    }
}

/// Whether an index is among some.
fn holds_index(indices: &Vec<usize>, index: usize) -> (r: bool)
    ensures
        r == indices@.contains(index),
{
    let mut i: usize = 0;
    while i < indices.len()
        invariant
            i <= indices.len(),
            forall|k: int| 0 <= k < i ==> indices@[k] != index,
        decreases indices.len() - i,
    {
        if indices[i] == index {
            assert(indices@[i as int] == index);
            return true;
        }
        i = i + 1;
    }
    false
}

/// How many displays are not yet taken and have so many pixels.
fn count_free_matches(
    size: (usize, usize),
    ds: &Vec<WaylandDisplayInfo>,
    matched: &Vec<usize>,
) -> (r: usize)
    ensures
        r == free_matches(size, ds@, matched@, ds@.len()),
{
    let mut count: usize = 0;
    let mut i: usize = 0;
    while i < ds.len()
        invariant
            i <= ds.len(),
            count <= i,
            count == free_matches(size, ds@, matched@, i as nat),
        decreases ds.len() - i,
    {
        if !holds_index(matched, i) && ds[i].matches_pixels(size) {
            count = count + 1;
        }
        i = i + 1;
    }
    count
}

/// The first display from an index on that is not yet taken and has so many pixels.
fn find_free_match(
    size: (usize, usize),
    ds: &Vec<WaylandDisplayInfo>,
    matched: &Vec<usize>,
    from: usize,
) -> (r: Option<usize>)
    ensures
        match r {
            Some(j) => next_free_match(size, ds@, matched@, from as int) == Some(j as int) && j
                < ds.len(),
            None => next_free_match(size, ds@, matched@, from as int) is None,
        },
{
    let mut i: usize = from;
    while i < ds.len()
        invariant
            from <= i,
            next_free_match(size, ds@, matched@, from as int) == next_free_match(
                size,
                ds@,
                matched@,
                i as int,
            ),
        decreases ds.len() - i,
    {
        if !holds_index(matched, i) && ds[i].matches_pixels(size) {
            return Some(i);
        }
        i = i + 1;
    }
    None
}

impl CursorSearch {
    /// A search for the displays of the streams with these indices.
    pub fn new(multi_matched_indices: Vec<usize>) -> (r: Self)
        ensures
            r.pending == multi_matched_indices,
            r.matched@ == Seq::<usize>::empty(),
            r.baseline is None,
    {
        CursorSearch { pending: multi_matched_indices, matched: Vec::new(), baseline: None }
    }

    /// The capturable that is worked on, if its display and stream are there.
    fn current(&self, shared_displays: &Vec<Display>, streams: &Vec<PwStreamInfo>) -> (r: Option<
        PipeWireCapturable,
    >)
        ensures
            r == self.on(shared_displays@, streams@).current(),
    {
        if self.pending.len() > 0 && self.pending[0] < shared_displays.len() && self.pending[0]
            < streams.len() {
            match shared_displays[self.pending[0]] {
                Display::WAYLAND(capturable) => Some(capturable),
                Display::X11(_) => None,
            }
        } else {
            None
        }
    }

    /// Leaves the capturable that is worked on alone.
    fn pass(&mut self)
        ensures
            forall|shared: Seq<Display>, streams: Seq<PwStreamInfo>|
                #[trigger] final(self).on(shared, streams) == old(self).on(shared, streams).pass(),
    {
        if self.pending.len() > 0 {
            self.pending.remove(0);
            assert(self.pending@ =~= old(self).pending@.drop_first());
        }
        self.baseline = None;
    }

    /// Places the capturable that is worked on, and its stream, where a display is.
    fn assign(
        &mut self,
        displays: &Displays,
        j: usize,
        shared_displays: &mut Vec<Display>,
        streams: &mut Vec<PwStreamInfo>,
    )
        requires
            old(self).on(old(shared_displays)@, old(streams)@).current() is Some,
            j < displays.displays@.len(),
        ensures
            final(self).on(final(shared_displays)@, final(streams)@) == old(self).on(
                old(shared_displays)@,
                old(streams)@,
            ).assign(displays.displays@, j as int),
    {
        let index: usize = self.pending[0];
        let place: (i32, i32) = (displays.displays[j].x, displays.displays[j].y);
        match shared_displays[index] {
            Display::WAYLAND(capturable) => {
                let mut placed: PipeWireCapturable = capturable;
                placed.position = place;
                shared_displays.set(index, Display::WAYLAND(placed));
            },
            Display::X11(_) => {},
        }
        streams[index].position = place;
        self.matched.push(j);
        self.pass();
    }

    /// Goes on with the search. Gives what is to be done next; [`Self::on_baseline`] and
    /// [`Self::on_probe`] take what comes of it.
    ///
    /// `session` and `cursor_streams` are those of a session with the pointer drawn into the
    /// streams.
    pub fn next_action(
        &mut self,
        session: u64,
        cursor_streams: &Vec<PwStreamInfo>,
        displays: &Displays,
        shared_displays: &mut Vec<Display>,
        streams: &mut Vec<PwStreamInfo>,
    ) -> (r: ProbeAction)
        ensures
            ({
                let after = old(self).on(old(shared_displays)@, old(streams)@).advance(
                    displays.displays@,
                    cursor_streams@,
                );
                &&& final(self).on(final(shared_displays)@, final(streams)@) == after
                &&& r == after.action(session, cursor_streams@)
            }),
    {
        let ghost before = self.on(shared_displays@, streams@);
        let ds: &Vec<WaylandDisplayInfo> = &displays.displays;
        let from: Option<usize> = match &self.baseline {
            Some(baseline) => Some(baseline.next),
            None => None,
        };
        if let Some(from) = from {
            let found: Option<usize> = match self.current(shared_displays, streams) {
                Some(c) => find_free_match(c.physical_size, ds, &self.matched, from),
                None => None,
            };
            match (found, self.baseline.take()) {
                (Some(j), Some(baseline)) => {
                    self.baseline = Some(Baseline { frame: baseline.frame, next: j });
                    return ProbeAction::Probe(j);
                },
                _ => {},
            }
            self.pass();
        }
        let ghost after = before.advance(ds@, cursor_streams@);
        while self.pending.len() > 0
            invariant
                self.baseline is None,
                ds@ == displays.displays@,
                self.on(shared_displays@, streams@).settle(ds@, cursor_streams@) == after,
                after == before.advance(ds@, cursor_streams@),
                before == old(self).on(old(shared_displays)@, old(streams)@),
            decreases self.pending.len(),
        {
            let index: usize = self.pending[0];
            let current: Option<PipeWireCapturable> = self.current(shared_displays, streams);
            if let Some(capturable) = current {
                if index < cursor_streams.len() {
                    let size: (usize, usize) = capturable.physical_size;
                    let count: usize = count_free_matches(size, ds, &self.matched);
                    if count > 1 {
                        let stream: &PwStreamInfo = &cursor_streams[index];
                        return ProbeAction::Open(
                            PipeWireCapturable {
                                session,
                                path: stream.path,
                                source_type: stream.source_type,
                                crop: None,
                                primary: false,
                                position: stream.position,
                                logical_size: stream.size,
                                physical_size: (0, 0),
                            },
                        );
                    }
                    if count == 1 {
                        proof {
                            lemma_free_matches(size, ds@, self.matched@, ds@.len());
                            lemma_next_free_match(size, ds@, self.matched@, 0);
                        }
                        if let Some(j) = find_free_match(size, ds, &self.matched, 0) {
                            self.assign(displays, j, shared_displays, streams);
                            continue;
                        }
                    }
                }
            }
            self.pass();
        }
        ProbeAction::Done
    }

    /// Takes the first frame of the stream that is recorded, or `None` where there was none. The
    /// capturable is then left alone. Without [`ProbeAction::Open`] before it nothing happens.
    pub fn on_baseline(&mut self, frame: Option<Frame>)
        ensures
            forall|shared: Seq<Display>, streams: Seq<PwStreamInfo>|
                #[trigger] final(self).on(shared, streams) == old(self).on(
                    shared,
                    streams,
                ).take_baseline(frame),
    {
        if self.pending.len() == 0 || self.baseline.is_some() {
            return;
        }
        match frame {
            Some(frame) => {
                self.baseline = Some(Baseline { frame, next: 0 });
            },
            None => {
                self.pass();
            },
        }
    }

    /// Takes the frame that was captured with the pointer on a display, or `None` where there was
    /// none. Without [`ProbeAction::Probe`] before it nothing happens.
    pub fn on_probe(
        &mut self,
        frame: &Option<Frame>,
        displays: &Displays,
        shared_displays: &mut Vec<Display>,
        streams: &mut Vec<PwStreamInfo>,
    )
        ensures
            final(self).on(final(shared_displays)@, final(streams)@) == old(self).on(
                old(shared_displays)@,
                old(streams)@,
            ).take_probe(displays.displays@, *frame),
    {
        let (next, shown): (usize, bool) = match &self.baseline {
            None => {
                return;
            },
            Some(baseline) => {
                let shown: bool = match frame {
                    Some(frame) => frame.is_bgr == baseline.frame.is_bgr && compare_left_up_corner(
                        baseline.frame.width,
                        baseline.frame.pixels.as_slice(),
                        frame.pixels.as_slice(),
                    ),
                    None => false,
                };
                (baseline.next, shown)
            },
        };
        let found: Option<usize> = match self.current(shared_displays, streams) {
            Some(c) => find_free_match(c.physical_size, &displays.displays, &self.matched, next),
            None => None,
        };
        if let Some(j) = found {
            if j == next {
                if shown {
                    self.assign(displays, j, shared_displays, streams);
                } else if let Some(baseline) = self.baseline.take() {
                    self.baseline = Some(Baseline { frame: baseline.frame, next: next + 1 });
                }
            }
        }
    }
}

/// Where the pointer is moved for a display: just inside its upper left corner.
pub fn probe_point(display: &WaylandDisplayInfo) -> (r: (i32, i32))
    requires
        display.x + PROBE_INSET <= i32::MAX,
        display.y + PROBE_INSET <= i32::MAX,
    ensures
        r.0 == display.x + PROBE_INSET,
        r.1 == display.y + PROBE_INSET,
{
    (display.x + PROBE_INSET, display.y + PROBE_INSET)
}

impl Search {
    /// The displays that are taken are displays of the layout, and none is taken twice.
    pub open spec fn is_sound(self, ds: Seq<WaylandDisplayInfo>) -> bool {
        &&& self.matched.no_duplicates()
        &&& forall|k: int| 0 <= k < self.matched.len() ==> #[trigger] self.matched[k] < ds.len()
    }

    /// The display with an index, and its stream, were moved to where a display of the layout is
    /// that has as many pixels and was taken meanwhile.
    pub open spec fn was_placed(self, before: Search, ds: Seq<WaylandDisplayInfo>, i: int) -> bool {
        &&& before.pending.contains(i as usize)
        &&& i < before.streams.len()
        &&& before.shared[i] matches Display::WAYLAND(c) && exists|j: usize|
            {
                &&& #[trigger] self.matched.contains(j)
                &&& !before.matched.contains(j)
                &&& j < ds.len()
                &&& ds[j as int].has_pixels(c.physical_size)
                &&& self.shared[i] == Display::WAYLAND(
                    PipeWireCapturable { position: (ds[j as int].x, ds[j as int].y), ..c },
                )
                &&& self.streams[i] == (PwStreamInfo {
                    position: (ds[j as int].x, ds[j as int].y),
                    ..before.streams[i]
                })
            }
    }

    /// The search went on from an earlier point: no display that was taken is free again, and
    /// each display and its stream are as they were, or were placed.
    pub open spec fn follows(self, before: Search, ds: Seq<WaylandDisplayInfo>) -> bool {
        &&& forall|j: usize| before.matched.contains(j) ==> #[trigger] self.matched.contains(j)
        &&& forall|k: usize| #[trigger] self.pending.contains(k) ==> before.pending.contains(k)
        &&& self.shared.len() == before.shared.len()
        &&& self.streams.len() == before.streams.len()
        &&& forall|i: int|
            0 <= i < self.shared.len() && i < self.streams.len() ==> (#[trigger] self.shared[i]
                == before.shared[i] && self.streams[i] == before.streams[i]) || self.was_placed(
                before,
                ds,
                i,
            )
        &&& forall|i: int|
            self.streams.len() <= i < self.shared.len() ==> #[trigger] self.shared[i]
                == before.shared[i]
        &&& forall|i: int|
            self.shared.len() <= i < self.streams.len() ==> #[trigger] self.streams[i]
                == before.streams[i]
    }

    /// The search is closer to its end: fewer capturables are left, or as many, and the pointer
    /// was moved on.
    pub open spec fn is_closer(self, before: Search, ds: Seq<WaylandDisplayInfo>) -> bool {
        ||| self.pending.len() < before.pending.len()
        ||| {
            &&& self.pending.len() == before.pending.len()
            &&& match (before.baseline, self.baseline) {
                (None, Some(_)) => true,
                (Some((_, earlier)), Some((_, later))) => earlier < later <= ds.len(),
                _ => false,
            }
        }
    }
}

proof fn lemma_pass(s: Search, ds: Seq<WaylandDisplayInfo>)
    requires
        s.is_sound(ds),
    ensures
        s.pass().is_sound(ds),
        s.pass().follows(s, ds),
        s.pending.len() > 0 ==> s.pass().is_closer(s, ds),
{
    let t = s.pass();
    assert forall|k: usize| #[trigger] t.pending.contains(k) implies s.pending.contains(k) by {
        let n = choose|n: int| 0 <= n < t.pending.len() && t.pending[n] == k;
        if s.pending.len() > 0 {
            assert(s.pending[n + 1] == k);
        }
    }
}

proof fn lemma_assign(s: Search, ds: Seq<WaylandDisplayInfo>, j: int)
    requires
        s.is_sound(ds),
        ds.len() <= usize::MAX,
        s.current() is Some,
        is_free_match(s.current()->0.physical_size, ds, s.matched, j),
    ensures
        s.assign(ds, j).is_sound(ds),
        s.assign(ds, j).follows(s, ds),
        s.assign(ds, j).is_closer(s, ds),
{
    let t = s.assign(ds, j);
    lemma_pass(s, ds);
    assert forall|k: usize| s.matched.contains(k) implies #[trigger] t.matched.contains(k) by {
        let n = choose|n: int| 0 <= n < s.matched.len() && s.matched[n] == k;
        assert(t.matched[n] == k);
    }
    assert(t.matched[s.matched.len() as int] == j as usize);
    assert(t.matched.contains(j as usize));
    let i = s.pending[0] as int;
    assert(s.pending.contains(i as usize));
    assert(t.was_placed(s, ds, i));
}

proof fn lemma_follows_is_transitive(a: Search, b: Search, c: Search, ds: Seq<WaylandDisplayInfo>)
    requires
        b.follows(a, ds),
        c.follows(b, ds),
    ensures
        c.follows(a, ds),
{
    assert forall|i: int| 0 <= i < c.shared.len() && i < c.streams.len() implies (
    #[trigger] c.shared[i] == a.shared[i] && c.streams[i] == a.streams[i]) || c.was_placed(
        a,
        ds,
        i,
    ) by {
        assert(b.shared[i] == b.shared[i]);
        if c.was_placed(b, ds, i) {
            let size = b.shared[i]->WAYLAND_0.physical_size;
            let j = choose|j: usize|
                {
                    &&& #[trigger] c.matched.contains(j)
                    &&& !b.matched.contains(j)
                    &&& j < ds.len()
                    &&& ds[j as int].has_pixels(size)
                    &&& c.shared[i] == Display::WAYLAND(
                        PipeWireCapturable {
                            position: (ds[j as int].x, ds[j as int].y),
                            ..b.shared[i]->WAYLAND_0
                        },
                    )
                    &&& c.streams[i] == (PwStreamInfo {
                        position: (ds[j as int].x, ds[j as int].y),
                        ..b.streams[i]
                    })
                };
            assert(!a.matched.contains(j)) by {
                if a.matched.contains(j) {
                    assert(b.matched.contains(j));
                }
            }
            assert(c.matched.contains(j));
        } else if b.was_placed(a, ds, i) {
            let j = choose|j: usize|
                {
                    &&& #[trigger] b.matched.contains(j)
                    &&& !a.matched.contains(j)
                    &&& j < ds.len()
                    &&& ds[j as int].has_pixels(a.shared[i]->WAYLAND_0.physical_size)
                    &&& b.shared[i] == Display::WAYLAND(
                        PipeWireCapturable {
                            position: (ds[j as int].x, ds[j as int].y),
                            ..a.shared[i]->WAYLAND_0
                        },
                    )
                    &&& b.streams[i] == (PwStreamInfo {
                        position: (ds[j as int].x, ds[j as int].y),
                        ..a.streams[i]
                    })
                };
            assert(c.matched.contains(j));
        }
    }
    assert forall|i: int| c.streams.len() <= i < c.shared.len() implies #[trigger] c.shared[i]
        == a.shared[i] by {
        assert(b.shared[i] == a.shared[i]);
    }
    assert forall|i: int| c.shared.len() <= i < c.streams.len() implies #[trigger] c.streams[i]
        == a.streams[i] by {
        assert(b.streams[i] == a.streams[i]);
    }
}

proof fn lemma_settle(
    s: Search,
    ds: Seq<WaylandDisplayInfo>,
    cursor_streams: Seq<PwStreamInfo>,
)
    requires
        s.is_sound(ds),
        ds.len() <= usize::MAX,
        s.baseline is None,
    ensures
        ({
            let t = s.settle(ds, cursor_streams);
            &&& t.is_sound(ds)
            &&& t.follows(s, ds)
            &&& t.pending.len() <= s.pending.len()
            &&& t.baseline is None
        }),
    decreases s.pending.len(),
{
    if s.pending.len() > 0 && !s.needs_pointer(ds, cursor_streams) {
        let t = s.settle_one(ds, cursor_streams);
        match s.current() {
            Some(c) => {
                lemma_free_matches(c.physical_size, ds, s.matched, ds.len());
                lemma_next_free_match(c.physical_size, ds, s.matched, 0);
                if t == s.pass() {
                    lemma_pass(s, ds);
                } else {
                    lemma_assign(
                        s,
                        ds,
                        next_free_match(c.physical_size, ds, s.matched, 0)->0,
                    );
                }
            },
            None => {
                lemma_pass(s, ds);
            },
        }
        lemma_settle(t, ds, cursor_streams);
        lemma_follows_is_transitive(s, t, t.settle(ds, cursor_streams), ds);
    }
}

/// As the search goes on, no display is taken twice, and a capturable is only ever moved, along
/// with its stream, to a display of its size that was free.
pub proof fn law_search_is_sound(
    s: Search,
    ds: Seq<WaylandDisplayInfo>,
    cursor_streams: Seq<PwStreamInfo>,
    frame: Option<Frame>,
)
    requires
        s.is_sound(ds),
        ds.len() <= usize::MAX,
    ensures
        s.advance(ds, cursor_streams).is_sound(ds),
        s.advance(ds, cursor_streams).follows(s, ds),
        s.take_baseline(frame).is_sound(ds),
        s.take_baseline(frame).follows(s, ds),
        s.take_probe(ds, frame).is_sound(ds),
        s.take_probe(ds, frame).follows(s, ds),
{
    lemma_pass(s, ds);
    match s.baseline {
        Some((_, next)) => {
            match s.current() {
                Some(c) => {
                    lemma_next_free_match(c.physical_size, ds, s.matched, next as int);
                    if s.candidate(ds) == Some(next as int) {
                        lemma_assign(s, ds, next as int);
                    }
                },
                None => {},
            }
            lemma_settle(s.pass(), ds, cursor_streams);
            lemma_follows_is_transitive(
                s,
                s.pass(),
                s.pass().settle(ds, cursor_streams),
                ds,
            );
        },
        None => {
            lemma_settle(s, ds, cursor_streams);
        },
    }
}

/// The search ends: whatever frame comes after an action, or none, the search is closer to its
/// end, and what is found out without the pointer takes it no farther away.
pub proof fn law_search_ends(
    earlier: Search,
    ds: Seq<WaylandDisplayInfo>,
    cursor_streams: Seq<PwStreamInfo>,
    frame: Option<Frame>,
)
    requires
        earlier.is_sound(ds),
        ds.len() <= usize::MAX,
    ensures
        ({
            let s = earlier.advance(ds, cursor_streams);
            &&& s.pending.len() <= earlier.pending.len()
            &&& s.pending.len() == earlier.pending.len() ==> match (earlier.baseline, s.baseline) {
                (Some((_, before)), Some((_, next))) => before <= next,
                (None, None) => true,
                _ => s.pending.len() == 0,
            }
            &&& match s.action(0, cursor_streams) {
                ProbeAction::Open(_) => s.take_baseline(frame).is_closer(s, ds),
                ProbeAction::Probe(_) => s.take_probe(ds, frame).is_closer(s, ds),
                ProbeAction::Done => s.pending.len() == 0,
            }
        }),
{
    law_search_is_sound(earlier, ds, cursor_streams, frame);
    let s = earlier.advance(ds, cursor_streams);
    lemma_pass(earlier, ds);
    lemma_pass(s, ds);
    match earlier.baseline {
        Some((first, next)) => {
            match earlier.candidate(ds) {
                Some(j) => {
                    let size = earlier.current()->0.physical_size;
                    lemma_next_free_match(size, ds, earlier.matched, next as int);
                    lemma_next_free_match(size, ds, s.matched, j);
                    assert(s.candidate(ds) == Some(j));
                    lemma_assign(s, ds, j);
                },
                None => {
                    lemma_settle(earlier.pass(), ds, cursor_streams);
                },
            }
        },
        None => {
            lemma_settle(earlier, ds, cursor_streams);
        },
    }
}

/// A display of the layout is free for a capturable: no other was found to be at its place, and it
/// has both the width and the height of the capturable, in pixels.
pub open spec fn is_free_for(
    c: PipeWireCapturable,
    ds: Seq<WaylandDisplayInfo>,
    matched: Seq<usize>,
    j: int,
) -> bool {
    &&& 0 <= j < ds.len()
    &&& forall|k: int| 0 <= k < matched.len() ==> #[trigger] matched[k] != j
    &&& ds[j].width as usize == c.physical_size.0
    &&& ds[j].height as usize == c.physical_size.1
}

/// The search works on a capturable: it is the first that is left, and its stream is there.
pub open spec fn works_on(s: Search, i: int, c: PipeWireCapturable) -> bool {
    &&& s.pending.len() > 0 && s.pending[0] == i
    &&& i < s.shared.len() && i < s.streams.len()
    &&& s.shared[i] == Display::WAYLAND(c)
}

proof fn lemma_free_for(
    c: PipeWireCapturable,
    ds: Seq<WaylandDisplayInfo>,
    matched: Seq<usize>,
    j: int,
)
    requires
        ds.len() <= usize::MAX,
    ensures
        is_free_for(c, ds, matched, j) <==> is_free_match(c.physical_size, ds, matched, j),
{
    if 0 <= j < ds.len() && matched.contains(j as usize) {
        let k = choose|k: int| 0 <= k < matched.len() && matched[k] == j as usize;
        assert(matched[k] == j);
    }
}

/// With the pointer on a display, the frame decides. If it is of the format of the first one and
/// differs from it in the corner, the capturable and its stream are put at the place of the
/// display, which is taken thereby, and it is the turn of the next capturable. Else nothing
/// moves, and the search goes on behind that display. Nothing else changes.
pub proof fn law_pointer_decides(
    s: Search,
    ds: Seq<WaylandDisplayInfo>,
    frame: Option<Frame>,
    i: int,
    c: PipeWireCapturable,
    first: Frame,
    j: usize,
)
    requires
        ds.len() < usize::MAX,
        works_on(s, i, c),
        s.baseline == Some((first, j)),
        is_free_for(c, ds, s.matched, j as int),
    ensures
        ({
            let t = s.take_probe(ds, frame);
            let place = (ds[j as int].x, ds[j as int].y);
            let shown = frame is Some && frame->0.is_bgr == first.is_bgr && corners_differ(
                first.width,
                first.pixels@,
                frame->0.pixels@,
            );
            &&& shown ==> {
                &&& t.shared == s.shared.update(
                    i,
                    Display::WAYLAND(PipeWireCapturable { position: place, ..c }),
                )
                &&& t.streams == s.streams.update(
                    i,
                    PwStreamInfo { position: place, ..s.streams[i] },
                )
                &&& t.matched == s.matched.push(j)
                &&& t.pending == s.pending.skip(1)
                &&& t.baseline is None
            }
            &&& !shown ==> {
                &&& t.shared == s.shared && t.streams == s.streams
                &&& t.matched == s.matched && t.pending == s.pending
                &&& t.baseline == Some((first, (j + 1) as usize))
            }
        }),
{
    lemma_free_for(c, ds, s.matched, j as int);
    assert(next_free_match(c.physical_size, ds, s.matched, j as int) == Some(j as int));
    assert(s.pending.drop_first() =~= s.pending.skip(1));
}

/// While the pointer is moved about for a capturable, it is moved next onto the first display, from
/// where the search is, that is free for it. Where none is left, the capturable is left alone, and
/// the search goes on with the next one.
pub proof fn law_next_free_display_is_probed(
    s: Search,
    ds: Seq<WaylandDisplayInfo>,
    cursor_streams: Seq<PwStreamInfo>,
    session: u64,
    i: int,
    c: PipeWireCapturable,
    first: Frame,
    next: usize,
    j: int,
)
    requires
        ds.len() <= usize::MAX,
        works_on(s, i, c),
        s.baseline == Some((first, next)),
        next <= j,
        j < ds.len() ==> is_free_for(c, ds, s.matched, j),
        forall|k: int| next <= k < j ==> !#[trigger] is_free_for(c, ds, s.matched, k),
    ensures
        j < ds.len() ==> s.advance(ds, cursor_streams) == (Search {
            baseline: Some((first, j as usize)),
            ..s
        }),
        j < ds.len() ==> s.advance(ds, cursor_streams).action(session, cursor_streams)
            == ProbeAction::Probe(j as usize),
        j >= ds.len() ==> s.advance(ds, cursor_streams) == (Search {
            pending: s.pending.skip(1),
            baseline: None,
            ..s
        }).settle(ds, cursor_streams),
{
    lemma_next_free_match(c.physical_size, ds, s.matched, next as int);
    assert(s.pending.drop_first() =~= s.pending.skip(1));
    match next_free_match(c.physical_size, ds, s.matched, next as int) {
        Some(k) => {
            lemma_free_for(c, ds, s.matched, k);
            if k < j {
                assert(is_free_for(c, ds, s.matched, k));
            } else if j < k {
                lemma_free_for(c, ds, s.matched, j);
            }
        },
        None => {
            if j < ds.len() {
                lemma_free_for(c, ds, s.matched, j);
            }
        },
    }
}

proof fn lemma_count_of_free_displays(
    size: (usize, usize),
    ds: Seq<WaylandDisplayInfo>,
    matched: Seq<usize>,
    n: nat,
    j: int,
)
    requires
        0 <= j < n,
        is_free_match(size, ds, matched, j),
        forall|k: int| 0 <= k < n && k != j ==> !#[trigger] is_free_match(size, ds, matched, k),
    ensures
        free_matches(size, ds, matched, n) == 1,
    decreases n,
{
    lemma_free_matches(size, ds, matched, (n - 1) as nat);
    if j < n - 1 {
        lemma_count_of_free_displays(size, ds, matched, (n - 1) as nat, j);
    }
}

proof fn lemma_two_free_displays(
    size: (usize, usize),
    ds: Seq<WaylandDisplayInfo>,
    matched: Seq<usize>,
    n: nat,
    j: int,
    k: int,
)
    requires
        0 <= j < k < n,
        is_free_match(size, ds, matched, j),
        is_free_match(size, ds, matched, k),
    ensures
        free_matches(size, ds, matched, n) > 1,
    decreases n,
{
    if k < n - 1 {
        lemma_two_free_displays(size, ds, matched, (n - 1) as nat, j, k);
    } else {
        lemma_free_matches(size, ds, matched, (n - 1) as nat);
        assert(0 <= j < n - 1 && is_free_match(size, ds, matched, j));
    }
}

/// A capturable for which just one display is free gets its place without the pointer, along with
/// its stream, and the display is taken.
pub proof fn law_only_free_display_is_taken(
    s: Search,
    ds: Seq<WaylandDisplayInfo>,
    cursor_streams: Seq<PwStreamInfo>,
    i: int,
    c: PipeWireCapturable,
    j: int,
)
    requires
        ds.len() <= usize::MAX,
        works_on(s, i, c),
        i < cursor_streams.len(),
        s.baseline is None,
        is_free_for(c, ds, s.matched, j),
        forall|k: int| k != j ==> !#[trigger] is_free_for(c, ds, s.matched, k),
    ensures
        ({
            let place = (ds[j].x, ds[j].y);
            s.advance(ds, cursor_streams) == (Search {
                pending: s.pending.skip(1),
                matched: s.matched.push(j as usize),
                baseline: None,
                shared: s.shared.update(
                    i,
                    Display::WAYLAND(PipeWireCapturable { position: place, ..c }),
                ),
                streams: s.streams.update(
                    i,
                    PwStreamInfo { position: place, ..s.streams[i] },
                ),
            }).settle(ds, cursor_streams)
        }),
{
    let size = c.physical_size;
    lemma_free_for(c, ds, s.matched, j);
    assert forall|k: int| 0 <= k < ds.len() && k != j implies !#[trigger] is_free_match(
        size,
        ds,
        s.matched,
        k,
    ) by {
        lemma_free_for(c, ds, s.matched, k);
        assert(!is_free_for(c, ds, s.matched, k));
    }
    lemma_count_of_free_displays(size, ds, s.matched, ds.len(), j);
    lemma_next_free_match(size, ds, s.matched, 0);
    assert(next_free_match(size, ds, s.matched, 0) == Some(j));
    assert(s.pending.drop_first() =~= s.pending.skip(1));
}

/// A capturable for which several displays are free needs the pointer: nothing changes, and its
/// stream with the pointer, as a whole, is to be recorded.
pub proof fn law_several_free_displays_need_the_pointer(
    s: Search,
    ds: Seq<WaylandDisplayInfo>,
    cursor_streams: Seq<PwStreamInfo>,
    session: u64,
    i: int,
    c: PipeWireCapturable,
    j: int,
    k: int,
)
    requires
        ds.len() <= usize::MAX,
        works_on(s, i, c),
        i < cursor_streams.len(),
        s.baseline is None,
        j < k,
        is_free_for(c, ds, s.matched, j),
        is_free_for(c, ds, s.matched, k),
    ensures
        s.advance(ds, cursor_streams) == s,
        s.action(session, cursor_streams) matches ProbeAction::Open(whole) && {
            let stream = cursor_streams[i];
            &&& whole.session == session && whole.path == stream.path
            &&& whole.source_type == stream.source_type && whole.crop is None
            &&& !whole.primary && whole.position == stream.position
            &&& whole.logical_size == stream.size && whole.physical_size == (0usize, 0usize)
        },
{
    lemma_free_for(c, ds, s.matched, j);
    lemma_free_for(c, ds, s.matched, k);
    lemma_two_free_displays(c.physical_size, ds, s.matched, ds.len(), j, k);
}

/// A capturable for which no display is free is left alone; so is one whose stream with the pointer
/// is missing, one whose stream or display is missing, and a display of the X server.
pub proof fn law_others_are_left_alone(
    s: Search,
    ds: Seq<WaylandDisplayInfo>,
    cursor_streams: Seq<PwStreamInfo>,
)
    requires
        ds.len() <= usize::MAX,
        s.baseline is None,
        s.pending.len() > 0,
        ({
            let i = s.pending[0] as int;
            ||| i >= s.shared.len()
            ||| i >= s.streams.len()
            ||| i >= cursor_streams.len()
            ||| s.shared[i] is X11
            ||| s.shared[i] matches Display::WAYLAND(c) && forall|k: int|
                !#[trigger] is_free_for(c, ds, s.matched, k)
        }),
    ensures
        s.advance(ds, cursor_streams) == (Search {
            pending: s.pending.skip(1),
            baseline: None,
            ..s
        }).settle(ds, cursor_streams),
{
    assert(s.pending.drop_first() =~= s.pending.skip(1));
    match s.current() {
        Some(c) => {
            if s.pending[0] < cursor_streams.len() {
                lemma_free_matches(c.physical_size, ds, s.matched, ds.len());
                assert forall|k: int| 0 <= k < ds.len() implies !is_free_match(
                    c.physical_size,
                    ds,
                    s.matched,
                    k,
                ) by {
                    lemma_free_for(c, ds, s.matched, k);
                    assert(!is_free_for(c, ds, s.matched, k));
                }
            }
        },
        None => {},
    }
}

/// Where no capturable is left, the search is done and changes nothing.
pub proof fn law_search_is_done(
    s: Search,
    ds: Seq<WaylandDisplayInfo>,
    cursor_streams: Seq<PwStreamInfo>,
    session: u64,
)
    requires
        s.pending.len() == 0,
        s.baseline is None,
    ensures
        s.advance(ds, cursor_streams) == s,
        s.action(session, cursor_streams) is Done,
{
}

/// With the first frame of its stream, the search for the display of a capturable starts at the
/// first display. Without one the capturable is left alone.
pub proof fn law_first_frame_starts_the_search(s: Search, frame: Option<Frame>)
    requires
        s.pending.len() > 0,
        s.baseline is None,
    ensures
        frame is Some ==> s.take_baseline(frame) == (Search {
            baseline: Some((frame->0, 0usize)),
            ..s
        }),
        frame is None ==> s.take_baseline(frame) == (Search {
            pending: s.pending.skip(1),
            baseline: None,
            ..s
        }),
{
    assert(s.pending.drop_first() =~= s.pending.skip(1));
}

} // verus!
