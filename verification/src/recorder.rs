//! The recorder of one stream: what becomes of each sample that the pipeline delivers.
use crate::capturable::{
    display_parts, division_fits, has_area, is_divisible, law_parts_lie_inside, workspace_basis,
    PipeWireCapturable,
};
use crate::display::WaylandDisplayInfo;
use crate::errors::GStreamerError;
use crate::text::{decimal, push_u64, push_usize, same_text};
use vstd::prelude::*;
use vstd::slice::slice_subrange;

verus! {

/// The pixels of a frame: width, height, and 4 bytes for each pixel.
#[derive(Debug)]
pub enum PixelProvider<'a> {
    RGB0(usize, usize, &'a [u8]),
    BGR0(usize, usize, &'a [u8]),
    NONE,
}

/// The memory of a sample: absent, not readable, or its bytes.
#[derive(Debug)]
pub enum SampleBuffer {
    Missing,
    Unmappable,
    Mapped(Vec<u8>),
}

/// A sample of the pipeline: what its caps say, the crop rectangle that may come with it, and
/// its memory.
#[derive(Debug)]
pub struct Sample {
    pub width: i32,
    pub height: i32,
    pub format: Option<String>,
    pub crop_meta: Option<(u32, u32, u32, u32)>,
    pub buffer: SampleBuffer,
}

/// How the pipeline of a recorder is set up.
///
/// `elements` are linked in their order: the source, a converter, and the sink. The formats that
/// the sink accepts are too few for some portals to agree on one, and the converter takes any raw
/// format. `path` names the node for the source, and `keepalive_time` is in milliseconds. With
/// `always_copy` the source hands out copies, without which PipeWire blocks when the sink is
/// destroyed. The sink accepts `formats` only, and keeps `max_buffers` samples; with `drop` it
/// drops older ones. `settling` tells how long to wait,
/// after the pipeline was started, until it plays, and how long to pause then, in milliseconds;
/// without it there is no need to wait.
#[derive(Debug)]
pub struct PipelinePlan {
    pub elements: Vec<String>,
    pub path: String,
    pub keepalive_time: i32,
    pub always_copy: bool,
    pub formats: Vec<String>,
    pub drop: bool,
    pub max_buffers: u32,
    pub settling: Option<(u64, u64)>,
}

/// A recorder of one stream. `saved_raw_data` holds the bytes of the last sample, by which a
/// repeated one is told.
#[derive(Debug)]
pub struct PipeWireRecorder {
    pub buffer: Option<Vec<u8>>,
    pub buffer_cropped: Vec<u8>,
    pub crop: Option<(usize, usize, usize, usize)>,
    pub pix_fmt: String,
    pub is_cropped: bool,
    pub node_id: u64,
    pub width: usize,
    pub height: usize,
    pub saved_raw_data: Vec<u8>,
}

/// A recorder as a mathematical value.
pub ghost struct RecorderView {
    pub buffer: Option<Seq<u8>>,
    pub buffer_cropped: Seq<u8>,
    pub crop: Option<(usize, usize, usize, usize)>,
    pub pix_fmt: Seq<char>,
    pub is_cropped: bool,
    pub node_id: u64,
    pub width: usize,
    pub height: usize,
    pub saved_raw_data: Seq<u8>,
}

/// Pixels as a mathematical value.
pub ghost enum PixelView {
    RGB0(usize, usize, Seq<u8>),
    BGR0(usize, usize, Seq<u8>),
    NONE,
}

impl View for PipeWireRecorder {
    type V = RecorderView;

    open spec fn view(&self) -> RecorderView {
        RecorderView {
            buffer: match self.buffer {
                Some(b) => Some(b@),
                None => None,
            },
            buffer_cropped: self.buffer_cropped@,
            crop: self.crop,
            pix_fmt: self.pix_fmt@,
            is_cropped: self.is_cropped,
            node_id: self.node_id,
            width: self.width,
            height: self.height,
            saved_raw_data: self.saved_raw_data@,
        }
    }
}

/// What a capture gives, as a mathematical value.
pub open spec fn capture_view(r: Result<PixelProvider<'_>, GStreamerError>) -> Result<
    PixelView,
    Seq<char>,
> {
    match r {
        Ok(PixelProvider::RGB0(w, h, b)) => Ok(PixelView::RGB0(w, h, b@)),
        Ok(PixelProvider::BGR0(w, h, b)) => Ok(PixelView::BGR0(w, h, b@)),
        Ok(PixelProvider::NONE) => Ok(PixelView::NONE),
        Err(e) => Err(e.0@),
    }
}

/// The formats that the sink of a recorder accepts.
pub open spec fn accepted_formats() -> Seq<Seq<char>> {
    seq!["BGRx"@, "RGBx"@]
}

/// The elements of the pipeline of a recorder, in their order.
pub open spec fn pipeline_elements() -> Seq<Seq<char>> {
    seq!["pipewiresrc"@, "videoconvert"@, "appsink"@]
}

/// Plans the pipeline of a recorder. While the server runs there may be several streams, whose
/// pipelines become unstable if they are not given time to settle.
pub fn plan_pipeline(capturable: &PipeWireCapturable, server_running: bool) -> (r: PipelinePlan)
    ensures
        r.elements@.map_values(|e: String| e@) == pipeline_elements(),
        r.path@ == decimal(capturable.path as nat),
        r.keepalive_time == 1000,
        r.always_copy,
        r.formats@.map_values(|f: String| f@) == accepted_formats(),
        r.drop,
        r.max_buffers == 1,
        r.settling == (if server_running {
            Some((2000u64, 150u64))
        } else {
            None
        }),
{
    let mut elements: Vec<String> = Vec::new();
    elements.push("pipewiresrc".to_owned());
    elements.push("videoconvert".to_owned());
    elements.push("appsink".to_owned());
    assert(elements@.map_values(|e: String| e@) =~= pipeline_elements());
    let mut path: String = String::new();
    push_u64(&mut path, capturable.path);
    let mut formats: Vec<String> = Vec::new();
    formats.push("BGRx".to_owned());
    formats.push("RGBx".to_owned());
    assert(formats@.map_values(|f: String| f@) =~= accepted_formats());
    let settling: Option<(u64, u64)> = if server_running {
        Some((2000, 150))
    } else {
        None
    };
    PipelinePlan {
        elements,
        path,
        keepalive_time: 1000,
        always_copy: true,
        formats,
        drop: true,
        max_buffers: 1,
        settling,
    }
}

/// The rows of a rectangle of a frame of 4-byte pixels, one after the other: `rows` rows, from
/// `y_off` on, each of `w_crop` pixels from `x_off` on. The frame is `w` pixels wide.
pub open spec fn cropped_rows(
    data: Seq<u8>,
    w: int,
    x_off: int,
    y_off: int,
    w_crop: int,
    rows: nat,
) -> Seq<u8>
    decreases rows,
{
    if rows == 0 {
        seq![]
    } else {
        let start = 4 * (w * (y_off + rows - 1) + x_off);
        cropped_rows(data, w, x_off, y_off, w_crop, (rows - 1) as nat) + data.subrange(
            start,
            start + 4 * w_crop,
        )
    }
}

/// The rectangle to cut out: that of the recorder, else that of the sample, unless the latter is
/// the whole frame.
pub open spec fn effective_crop(
    own: Option<(usize, usize, usize, usize)>,
    sample: Sample,
) -> Option<(u32, u32, u32, u32)> {
    match own {
        Some(c) => Some((c.0 as u32, c.1 as u32, c.2 as u32, c.3 as u32)),
        None => if sample.crop_meta == Some(
            (0u32, 0u32, (sample.width as usize) as u32, (sample.height as usize) as u32),
        ) {
            None
        } else {
            sample.crop_meta
        },
    }
}

/// The rectangle leaves the frame.
pub open spec fn crop_exceeds(c: (u32, u32, u32, u32), w: usize, h: usize) -> bool {
    c.0 + c.2 > w || c.1 + c.3 > h
}

/// The report of a rectangle that leaves the frame.
pub open spec fn crop_message(c: (u32, u32, u32, u32), w: usize, h: usize) -> Seq<char> {
    "Crop ("@ + decimal(c.0 as nat) + ", "@ + decimal(c.1 as nat) + ", "@ + decimal(c.2 as nat)
        + ", "@ + decimal(c.3 as nat) + ") exceeds PipeWire frame size "@ + decimal(w as nat)
        + "x"@ + decimal(h as nat)
}

/// What a recorder gives out after it took a sample.
pub open spec fn presented(r: RecorderView) -> Result<PixelView, Seq<char>> {
    match r.buffer {
        None => Err("No buffer available!"@),
        Some(whole) => {
            let pixels = if r.is_cropped {
                r.buffer_cropped
            } else {
                whole
            };
            if r.pix_fmt == "BGRx"@ {
                Ok(PixelView::BGR0(r.width, r.height, pixels))
            } else if r.pix_fmt == "RGBx"@ {
                Ok(PixelView::RGB0(r.width, r.height, pixels))
            } else {
                Err("Unreachable! Unknown pix_fmt, "@ + r.pix_fmt)
            }
        },
    }
}

/// The recorder after it took the memory of a sample, and what it gives out. The format is
/// already that of the sample.
pub open spec fn after_bytes(r: RecorderView, sample: Sample, data: Seq<u8>) -> (
    RecorderView,
    Result<PixelView, Seq<char>>,
) {
    let (w, h) = (sample.width as usize, sample.height as usize);
    let saved = RecorderView { saved_raw_data: data, ..r };
    if data == r.saved_raw_data {
        (r, Ok(PixelView::NONE))
    } else if data.len() != w * h * 4 {
        (saved, presented(saved))
    } else {
        match effective_crop(r.crop, sample) {
            None => {
                let taken = RecorderView {
                    width: w,
                    height: h,
                    is_cropped: false,
                    buffer: Some(data),
                    ..saved
                };
                (taken, presented(taken))
            },
            Some(c) => if crop_exceeds(c, w, h) {
                (saved, Err(crop_message(c, w, h)))
            } else {
                let taken = RecorderView {
                    width: c.2 as usize,
                    height: c.3 as usize,
                    is_cropped: true,
                    buffer: Some(data),
                    buffer_cropped: cropped_rows(
                        data,
                        w as int,
                        c.0 as int,
                        c.1 as int,
                        c.2 as int,
                        c.3 as nat,
                    ),
                    ..saved
                };
                (taken, presented(taken))
            },
        }
    }
}

/// The recorder after a capture, and what it gives out. `None` stands for no sample in time.
pub open spec fn after_sample(r: RecorderView, sample: Option<Sample>) -> (
    RecorderView,
    Result<PixelView, Seq<char>>,
) {
    match sample {
        None => (r, Ok(PixelView::NONE)),
        Some(s) => match s.format {
            None => (r, Err("Failed to get pixel format"@)),
            Some(format) => {
                let named = RecorderView { pix_fmt: format@, ..r };
                match s.buffer {
                    SampleBuffer::Missing => (named, Err("Failed to get owned buffer."@)),
                    SampleBuffer::Unmappable => (named, Err("Failed to map buffer."@)),
                    SampleBuffer::Mapped(data) => after_bytes(named, s, data@),
                }
            },
        },
    }
}

/// The size of the frame in bytes and the edges of the rectangle fit in a machine word, where
/// they are computed.
pub open spec fn sample_fits(r: RecorderView, sample: Option<Sample>) -> bool {
    sample matches Some(s) ==> s.format is Some ==> (s.buffer matches SampleBuffer::Mapped(data)
        ==> data@ != r.saved_raw_data ==> {
        let (w, h) = (s.width as usize, s.height as usize);
        &&& w * h * 4 <= usize::MAX
        &&& data@.len() == w * h * 4 ==> (effective_crop(r.crop, s) matches Some(c) ==> {
            &&& c.0 + c.2 <= usize::MAX
            &&& c.0 + c.2 <= w ==> c.1 + c.3 <= usize::MAX
        })
    })
}

/// Whether two runs of bytes are the same.
fn same_bytes(a: &Vec<u8>, b: &Vec<u8>) -> (r: bool)
    ensures
        r == (a@ == b@),
{
    if a.len() != b.len() {
        return false;
    }
    let mut i: usize = 0;
    while i < a.len()
        invariant
            i <= a.len(),
            a.len() == b.len(),
            forall|k: int| 0 <= k < i ==> a@[k] == b@[k],
        decreases a.len() - i,
    {
        if a[i] != b[i] {
            return false;
        }
        i = i + 1;
    }
    assert(a@ =~= b@);
    true
}

/// Tells whether the bytes are the same as before; if not, keeps them.
pub fn would_block_if_equal(old_bytes: &mut Vec<u8>, bytes: &Vec<u8>) -> (r: bool)
    ensures
        r == (old(old_bytes)@ == bytes@),
        final(old_bytes)@ == bytes@,
{
    if same_bytes(old_bytes, bytes) {
        return true;
    }
    *old_bytes = bytes.clone();
    assert(old_bytes@ =~= bytes@);
    false
}

/// The rectangle to cut out.
fn choose_crop(own: Option<(usize, usize, usize, usize)>, sample: &Sample) -> (r: Option<
    (u32, u32, u32, u32),
>)
    ensures
        r == effective_crop(own, *sample),
{
    match own {
        Some(c) => Some((c.0 as u32, c.1 as u32, c.2 as u32, c.3 as u32)),
        None => match sample.crop_meta {
            // only crop if necessary
            Some(c) => if c.0 == 0 && c.1 == 0 && c.2 == (sample.width as usize) as u32 && c.3 == (
            sample.height as usize) as u32 {
                None
            } else {
                Some(c)
            },
            None => None,
        },
    }
}

proof fn lemma_row_inside(len: int, w: int, h: int, x_off: int, y: int, w_crop: int)
    by (nonlinear_arith)
    requires
        0 <= w,
        0 <= x_off,
        0 <= w_crop,
        x_off + w_crop <= w,
        0 <= y < h,
        len == w * h * 4,
    ensures
        0 <= w * y <= len,
        0 <= w * y + x_off <= len,
        0 <= 4 * (w * y + x_off),
        4 * (w * y + x_off) + 4 * w_crop <= len,
{
}

/// Cuts a rectangle out of a frame.
fn cut_rows(
    data: &Vec<u8>,
    w: usize,
    h: usize,
    x_off: usize,
    y_off: usize,
    w_crop: usize,
    h_crop: usize,
) -> (r: Vec<u8>)
    requires
        data@.len() == w * h * 4,
        x_off + w_crop <= w,
        y_off + h_crop <= h,
    ensures
        r@ == cropped_rows(
            data@,
            w as int,
            x_off as int,
            y_off as int,
            w_crop as int,
            h_crop as nat,
        ),
{
    let mut out: Vec<u8> = Vec::new();
    let mut row: usize = 0;
    let total: usize = data.len();
    while row < h_crop
        invariant
            row <= h_crop,
            total == data.len(),
            data@.len() == w * h * 4,
            x_off + w_crop <= w,
            y_off + h_crop <= h,
            out@ == cropped_rows(
                data@,
                w as int,
                x_off as int,
                y_off as int,
                w_crop as int,
                row as nat,
            ),
        decreases h_crop - row,
    {
        let ghost before = out@;
        proof {
            lemma_row_inside(
                total as int,
                w as int,
                h as int,
                x_off as int,
                y_off + row,
                w_crop as int,
            );
        }
        let i: usize = 4 * (w * (y_off + row) + x_off);
        let slice: &[u8] = slice_subrange(data.as_slice(), i, i + 4 * w_crop);
        out.extend_from_slice(slice);
        assert(out@ =~= before + data@.subrange(i as int, i + 4 * w_crop));
        row = row + 1;
    }
    out
}

fn crop_error(c: (u32, u32, u32, u32), w: usize, h: usize) -> (r: GStreamerError)
    ensures
        r.0@ == crop_message(c, w, h),
{
    let mut out: String = "Crop (".to_owned();
    push_usize(&mut out, c.0 as usize);
    out.append(", ");
    push_usize(&mut out, c.1 as usize);
    out.append(", ");
    push_usize(&mut out, c.2 as usize);
    out.append(", ");
    push_usize(&mut out, c.3 as usize);
    out.append(") exceeds PipeWire frame size ");
    push_usize(&mut out, w);
    out.append("x");
    push_usize(&mut out, h);
    GStreamerError(out)
}

impl PipeWireRecorder {
    /// A recorder that has taken no sample yet.
    pub fn new(capturable: &PipeWireCapturable) -> (r: Self)
        ensures
            r@ == (RecorderView {
                buffer: None,
                buffer_cropped: seq![],
                crop: capturable.crop,
                pix_fmt: seq![],
                is_cropped: false,
                node_id: capturable.path,
                width: 0,
                height: 0,
                saved_raw_data: seq![],
            }),
    {
        PipeWireRecorder {
            node_id: capturable.path,
            buffer: None,
            crop: capturable.crop,
            pix_fmt: String::new(),
            width: 0,
            height: 0,
            buffer_cropped: Vec::new(),
            is_cropped: false,
            saved_raw_data: Vec::new(),
        }
    }

    /// Forgets the last sample, so that the next one counts even if it is the same.
    pub fn forget_last(&mut self)
        ensures
            final(self)@ == (RecorderView { saved_raw_data: seq![], ..old(self)@ }),
    {
        self.saved_raw_data = Vec::new();
    }

    /// Whether a sample can be taken without leaving a machine word.
    pub fn sample_is_representable(&self, sample: &Option<Sample>) -> (r: bool)
        ensures
            r == sample_fits(self@, *sample),
    {
        let s: &Sample = match sample {
            Some(s) => s,
            None => {
                return true;
            },
        };
        let data: &Vec<u8> = match &s.buffer {
            SampleBuffer::Mapped(data) => data,
            _ => {
                return true;
            },
        };
        if s.format.is_none() {
            return true;
        }
        let w: usize = s.width as usize;
        let h: usize = s.height as usize;
        assert(w * h <= usize::MAX || w * h * 4 > usize::MAX);
        let fits: bool = match w.checked_mul(h) {
            Some(pixels) => match pixels.checked_mul(4) {
                Some(bytes) => if data.len() == bytes {
                    match choose_crop(self.crop, s) {
                        Some(c) => match (c.0 as usize).checked_add(c.2 as usize) {
                            Some(right) => right > w || (c.1 as usize).checked_add(
                                c.3 as usize,
                            ).is_some(),
                            None => false,
                        },
                        None => true,
                    }
                } else {
                    true
                },
                None => false,
            },
            None => false,
        };
        fits || same_bytes(data, &self.saved_raw_data)
    }

    /// Gives out the frame that the recorder holds.
    fn present(&self) -> (r: Result<PixelProvider<'_>, GStreamerError>)
        ensures
            capture_view(r) == presented(self@),
    {
        match &self.buffer {
            None => Err(GStreamerError("No buffer available!".to_owned())),
            Some(whole) => {
                let pixels: &[u8] = if self.is_cropped {
                    self.buffer_cropped.as_slice()
                } else {
                    whole.as_slice()
                };
                if same_text(self.pix_fmt.as_str(), "BGRx") {
                    Ok(PixelProvider::BGR0(self.width, self.height, pixels))
                } else if same_text(self.pix_fmt.as_str(), "RGBx") {
                    Ok(PixelProvider::RGB0(self.width, self.height, pixels))
                } else {
                    let mut text: String = "Unreachable! Unknown pix_fmt, ".to_owned();
                    text.append(self.pix_fmt.as_str());
                    Err(GStreamerError(text))
                }
            },
        }
    }

    /// Takes what the pipeline delivered and gives out the frame that the recorder then holds.
    ///
    /// A sample with the bytes of the one before gives no pixels. A sample whose size does not
    /// fit its caps is dropped, and the frame before is given out again.
    pub fn capture(&mut self, sample: Option<Sample>) -> (r: Result<
        PixelProvider<'_>,
        GStreamerError,
    >)
        requires
            sample_fits(old(self)@, sample),
        ensures
            final(self)@ == after_sample(old(self)@, sample).0,
            capture_view(r) == after_sample(old(self)@, sample).1,
    {
        let s: Sample = match sample {
            Some(s) => s,
            None => {
                return Ok(PixelProvider::NONE);
            },
        };
        let w: usize = s.width as usize;
        let h: usize = s.height as usize;
        let crop: Option<(u32, u32, u32, u32)> = choose_crop(self.crop, &s);
        match s.format {
            Some(format) => {
                self.pix_fmt = format;
            },
            None => {
                return Err(GStreamerError("Failed to get pixel format".to_owned()));
            },
        }
        let data: Vec<u8> = match s.buffer {
            SampleBuffer::Missing => {
                return Err(GStreamerError("Failed to get owned buffer.".to_owned()));
            },
            SampleBuffer::Unmappable => {
                return Err(GStreamerError("Failed to map buffer.".to_owned()));
            },
            SampleBuffer::Mapped(data) => data,
        };
        if would_block_if_equal(&mut self.saved_raw_data, &data) {
            return Ok(PixelProvider::NONE);
        }
        // BGRx is 4 bytes per pixel
        if data.len() == w * h * 4 {
            match crop {
                Some(c) => {
                    let (x_off, y_off) = (c.0 as usize, c.1 as usize);
                    let (w_crop, h_crop) = (c.2 as usize, c.3 as usize);
                    if x_off + w_crop > w || y_off + h_crop > h {
                        return Err(crop_error(c, w, h));
                    }
                    self.buffer_cropped = cut_rows(&data, w, h, x_off, y_off, w_crop, h_crop);
                    self.width = w_crop;
                    self.height = h_crop;
                    self.is_cropped = true;
                },
                None => {
                    self.width = w;
                    self.height = h;
                    self.is_cropped = false;
                },
            }
            self.buffer = Some(data);
        }
        self.present()
    }
}

/// The size of a stream, by what the caps of its first sample say. `None` stands for no sample in
/// time.
pub fn get_res(caps_size: Option<(i32, i32)>) -> (r: Result<(usize, usize), GStreamerError>)
    ensures
        match caps_size {
            Some(size) => r == Ok::<(usize, usize), GStreamerError>(
                (size.0 as usize, size.1 as usize),
            ),
            None => r matches Err(e) && e.0@ == "Error getting screen resolution"@,
        },
{
    match caps_size {
        Some((w, h)) => Ok((w as usize, h as usize)),
        None => Err(GStreamerError("Error getting screen resolution".to_owned())),
    }
}

/// The rectangle lies inside a frame of `w` by `h` pixels.
pub open spec fn inside_frame(
    data: Seq<u8>,
    w: int,
    h: int,
    x_off: int,
    y_off: int,
    w_crop: int,
    h_crop: int,
) -> bool {
    &&& 0 <= w && 0 <= h && data.len() == w * h * 4
    &&& 0 <= x_off && 0 <= w_crop && x_off + w_crop <= w
    &&& 0 <= y_off && 0 <= h_crop && y_off + h_crop <= h
}

proof fn lemma_cropped_len(
    data: Seq<u8>,
    w: int,
    h: int,
    x_off: int,
    y_off: int,
    w_crop: int,
    rows: nat,
)
    requires
        inside_frame(data, w, h, x_off, y_off, w_crop, rows as int),
    ensures
        cropped_rows(data, w, x_off, y_off, w_crop, rows).len() == 4 * (w_crop * rows),
    decreases rows,
{
    if rows > 0 {
        lemma_cropped_len(data, w, h, x_off, y_off, w_crop, (rows - 1) as nat);
        lemma_row_inside(data.len() as int, w, h, x_off, y_off + rows - 1, w_crop);
        assert(w_crop * (rows - 1) + w_crop == w_crop * rows) by (nonlinear_arith);
    } else {
        assert(w_crop * 0 == 0) by (nonlinear_arith);
    }
}

proof fn lemma_pixel_index(w_crop: int, y: int, x: int, rows: int)
    by (nonlinear_arith)
    requires
        0 <= x < w_crop,
        0 <= y < rows,
    ensures
        0 <= w_crop * y,
        0 <= w_crop * y + x,
        w_crop * y + x < w_crop * rows,
        w_crop * y <= w_crop * (rows - 1),
        y < rows - 1 ==> w_crop * y + x < w_crop * (rows - 1),
{
}

/// A pixel of the rectangle that is cut out is the pixel of the frame at the same place, moved
/// by the offset of the rectangle. `byte` is one of the 4 bytes of the pixel.
pub proof fn law_cropped_pixel(
    data: Seq<u8>,
    w: int,
    h: int,
    x_off: int,
    y_off: int,
    w_crop: int,
    rows: nat,
    x: int,
    y: int,
    byte: int,
)
    requires
        inside_frame(data, w, h, x_off, y_off, w_crop, rows as int),
        0 <= x < w_crop,
        0 <= y < rows,
        0 <= byte < 4,
    ensures
        cropped_rows(data, w, x_off, y_off, w_crop, rows).len() == 4 * (w_crop * rows),
        cropped_rows(data, w, x_off, y_off, w_crop, rows)[4 * (w_crop * y + x) + byte] == data[4 * (
        w * (y_off + y) + x_off + x) + byte],
    decreases rows,
{
    lemma_cropped_len(data, w, h, x_off, y_off, w_crop, rows);
    lemma_cropped_len(data, w, h, x_off, y_off, w_crop, (rows - 1) as nat);
    lemma_pixel_index(w_crop, y, x, rows as int);
    lemma_row_inside(data.len() as int, w, h, x_off, y_off + rows - 1, w_crop);
    if y < rows - 1 {
        law_cropped_pixel(data, w, h, x_off, y_off, w_crop, (rows - 1) as nat, x, y, byte);
    } else {
        let start = 4 * (w * (y_off + rows - 1) + x_off);
        let last = data.subrange(start, start + 4 * w_crop);
        assert(y_off + y == y_off + rows - 1);
        assert(last[4 * x + byte] == data[start + 4 * x + byte]);
    }
}

/// The frame that a recorder holds has 4 bytes for each of its pixels.
pub open spec fn holds_whole_pixels(r: RecorderView) -> bool {
    r.buffer matches Some(whole) ==> (if r.is_cropped {
        r.buffer_cropped
    } else {
        whole
    }).len() == 4 * (r.width * r.height)
}

/// Whatever samples arrive, the frames that a recorder gives out have 4 bytes for each pixel of
/// the width and height that it tells. Where it gives out no pixels, the frame that it holds
/// stays.
pub proof fn law_frames_are_whole(r: RecorderView, sample: Option<Sample>)
    requires
        holds_whole_pixels(r),
    ensures
        holds_whole_pixels(after_sample(r, sample).0),
        match after_sample(r, sample).1 {
            Ok(PixelView::RGB0(w, h, b)) => b.len() == 4 * (w * h),
            Ok(PixelView::BGR0(w, h, b)) => b.len() == 4 * (w * h),
            Ok(PixelView::NONE) => {
                let after = after_sample(r, sample).0;
                &&& after.buffer == r.buffer
                &&& after.buffer_cropped == r.buffer_cropped
                &&& after.is_cropped == r.is_cropped
                &&& (after.width, after.height) == (r.width, r.height)
            },
            Err(_) => true,
        },
{
    match sample {
        Some(s) => match s.buffer {
            SampleBuffer::Mapped(data) => {
                let (w, h) = (s.width as usize, s.height as usize);
                assert(w * h * 4 == 4 * (w * h)) by (nonlinear_arith);
                match effective_crop(r.crop, s) {
                    Some(c) => {
                        if data@.len() == w * h * 4 && !crop_exceeds(c, w, h) {
                            lemma_cropped_len(
                                data@,
                                w as int,
                                h as int,
                                c.0 as int,
                                c.1 as int,
                                c.2 as int,
                                c.3 as nat,
                            );
                        }
                    },
                    None => {},
                }
            },
            _ => {},
        },
        None => {},
    }
}

/// A sample that arrives a second time gives no pixels, and nothing changes.
pub proof fn law_repeated_sample_gives_nothing(r: RecorderView, sample: Sample)
    requires
        sample.format is Some,
        sample.buffer is Mapped,
    ensures
        ({
            let once = after_sample(r, Some(sample)).0;
            after_sample(once, Some(sample)) == (once, Ok::<PixelView, Seq<char>>(PixelView::NONE))
        }),
{
}

/// After the last sample was forgotten, a sample with any bytes counts, even if it is the same.
pub proof fn law_forgotten_sample_counts(r: RecorderView, sample: Sample)
    requires
        sample.format is Some,
        sample.buffer matches SampleBuffer::Mapped(data) && data@.len() > 0,
    ensures
        after_sample(RecorderView { saved_raw_data: seq![], ..r }, Some(sample)).1 != Ok::<
            PixelView,
            Seq<char>,
        >(PixelView::NONE),
{
}

/// The part of a desktop stream that shows one display can be cut out of every frame that has the
/// size of the stream.
pub proof fn law_parts_can_be_cut_out(
    c: PipeWireCapturable,
    ds: Seq<WaylandDisplayInfo>,
    i: int,
    sample: Sample,
)
    requires
        is_divisible(c, ds),
        division_fits(c, ds),
        0 <= i < ds.len(),
        (sample.width as usize, sample.height as usize) == c.physical_size,
    ensures
        effective_crop(display_parts(c, ds)[i].crop, sample) matches Some(crop) && !crop_exceeds(
            crop,
            sample.width as usize,
            sample.height as usize,
        ),
{
    law_parts_lie_inside(c, ds, i);
    let basis = workspace_basis(ds, c.physical_size)->0;
    assert(has_area(ds[i], basis.1));
    let crop = display_parts(c, ds)[i].crop->0;
    assert(crop.2 <= i32::MAX && crop.3 <= i32::MAX);
    assert(crop.0 <= i32::MAX && crop.1 <= i32::MAX);
}

/// A recorder that holds a frame in a format that its sink accepts gives it out.
pub proof fn law_accepted_formats_are_given_out(r: RecorderView)
    requires
        r.buffer is Some,
        accepted_formats().contains(r.pix_fmt),
    ensures
        presented(r) matches Ok(pixels) && pixels !is NONE,
{
}

/// The sample holds a whole frame: its size is not negative, and there are 4 bytes for each pixel.
pub open spec fn is_whole_frame(sample: Sample, data: Seq<u8>) -> bool {
    sample.width >= 0 && sample.height >= 0 && data.len() == 4 * (sample.width * sample.height)
}

proof fn lemma_frame_size(sample: Sample, data: Seq<u8>)
    requires
        is_whole_frame(sample, data),
    ensures
        data.len() == (sample.width as usize) * (sample.height as usize) * 4,
{
    assert(4 * (sample.width * sample.height) == sample.width * sample.height * 4)
        by (nonlinear_arith);
}

/// The fields of a rectangle, if there is one, fit in 32 bits.
pub open spec fn is_short_crop(crop: Option<(usize, usize, usize, usize)>) -> bool {
    crop matches Some(c) ==> c.0 <= u32::MAX && c.1 <= u32::MAX && c.2 <= u32::MAX && c.3
        <= u32::MAX
}

/// The rectangle that applies, as it is told to the recorder or else by the sample; the whole
/// frame where it is told by neither.
pub open spec fn told_rectangle(r: RecorderView, sample: Sample) -> (int, int, int, int) {
    if r.crop is Some {
        let c = r.crop->0;
        (c.0 as int, c.1 as int, c.2 as int, c.3 as int)
    } else if sample.crop_meta is Some {
        let c = sample.crop_meta->0;
        (c.0 as int, c.1 as int, c.2 as int, c.3 as int)
    } else {
        (0, 0, sample.width as int, sample.height as int)
    }
}

/// What a capture gives out are the pixels of the sample just taken, whatever the recorder held
/// before. For a sample in an accepted format, whose bytes differ from the last ones and are a
/// whole frame, and for a rectangle inside that frame, the capture gives out the width and height
/// of the rectangle, and of each of its pixels the 4 bytes that the sample holds at its place. The
/// rectangle is that of the recorder, else that of the sample, else the whole frame.
pub proof fn law_capture_shows_the_sample(
    r: RecorderView,
    sample: Sample,
    x: int,
    y: int,
    byte: int,
)
    requires
        sample.format is Some,
        sample.format->0@ == "BGRx"@ || sample.format->0@ == "RGBx"@,
        sample.buffer is Mapped,
        sample.buffer->0@ != r.saved_raw_data,
        is_whole_frame(sample, sample.buffer->0@),
        is_short_crop(r.crop),
        ({
            let (x_off, y_off, w, h) = told_rectangle(r, sample);
            &&& x_off + w <= sample.width && y_off + h <= sample.height
            &&& 0 <= x < w && 0 <= y < h && 0 <= byte < 4
        }),
    ensures
        ({
            let (x_off, y_off, w, h) = told_rectangle(r, sample);
            let data = sample.buffer->0@;
            let from = 4 * (sample.width * (y_off + y) + x_off + x) + byte;
            let to = 4 * (w * y + x) + byte;
            &&& 0 <= from < data.len()
            &&& sample.format->0@ == "BGRx"@ ==> (after_sample(r, Some(sample)).1 matches Ok(
                PixelView::BGR0(width, height, pixels),
            ) && width == w && height == h && pixels.len() == 4 * (w * h) && 0 <= to < pixels.len()
                && pixels[to] == data[from])
            &&& sample.format->0@ == "RGBx"@ ==> (after_sample(r, Some(sample)).1 matches Ok(
                PixelView::RGB0(width, height, pixels),
            ) && width == w && height == h && pixels.len() == 4 * (w * h) && 0 <= to < pixels.len()
                && pixels[to] == data[from])
        }),
{
    let (x_off, y_off, w, h) = told_rectangle(r, sample);
    let data = sample.buffer->0@;
    let (width, height) = (sample.width as int, sample.height as int);
    reveal_strlit("BGRx");
    reveal_strlit("RGBx");
    assert("BGRx"@[0] == 'B' && "RGBx"@[0] == 'R');
    lemma_frame_size(sample, data);
    assert(inside_frame(data, width, height, x_off, y_off, w, h)) by {
        assert(data.len() == width * height * 4);
    }
    lemma_row_inside(data.len() as int, width, height, x_off, y_off + y, w);
    lemma_pixel_index(w, y, x, h);
    law_cropped_pixel(data, width, height, x_off, y_off, w, h as nat, x, y, byte);
    let named = RecorderView { pix_fmt: sample.format->0@, ..r };
    assert(after_sample(r, Some(sample)) == after_bytes(named, sample, data));
    if r.crop is None && (sample.crop_meta is None || sample.crop_meta->0 == (
        0u32,
        0u32,
        sample.width as u32,
        sample.height as u32,
    )) {
        assert((sample.width as usize) as u32 == sample.width as u32);
        assert((sample.height as usize) as u32 == sample.height as u32);
        assert(effective_crop(r.crop, sample) is None);
        assert(w == width && h == height && x_off == 0 && y_off == 0);
        assert(width * (0 + y) == w * y);
    } else {
        assert(effective_crop(r.crop, sample) is Some);
        let c = effective_crop(r.crop, sample)->0;
        assert(c.0 == x_off && c.1 == y_off && c.2 == w && c.3 == h);
    }
}

/// Without a rectangle a capture gives out just the bytes of the sample, with its width and
/// height, and the recorder then holds them.
pub proof fn law_capture_shows_the_whole_sample(r: RecorderView, sample: Sample)
    requires
        sample.format is Some,
        sample.format->0@ == "BGRx"@ || sample.format->0@ == "RGBx"@,
        sample.buffer is Mapped,
        sample.buffer->0@ != r.saved_raw_data,
        is_whole_frame(sample, sample.buffer->0@),
        r.crop is None,
        sample.crop_meta is None || sample.crop_meta->0 == (
            0u32,
            0u32,
            sample.width as u32,
            sample.height as u32,
        ),
    ensures
        ({
            let (after, outcome) = after_sample(r, Some(sample));
            let data = sample.buffer->0@;
            &&& sample.format->0@ == "BGRx"@ ==> (outcome matches Ok(
                PixelView::BGR0(width, height, pixels),
            ) && width == sample.width && height == sample.height && pixels == data)
            &&& sample.format->0@ == "RGBx"@ ==> (outcome matches Ok(
                PixelView::RGB0(width, height, pixels),
            ) && width == sample.width && height == sample.height && pixels == data)
            &&& after.buffer == Some(data) && after.saved_raw_data == data
            &&& after.width == sample.width && after.height == sample.height
            &&& after.crop == r.crop && after.node_id == r.node_id
        }),
{
    reveal_strlit("BGRx");
    reveal_strlit("RGBx");
    assert("BGRx"@[0] == 'B' && "RGBx"@[0] == 'R');
    lemma_frame_size(sample, sample.buffer->0@);
    assert((sample.width as usize) as u32 == sample.width as u32);
    assert((sample.height as usize) as u32 == sample.height as u32);
}

/// What a capture gives out, and the frame that the recorder then holds, do not depend on what it
/// held before, for a sample with new bytes that are a whole frame.
pub proof fn law_capture_forgets_older_frames(r: RecorderView, other: RecorderView, sample: Sample)
    requires
        sample.format is Some,
        sample.buffer is Mapped,
        sample.buffer->0@ != r.saved_raw_data,
        sample.buffer->0@ != other.saved_raw_data,
        is_whole_frame(sample, sample.buffer->0@),
        r.crop == other.crop,
    ensures
        after_sample(r, Some(sample)).1 == after_sample(other, Some(sample)).1,
{
    lemma_frame_size(sample, sample.buffer->0@);
}

/// A rectangle that leaves the frame is refused, and told with its fields and the size of the
/// frame; one inside it never is. The frame that was held stays.
pub proof fn law_rectangle_outside_is_refused(r: RecorderView, sample: Sample)
    requires
        sample.format is Some,
        sample.buffer is Mapped,
        sample.buffer->0@ != r.saved_raw_data,
        is_whole_frame(sample, sample.buffer->0@),
        is_short_crop(r.crop),
        ({
            let (x_off, y_off, w, h) = told_rectangle(r, sample);
            x_off + w > sample.width || y_off + h > sample.height
        }),
    ensures
        ({
            let (x_off, y_off, w, h) = told_rectangle(r, sample);
            let (after, outcome) = after_sample(r, Some(sample));
            &&& outcome matches Err(text) && text == "Crop ("@ + decimal(x_off as nat) + ", "@
                + decimal(y_off as nat) + ", "@ + decimal(w as nat) + ", "@ + decimal(h as nat)
                + ") exceeds PipeWire frame size "@ + decimal(sample.width as nat) + "x"@ + decimal(
                sample.height as nat,
            )
            &&& after.buffer == r.buffer && after.buffer_cropped == r.buffer_cropped
            &&& after.is_cropped == r.is_cropped
            &&& after.width == r.width && after.height == r.height
        }),
{
    lemma_frame_size(sample, sample.buffer->0@);
    assert((sample.width as usize) as u32 == sample.width as u32);
    assert((sample.height as usize) as u32 == sample.height as u32);
}

/// A sample whose bytes do not fit the size that it tells is dropped: the frame that was held
/// stays, and is given out again, as far as there is one.
pub proof fn law_sample_of_wrong_size_is_dropped(r: RecorderView, sample: Sample)
    requires
        sample.format is Some,
        sample.format->0@ == "BGRx"@ || sample.format->0@ == "RGBx"@,
        sample.buffer is Mapped,
        sample.buffer->0@ != r.saved_raw_data,
        sample.width >= 0,
        sample.height >= 0,
        sample.buffer->0@.len() != 4 * (sample.width * sample.height),
    ensures
        ({
            let (after, outcome) = after_sample(r, Some(sample));
            let held = if r.is_cropped {
                r.buffer_cropped
            } else {
                r.buffer->0
            };
            &&& after.buffer == r.buffer && after.buffer_cropped == r.buffer_cropped
            &&& after.is_cropped == r.is_cropped
            &&& after.width == r.width && after.height == r.height
            &&& r.buffer is None ==> outcome == Err::<PixelView, Seq<char>>("No buffer available!"@)
            &&& r.buffer is Some && sample.format->0@ == "BGRx"@ ==> outcome == Ok::<
                PixelView,
                Seq<char>,
            >(PixelView::BGR0(r.width, r.height, held))
            &&& r.buffer is Some && sample.format->0@ == "RGBx"@ ==> outcome == Ok::<
                PixelView,
                Seq<char>,
            >(PixelView::RGB0(r.width, r.height, held))
        }),
{
    reveal_strlit("BGRx");
    reveal_strlit("RGBx");
    assert("BGRx"@[0] == 'B' && "RGBx"@[0] == 'R');
    assert(4 * (sample.width * sample.height) == sample.width * sample.height * 4)
        by (nonlinear_arith);
}

/// What holds no frame is told so: no sample in time gives no pixels; a sample without a format,
/// without memory or with memory that cannot be read gives its error; and in all these cases the
/// frame that was held stays.
pub proof fn law_samples_without_a_frame(r: RecorderView, sample: Sample)
    ensures
        after_sample(r, None) == (r, Ok::<PixelView, Seq<char>>(PixelView::NONE)),
        sample.format is None ==> after_sample(r, Some(sample)) == (
            r,
            Err::<PixelView, Seq<char>>("Failed to get pixel format"@),
        ),
        sample.format is Some && sample.buffer is Missing ==> after_sample(r, Some(sample)).1
            == Err::<PixelView, Seq<char>>("Failed to get owned buffer."@),
        sample.format is Some && sample.buffer is Unmappable ==> after_sample(r, Some(sample)).1
            == Err::<PixelView, Seq<char>>("Failed to map buffer."@),
        sample.buffer !is Mapped ==> {
            let after = after_sample(r, Some(sample)).0;
            &&& after.buffer == r.buffer && after.buffer_cropped == r.buffer_cropped
            &&& after.is_cropped == r.is_cropped && after.saved_raw_data == r.saved_raw_data
            &&& after.width == r.width && after.height == r.height
        },
{
}

/// Whatever arrives, a recorder keeps its rectangle and its node; and the bytes of a sample that
/// could be read are those by which a repeated one is told.
pub proof fn law_recorder_keeps_its_rectangle(r: RecorderView, sample: Option<Sample>)
    ensures
        after_sample(r, sample).0.crop == r.crop,
        after_sample(r, sample).0.node_id == r.node_id,
        sample is Some && sample->0.format is Some && sample->0.buffer is Mapped ==> after_sample(
            r,
            sample,
        ).0.saved_raw_data == sample->0.buffer->0@,
{
}

/// What a capture hands to the caller is told as it is: the format, the width, the height and each
/// byte.
pub proof fn law_pixels_are_told_as_they_are(w: usize, h: usize, data: &[u8], e: GStreamerError)
    ensures
        capture_view(Ok(PixelProvider::BGR0(w, h, data))) == Ok::<PixelView, Seq<char>>(
            PixelView::BGR0(w, h, data@),
        ),
        capture_view(Ok(PixelProvider::RGB0(w, h, data))) == Ok::<PixelView, Seq<char>>(
            PixelView::RGB0(w, h, data@),
        ),
        capture_view(Ok(PixelProvider::NONE)) == Ok::<PixelView, Seq<char>>(PixelView::NONE),
        capture_view(Err(e)) == Err::<PixelView, Seq<char>>(e.0@),
{
}

} // verus!
