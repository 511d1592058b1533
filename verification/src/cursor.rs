//! The pointer: how it is moved, and whether it shows up in the corner of a frame.
use vstd::prelude::*;

verus! {

/// The bytes of a pixel.
pub const BYTES_PER_PIXEL: usize = 4;

/// The edge of the corner in which the pointer is looked for, in pixels.
pub const CORNER_EDGE: usize = 36;

/// No fewer pixels than these differ where the pointer is.
pub const MIN_DIFF_PIXELS: usize = 8;

/// The part of the pixels of the corner that differs where the pointer is: one in so many.
pub const DIFF_THRESHOLD_DIVISOR: usize = 8;

/// How long the pointer is moved again and again, in milliseconds.
pub const MOVE_TIMEOUT_MS: u64 = 150;

/// How long the pointer is given to arrive, in milliseconds.
pub const MOVE_PAUSE_MS: u64 = 20;

/// What is to be done to bring the pointer to a place.
#[derive(Debug, Clone, Copy, PartialEq, Eq, Structural)]
pub enum MoveStep {
    /// It is to be moved, given time to arrive, and looked for.
    Move,
    /// It is there.
    Reached,
    /// It did not arrive in time.
    GaveUp,
}

/// What is to be done to bring the pointer to a place. `elapsed_ms` is the time since the first
/// attempt, and `reported` where the pointer was found after the last one, if it was.
pub fn mouse_move_to_(elapsed_ms: u64, reported: Option<(i32, i32)>, x: i32, y: i32) -> (r:
    MoveStep)
    ensures
        r == (if reported == Some((x, y)) {
            MoveStep::Reached
        } else if elapsed_ms < MOVE_TIMEOUT_MS {
            MoveStep::Move
        } else {
            MoveStep::GaveUp
        }),
{
    if let Some((x1, y1)) = reported {
        if x1 == x && y1 == y {
            return MoveStep::Reached;
        }
    }
    if elapsed_ms < MOVE_TIMEOUT_MS {
        MoveStep::Move
    } else {
        MoveStep::GaveUp
    }
}

/// The smaller of two numbers.
pub open spec fn smaller(a: int, b: int) -> int {
    if a < b {
        a
    } else {
        b
    }
}

/// The length of a row in bytes, as far as it can be counted.
pub open spec fn row_stride(w: usize) -> int {
    smaller(BYTES_PER_PIXEL * w, usize::MAX as int)
}

/// Two frames can be compared: they have the same length, and at least one row.
pub open spec fn comparable(w: usize, d1: Seq<u8>, d2: Seq<u8>) -> bool {
    w > 0 && d1.len() == d2.len() && d1.len() >= row_stride(w)
}

/// The pixels at an offset differ.
pub open spec fn pixel_differs(d1: Seq<u8>, d2: Seq<u8>, at: int) -> bool {
    d1.subrange(at, at + 4) != d2.subrange(at, at + 4)
}

/// How many of the first `n` pixels from an offset on differ.
pub open spec fn row_differences(d1: Seq<u8>, d2: Seq<u8>, offset: int, n: nat) -> nat
    decreases n,
{
    if n == 0 {
        0
    } else {
        row_differences(d1, d2, offset, (n - 1) as nat) + if pixel_differs(
            d1,
            d2,
            offset + 4 * (n - 1),
        ) {
            1nat
        } else {
            0nat
        }
    }
}

/// How many pixels differ in the first `rows` rows of a corner of some width.
pub open spec fn corner_differences(
    d1: Seq<u8>,
    d2: Seq<u8>,
    stride: int,
    width: nat,
    rows: nat,
) -> nat
    decreases rows,
{
    if rows == 0 {
        0
    } else {
        corner_differences(d1, d2, stride, width, (rows - 1) as nat) + row_differences(
            d1,
            d2,
            (rows - 1) * stride,
            width,
        )
    }
}

/// How many pixels have to differ in a corner of so many pixels.
pub open spec fn difference_threshold(pixels: int) -> int {
    let part = pixels / DIFF_THRESHOLD_DIVISOR as int;
    if part < MIN_DIFF_PIXELS {
        MIN_DIFF_PIXELS as int
    } else {
        part
    }
}

/// Two frames, `w` pixels wide, differ in their upper left corners.
pub open spec fn corners_differ(w: usize, d1: Seq<u8>, d2: Seq<u8>) -> bool {
    let stride = row_stride(w);
    let width = smaller(CORNER_EDGE as int, w as int);
    let height = smaller(CORNER_EDGE as int, d1.len() as int / stride);
    &&& comparable(w, d1, d2)
    &&& corner_differences(d1, d2, stride, width as nat, height as nat) >= difference_threshold(
        width * height,
    )
}

/// Whether the pixels at an offset differ.
fn differs_at(d1: &[u8], d2: &[u8], at: usize) -> (r: bool)
    requires
        at + 4 <= d1@.len(),
        d1@.len() == d2@.len(),
    ensures
        r == pixel_differs(d1@, d2@, at as int),
{
    let ghost a = d1@.subrange(at as int, at + 4);
    let ghost b = d2@.subrange(at as int, at + 4);
    let r: bool = d1[at] != d2[at] || d1[at + 1] != d2[at + 1] || d1[at + 2] != d2[at + 2]
        || d1[at + 3] != d2[at + 3];
    assert(a[0] == d1@[at as int] && b[0] == d2@[at as int]);
    assert(a[1] == d1@[at + 1] && b[1] == d2@[at + 1]);
    assert(a[2] == d1@[at + 2] && b[2] == d2@[at + 2]);
    assert(a[3] == d1@[at + 3] && b[3] == d2@[at + 3]);
    if !r {
        assert(a =~= b);
    }
    r
}

proof fn lemma_row_differences_grow(d1: Seq<u8>, d2: Seq<u8>, offset: int, a: nat, b: nat)
    requires
        a <= b,
    ensures
        row_differences(d1, d2, offset, a) <= row_differences(d1, d2, offset, b),
        row_differences(d1, d2, offset, b) <= b,
    decreases b,
{
    if b > 0 {
        if a < b {
            lemma_row_differences_grow(d1, d2, offset, a, (b - 1) as nat);
        } else {
            lemma_row_differences_grow(d1, d2, offset, (a - 1) as nat, (b - 1) as nat);
        }
    }
}

proof fn lemma_corner_differences_grow(
    d1: Seq<u8>,
    d2: Seq<u8>,
    stride: int,
    width: nat,
    a: nat,
    b: nat,
)
    requires
        a <= b,
    ensures
        corner_differences(d1, d2, stride, width, a) <= corner_differences(
            d1,
            d2,
            stride,
            width,
            b,
        ),
    decreases b,
{
    if a < b {
        lemma_corner_differences_grow(d1, d2, stride, width, a, (b - 1) as nat);
    }
}

proof fn lemma_rows_inside(len: int, stride: int, rows: int, y: int)
    by (nonlinear_arith)
    requires
        0 < stride <= len,
        rows <= len / stride,
        0 <= y < rows,
    ensures
        0 <= y * stride,
        y * stride + stride <= len,
{
    assert(len / stride * stride <= len);
    assert((y + 1) * stride <= len / stride * stride);
}

/// Whether two frames of 4-byte pixels, `w` pixels wide, differ in their upper left corners.
pub fn compare_left_up_corner(w: usize, d1: &[u8], d2: &[u8]) -> (r: bool)
    ensures
        r == corners_differ(w, d1@, d2@),
{
    if w == 0 {
        return false;
    }
    if d1.len() != d2.len() {
        return false;
    }
    let stride: usize = match w.checked_mul(BYTES_PER_PIXEL) {
        Some(bytes) => bytes,
        None => usize::MAX,
    };
    if d1.len() < stride {
        return false;
    }
    let h: usize = d1.len() / stride;
    let width: usize = if w < CORNER_EDGE {
        w
    } else {
        CORNER_EDGE
    };
    let height: usize = if h < CORNER_EDGE {
        h
    } else {
        CORNER_EDGE
    };
    assert(0 <= width * height <= 36 * 36) by (nonlinear_arith)
        requires
            0 <= width <= 36,
            0 <= height <= 36,
    ;
    let pixels: usize = width * height;
    let part: usize = pixels / DIFF_THRESHOLD_DIVISOR;
    let threshold: usize = if part < MIN_DIFF_PIXELS {
        MIN_DIFF_PIXELS
    } else {
        part
    };
    let mut count: usize = 0;
    let mut y: usize = 0;
    while y < height
        invariant
            y <= height <= 36,
            height <= d1@.len() as int / stride as int,
            width <= 36,
            4 * width <= stride <= d1@.len(),
            0 < stride,
            d1@.len() == d2@.len(),
            d1@.len() <= usize::MAX,
            0 < threshold,
            count == corner_differences(d1@, d2@, stride as int, width as nat, y as nat),
            count < threshold,
            threshold <= 36 * 36,
            comparable(w, d1@, d2@),
            stride == row_stride(w),
            width == smaller(CORNER_EDGE as int, w as int),
            height == smaller(CORNER_EDGE as int, d1@.len() as int / stride as int),
            threshold == difference_threshold(width * height),
        decreases height - y,
    {
        proof {
            lemma_rows_inside(d1@.len() as int, stride as int, height as int, y as int);
        }
        let row: usize = y * stride;
        let ghost above = count as int;
        let mut x: usize = 0;
        while x < width
            invariant
                x <= width <= 36,
                y < height <= 36,
                4 * width <= stride,
                row == y * stride,
                row + stride <= d1@.len(),
                d1@.len() == d2@.len(),
                d1@.len() <= usize::MAX,
                above == corner_differences(d1@, d2@, stride as int, width as nat, y as nat),
                count == above + row_differences(d1@, d2@, row as int, x as nat),
                count < threshold,
                threshold <= 36 * 36,
                comparable(w, d1@, d2@),
                stride == row_stride(w),
                width == smaller(CORNER_EDGE as int, w as int),
                height == smaller(CORNER_EDGE as int, d1@.len() as int / stride as int),
                threshold == difference_threshold(width * height),
            decreases width - x,
        {
            if differs_at(d1, d2, row + x * BYTES_PER_PIXEL) {
                count = count + 1;
                if count >= threshold {
                    proof {
                        lemma_row_differences_grow(
                            d1@,
                            d2@,
                            row as int,
                            (x + 1) as nat,
                            width as nat,
                        );
                        lemma_corner_differences_grow(
                            d1@,
                            d2@,
                            stride as int,
                            width as nat,
                            (y + 1) as nat,
                            height as nat,
                        );
                    }
                    return true;
                }
            }
            x = x + 1;
        }
        y = y + 1;
    }
    false
}

proof fn lemma_no_row_differences(d: Seq<u8>, offset: int, n: nat)
    ensures
        row_differences(d, d, offset, n) == 0,
    decreases n,
{
    if n > 0 {
        lemma_no_row_differences(d, offset, (n - 1) as nat);
    }
}

proof fn lemma_no_corner_differences(d: Seq<u8>, stride: int, width: nat, rows: nat)
    ensures
        corner_differences(d, d, stride, width, rows) == 0,
    decreases rows,
{
    if rows > 0 {
        lemma_no_corner_differences(d, stride, width, (rows - 1) as nat);
        lemma_no_row_differences(d, (rows - 1) * stride, width);
    }
}

/// A frame does not differ from itself.
pub proof fn law_same_frames_do_not_differ(w: usize, d: Seq<u8>)
    ensures
        !corners_differ(w, d, d),
{
    let stride = row_stride(w);
    let width = smaller(CORNER_EDGE as int, w as int);
    let height = smaller(CORNER_EDGE as int, d.len() as int / stride);
    lemma_no_corner_differences(d, stride, width as nat, height as nat);
}

proof fn lemma_row_differences_symmetric(d1: Seq<u8>, d2: Seq<u8>, offset: int, n: nat)
    ensures
        row_differences(d1, d2, offset, n) == row_differences(d2, d1, offset, n),
    decreases n,
{
    if n > 0 {
        lemma_row_differences_symmetric(d1, d2, offset, (n - 1) as nat);
    }
}

proof fn lemma_corner_differences_symmetric(
    d1: Seq<u8>,
    d2: Seq<u8>,
    stride: int,
    width: nat,
    rows: nat,
)
    ensures
        corner_differences(d1, d2, stride, width, rows) == corner_differences(
            d2,
            d1,
            stride,
            width,
            rows,
        ),
    decreases rows,
{
    if rows > 0 {
        lemma_corner_differences_symmetric(d1, d2, stride, width, (rows - 1) as nat);
        lemma_row_differences_symmetric(d1, d2, (rows - 1) * stride, width);
    }
}

/// It does not matter which of two frames came first.
pub proof fn law_comparison_is_symmetric(w: usize, d1: Seq<u8>, d2: Seq<u8>)
    ensures
        corners_differ(w, d1, d2) == corners_differ(w, d2, d1),
{
    if comparable(w, d1, d2) {
        let stride = row_stride(w);
        let width = smaller(CORNER_EDGE as int, w as int);
        let height = smaller(CORNER_EDGE as int, d1.len() as int / stride);
        lemma_corner_differences_symmetric(d1, d2, stride, width as nat, height as nat);
    }
}

/// Two frames of `w` pixels in a row hold different pixels at a place: one of the 4 bytes differs.
pub open spec fn differ_at(d1: Seq<u8>, d2: Seq<u8>, w: int, x: int, y: int) -> bool {
    exists|b: int|
        0 <= b < 4 && #[trigger] d1[4 * (w * y + x) + b] != d2[4 * (w * y + x) + b]
}

/// The places, within some width and height, at which two frames differ.
pub open spec fn differing_places(
    d1: Seq<u8>,
    d2: Seq<u8>,
    w: int,
    width: int,
    height: int,
) -> Set<(int, int)> {
    Set::new(
        |p: (int, int)|
            0 <= p.0 < width && 0 <= p.1 < height && differ_at(d1, d2, w, p.0, p.1),
    )
}

/// The places of one row, up to some width, at which two frames differ.
spec fn differing_row(d1: Seq<u8>, d2: Seq<u8>, w: int, y: int, n: int) -> Set<(int, int)> {
    Set::new(|p: (int, int)| 0 <= p.0 < n && p.1 == y && differ_at(d1, d2, w, p.0, y))
}

proof fn lemma_differ_at(d1: Seq<u8>, d2: Seq<u8>, w: int, x: int, y: int)
    requires
        d1.len() == d2.len(),
        0 <= w * y + x,
        4 * (w * y + x) + 4 <= d1.len(),
    ensures
        pixel_differs(d1, d2, 4 * (w * y + x)) <==> differ_at(d1, d2, w, x, y),
{
    let at = 4 * (w * y + x);
    let (a, b) = (d1.subrange(at, at + 4), d2.subrange(at, at + 4));
    if differ_at(d1, d2, w, x, y) {
        let k = choose|k: int| 0 <= k < 4 && #[trigger] d1[at + k] != d2[at + k];
        assert(a[k] != b[k]);
    } else {
        assert forall|k: int| 0 <= k < 4 implies a[k] == b[k] by {
            assert(d1[at + k] == d2[at + k]);
        }
        assert(a =~= b);
    }
}

proof fn lemma_row_count(d1: Seq<u8>, d2: Seq<u8>, w: int, y: int, n: nat)
    requires
        d1.len() == d2.len(),
        0 <= w * y,
        4 * (w * y + n) <= d1.len(),
    ensures
        differing_row(d1, d2, w, y, n as int).finite(),
        differing_row(d1, d2, w, y, n as int).len() == row_differences(d1, d2, 4 * (w * y), n),
    decreases n,
{
    let row = differing_row(d1, d2, w, y, n as int);
    if n == 0 {
        assert(row =~= Set::empty());
    } else {
        let before = differing_row(d1, d2, w, y, n - 1);
        lemma_row_count(d1, d2, w, y, (n - 1) as nat);
        lemma_differ_at(d1, d2, w, n - 1, y);
        assert(4 * (w * y) + 4 * (n - 1) == 4 * (w * y + (n - 1)));
        if differ_at(d1, d2, w, n - 1, y) {
            assert(row =~= before.insert((n - 1, y)));
        } else {
            assert(row =~= before);
        }
    }
}

proof fn lemma_corner_count(d1: Seq<u8>, d2: Seq<u8>, w: int, width: nat, rows: nat)
    requires
        d1.len() == d2.len(),
        0 <= width <= w,
        4 * (w * rows) <= d1.len(),
    ensures
        differing_places(d1, d2, w, width as int, rows as int).finite(),
        differing_places(d1, d2, w, width as int, rows as int).len() == corner_differences(
            d1,
            d2,
            4 * w,
            width,
            rows,
        ),
    decreases rows,
{
    let corner = differing_places(d1, d2, w, width as int, rows as int);
    if rows == 0 {
        assert(corner =~= Set::empty());
    } else {
        let y = rows - 1;
        assert(0 <= w * y && w * y + w == w * rows) by (nonlinear_arith)
            requires
                0 <= w,
                0 <= y,
                y == rows - 1,
        ;
        assert(y * (4 * w) == 4 * (w * y)) by (nonlinear_arith);
        let above = differing_places(d1, d2, w, width as int, y);
        let row = differing_row(d1, d2, w, y, width as int);
        lemma_corner_count(d1, d2, w, width, y as nat);
        lemma_row_count(d1, d2, w, y, width);
        assert(corner =~= above + row);
        assert(above.disjoint(row));
        vstd::set_lib::lemma_set_disjoint_lens(above, row);
    }
}

/// Two frames of the same length, with at least one row, differ in the upper left corner exactly
/// where, of the pixels in their first 36 columns and rows, at least an eighth do, and no fewer
/// than 8. Frames of other lengths are not told to differ.
pub proof fn law_corners_differ_by_count(
    w: usize,
    d1: Seq<u8>,
    d2: Seq<u8>,
    width: int,
    height: int,
)
    requires
        0 < 4 * w <= usize::MAX,
        width == (if w < 36 {
            w as int
        } else {
            36
        }),
        d1.len() >= 4 * w ==> height == (if d1.len() as int / (4 * w) < 36 {
            d1.len() as int / (4 * w)
        } else {
            36
        }),
    ensures
        d1.len() != d2.len() || d1.len() < 4 * w ==> !corners_differ(w, d1, d2),
        d1.len() == d2.len() && d1.len() >= 4 * w ==> {
            let count = differing_places(d1, d2, w as int, width, height).len();
            corners_differ(w, d1, d2) <==> count >= 8 && count >= (width * height) / 8
        },
{
    if d1.len() == d2.len() && d1.len() >= 4 * w {
        let len = d1.len() as int;
        let stride = 4 * w;
        assert(row_stride(w) == stride);
        assert(height <= len / stride);
        assert(4 * (w * height) <= len && 0 <= height) by (nonlinear_arith)
            requires
                stride == 4 * w,
                0 < stride <= len,
                height <= len / stride,
                height == len / stride || height == 36,
        {
            assert(len / stride * stride <= len);
            assert(height * stride <= len / stride * stride);
            assert(height * stride == 4 * (w * height));
            assert(len / stride >= 0);
        }
        lemma_corner_count(d1, d2, w as int, width as nat, height as nat);
    }
}

/// Frames without columns are not told to differ.
pub proof fn law_frames_without_columns(d1: Seq<u8>, d2: Seq<u8>)
    ensures
        !corners_differ(0, d1, d2),
{
}

} // verus!
