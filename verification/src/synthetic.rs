//! Synthetic test sequences with known ground truth: a rectangle that
//! crosses a static background, and a person-sized blob that walks in
//! from the left. Each frame comes with its RGB pixels, whether it shows
//! motion, the true horizontal flow of the moving object and its bounding
//! box.

use vstd::prelude::*;

verus! {

// ── Frames with one filled box ──────────────────────────────────────

/// Position of channel `c` of pixel (`x`, `y`) in a row-major RGB buffer
/// `width` pixels wide.
pub open spec fn pixel_index(width: int, x: int, y: int, c: int) -> int {
    3 * (y * width + x) + c
}

/// The grey value of pixel (`x`, `y`) in a frame of background `bg` with
/// the box `b` (left, top, width, height) filled with `fg`.
pub open spec fn box_pixel(x: int, y: int, bg: u8, fg: u8, b: Option<(u32, u32, u32, u32)>) -> u8 {
    match b {
        Some(r) => if r.0 <= x < r.0 + r.2 && r.1 <= y < r.1 + r.3 {
            fg
        } else {
            bg
        },
        None => bg,
    }
}

/// `pixels` is the RGB image, `width` x `height`, of background `bg` with
/// the box `b` filled with `fg` (clipped to the image); every pixel is
/// grey, its value in all three channels.
pub open spec fn is_box_image(
    pixels: Seq<u8>,
    width: nat,
    height: nat,
    bg: u8,
    fg: u8,
    b: Option<(u32, u32, u32, u32)>,
) -> bool {
    &&& pixels.len() == 3 * width * height
    &&& forall|x: int, y: int, c: int|
        0 <= x < width && 0 <= y < height && 0 <= c < 3 ==> #[trigger] pixels[pixel_index(
            width as int,
            x,
            y,
            c,
        )] == box_pixel(x, y, bg, fg, b)
}

proof fn lemma_earlier_pixel(width: int, x1: int, y1: int, x: int, y: int)
    requires
        0 <= x1 < width,
        0 <= y1,
        0 <= x <= width,
        y1 < y || (y1 == y && x1 < x),
    ensures
        y1 * width + x1 < y * width + x,
{
    if y1 < y {
        assert(y1 * width + width <= y * width) by (nonlinear_arith)
            requires
                y1 < y,
                0 <= width,
        ;
    }
}

/// Renders a `width` x `height` grey frame of background `bg` with the box
/// `b` filled with `fg`.
fn render_box_frame(width: u32, height: u32, bg: u8, fg: u8, b: Option<(u32, u32, u32, u32)>) -> (pixels: Vec<u8>)
    requires
        3 * width * height <= usize::MAX,
    ensures
        is_box_image(pixels@, width as nat, height as nat, bg, fg, b),
{
    let mut v: Vec<u8> = Vec::new();
    let mut y: u32 = 0;
    while y < height
        invariant
            y <= height,
            3 * width * height <= usize::MAX,
            v@.len() == 3 * (y * width),
            forall|x1: int, y1: int, c: int|
                0 <= x1 < width && 0 <= y1 < y && 0 <= c < 3 ==> #[trigger] v@[pixel_index(
                    width as int,
                    x1,
                    y1,
                    c,
                )] == box_pixel(x1, y1, bg, fg, b),
        decreases height - y,
    {
        let mut x: u32 = 0;
        while x < width
            invariant
                x <= width,
                y < height,
                3 * width * height <= usize::MAX,
                v@.len() == 3 * (y * width + x),
                forall|x1: int, y1: int, c: int|
                    0 <= x1 < width && 0 <= y1 <= y && 0 <= c < 3 && (y1 < y || x1 < x)
                        ==> #[trigger] v@[pixel_index(width as int, x1, y1, c)] == box_pixel(
                        x1,
                        y1,
                        bg,
                        fg,
                        b,
                    ),
            decreases width - x,
        {
            assert(y * width + x < width * height) by (nonlinear_arith)
                requires
                    x < width,
                    y < height,
            ;
            let value: u8 = match b {
                Some(r) => if r.0 <= x && x - r.0 < r.2 && r.1 <= y && y - r.1 < r.3 {
                    fg
                } else {
                    bg
                },
                None => bg,
            };
            let ghost v0 = v@;
            v.push(value);
            v.push(value);
            v.push(value);
            assert forall|x1: int, y1: int, c: int|
                0 <= x1 < width && 0 <= y1 <= y && 0 <= c < 3 && (y1 < y || x1 < x + 1)
                    implies #[trigger] v@[pixel_index(width as int, x1, y1, c)] == box_pixel(
                    x1,
                    y1,
                    bg,
                    fg,
                    b,
                ) by {
                if y1 < y || x1 < x {
                    lemma_earlier_pixel(width as int, x1, y1, x as int, y as int);
                    assert(v@[pixel_index(width as int, x1, y1, c)] == v0[pixel_index(
                        width as int,
                        x1,
                        y1,
                        c,
                    )]);
                }
            }
            x = x + 1;
        }
        assert(y * width + width == (y + 1) * width) by (nonlinear_arith);
        y = y + 1;
    }
    assert(3 * (y * width) == 3 * width * height) by (nonlinear_arith)
        requires
            y == height,
    ;
    v
}

/// A synthetic frame and its ground truth.
pub struct SyntheticFrame {
    /// RGB bytes, row-major.
    pub pixels: Vec<u8>,
    pub frame_index: u64,
    /// The frame shows foreground motion.
    pub has_motion: bool,
    /// True flow of the moving object: this many pixels to the right per
    /// frame, none vertically.
    pub gt_flow_dx: Option<u32>,
    /// Bounding box (left, top, width, height) of the moving object.
    pub gt_bbox: Option<(u32, u32, u32, u32)>,
}

// ── Moving rectangle ────────────────────────────────────────────────

pub const RECT_BACKGROUND: u8 = 80;
pub const RECT_FOREGROUND: u8 = 220;
pub const RECT_WIDTH: u32 = 60;
pub const RECT_HEIGHT: u32 = 80;
/// Pixels the rectangle moves right per frame.
pub const RECT_SPEED: u32 = 5;
/// First frame with motion; motion also stops this many frames before the
/// end of the sequence.
pub const RECT_MOTION_MARGIN: u64 = 20;

/// The rectangle moves in frame `i` of `n`: from frame 20 up to the 20th
/// frame before the end.
pub open spec fn rect_moving(i: int, n: int) -> bool {
    RECT_MOTION_MARGIN <= i && i + RECT_MOTION_MARGIN < n
}

/// Left edge of the rectangle in frame `i`.
pub open spec fn rect_left(i: int) -> int {
    RECT_SPEED * (i - RECT_MOTION_MARGIN)
}

/// Top edge of the rectangle: vertically centred, clamped at 0.
pub open spec fn rect_top(height: int) -> int {
    if height / 2 >= RECT_HEIGHT / 2 {
        height / 2 - RECT_HEIGHT / 2
    } else {
        0
    }
}

/// The rectangle's box in frame `i` of `n`: present while it moves and
/// lies wholly left of the image's right edge.
pub open spec fn rect_box(i: int, n: int, width: int, height: int) -> Option<(u32, u32, u32, u32)> {
    if rect_moving(i, n) && rect_left(i) + RECT_WIDTH < width {
        Some((rect_left(i) as u32, rect_top(height) as u32, RECT_WIDTH, RECT_HEIGHT))
    } else {
        None
    }
}

/// `f` is frame `i` of the moving-rectangle sequence of `n` frames.
pub open spec fn is_rect_frame(f: SyntheticFrame, i: int, n: int, width: nat, height: nat) -> bool {
    &&& f.frame_index == i
    &&& f.has_motion == rect_moving(i, n)
    &&& f.gt_flow_dx == (if rect_moving(i, n) {
        Some(RECT_SPEED)
    } else {
        None::<u32>
    })
    &&& f.gt_bbox == rect_box(i, n, width as int, height as int)
    &&& is_box_image(
        f.pixels@,
        width,
        height,
        RECT_BACKGROUND,
        RECT_FOREGROUND,
        rect_box(i, n, width as int, height as int),
    )
}

/// A grey background (80) across which a white (220) 60x80 rectangle,
/// vertically centred, moves right at 5 pixels per frame from frame 20
/// until 20 frames before the end; it is drawn, and its box reported,
/// while it lies wholly inside the image.
pub fn moving_rectangle(width: u32, height: u32, num_frames: u64) -> (frames: Vec<SyntheticFrame>)
    requires
        num_frames > 0 ==> 3 * width * height <= usize::MAX,
        num_frames < 41 || RECT_SPEED * (num_frames - 41) <= i32::MAX,
    ensures
        frames@.len() == num_frames,
        forall|i: int|
            0 <= i < num_frames ==> is_rect_frame(
                #[trigger] frames@[i],
                i,
                num_frames as int,
                width as nat,
                height as nat,
            ),
{
    let top: u32 = if height / 2 >= RECT_HEIGHT / 2 {
        height / 2 - RECT_HEIGHT / 2
    } else {
        0
    };
    let mut frames: Vec<SyntheticFrame> = Vec::new();
    let mut i: u64 = 0;
    while i < num_frames
        invariant
            i <= num_frames,
            num_frames > 0 ==> 3 * width * height <= usize::MAX,
            num_frames < 41 || RECT_SPEED * (num_frames - 41) <= i32::MAX,
            top == rect_top(height as int),
            frames@.len() == i,
            forall|k: int|
                0 <= k < i ==> is_rect_frame(
                    #[trigger] frames@[k],
                    k,
                    num_frames as int,
                    width as nat,
                    height as nat,
                ),
        decreases num_frames - i,
    {
        let moving = RECT_MOTION_MARGIN <= i && i < num_frames - RECT_MOTION_MARGIN;
        let mut bbox: Option<(u32, u32, u32, u32)> = None;
        if moving {
            let left: u64 = RECT_SPEED as u64 * (i - RECT_MOTION_MARGIN);
            if left + (RECT_WIDTH as u64) < width as u64 {
                bbox = Some((left as u32, top, RECT_WIDTH, RECT_HEIGHT));
            }
        }
        let pixels = render_box_frame(width, height, RECT_BACKGROUND, RECT_FOREGROUND, bbox);
        let frame = SyntheticFrame {
            pixels,
            frame_index: i,
            has_motion: moving,
            gt_flow_dx: if moving {
                Some(RECT_SPEED)
            } else {
                None
            },
            gt_bbox: bbox,
        };
        frames.push(frame);
        assert(is_rect_frame(frames@[i as int], i as int, num_frames as int, width as nat, height as nat));
        i = i + 1;
    }
    frames
}

/// Law: the ground-truth flow is the rectangle's motion: between two
/// consecutive frames in which it is drawn, its box moves right by exactly
/// the flow reported for them, and not vertically.
pub proof fn lemma_rectangle_moves_by_its_flow(i: int, n: int, width: u32, height: u32)
    requires
        rect_box(i, n, width as int, height as int) is Some,
        rect_box(i + 1, n, width as int, height as int) is Some,
    ensures
        rect_moving(i, n) && rect_moving(i + 1, n),
        rect_box(i + 1, n, width as int, height as int).unwrap().0 == rect_box(
            i,
            n,
            width as int,
            height as int,
        ).unwrap().0 + RECT_SPEED,
        rect_box(i + 1, n, width as int, height as int).unwrap().1 == rect_box(
            i,
            n,
            width as int,
            height as int,
        ).unwrap().1,
{
}

// ── Person entering ─────────────────────────────────────────────────

pub const PERSON_BACKGROUND: u8 = 100;
pub const PERSON_FOREGROUND: u8 = 200;
pub const PERSON_WIDTH: u32 = 50;
pub const PERSON_HEIGHT: u32 = 120;
/// Pixels the person walks right per frame.
pub const PERSON_SPEED: u32 = 3;
/// Frame at which the person starts to enter.
pub const PERSON_ENTER_FRAME: u64 = 30;
/// Gap between the person's feet and the bottom of the image.
pub const PERSON_FLOOR_GAP: u32 = 20;

/// Left edge of the person in frame `i` (at least `PERSON_ENTER_FRAME`):
/// they walk in from beyond the left edge, clamped at 0.
pub open spec fn person_left(i: int) -> int {
    let x = PERSON_SPEED * (i - PERSON_ENTER_FRAME) - PERSON_WIDTH;
    if x < 0 {
        0
    } else {
        x
    }
}

/// Top edge of the person: standing 20 pixels above the bottom, clamped
/// at 0.
pub open spec fn person_top(height: int) -> int {
    if height >= PERSON_HEIGHT + PERSON_FLOOR_GAP {
        height - PERSON_HEIGHT - PERSON_FLOOR_GAP
    } else {
        0
    }
}

/// The person is in the image in frame `i`.
pub open spec fn person_present(i: int, width: int) -> bool {
    i >= PERSON_ENTER_FRAME && person_left(i) < width
}

/// The person's bounding box in frame `i`, clipped at the right edge.
pub open spec fn person_box(i: int, width: int, height: int) -> Option<(u32, u32, u32, u32)> {
    if person_present(i, width) {
        let left = person_left(i);
        Some(
            (
                left as u32,
                person_top(height) as u32,
                (if PERSON_WIDTH <= width - left {
                    PERSON_WIDTH as int
                } else {
                    width - left
                }) as u32,
                PERSON_HEIGHT,
            ),
        )
    } else {
        None
    }
}

/// `f` is frame `i` of the person-entering sequence.
pub open spec fn is_person_frame(f: SyntheticFrame, i: int, width: nat, height: nat) -> bool {
    &&& f.frame_index == i
    &&& f.has_motion == person_present(i, width as int)
    &&& f.gt_flow_dx == (if person_present(i, width as int) {
        Some(PERSON_SPEED)
    } else {
        None::<u32>
    })
    &&& f.gt_bbox == person_box(i, width as int, height as int)
    &&& is_box_image(
        f.pixels@,
        width,
        height,
        PERSON_BACKGROUND,
        PERSON_FOREGROUND,
        person_box(i, width as int, height as int),
    )
}

/// A grey background (100) into which a 50x120 blob (200), standing 20
/// pixels above the bottom, walks from the left at 3 pixels per frame,
/// starting at frame 30; frames where any of it is inside the image have
/// motion and its box.
pub fn person_enters(width: u32, height: u32, num_frames: u64) -> (frames: Vec<SyntheticFrame>)
    requires
        num_frames > 0 ==> 3 * width * height <= usize::MAX,
        num_frames < 31 || PERSON_SPEED * (num_frames - 31) <= i32::MAX,
    ensures
        frames@.len() == num_frames,
        forall|i: int|
            0 <= i < num_frames ==> is_person_frame(
                #[trigger] frames@[i],
                i,
                width as nat,
                height as nat,
            ),
{
    let top: u32 = if height >= PERSON_HEIGHT + PERSON_FLOOR_GAP {
        height - PERSON_HEIGHT - PERSON_FLOOR_GAP
    } else {
        0
    };
    let mut frames: Vec<SyntheticFrame> = Vec::new();
    let mut i: u64 = 0;
    while i < num_frames
        invariant
            i <= num_frames,
            num_frames > 0 ==> 3 * width * height <= usize::MAX,
            num_frames < 31 || PERSON_SPEED * (num_frames - 31) <= i32::MAX,
            top == person_top(height as int),
            frames@.len() == i,
            forall|k: int|
                0 <= k < i ==> is_person_frame(#[trigger] frames@[k], k, width as nat, height as nat),
        decreases num_frames - i,
    {
        let mut bbox: Option<(u32, u32, u32, u32)> = None;
        if i >= PERSON_ENTER_FRAME {
            let walked: u64 = PERSON_SPEED as u64 * (i - PERSON_ENTER_FRAME);
            let left: u64 = if walked >= PERSON_WIDTH as u64 {
                walked - PERSON_WIDTH as u64
            } else {
                0
            };
            if left < width as u64 {
                let l = left as u32;
                let w: u32 = if PERSON_WIDTH <= width - l {
                    PERSON_WIDTH
                } else {
                    width - l
                };
                bbox = Some((l, top, w, PERSON_HEIGHT));
            }
        }
        let present = bbox.is_some();
        let pixels = render_box_frame(width, height, PERSON_BACKGROUND, PERSON_FOREGROUND, bbox);
        let frame = SyntheticFrame {
            pixels,
            frame_index: i,
            has_motion: present,
            gt_flow_dx: if present {
                Some(PERSON_SPEED)
            } else {
                None
            },
            gt_bbox: bbox,
        };
        frames.push(frame);
        assert(is_person_frame(frames@[i as int], i as int, width as nat, height as nat));
        i = i + 1;
    }
    frames
}

/// Law: once the person is wholly past the left edge, the ground-truth
/// flow is their motion: between consecutive frames in which they are
/// present, their box moves right by exactly the reported flow.
pub proof fn lemma_person_moves_by_its_flow(i: int, width: u32, height: u32)
    requires
        person_present(i, width as int),
        person_present(i + 1, width as int),
        person_left(i) > 0,
    ensures
        person_box(i + 1, width as int, height as int).unwrap().0 == person_box(
            i,
            width as int,
            height as int,
        ).unwrap().0 + PERSON_SPEED,
        person_box(i + 1, width as int, height as int).unwrap().1 == person_box(
            i,
            width as int,
            height as int,
        ).unwrap().1,
{
}

} // verus!
