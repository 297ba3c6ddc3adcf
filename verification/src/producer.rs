//! Frame producers: sources of textures outside the Wayland protocol.

use crate::perf::wrapped;
use vstd::arithmetic::div_mod::lemma_fundamental_div_mod_converse;
use vstd::prelude::*;

verus! {

/// What a producer has to say when it is asked for a frame.
#[derive(Debug, Clone)]
pub enum FrameResult {
    /// There is a new frame in the texture.
    Updated,
    /// The texture still shows the last frame.
    Unchanged,
    /// There is a new frame, of a new size.
    Resized(u32, u32),
    /// No frame could be had this time.
    Error(String),
    /// There will be no more frames.
    Finished,
}

impl FrameResult {
    /// There is a frame to show, new or not.
    pub open spec fn usable(self) -> bool {
        self is Updated || self is Unchanged || self is Resized
    }

    /// There is a new frame.
    pub open spec fn renewed(self) -> bool {
        self is Updated || self is Resized
    }

    /// Whether there is a frame to show, new or not.
    pub fn is_usable(&self) -> (r: bool)
        ensures
            r == self.usable(),
            r <==> !(self is Error) && !(self is Finished),
    {
        match self {
            FrameResult::Updated => true,
            FrameResult::Unchanged => true,
            FrameResult::Resized(_, _) => true,
            FrameResult::Error(_) => false,
            FrameResult::Finished => false,
        }
    }

    /// Whether there is a new frame.
    pub fn is_renewed(&self) -> (r: bool)
        ensures
            r == self.renewed(),
            r <==> self is Updated || self is Resized,
    {
        match self {
            FrameResult::Updated => true,
            FrameResult::Resized(_, _) => true,
            FrameResult::Unchanged => false,
            FrameResult::Error(_) => false,
            FrameResult::Finished => false,
        }
    }
}

/// Width and height of the animated checkerboard.
pub const BOARD_SIZE: u32 = 256;

/// Whether a pixel lies in a bright square. The squares are 32 pixels wide and
/// change places with every phase.
pub open spec fn bright(x: int, y: int, phase: int) -> bool {
    (x / 32 + y / 32 + phase % 24) % 2 == 0
}

/// One of the four bytes of a pixel: red, green, blue, opacity. The colour of
/// the bright squares moves with the phase and repeats after 24 of them.
pub open spec fn pixel_byte(x: int, y: int, phase: int, channel: int) -> u8 {
    let shift = phase % 24;
    if bright(x, y, phase) {
        if channel == 0 {
            ((128 + 10 * shift) % 256) as u8
        } else if channel == 1 {
            (200 - 8 * shift) as u8
        } else if channel == 2 {
            (255 - 6 * shift) as u8
        } else {
            255
        }
    } else {
        if channel == 0 {
            20
        } else if channel == 1 {
            20
        } else if channel == 2 {
            40
        } else {
            255
        }
    }
}

/// The board, row by row from the top, four bytes a pixel.
pub open spec fn checkerboard(w: int, h: int, phase: int) -> Seq<u8> {
    Seq::new(
        (4 * (w * h)) as nat,
        |i: int| pixel_byte((i / 4) % w, (i / 4) / w, phase, i % 4),
    )
}

/// A checkerboard that changes every third time it is asked for a frame.
#[derive(Debug, Clone)]
pub struct AnimatedCheckerboard<T> {
    pub texture: T,
    pub width: u32,
    pub height: u32,
    pub frame_count: u64,
}

impl<T> AnimatedCheckerboard<T> {
    /// The number of bytes of a frame fits 32 bits.
    pub open spec fn well_formed(&self) -> bool {
        4 * (self.width * self.height) <= u32::MAX
    }

    /// A board that shows the texture made of [`Self::first_frame`].
    pub fn new(texture: T) -> (board: AnimatedCheckerboard<T>)
        ensures
            board == (AnimatedCheckerboard {
                texture,
                width: BOARD_SIZE,
                height: BOARD_SIZE,
                frame_count: 0,
            }),
            board.well_formed(),
    {
        proof {
            assert(BOARD_SIZE * BOARD_SIZE == 65536) by (nonlinear_arith);
        }
        AnimatedCheckerboard { texture, width: BOARD_SIZE, height: BOARD_SIZE, frame_count: 0 }
    }

    /// The pixels to begin with.
    pub fn first_frame() -> (pixels: Vec<u8>)
        ensures
            pixels@ == checkerboard(BOARD_SIZE as int, BOARD_SIZE as int, 0),
    {
        proof {
            assert(BOARD_SIZE * BOARD_SIZE == 65536) by (nonlinear_arith);
        }
        Self::generate(BOARD_SIZE, BOARD_SIZE, 0)
    }

    /// The pixels of the board in one phase of the animation.
    pub fn generate(w: u32, h: u32, phase: u64) -> (pixels: Vec<u8>)
        requires
            4 * (w * h) <= u32::MAX,
        ensures
            pixels@ == checkerboard(w as int, h as int, phase as int),
    {
        let shift: u8 = (phase % 24) as u8;
        let ghost board = checkerboard(w as int, h as int, phase as int);
        let mut pixels: Vec<u8> = Vec::new();
        let mut y: u32 = 0;
        proof {
            assert(pixels@ =~= board.take(0));
        }
        while y < h
            invariant
                y <= h,
                shift == phase % 24,
                4 * (w * h) <= u32::MAX,
                board == checkerboard(w as int, h as int, phase as int),
                pixels@ == board.take(4 * (w * y)),
                0 <= w * y <= w * h,
            decreases h - y,
        {
            let mut x: u32 = 0;
            proof {
                assert(w * (y + 1) <= w * h) by (nonlinear_arith)
                    requires
                        y < h,
                ;
                assert(w * (y + 1) == w * y + w) by (nonlinear_arith);
            }
            while x < w
                invariant
                    x <= w,
                    y < h,
                    shift == phase % 24,
                    4 * (w * h) <= u32::MAX,
                    board == checkerboard(w as int, h as int, phase as int),
                    pixels@ == board.take(4 * (w * y + x)),
                    0 <= w * y,
                    w * y + w <= w * h,
                decreases w - x,
            {
                let ghost at = w * y + x;
                let ghost before = pixels@;
                proof {
                    assert(w * y == y * w) by (nonlinear_arith);
                    lemma_fundamental_div_mod_converse(at as int, w as int, y as int, x as int);
                    assert(forall|c: int| #![auto]
                        0 <= c < 4 ==> board[4 * at + c] == pixel_byte(
                            x as int,
                            y as int,
                            phase as int,
                            c,
                        ));
                }
                let is_bright: bool = ((x / 32) + (y / 32) + (shift as u32)) % 2 == 0;
                if is_bright {
                    let r: u8 = 128u8.wrapping_add(shift.wrapping_mul(10));
                    let g: u8 = 200u8.wrapping_sub(shift.wrapping_mul(8));
                    let b: u8 = 255u8.wrapping_sub(shift.wrapping_mul(6));
                    pixels.push(r);
                    pixels.push(g);
                    pixels.push(b);
                    pixels.push(255);
                } else {
                    pixels.push(20);
                    pixels.push(20);
                    pixels.push(40);
                    pixels.push(255);
                }
                x += 1;
                proof {
                    assert(pixels@ =~= board.take(4 * (at + 1)));
                }
            }
            y += 1;
        }
        proof {
            assert(y == h);
            assert(pixels@ =~= board);
        }
        pixels
    }

    /// Counts a request for a frame; every third one brings new pixels, to be
    /// made into a texture and handed to [`Self::accept`]. On the others the
    /// frame is unchanged.
    pub fn update(&mut self) -> (pixels: Option<Vec<u8>>)
        requires
            old(self).well_formed(),
        ensures
            *final(self) == (AnimatedCheckerboard {
                frame_count: wrapped(old(self).frame_count, 1),
                ..*old(self)
            }),
            final(self).frame_count == (old(self).frame_count + 1) % (u64::MAX + 1),
            final(self).texture == old(self).texture,
            final(self).width == old(self).width,
            final(self).height == old(self).height,
            pixels is Some <==> final(self).frame_count % 3 == 0,
            pixels matches Some(p) ==> p@ == checkerboard(
                old(self).width as int,
                old(self).height as int,
                (final(self).frame_count / 3) as int,
            ),
            final(self).well_formed(),
    {
        self.frame_count = self.frame_count.wrapping_add(1);
        if self.frame_count % 3 != 0 {
            return None;
        }
        Some(Self::generate(self.width, self.height, self.frame_count / 3))
    }

    /// Shows the texture that was made of new pixels, if one could be made.
    pub fn accept(&mut self, texture: Option<T>) -> (r: FrameResult)
        ensures
            r == if texture is Some {
                FrameResult::Updated
            } else {
                FrameResult::Unchanged
            },
            *final(self) == (AnimatedCheckerboard {
                texture: match texture {
                    Some(t) => t,
                    None => old(self).texture,
                },
                ..*old(self)
            }),
    {
        match texture {
            Some(t) => {
                self.texture = t;
                FrameResult::Updated
            },
            None => FrameResult::Unchanged,
        }
    }

    /// The texture that is shown.
    pub fn texture(&self) -> (r: &T)
        ensures
            *r == self.texture,
    {
        &self.texture
    }

    /// The size of the frames.
    pub fn size(&self) -> (r: (u32, u32))
        ensures
            r == (self.width, self.height),
    {
        (self.width, self.height)
    }
}

/// Neighbouring squares never look alike, and every square changes with each
/// phase.
pub proof fn law_squares_alternate(x: int, y: int, phase: int)
    requires
        phase >= 0,
    ensures
        bright(x + 32, y, phase) == !bright(x, y, phase),
        bright(x, y + 32, phase) == !bright(x, y, phase),
        bright(x, y, phase + 1) == !bright(x, y, phase),
{
    assert((x + 32) / 32 == x / 32 + 1);
    assert((y + 32) / 32 == y / 32 + 1);
}

/// The animation repeats after 24 phases.
pub proof fn law_animation_repeats(w: int, h: int, phase: int)
    requires
        phase >= 0,
    ensures
        checkerboard(w, h, phase + 24) == checkerboard(w, h, phase),
{
    assert((phase + 24) % 24 == phase % 24);
    assert(checkerboard(w, h, phase + 24) =~= checkerboard(w, h, phase));
}

/// A frame can be shown unless there was an error or the producer has finished,
/// and of those that can only an unchanged one is not new.
pub proof fn law_results_by_kind(result: FrameResult)
    ensures
        result is Updated ==> result.usable() && result.renewed(),
        result is Resized ==> result.usable() && result.renewed(),
        result is Unchanged ==> result.usable() && !result.renewed(),
        result is Error ==> !result.usable() && !result.renewed(),
        result is Finished ==> !result.usable() && !result.renewed(),
{
}

/// The bytes of the board, pixel by pixel: row by row from the top, red, green,
/// blue and opacity. Squares of 32 pixels alternate between a dark colour that
/// stays and a bright one that moves with the phase.
pub proof fn law_board_by_pixels(w: int, h: int, phase: int, x: int, y: int)
    requires
        0 <= x < w,
        0 <= y < h,
        phase >= 0,
    ensures
        checkerboard(w, h, phase).len() == 4 * (w * h),
        0 <= 4 * (w * y + x) < 4 * (w * h) - 3,
        ({
            let board = checkerboard(w, h, phase);
            let at = 4 * (w * y + x);
            &&& board[at + 3] == 255
            &&& (x / 32 + y / 32 + phase % 24) % 2 == 0 ==> {
                &&& board[at] == (128 + 10 * (phase % 24)) % 256
                &&& board[at + 1] == 200 - 8 * (phase % 24)
                &&& board[at + 2] == 255 - 6 * (phase % 24)
            }
            &&& (x / 32 + y / 32 + phase % 24) % 2 != 0 ==> {
                &&& board[at] == 20
                &&& board[at + 1] == 20
                &&& board[at + 2] == 40
            }
        }),
{
    let at = w * y + x;
    assert(w * (y + 1) <= w * h) by (nonlinear_arith)
        requires
            y < h,
            0 <= x < w,
    ;
    assert(w * (y + 1) == w * y + w) by (nonlinear_arith);
    assert(0 <= w * y) by (nonlinear_arith)
        requires
            0 <= x < w,
            0 <= y,
    ;
    assert(w * y == y * w) by (nonlinear_arith);
    lemma_fundamental_div_mod_converse(at, w, y, x);
    assert(forall|c: int| #![auto]
        0 <= c < 4 ==> checkerboard(w, h, phase)[4 * at + c] == pixel_byte(x, y, phase, c));
}

} // verus!
