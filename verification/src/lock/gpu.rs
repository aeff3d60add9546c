//! What has to be handed to the graphics card, and what follows where it does
//! not draw.

use vstd::prelude::*;

verus! {

/// A part of a picture, and where its first byte lies in the picture's data.
#[derive(Debug, Clone, Copy, PartialEq, Eq, Structural)]
pub struct Region {
    pub x: u32,
    pub y: u32,
    pub width: u32,
    pub height: u32,
    pub offset: usize,
}

/// `v` kept between zero and `side`.
pub open spec fn within(v: int, side: int) -> int {
    if v <= 0 {
        0
    } else if v >= side {
        side
    } else {
        v
    }
}

fn keep_within(v: i64, side: u32) -> (r: u32)
    ensures
        r == within(v as int, side as int),
{
    if v <= 0 {
        0
    } else if v >= side as i64 {
        side
    } else {
        v as u32
    }
}

proof fn lemma_part_in_data(
    width: int,
    height: int,
    x: int,
    y: int,
    part_width: int,
    part_height: int,
)
    requires
        0 <= x,
        0 <= y,
        0 < part_width,
        0 < part_height,
        x + part_width <= width,
        y + part_height <= height,
    ensures
        0 <= (y * width + x) * 4,
        (y * width + x) * 4 + ((part_height - 1) * width + part_width) * 4 <= width * height * 4,
{
    assert(y * width >= 0) by (nonlinear_arith)
        requires
            y >= 0,
            width >= 0,
    ;
    assert((y + part_height - 1) * width <= (height - 1) * width) by (nonlinear_arith)
        requires
            y + part_height <= height,
            width >= 0,
    ;
    assert((height - 1) * width == width * height - width) by (nonlinear_arith);
    assert((y + part_height - 1) * width == y * width + (part_height - 1) * width)
        by (nonlinear_arith);
}

/// The part of a picture of `width` by `height` pixels that was drawn between
/// the corners (`x0`, `y0`) and (`x1`, `y1`). None where nothing of it lies
/// within the picture. The part lies within the picture in both directions, and
/// so do its bytes within the picture's data.
pub fn upload_region(width: u32, height: u32, x0: i64, y0: i64, x1: i64, y1: i64) -> (r: Option<
    Region,
>)
    requires
        width * height * 4 <= usize::MAX,
    ensures
        ({
            let left = if x0 > 0 {
                x0 as int
            } else {
                0
            };
            let top = if y0 > 0 {
                y0 as int
            } else {
                0
            };
            let right = within(x1 as int, width as int);
            let bottom = within(y1 as int, height as int);
            &&& r is Some <==> left < right && top < bottom
            &&& r matches Some(p) ==> {
                &&& p.x == left
                &&& p.y == top
                &&& p.width == right - left
                &&& p.height == bottom - top
                &&& p.offset == (top * width + left) * 4
                &&& p.x + p.width <= width
                &&& p.y + p.height <= height
                &&& p.offset + ((p.height - 1) * width + p.width) * 4 <= width * height * 4
            }
        }),
{
    let right: u32 = keep_within(x1, width);
    let bottom: u32 = keep_within(y1, height);
    let left: i64 = if x0 > 0 {
        x0
    } else {
        0
    };
    let top: i64 = if y0 > 0 {
        y0
    } else {
        0
    };
    if left >= right as i64 || top >= bottom as i64 {
        return None;
    }
    proof {
        let w = width as int;
        let h = height as int;
        assert(top * w <= (h - 1) * w) by (nonlinear_arith)
            requires
                0 <= top <= h - 1,
                w >= 0,
        ;
        assert((h - 1) * w == w * h - w) by (nonlinear_arith);
        assert(top * w >= 0) by (nonlinear_arith)
            requires
                top >= 0,
                w >= 0,
        ;
    }
    let offset: usize = (top as usize * width as usize + left as usize) * 4;
    proof {
        lemma_part_in_data(
            width as int,
            height as int,
            left as int,
            top as int,
            right - left,
            bottom - top,
        );
    }
    Some(
        Region {
            x: left as u32,
            y: top as u32,
            width: right - left as u32,
            height: bottom - top as u32,
            offset,
        },
    )
}

/// The size of something on the graphics card.
#[derive(Debug, Clone, Copy, PartialEq, Eq, Structural)]
pub struct Extent {
    pub width: u32,
    pub height: u32,
}

impl Extent {
    /// Takes on another size. Whether it is another one.
    pub fn resize(&mut self, width: u32, height: u32) -> (changed: bool)
        ensures
            *final(self) == (Extent { width, height }),
            changed == (*old(self) != Extent { width, height }),
    {
        let changed: bool = self.width != width || self.height != height;
        self.width = width;
        self.height = height;
        changed
    }
}

/// How a frame gets to the screen.
#[derive(Debug, Clone, Copy, PartialEq, Eq, Structural)]
pub enum Present {
    /// It is there.
    Done,
    /// It is drawn without the graphics card, after the surface's window there
    /// was given up: a surface that has one takes no other buffer.
    DropWindowAndCompose,
    /// It is drawn without the graphics card.
    Compose,
}

/// What is left to do for a frame that the graphics card drew or failed to
/// draw, or that it was not asked to draw.
pub fn after_gpu(drawn: Option<bool>) -> (r: Present)
    ensures
        r == (match drawn {
            Some(true) => Present::Done,
            Some(false) => Present::DropWindowAndCompose,
            None => Present::Compose,
        }),
{
    match drawn {
        Some(true) => Present::Done,
        Some(false) => Present::DropWindowAndCompose,
        None => Present::Compose,
    }
}

/// A side is kept within the picture: what lies within stays, what lies before
/// or behind becomes the edge.
pub proof fn law_edges_are_kept(v: int, side: int)
    requires
        side >= 0,
    ensures
        0 <= within(v, side) <= side,
        0 <= v <= side ==> within(v, side) == v,
        v < 0 ==> within(v, side) == 0,
        v > side ==> within(v, side) == side,
{
}

} // verus!
