//! Pictures: rows of RGBA pixels, four bytes each.

use vstd::prelude::*;

verus! {

/// A picture of `width` by `height` pixels, row by row from the top, each pixel
/// its red, green, blue and alpha byte with the colours premultiplied.
#[derive(Clone, Debug)]
pub struct Frame {
    pub width: usize,
    pub height: usize,
    pub data: Vec<u8>,
}

/// Where channel `c` of pixel (`x`, `y`) lies in a picture `width` pixels wide.
pub open spec fn offset(width: int, x: int, y: int, c: int) -> int {
    (y * width + x) * 4 + c
}

impl Frame {
    /// Neither side is empty, and the data holds four bytes for each pixel.
    pub open spec fn wf(self) -> bool {
        &&& self.width > 0
        &&& self.height > 0
        &&& self.data@.len() == self.width * self.height * 4
    }

    /// Channel `c` of pixel (`x`, `y`).
    pub open spec fn at(self, x: int, y: int, c: int) -> u8 {
        self.data@[offset(self.width as int, x, y, c)]
    }

    /// Whether every pixel is `rgba`.
    pub open spec fn is_filled(self, rgba: Seq<u8>) -> bool {
        forall|x: int, y: int, c: int|
            0 <= x < self.width && 0 <= y < self.height && 0 <= c < 4 ==> #[trigger] self.at(
                x,
                y,
                c,
            ) == rgba[c]
    }

    /// A picture with every byte zero, that is, fully transparent. `None` where
    /// a side is empty, and where there are more bytes than memory can hold.
    pub fn new(width: usize, height: usize) -> (r: Option<Frame>)
        ensures
            r is Some <==> width > 0 && height > 0 && width * height * 4 <= isize::MAX,
            r matches Some(f) ==> f.wf() && f.width == width && f.height == height && f.is_filled(
                seq![0u8, 0u8, 0u8, 0u8],
            ),
    {
        if width == 0 || height == 0 {
            return None;
        }
        let pixels: usize = match width.checked_mul(height) {
            Some(n) => n,
            None => {
                return None;
            },
        };
        let bytes: usize = match pixels.checked_mul(4) {
            Some(n) => n,
            None => {
                return None;
            },
        };
        if bytes > isize::MAX as usize {
            return None;
        }
        let mut data: Vec<u8> = Vec::new();
        data.resize(bytes, 0u8);
        let f = Frame { width, height, data };
        proof {
            assert forall|x: int, y: int, c: int|
                0 <= x < f.width && 0 <= y < f.height && 0 <= c < 4 implies #[trigger] f.at(x, y, c)
                == 0 by {
                lemma_offset_in_range(f.width as int, f.height as int, x, y, c);
            }
        }
        Some(f)
    }

    /// Makes every pixel `(red, green, blue, alpha)`.
    pub fn fill(&mut self, red: u8, green: u8, blue: u8, alpha: u8)
        requires
            old(self).wf(),
        ensures
            final(self).wf(),
            final(self).width == old(self).width,
            final(self).height == old(self).height,
            final(self).is_filled(seq![red, green, blue, alpha]),
    {
        let ghost rgba = seq![red, green, blue, alpha];
        let n: usize = self.data.len();
        let mut k: usize = 0;
        while k < n
            invariant
                n == self.data@.len(),
                n == self.data.len(),
                n % 4 == 0,
                k <= n,
                k % 4 == 0,
                self.width == old(self).width,
                self.height == old(self).height,
                rgba == seq![red, green, blue, alpha],
                forall|j: int| 0 <= j < k ==> #[trigger] self.data@[j] == rgba[j % 4],
            decreases n - k,
        {
            self.data[k] = red;
            self.data[k + 1] = green;
            self.data[k + 2] = blue;
            self.data[k + 3] = alpha;
            k += 4;
        }
        proof {
            let f = *self;
            assert forall|x: int, y: int, c: int|
                0 <= x < f.width && 0 <= y < f.height && 0 <= c < 4 implies #[trigger] f.at(x, y, c)
                == rgba[c] by {
                lemma_offset_in_range(f.width as int, f.height as int, x, y, c);
                assert(offset(f.width as int, x, y, c) % 4 == c);
            }
        }
    }
}

/// A pixel of the picture has its four bytes within the picture's data, and
/// its pixel number within the picture's pixels.
pub proof fn lemma_offset_in_range(width: int, height: int, x: int, y: int, c: int)
    requires
        0 <= x < width,
        0 <= y < height,
        0 <= c < 4,
    ensures
        0 <= offset(width, x, y, c) < width * height * 4,
        0 <= y * width + x < width * height,
        y * width >= 0,
{
    assert(y * width <= (height - 1) * width) by (nonlinear_arith)
        requires
            y <= height - 1,
            width > 0,
    ;
    assert((height - 1) * width == width * height - width) by (nonlinear_arith);
    assert(y * width >= 0) by (nonlinear_arith)
        requires
            y >= 0,
            width > 0,
    ;
}

/// Two pixels of a picture never share a byte.
pub proof fn lemma_offset_injective(
    width: int,
    x1: int,
    y1: int,
    c1: int,
    x2: int,
    y2: int,
    c2: int,
)
    requires
        0 <= x1 < width,
        0 <= x2 < width,
        0 <= y1,
        0 <= y2,
        0 <= c1 < 4,
        0 <= c2 < 4,
        offset(width, x1, y1, c1) == offset(width, x2, y2, c2),
    ensures
        x1 == x2,
        y1 == y2,
        c1 == c2,
{
    assert(y1 * width + x1 == y2 * width + x2);
    assert(y1 == y2) by (nonlinear_arith)
        requires
            0 <= x1 < width,
            0 <= x2 < width,
            y1 * width + x1 == y2 * width + x2,
    ;
}

} // verus!
