//! The surfaces that cover the outputs while the session is locked.

use vstd::prelude::*;

verus! {

/// A surface, the output that it covers, and its size. Surfaces and outputs are
/// known by their numbers.
#[derive(Debug, Clone, Copy, PartialEq, Eq, Structural)]
pub struct Surface {
    pub id: u32,
    pub output: u32,
    /// Zero until the compositor gives it a size.
    pub width: u32,
    pub height: u32,
    /// How many pixels of the buffer make one of the surface.
    pub scale: i32,
}

/// A side of the buffer for a side of the surface.
pub open spec fn side(length: u32, scale: i32) -> u32 {
    let factor = if scale >= 1 {
        scale as int
    } else {
        1
    };
    if length * factor > u32::MAX {
        u32::MAX
    } else {
        (length * factor) as u32
    }
}

/// A side of the buffer for a side of the surface. A scale below one counts as
/// one, and a side that cannot be told is as long as can be.
pub fn buffer_side(length: u32, scale: i32) -> (r: u32)
    ensures
        r == side(length, scale),
{
    let factor: u64 = if scale >= 1 {
        scale as u64
    } else {
        1
    };
    assert(0 <= length * factor <= u32::MAX * i32::MAX) by (nonlinear_arith)
        requires
            0 <= length <= u32::MAX,
            0 <= factor <= i32::MAX,
    ;
    let wide: u64 = length as u64 * factor;
    if wide > 0xffff_ffff {
        0xffff_ffff
    } else {
        wide as u32
    }
}

/// The size of a surface's buffer.
#[derive(Debug, Clone, Copy, PartialEq, Eq, Structural)]
pub struct BufferSize {
    pub width: u32,
    pub height: u32,
    pub scale: i32,
}

/// The surfaces, in the order in which they were made.
#[derive(Debug)]
pub struct Surfaces {
    pub list: Vec<Surface>,
}

/// The place of the surface with that number, or the number of surfaces where
/// there is none.
pub open spec fn place(list: Seq<Surface>, id: u32) -> int
    decreases list.len(),
{
    if list.len() == 0 || list[0].id == id {
        0
    } else {
        1 + place(list.skip(1), id)
    }
}

/// Whether an output is covered.
pub open spec fn covers(list: Seq<Surface>, output: u32) -> bool {
    exists|i: int| 0 <= i < list.len() && (#[trigger] list[i]).output == output
}

/// The surfaces of the other outputs.
pub open spec fn without_output(list: Seq<Surface>, output: u32) -> Seq<Surface>
    decreases list.len(),
{
    if list.len() == 0 {
        seq![]
    } else if list.last().output == output {
        without_output(list.drop_last(), output)
    } else {
        without_output(list.drop_last(), output).push(list.last())
    }
}

proof fn lemma_without_output(list: Seq<Surface>, output: u32)
    ensures
        !covers(without_output(list, output), output),
        forall|i: int|
            0 <= i < without_output(list, output).len() ==> list.contains(
                #[trigger] without_output(list, output)[i],
            ),
        forall|i: int|
            0 <= i < list.len() && (#[trigger] list[i]).output != output ==> without_output(
                list,
                output,
            ).contains(list[i]),
    decreases list.len(),
{
    if list.len() > 0 {
        let head = list.drop_last();
        lemma_without_output(head, output);
        let out = without_output(list, output);
        let w = without_output(head, output);
        assert forall|i: int| 0 <= i < out.len() implies list.contains(#[trigger] out[i])
            && out[i].output != output by {
            if i < w.len() {
                assert(out[i] == w[i]);
                assert(head.contains(w[i]));
                let k = choose|k: int| 0 <= k < head.len() && head[k] == w[i];
                assert(list[k] == w[i]);
                if w[i].output == output {
                    assert(covers(w, output));
                }
            } else {
                assert(list[list.len() - 1] == out[i]);
            }
        }
        assert forall|i: int|
            0 <= i < list.len() && (#[trigger] list[i]).output != output implies out.contains(
            list[i],
        ) by {
            if i < head.len() {
                assert(head[i] == list[i]);
                assert(w.contains(head[i]));
                let k = choose|k: int| 0 <= k < w.len() && w[k] == head[i];
                assert(out[k] == list[i]);
            } else {
                assert(out[out.len() - 1] == list[i]);
            }
        }
    }
}

/// Once an output is gone nothing covers it, and all others are still covered.
pub proof fn law_gone_output_is_not_covered(list: Seq<Surface>, output: u32, other: u32)
    requires
        output != other,
    ensures
        !covers(without_output(list, output), output),
        covers(without_output(list, output), other) == covers(list, other),
{
    lemma_without_output(list, output);
    let w = without_output(list, output);
    if covers(list, other) {
        let i = choose|i: int| 0 <= i < list.len() && (#[trigger] list[i]).output == other;
        assert(w.contains(list[i]));
        let k = choose|k: int| 0 <= k < w.len() && w[k] == list[i];
        assert(w[k].output == other);
    }
    if covers(w, other) {
        let i = choose|i: int| 0 <= i < w.len() && (#[trigger] w[i]).output == other;
        assert(list.contains(w[i]));
        let k = choose|k: int| 0 <= k < list.len() && list[k] == w[i];
        assert(list[k].output == other);
    }
}

impl Surfaces {
    /// No output is covered twice.
    pub open spec fn wf(self) -> bool {
        forall|i: int, j: int|
            0 <= i < j < self.list@.len() ==> (#[trigger] self.list@[i]).output != (
            #[trigger] self.list@[j]).output
    }

    /// There are none yet.
    pub fn new() -> (r: Surfaces)
        ensures
            r.wf(),
            r.list@.len() == 0,
    {
        Surfaces { list: Vec::new() }
    }

    /// Whether a surface has to be made for an output that appeared: it is not
    /// covered, and there is a lock to make surfaces for.
    pub fn new_output(&self, output: u32, locked: bool) -> (r: bool)
        ensures
            r == (locked && !covers(self.list@, output)),
    {
        for i in 0..self.list.len()
            invariant
                forall|j: int| 0 <= j < i ==> (#[trigger] self.list@[j]).output != output,
        {
            if self.list[i].output == output {
                return false;
            }
        }
        locked
    }

    /// A surface was made for an output that is not covered.
    pub fn add(&mut self, id: u32, output: u32)
        requires
            old(self).wf(),
            !covers(old(self).list@, output),
        ensures
            final(self).wf(),
            final(self).list@ == old(self).list@.push(
                Surface { id, output, width: 0, height: 0, scale: 1 },
            ),
    {
        self.list.push(Surface { id, output, width: 0, height: 0, scale: 1 });
    }

    /// An output went away, and its surface with it.
    pub fn output_destroyed(&mut self, output: u32)
        requires
            old(self).wf(),
        ensures
            final(self).wf(),
            final(self).list@ == without_output(old(self).list@, output),
    {
        let ghost all = self.list@;
        let mut kept: Vec<Surface> = Vec::new();
        for i in 0..self.list.len()
            invariant
                self.list@ == all,
                kept@ == without_output(all.take(i as int), output),
                forall|a: int, b: int|
                    0 <= a < b < all.len() ==> (#[trigger] all[a]).output != (
                    #[trigger] all[b]).output,
                forall|a: int, b: int|
                    0 <= a < b < kept@.len() ==> (#[trigger] kept@[a]).output != (
                    #[trigger] kept@[b]).output,
        {
            let s = self.list[i];
            proof {
                assert(all.take(i + 1).drop_last() =~= all.take(i as int));
                lemma_without_output(all.take(i as int), output);
                assert forall|a: int| 0 <= a < kept@.len() implies (#[trigger] kept@[a]).output
                    != s.output by {
                    assert(all.take(i as int).contains(kept@[a]));
                    let k = choose|k: int|
                        0 <= k < all.take(i as int).len() && all.take(i as int)[k] == kept@[a];
                    assert(all[k] == kept@[a]);
                    assert(all[i as int] == s);
                }
            }
            if s.output != output {
                kept.push(s);
            }
        }
        assert(all.take(all.len() as int) =~= all);
        self.list = kept;
    }

    fn find(&self, id: u32) -> (r: Option<usize>)
        ensures
            r is Some <==> place(self.list@, id) < self.list@.len(),
            r matches Some(i) ==> i == place(self.list@, id) && i < self.list@.len(),
    {
        let mut i: usize = 0;
        assert(self.list@.skip(0) =~= self.list@);
        while i < self.list.len()
            invariant
                i <= self.list@.len(),
                place(self.list@, id) == i + place(self.list@.skip(i as int), id),
            decreases self.list@.len() - i,
        {
            if self.list[i].id == id {
                return Some(i);
            }
            assert(self.list@.skip(i as int).skip(1) =~= self.list@.skip(i + 1));
            i += 1;
        }
        None
    }

    /// The compositor gave a surface its size. Returned is the size of its
    /// buffer; a surface that is not known keeps the size as it came, and has no
    /// scale to be told of.
    pub fn configure(&mut self, id: u32, width: u32, height: u32) -> (r: BufferSize)
        requires
            old(self).wf(),
        ensures
            final(self).wf(),
            ({
                let all = old(self).list@;
                let i = place(all, id);
                if i < all.len() {
                    let s = Surface { width, height, ..all[i] };
                    &&& final(self).list@ == all.update(i, s)
                    &&& r.width == side(width, s.scale)
                    &&& r.height == side(height, s.scale)
                    &&& r.scale == (if s.scale >= 1 {
                        s.scale
                    } else {
                        1
                    })
                } else {
                    &&& final(self).list@ == all
                    &&& r == BufferSize { width, height, scale: 1 }
                }
            }),
    {
        match self.find(id) {
            Some(i) => {
                let mut s = self.list[i];
                s.width = width;
                s.height = height;
                self.list.set(i, s);
                BufferSize {
                    width: buffer_side(width, s.scale),
                    height: buffer_side(height, s.scale),
                    scale: if s.scale >= 1 {
                        s.scale
                    } else {
                        1
                    },
                }
            },
            None => BufferSize { width, height, scale: 1 },
        }
    }

    /// The compositor gave a surface another scale; one below one counts as
    /// one. Returned is the size of its buffer, none for a surface that is not
    /// known.
    pub fn scale_factor_changed(&mut self, id: u32, factor: i32) -> (r: Option<BufferSize>)
        requires
            old(self).wf(),
        ensures
            final(self).wf(),
            ({
                let all = old(self).list@;
                let i = place(all, id);
                let scale = if factor >= 1 {
                    factor
                } else {
                    1i32
                };
                if i < all.len() {
                    &&& final(self).list@ == all.update(i, Surface { scale, ..all[i] })
                    &&& r == Some(
                        BufferSize {
                            width: side(all[i].width, scale),
                            height: side(all[i].height, scale),
                            scale,
                        },
                    )
                } else {
                    &&& final(self).list@ == all
                    &&& r is None
                }
            }),
    {
        let scale: i32 = if factor >= 1 {
            factor
        } else {
            1
        };
        match self.find(id) {
            Some(i) => {
                let mut s = self.list[i];
                s.scale = scale;
                self.list.set(i, s);
                Some(
                    BufferSize {
                        width: buffer_side(s.width, scale),
                        height: buffer_side(s.height, scale),
                        scale,
                    },
                )
            },
            None => None,
        }
    }

    /// The surfaces to draw, each with the size of its buffer.
    pub fn redraw_all(&self) -> (r: Vec<(u32, u32, u32)>)
        ensures
            r@.len() == self.list@.len(),
            forall|i: int|
                0 <= i < r@.len() ==> #[trigger] r@[i] == (
                    self.list@[i].id,
                    side(self.list@[i].width, self.list@[i].scale),
                    side(self.list@[i].height, self.list@[i].scale),
                ),
    {
        let mut r: Vec<(u32, u32, u32)> = Vec::new();
        for i in 0..self.list.len()
            invariant
                r@.len() == i,
                forall|j: int|
                    0 <= j < i ==> #[trigger] r@[j] == (
                        self.list@[j].id,
                        side(self.list@[j].width, self.list@[j].scale),
                        side(self.list@[j].height, self.list@[j].scale),
                    ),
        {
            let s = self.list[i];
            r.push((s.id, buffer_side(s.width, s.scale), buffer_side(s.height, s.scale)));
        }
        r
    }
}

/// A side of the buffer is the surface's side times the scale, and no longer
/// than can be told; a scale below one counts as one.
pub proof fn law_buffer_follows_the_scale(length: u32, scale: i32)
    ensures
        scale >= 1 && length * scale <= u32::MAX ==> side(length, scale) == length * scale,
        scale >= 1 && length * scale > u32::MAX ==> side(length, scale) == u32::MAX,
        scale <= 1 ==> side(length, scale) == length,
{
}

/// The place is that of the first surface with the number; where none has it,
/// there is none.
pub proof fn law_first_surface_is_found(list: Seq<Surface>, id: u32, i: int)
    requires
        0 <= i < list.len(),
    ensures
        list[i].id == id && (forall|j: int| 0 <= j < i ==> (#[trigger] list[j]).id != id) ==> place(
            list,
            id,
        ) == i,
        (forall|j: int| 0 <= j < list.len() ==> (#[trigger] list[j]).id != id) ==> place(list, id)
            == list.len(),
    decreases list.len(),
{
    let rest = list.skip(1);
    if list[0].id != id && rest.len() > 0 {
        let k = if i > 0 {
            i - 1
        } else {
            0
        };
        law_first_surface_is_found(rest, id, k);
        assert(forall|j: int| 0 <= j < rest.len() ==> #[trigger] rest[j] == list[j + 1]);
        assert(forall|j: int| 0 < j < list.len() ==> #[trigger] list[j] == rest[j - 1]);
    }
    if list[0].id != id && rest.len() == 0 {
        assert(place(rest, id) == 0);
    }
}

/// The surfaces of an output that goes away go, and those of the others stay as
/// they are, in their order.
pub proof fn law_other_surfaces_stay(list: Seq<Surface>, s: Surface, output: u32)
    ensures
        without_output(seq![], output).len() == 0,
        s.output == output ==> without_output(list.push(s), output) == without_output(list, output),
        s.output != output ==> without_output(list.push(s), output) == without_output(
            list,
            output,
        ).push(s),
{
    assert(list.push(s).drop_last() =~= list);
}

} // verus!
