//! The palettes of the outputs, kept until they change.

use crate::text;
use vstd::prelude::*;

verus! {

/// The palettes that were read, by the names of their outputs.
#[derive(Debug)]
pub struct PaletteCache<P> {
    pub entries: Vec<(String, P)>,
}

/// Where the palette of an output comes from.
#[derive(Debug, Clone, Copy, PartialEq, Eq, Structural)]
pub enum PaletteSource {
    /// The one for all outputs.
    Global,
    /// The one at this place of the cache.
    Cached(usize),
    /// It has to be read, and then kept.
    ReadAndKeep,
    /// It has to be read each time: nobody would tell when it changes.
    Read,
}

/// The place of the palette of that output, or the number of palettes where
/// there is none.
pub open spec fn slot<P>(entries: Seq<(String, P)>, name: Seq<char>) -> int
    decreases entries.len(),
{
    if entries.len() == 0 || entries[0].0@ == name {
        0
    } else {
        1 + slot(entries.skip(1), name)
    }
}

impl<P> PaletteCache<P> {
    /// No output has two palettes.
    pub open spec fn wf(self) -> bool {
        forall|i: int, j: int|
            0 <= i < j < self.entries@.len() ==> (#[trigger] self.entries@[i]).0@ != (
            #[trigger] self.entries@[j]).0@
    }

    /// Nothing was read yet.
    pub fn new() -> (r: PaletteCache<P>)
        ensures
            r.wf(),
            r.entries@.len() == 0,
    {
        PaletteCache { entries: Vec::new() }
    }

    /// Where the palette of an output comes from, by its name where it has one.
    /// `watched` tells whether changes of the palettes are noticed.
    pub fn palette_for(&self, name: Option<&str>, watched: bool) -> (r: PaletteSource)
        ensures
            r == (match name {
                None => PaletteSource::Global,
                Some(n) => if !watched {
                    PaletteSource::Read
                } else if slot(self.entries@, n@) < self.entries@.len() {
                    PaletteSource::Cached(slot(self.entries@, n@) as usize)
                } else {
                    PaletteSource::ReadAndKeep
                },
            }),
            r matches PaletteSource::Cached(i) ==> i < self.entries@.len()
                && self.entries@[i as int].0@ == name->0@,
    {
        let wanted = match name {
            Some(n) => n,
            None => {
                return PaletteSource::Global;
            },
        };
        if !watched {
            return PaletteSource::Read;
        }
        let mut i: usize = 0;
        assert(self.entries@.skip(0) =~= self.entries@);
        while i < self.entries.len()
            invariant
                i <= self.entries@.len(),
                slot(self.entries@, wanted@) == i + slot(self.entries@.skip(i as int), wanted@),
                name == Some(wanted),
                watched,
            decreases self.entries@.len() - i,
        {
            assert(self.entries@.skip(i as int)[0] == self.entries@[i as int]);
            if text::same(self.entries[i].0.as_str(), wanted) {
                return PaletteSource::Cached(i);
            }
            assert(self.entries@.skip(i as int).skip(1) =~= self.entries@.skip(i + 1));
            i += 1;
        }
        PaletteSource::ReadAndKeep
    }

    /// Keeps the palette of an output that none is kept of.
    pub fn keep(&mut self, name: String, palette: P)
        requires
            old(self).wf(),
            slot(old(self).entries@, name@) == old(self).entries@.len(),
        ensures
            final(self).wf(),
            final(self).entries@ == old(self).entries@.push((name, palette)),
    {
        proof {
            lemma_slot(self.entries@, name@);
        }
        self.entries.push((name, palette));
    }

    /// Forgets every palette, so that each is read again.
    pub fn invalidate(&mut self)
        ensures
            final(self).wf(),
            final(self).entries@.len() == 0,
    {
        self.entries = Vec::new();
    }
}

proof fn lemma_slot<P>(entries: Seq<(String, P)>, name: Seq<char>)
    ensures
        0 <= slot(entries, name) <= entries.len(),
        slot(entries, name) < entries.len() ==> entries[slot(entries, name)].0@ == name,
        forall|i: int| 0 <= i < slot(entries, name) ==> (#[trigger] entries[i]).0@ != name,
    decreases entries.len(),
{
    if entries.len() > 0 && entries[0].0@ != name {
        let rest = entries.skip(1);
        lemma_slot(rest, name);
        assert forall|i: int| 0 <= i < slot(entries, name) implies (#[trigger] entries[i]).0@
            != name by {
            if i > 0 {
                assert(rest[i - 1] == entries[i]);
            }
        }
        if slot(rest, name) < rest.len() {
            assert(rest[slot(rest, name)] == entries[slot(entries, name)]);
        }
    }
}

/// A palette that is kept is found, and those that were kept before still are.
pub proof fn law_kept_palette_is_found<P>(
    entries: Seq<(String, P)>,
    name: String,
    palette: P,
    other: Seq<char>,
)
    requires
        slot(entries, name@) == entries.len(),
    ensures
        slot(entries.push((name, palette)), name@) == entries.len(),
        slot(entries, other) < entries.len() ==> slot(entries.push((name, palette)), other) == slot(
            entries,
            other,
        ),
    decreases entries.len(),
{
    let more = entries.push((name, palette));
    if entries.len() > 0 {
        assert(more.skip(1) =~= entries.skip(1).push((name, palette)));
        law_kept_palette_is_found(entries.skip(1), name, palette, other);
    }
}

/// The place is that of the first palette with the name; where none has it,
/// there is none.
pub proof fn law_first_palette_is_found<P>(entries: Seq<(String, P)>, name: Seq<char>, i: int)
    requires
        0 <= i < entries.len(),
    ensures
        entries[i].0@ == name && (forall|j: int| 0 <= j < i ==> (#[trigger] entries[j]).0@ != name)
            ==> slot(entries, name) == i,
        (forall|j: int| 0 <= j < entries.len() ==> (#[trigger] entries[j]).0@ != name) ==> slot(
            entries,
            name,
        ) == entries.len(),
{
    lemma_slot(entries, name);
    let p = slot(entries, name);
    if p < entries.len() {
        assert(entries[p].0@ == name);
    }
}

} // verus!
