//! The palette of the placement tool: the prefabs on offer and the one that
//! is placed on a click.

use vstd::prelude::*;
use crate::ast::Prefab;

verus! {

/// A prefab on the palette, with what the user interface keeps for it.
pub struct PaletteEntry<X> {
    pub fab: Prefab,
    pub extra: X,
}

/// What the user did to one entry of the palette while it was shown.
#[derive(Copy, Clone, PartialEq, Eq, Debug, Structural)]
pub struct EntryInput {
    /// The entry was chosen.
    pub select: bool,
    /// The entry was taken off the palette.
    pub remove: bool,
}

/// The standard placement tool.
pub struct Place<X> {
    pub palette: Vec<PaletteEntry<X>>,
    pub pal_current: usize,
}

/// The input for the entry at `i`; none where the inputs do not reach so far.
pub open spec fn input_at(inputs: Seq<EntryInput>, i: int) -> EntryInput {
    if 0 <= i < inputs.len() {
        inputs[i]
    } else {
        EntryInput { select: false, remove: false }
    }
}

/// The current index after the first `n` entries were shown, each with its
/// input: an entry that is chosen becomes the current one, by the place that
/// it had when the showing began, and for an entry that is removed from
/// before the current one the current index moves down by one.
pub open spec fn current_after(current: int, inputs: Seq<EntryInput>, n: int) -> int
    decreases n,
{
    if n <= 0 {
        current
    } else {
        let i = n - 1;
        let before = current_after(current, inputs, n - 1);
        let chosen = if input_at(inputs, i).select {
            i
        } else {
            before
        };
        if input_at(inputs, i).remove && chosen > i {
            chosen - 1
        } else {
            chosen
        }
    }
}

/// Those of the first `n` entries that are not removed, in their order.
pub open spec fn kept_after<X>(
    palette: Seq<PaletteEntry<X>>,
    inputs: Seq<EntryInput>,
    n: int,
) -> Seq<PaletteEntry<X>>
    decreases n,
{
    if n <= 0 {
        Seq::empty()
    } else if input_at(inputs, n - 1).remove {
        kept_after(palette, inputs, n - 1)
    } else {
        kept_after(palette, inputs, n - 1).push(palette[n - 1])
    }
}

/// The index of the first of the first `n` entries whose prefab equals
/// `prefab`, if there is one.
pub open spec fn first_same<X>(palette: Seq<PaletteEntry<X>>, prefab: Prefab, n: int) -> Option<int>
    decreases n,
{
    if n <= 0 {
        None
    } else {
        match first_same(palette, prefab, n - 1) {
            Some(i) => Some(i),
            None => if palette[n - 1].fab@ == prefab@ {
                Some(n - 1)
            } else {
                None
            },
        }
    }
}

/// Once an equal prefab is found among the first entries, looking at more
/// entries finds the same one.
pub proof fn lemma_first_same_stable<X>(
    palette: Seq<PaletteEntry<X>>,
    prefab: Prefab,
    n: int,
    m: int,
)
    requires
        0 <= n <= m,
        first_same(palette, prefab, n) is Some,
    ensures
        first_same(palette, prefab, m) == first_same(palette, prefab, n),
    decreases m - n,
{
    if n < m {
        lemma_first_same_stable(palette, prefab, n, m - 1);
    }
}

impl<X> Place<X> {
    /// A tool with an empty palette.
    pub fn new() -> (tool: Place<X>)
        ensures
            tool.palette@.len() == 0,
            tool.pal_current == 0,
    {
        Place { palette: Vec::new(), pal_current: 0 }
    }

    /// Takes in what the user did to the entries of the palette while they
    /// were shown, one input for each entry, in order: entries are chosen and
    /// removed as `current_after` and `kept_after` say.
    pub fn settings(&mut self, inputs: &Vec<EntryInput>)
        ensures
            final(self).palette@ == kept_after(
                old(self).palette@,
                inputs@,
                old(self).palette@.len() as int,
            ),
            final(self).pal_current == current_after(
                old(self).pal_current as int,
                inputs@,
                old(self).palette@.len() as int,
            ),
    {
        let ghost start = self.palette@;
        let ghost first = self.pal_current as int;
        let total = self.palette.len();
        let mut kept: Vec<PaletteEntry<X>> = Vec::new();
        let mut rest: Vec<PaletteEntry<X>> = Vec::new();
        // take the entries out, last first, so that they can be moved
        while self.palette.len() > 0
            invariant
                self.palette@.len() + rest@.len() == total,
                total == start.len(),
                self.pal_current == first,
                forall|j: int| 0 <= j < self.palette@.len() ==> self.palette@[j] == start[j],
                forall|j: int|
                    0 <= j < rest@.len() ==> #[trigger] rest@[j] == start[total - 1 - j],
            decreases self.palette@.len(),
        {
            let entry = self.palette.pop().unwrap();
            rest.push(entry);
        }
        let mut i: usize = 0;
        while i < total
            invariant
                i <= total,
                total == start.len(),
                rest@.len() == total - i,
                forall|j: int|
                    0 <= j < rest@.len() ==> #[trigger] rest@[j] == start[total - 1 - j],
                kept@ == kept_after(start, inputs@, i as int),
                self.pal_current == current_after(first, inputs@, i as int),
            decreases total - i,
        {
            let entry = rest.pop().unwrap();
            let input = if i < inputs.len() {
                inputs[i]
            } else {
                EntryInput { select: false, remove: false }
            };
            if input.select {
                self.pal_current = i;
            }
            if input.remove {
                if self.pal_current > i {
                    self.pal_current -= 1;
                }
            } else {
                kept.push(entry);
            }
            i += 1;
        }
        self.palette = kept;
    }

    /// Puts a new entry at the end of the palette and makes it the current one.
    pub fn add(&mut self, fab: Prefab, extra: X)
        ensures
            final(self).palette@ == old(self).palette@.push(PaletteEntry { fab, extra }),
            final(self).pal_current == old(self).palette@.len(),
    {
        self.pal_current = self.palette.len();
        self.palette.push(PaletteEntry { fab, extra });
    }

    /// The prefab that a click places: that of the current entry, if the
    /// current index points at one.
    pub fn click(&self) -> (fab: Option<&Prefab>)
        ensures
            match fab {
                Some(f) => self.pal_current < self.palette@.len() && *f
                    == self.palette@[self.pal_current as int].fab,
                None => self.pal_current >= self.palette@.len(),
            },
    {
        if self.pal_current < self.palette.len() {
            Some(&self.palette[self.pal_current].fab)
        } else {
            None
        }
    }

    /// Makes `prefab` the current one: the first entry with an equal prefab
    /// if there is one, else a new entry at the end of the palette.
    pub fn pick(&mut self, prefab: Prefab, extra: X)
        ensures
            match first_same(old(self).palette@, prefab, old(self).palette@.len() as int) {
                Some(i) => final(self).palette@ == old(self).palette@ && final(self).pal_current
                    == i,
                None => final(self).palette@ == old(self).palette@.push(
                    PaletteEntry { fab: prefab, extra },
                ) && final(self).pal_current == old(self).palette@.len(),
            },
    {
        let mut i: usize = 0;
        while i < self.palette.len()
            invariant
                i <= self.palette@.len(),
                *self == *old(self),
                first_same(self.palette@, prefab, i as int) is None,
            decreases self.palette@.len() - i,
        {
            if self.palette[i].fab.eq(&prefab) {
                proof {
                    lemma_first_same_stable(
                        self.palette@,
                        prefab,
                        i + 1,
                        self.palette@.len() as int,
                    );
                }
                self.pal_current = i;
                return ;
            }
            i += 1;
        }
        self.add(prefab, extra);
    }
}

} // verus!
