//! The pipeline driver: applies the hooks of a list of passes to the atoms of
//! a map, stage by stage, and gives what is left to draw, in order.

use vstd::prelude::*;
use crate::minimap::{Atom, AtomView, Sprite};
use crate::objtree::{ObjectTree, TypeDef};
use crate::render_passes::{atom_views, HideSpace, RenderPass};

verus! {

/// The sprite that an atom has before any pass adjusts it.
pub open spec fn initial_sprite() -> Sprite {
    Sprite { plane: 0, layer: 0 }
}

/// What a list of drawn atoms holds: the view of each atom, and its sprite.
pub open spec fn drawn_views(items: Seq<(Atom, Sprite)>) -> Seq<(AtomView, Sprite)> {
    items.map_values(|p: (Atom, Sprite)| (p.0@, p.1))
}

/// Whether every pass keeps the type at `path`.
pub open spec fn all_keep_path<P: RenderPass>(passes: Seq<P>, path: Seq<char>) -> bool {
    forall|i: int| 0 <= i < passes.len() ==> (#[trigger] passes[i]).keeps_path(path)
}

/// Whether every pass keeps `atom` at the beginning of the process.
pub open spec fn all_keep_early<P: RenderPass>(
    passes: Seq<P>,
    atom: AtomView,
    types: Seq<TypeDef>,
) -> bool {
    forall|i: int| 0 <= i < passes.len() ==> (#[trigger] passes[i]).keeps_early(atom, types)
}

/// Whether every pass keeps `atom` at the end of the process.
pub open spec fn all_keep_late<P: RenderPass>(
    passes: Seq<P>,
    atom: AtomView,
    types: Seq<TypeDef>,
) -> bool {
    forall|i: int| 0 <= i < passes.len() ==> (#[trigger] passes[i]).keeps_late(atom, types)
}

/// The atoms that take the place of `atom` when the passes from the one at
/// `k` on expand it: what each pass adds, in the order of the passes, up to
/// and with the first pass that consumes `atom`; if none does, `atom` itself
/// comes last.
pub open spec fn expanded_from<P: RenderPass>(
    passes: Seq<P>,
    k: int,
    atom: AtomView,
    types: Seq<TypeDef>,
) -> Seq<AtomView>
    decreases passes.len() - k,
{
    if k < 0 || k >= passes.len() {
        seq![atom]
    } else if passes[k].consumes(atom, types) {
        passes[k].expansion(atom, types)
    } else {
        passes[k].expansion(atom, types) + expanded_from(passes, k + 1, atom, types)
    }
}

/// `atom` after the first `n` passes have adjusted its variables, one after
/// the other.
pub open spec fn vars_adjusted<P: RenderPass>(
    passes: Seq<P>,
    n: int,
    atom: AtomView,
    types: Seq<TypeDef>,
) -> AtomView
    decreases n,
{
    if n <= 0 {
        atom
    } else {
        passes[n - 1].adjusted_vars(vars_adjusted(passes, n - 1, atom, types), types)
    }
}

/// `atom` after the first `n` passes have applied their overlays to it.
pub open spec fn overlaid_by<P: RenderPass>(
    passes: Seq<P>,
    n: int,
    atom: AtomView,
    types: Seq<TypeDef>,
) -> AtomView
    decreases n,
{
    if n <= 0 {
        atom
    } else {
        passes[n - 1].overlaid(overlaid_by(passes, n - 1, atom, types), types)
    }
}

/// The pseudo-atoms that the first `n` passes draw beneath `atom`, in the
/// order of the passes.
pub open spec fn underlays_by<P: RenderPass>(
    passes: Seq<P>,
    n: int,
    atom: AtomView,
    types: Seq<TypeDef>,
) -> Seq<AtomView>
    decreases n,
{
    if n <= 0 {
        Seq::empty()
    } else {
        underlays_by(passes, n - 1, atom, types) + passes[n - 1].underlays_of(
            overlaid_by(passes, n - 1, atom, types),
            types,
        )
    }
}

/// The pseudo-atoms that the first `n` passes draw above `atom`, in the order
/// of the passes.
pub open spec fn overlays_by<P: RenderPass>(
    passes: Seq<P>,
    n: int,
    atom: AtomView,
    types: Seq<TypeDef>,
) -> Seq<AtomView>
    decreases n,
{
    if n <= 0 {
        Seq::empty()
    } else {
        overlays_by(passes, n - 1, atom, types) + passes[n - 1].overlays_of(
            overlaid_by(passes, n - 1, atom, types),
            types,
        )
    }
}

/// `sprite` after the first `n` passes have adjusted it for `atom`.
pub open spec fn sprite_adjusted<P: RenderPass>(
    passes: Seq<P>,
    n: int,
    atom: AtomView,
    sprite: Sprite,
    types: Seq<TypeDef>,
) -> Sprite
    decreases n,
{
    if n <= 0 {
        sprite
    } else {
        passes[n - 1].adjusted_sprite(
            atom,
            sprite_adjusted(passes, n - 1, atom, sprite, types),
            types,
        )
    }
}

/// Those of `items` that every pass keeps at the end of the process, in
/// their order, each with `sprite`.
pub open spec fn late_kept<P: RenderPass>(
    passes: Seq<P>,
    items: Seq<AtomView>,
    sprite: Sprite,
    types: Seq<TypeDef>,
) -> Seq<(AtomView, Sprite)>
    decreases items.len(),
{
    if items.len() == 0 {
        Seq::empty()
    } else {
        let before = late_kept(passes, items.drop_last(), sprite, types);
        if all_keep_late(passes, items.last(), types) {
            before.push((items.last(), sprite))
        } else {
            before
        }
    }
}

/// `atom` as the passes leave it before the last filter: with its variables
/// adjusted and the overlays applied.
pub open spec fn finished<P: RenderPass>(passes: Seq<P>, atom: AtomView, types: Seq<TypeDef>) -> AtomView {
    overlaid_by(passes, passes.len() as int, vars_adjusted(passes, passes.len() as int, atom, types), types)
}

/// `atom` with the pseudo-atoms around it: its underlays, the atom as the
/// passes leave it, then its overlays.
pub open spec fn layered<P: RenderPass>(passes: Seq<P>, atom: AtomView, types: Seq<TypeDef>) -> Seq<
    AtomView,
> {
    let adjusted = vars_adjusted(passes, passes.len() as int, atom, types);
    underlays_by(passes, passes.len() as int, adjusted, types).push(
        finished(passes, atom, types),
    ) + overlays_by(passes, passes.len() as int, adjusted, types)
}

/// What is drawn for an atom that has passed the expansion: the atom with
/// its underlays before it and its overlays after it, as far as the last
/// filter keeps them. All of them carry the sprite of the atom, adjusted by
/// every pass from the initial sprite; the pseudo-atoms pass through no
/// stage but the last filter.
pub open spec fn drawn<P: RenderPass>(passes: Seq<P>, atom: AtomView, types: Seq<TypeDef>) -> Seq<
    (AtomView, Sprite),
> {
    late_kept(
        passes,
        layered(passes, atom, types),
        sprite_adjusted(
            passes,
            passes.len() as int,
            finished(passes, atom, types),
            initial_sprite(),
            types,
        ),
        types,
    )
}

/// What is drawn for each of `atoms` in turn.
pub open spec fn drawn_all<P: RenderPass>(
    passes: Seq<P>,
    atoms: Seq<AtomView>,
    types: Seq<TypeDef>,
) -> Seq<(AtomView, Sprite)>
    decreases atoms.len(),
{
    if atoms.len() == 0 {
        Seq::empty()
    } else {
        drawn_all(passes, atoms.drop_last(), types) + drawn(passes, atoms.last(), types)
    }
}

/// What is drawn for one atom of the map: nothing if a pass rejects its path
/// or the atom at the beginning; else what is drawn for the atoms it expands to.
pub open spec fn rendered_atom<P: RenderPass>(
    passes: Seq<P>,
    atom: AtomView,
    types: Seq<TypeDef>,
) -> Seq<(AtomView, Sprite)> {
    if all_keep_path(passes, atom.path) && all_keep_early(passes, atom, types) {
        drawn_all(passes, expanded_from(passes, 0, atom, types), types)
    } else {
        Seq::empty()
    }
}

/// What is drawn for the atoms of a map, in their order.
pub open spec fn rendered<P: RenderPass>(
    passes: Seq<P>,
    atoms: Seq<AtomView>,
    types: Seq<TypeDef>,
) -> Seq<(AtomView, Sprite)>
    decreases atoms.len(),
{
    if atoms.len() == 0 {
        Seq::empty()
    } else {
        rendered(passes, atoms.drop_last(), types) + rendered_atom(passes, atoms.last(), types)
    }
}

/// Whether every pass keeps the type at `path`.
pub fn keep_path<P: RenderPass>(passes: &Vec<P>, path: &str) -> (keep: bool)
    ensures
        keep == all_keep_path(passes@, path@),
{
    let mut i: usize = 0;
    while i < passes.len()
        invariant
            i <= passes.len(),
            forall|j: int| 0 <= j < i ==> (#[trigger] passes@[j]).keeps_path(path@),
        decreases passes.len() - i,
    {
        if !passes[i].path_filter(path) {
            return false;
        }
        i += 1;
    }
    true
}

/// Whether every pass keeps `atom` at the beginning of the process.
pub fn keep_early<P: RenderPass>(passes: &Vec<P>, atom: &Atom, objtree: &ObjectTree) -> (keep: bool)
    ensures
        keep == all_keep_early(passes@, atom@, objtree.types@),
{
    let mut i: usize = 0;
    while i < passes.len()
        invariant
            i <= passes.len(),
            forall|j: int|
                0 <= j < i ==> (#[trigger] passes@[j]).keeps_early(atom@, objtree.types@),
        decreases passes.len() - i,
    {
        if !passes[i].early_filter(atom, objtree) {
            return false;
        }
        i += 1;
    }
    true
}

/// Whether every pass keeps `atom` at the end of the process.
pub fn keep_late<P: RenderPass>(passes: &Vec<P>, atom: &Atom, objtree: &ObjectTree) -> (keep: bool)
    ensures
        keep == all_keep_late(passes@, atom@, objtree.types@),
{
    let mut i: usize = 0;
    while i < passes.len()
        invariant
            i <= passes.len(),
            forall|j: int|
                0 <= j < i ==> (#[trigger] passes@[j]).keeps_late(atom@, objtree.types@),
        decreases passes.len() - i,
    {
        if !passes[i].late_filter(atom, objtree) {
            return false;
        }
        i += 1;
    }
    true
}

/// The atoms that take the place of `atom` when the passes expand it.
pub fn expand_atom<P: RenderPass>(passes: &Vec<P>, atom: &Atom, objtree: &ObjectTree) -> (out: Vec<
    Atom,
>)
    ensures
        atom_views(out@) == expanded_from(passes@, 0, atom@, objtree.types@),
{
    let mut out: Vec<Atom> = Vec::new();
    let mut i: usize = 0;
    assert(atom_views(out@) + expanded_from(passes@, 0, atom@, objtree.types@) =~= expanded_from(
        passes@,
        0,
        atom@,
        objtree.types@,
    ));
    while i < passes.len()
        invariant
            i <= passes.len(),
            atom_views(out@) + expanded_from(passes@, i as int, atom@, objtree.types@)
                == expanded_from(passes@, 0, atom@, objtree.types@),
        decreases passes.len() - i,
    {
        let ghost before = atom_views(out@);
        let ghost added = passes@[i as int].expansion(atom@, objtree.types@);
        let ghost rest = expanded_from(passes@, i + 1, atom@, objtree.types@);
        let consumed = passes[i].expand(atom, objtree, &mut out);
        if consumed {
            return out;
        }
        assert((before + added) + rest =~= before + (added + rest));
        i += 1;
    }
    let copy = atom.clone();
    proof {
        assert(atom_views(out@.push(copy)) =~= atom_views(out@) + seq![atom@]);
    }
    out.push(copy);
    out
}

/// Lets every pass adjust the variables of `atom`, one after the other.
pub fn adjust_atom<P: RenderPass>(passes: &Vec<P>, atom: &mut Atom, objtree: &ObjectTree)
    ensures
        final(atom)@ == vars_adjusted(passes@, passes@.len() as int, old(atom)@, objtree.types@),
{
    let mut i: usize = 0;
    while i < passes.len()
        invariant
            i <= passes.len(),
            atom@ == vars_adjusted(passes@, i as int, old(atom)@, objtree.types@),
        decreases passes.len() - i,
    {
        passes[i].adjust_vars(atom, objtree);
        i += 1;
    }
}

/// Lets every pass apply its overlays to `atom`, one after the other, and
/// gives the underlays and the overlays.
pub fn overlay_atom<P: RenderPass>(passes: &Vec<P>, atom: &mut Atom, objtree: &ObjectTree) -> (r: (
    Vec<Atom>,
    Vec<Atom>,
))
    ensures
        final(atom)@ == overlaid_by(passes@, passes@.len() as int, old(atom)@, objtree.types@),
        atom_views(r.0@) == underlays_by(
            passes@,
            passes@.len() as int,
            old(atom)@,
            objtree.types@,
        ),
        atom_views(r.1@) == overlays_by(passes@, passes@.len() as int, old(atom)@, objtree.types@),
{
    let mut underlays: Vec<Atom> = Vec::new();
    let mut overlays: Vec<Atom> = Vec::new();
    let mut i: usize = 0;
    assert(atom_views(underlays@) =~= Seq::<AtomView>::empty());
    assert(atom_views(overlays@) =~= Seq::<AtomView>::empty());
    while i < passes.len()
        invariant
            i <= passes.len(),
            atom@ == overlaid_by(passes@, i as int, old(atom)@, objtree.types@),
            atom_views(underlays@) == underlays_by(passes@, i as int, old(atom)@, objtree.types@),
            atom_views(overlays@) == overlays_by(passes@, i as int, old(atom)@, objtree.types@),
        decreases passes.len() - i,
    {
        passes[i].overlays(atom, objtree, &mut underlays, &mut overlays);
        i += 1;
    }
    (underlays, overlays)
}

/// The sprite of `atom`: the initial sprite, adjusted by every pass, one
/// after the other.
pub fn sprite_for<P: RenderPass>(passes: &Vec<P>, atom: &Atom, objtree: &ObjectTree) -> (sprite:
    Sprite)
    ensures
        sprite == sprite_adjusted(
            passes@,
            passes@.len() as int,
            atom@,
            initial_sprite(),
            objtree.types@,
        ),
{
    let mut sprite = Sprite { plane: 0, layer: 0 };
    let mut i: usize = 0;
    while i < passes.len()
        invariant
            i <= passes.len(),
            sprite == sprite_adjusted(passes@, i as int, atom@, initial_sprite(), objtree.types@),
        decreases passes.len() - i,
    {
        passes[i].adjust_sprite(atom, &mut sprite, objtree);
        i += 1;
    }
    sprite
}

/// Adds to `out` those of `items` that every pass keeps at the end of the
/// process, each with `sprite`.
fn add_kept<P: RenderPass>(
    passes: &Vec<P>,
    items: &Vec<Atom>,
    sprite: Sprite,
    objtree: &ObjectTree,
    out: &mut Vec<(Atom, Sprite)>,
)
    ensures
        drawn_views(final(out)@) == drawn_views(old(out)@) + late_kept(
            passes@,
            atom_views(items@),
            sprite,
            objtree.types@,
        ),
{
    let mut i: usize = 0;
    let ghost all = atom_views(items@);
    assert(all.subrange(0, 0) =~= Seq::<AtomView>::empty());
    assert(drawn_views(out@) + Seq::<(AtomView, Sprite)>::empty() =~= drawn_views(out@));
    while i < items.len()
        invariant
            i <= items.len(),
            all == atom_views(items@),
            drawn_views(out@) == drawn_views(old(out)@) + late_kept(
                passes@,
                all.subrange(0, i as int),
                sprite,
                objtree.types@,
            ),
        decreases items.len() - i,
    {
        let ghost upto = all.subrange(0, i + 1);
        assert(upto.drop_last() =~= all.subrange(0, i as int));
        assert(upto.last() == items@[i as int]@);
        if keep_late(passes, &items[i], objtree) {
            let copy = items[i].clone();
            proof {
                let kept = late_kept(passes@, all.subrange(0, i as int), sprite, objtree.types@);
                assert(drawn_views(out@.push((copy, sprite))) =~= drawn_views(out@).push(
                    (copy@, sprite),
                ));
                assert((drawn_views(old(out)@) + kept).push((copy@, sprite)) =~= drawn_views(
                    old(out)@,
                ) + kept.push((copy@, sprite)));
            }
            out.push((copy, sprite));
        }
        i += 1;
    }
    assert(all.subrange(0, i as int) =~= all);
}

/// Adds to `out` what is drawn for `atom`, which has passed the expansion.
pub fn draw_atom<P: RenderPass>(
    passes: &Vec<P>,
    atom: &Atom,
    objtree: &ObjectTree,
    out: &mut Vec<(Atom, Sprite)>,
)
    ensures
        drawn_views(final(out)@) == drawn_views(old(out)@) + drawn(
            passes@,
            atom@,
            objtree.types@,
        ),
{
    let mut atom = atom.clone();
    let ghost start = atom@;
    adjust_atom(passes, &mut atom, objtree);
    let ghost adjusted = atom@;
    let (underlays, overlays) = overlay_atom(passes, &mut atom, objtree);
    let sprite = sprite_for(passes, &atom, objtree);
    let mut items = underlays;
    let ghost unders = atom_views(items@);
    proof {
        assert(atom_views(items@.push(atom)) =~= atom_views(items@).push(atom@));
    }
    items.push(atom);
    let mut i: usize = 0;
    assert(overlays@.subrange(0, 0) =~= Seq::<Atom>::empty());
    assert(atom_views(items@) + Seq::<AtomView>::empty() =~= atom_views(items@));
    while i < overlays.len()
        invariant
            i <= overlays.len(),
            atom_views(items@) == unders.push(finished(passes@, start, objtree.types@))
                + atom_views(overlays@.subrange(0, i as int)),
        decreases overlays.len() - i,
    {
        let copy = overlays[i].clone();
        proof {
            let head = unders.push(finished(passes@, start, objtree.types@));
            let done = atom_views(overlays@.subrange(0, i as int));
            assert(atom_views(items@.push(copy)) =~= atom_views(items@).push(copy@));
            assert(atom_views(overlays@.subrange(0, i + 1)) =~= done.push(copy@));
            assert((head + done).push(copy@) =~= head + done.push(copy@));
        }
        items.push(copy);
        i += 1;
    }
    assert(overlays@.subrange(0, i as int) =~= overlays@);
    add_kept(passes, &items, sprite, objtree, out);
}

/// What is drawn for one atom of the map, added to `out`.
pub fn render_atom<P: RenderPass>(
    passes: &Vec<P>,
    atom: &Atom,
    objtree: &ObjectTree,
    out: &mut Vec<(Atom, Sprite)>,
)
    ensures
        drawn_views(final(out)@) == drawn_views(old(out)@) + rendered_atom(
            passes@,
            atom@,
            objtree.types@,
        ),
{
    if !keep_path(passes, atom.get_path()) || !keep_early(passes, atom, objtree) {
        assert(drawn_views(out@) + Seq::<(AtomView, Sprite)>::empty() =~= drawn_views(out@));
        return ;
    }
    let expanded = expand_atom(passes, atom, objtree);
    let ghost all = atom_views(expanded@);
    let mut i: usize = 0;
    assert(all.subrange(0, 0) =~= Seq::<AtomView>::empty());
    assert(drawn_views(out@) + Seq::<(AtomView, Sprite)>::empty() =~= drawn_views(out@));
    while i < expanded.len()
        invariant
            i <= expanded.len(),
            all == atom_views(expanded@),
            drawn_views(out@) == drawn_views(old(out)@) + drawn_all(
                passes@,
                all.subrange(0, i as int),
                objtree.types@,
            ),
        decreases expanded.len() - i,
    {
        let ghost upto = all.subrange(0, i + 1);
        let ghost before = drawn_all(passes@, all.subrange(0, i as int), objtree.types@);
        let ghost here = drawn(passes@, expanded@[i as int]@, objtree.types@);
        assert(upto.drop_last() =~= all.subrange(0, i as int));
        assert(upto.last() == expanded@[i as int]@);
        draw_atom(passes, &expanded[i], objtree, out);
        assert((drawn_views(old(out)@) + before) + here =~= drawn_views(old(out)@) + (before
            + here));
        i += 1;
    }
    assert(all.subrange(0, i as int) =~= all);
}

/// Runs the passes over the atoms of a map and gives what is drawn: for each
/// atom in turn, what the stages leave of it, each atom with its sprite.
pub fn render<P: RenderPass>(passes: &Vec<P>, atoms: &Vec<Atom>, objtree: &ObjectTree) -> (out: Vec<
    (Atom, Sprite),
>)
    ensures
        drawn_views(out@) == rendered(passes@, atom_views(atoms@), objtree.types@),
{
    let mut out: Vec<(Atom, Sprite)> = Vec::new();
    let ghost all = atom_views(atoms@);
    let mut i: usize = 0;
    assert(all.subrange(0, 0) =~= Seq::<AtomView>::empty());
    assert(drawn_views(out@) =~= Seq::<(AtomView, Sprite)>::empty());
    while i < atoms.len()
        invariant
            i <= atoms.len(),
            all == atom_views(atoms@),
            drawn_views(out@) == rendered(passes@, all.subrange(0, i as int), objtree.types@),
        decreases atoms.len() - i,
    {
        let ghost upto = all.subrange(0, i + 1);
        assert(upto.drop_last() =~= all.subrange(0, i as int));
        assert(upto.last() == atoms@[i as int]@);
        render_atom(passes, &atoms[i], objtree, &mut out);
        i += 1;
    }
    assert(all.subrange(0, i as int) =~= all);
    out
}

/// With no pass at all, every atom is drawn as it is, with the initial sprite.
pub proof fn lemma_no_passes<P: RenderPass>(atom: AtomView, types: Seq<TypeDef>)
    ensures
        rendered_atom(Seq::<P>::empty(), atom, types) == seq![(atom, initial_sprite())],
{
    let passes = Seq::<P>::empty();
    reveal_with_fuel(drawn_all, 2);
    reveal_with_fuel(late_kept, 2);
    assert(expanded_from(passes, 0, atom, types) == seq![atom]);
    assert(seq![atom].drop_last() =~= Seq::<AtomView>::empty());
    assert(layered(passes, atom, types) =~= seq![atom]);
    assert(drawn(passes, atom, types) =~= seq![(atom, initial_sprite())]);
    assert(drawn_all(passes, seq![atom], types) =~= seq![(atom, initial_sprite())]);
}

/// The pass that hides space turns a placeholder turf into one space turf at
/// the same place, which takes the place of the placeholder; and as the pass
/// then discards space turfs, nothing is drawn for the placeholder.
pub proof fn lemma_hide_space_placeholder(atom: AtomView, types: Seq<TypeDef>)
    requires
        atom.istype("/turf/template_noop/"@),
    ensures
        expanded_from(seq![HideSpace], 0, atom, types) == seq![
            (AtomView { path: "/turf/open/space"@, vars: Map::empty(), loc: atom.loc }),
        ],
        rendered_atom(seq![HideSpace], atom, types) == Seq::<(AtomView, Sprite)>::empty(),
{
    let passes = seq![HideSpace];
    let space = AtomView { path: "/turf/open/space"@, vars: Map::empty(), loc: atom.loc };
    reveal_strlit("/turf/open/space");
    reveal_strlit("/turf/open/space/");
    assert(crate::text::trim_slash("/turf/open/space/"@) =~= "/turf/open/space"@);
    assert(space.istype("/turf/open/space/"@));
    assert(expanded_from(passes, 0, atom, types) == seq![space]);
    reveal_with_fuel(vars_adjusted, 2);
    reveal_with_fuel(overlaid_by, 2);
    reveal_with_fuel(underlays_by, 2);
    reveal_with_fuel(overlays_by, 2);
    reveal_with_fuel(late_kept, 2);
    reveal_with_fuel(drawn_all, 2);
    assert(finished(passes, space, types) == space);
    assert(layered(passes, space, types) =~= seq![space]);
    assert(!passes[0].keeps_late(space, types));
    assert(!all_keep_late(passes, space, types));
    assert(seq![space].drop_last() =~= Seq::<AtomView>::empty());
    assert(drawn(passes, space, types) =~= Seq::<(AtomView, Sprite)>::empty());
    assert(seq![space].last() == space);
    assert(drawn_all(passes, seq![space], types) =~= Seq::<(AtomView, Sprite)>::empty());
}

} // verus!
