//! Render passes: units that filter, expand and adjust the atoms of a map
//! before they are drawn.

use vstd::prelude::*;
use vstd::string::StringExecFns;
use crate::ast::FloatBits;
use crate::constants::{Constant, ConstantView};
use crate::minimap::{Atom, AtomView, Sprite};
use crate::objtree::{ObjectTree, TypeDef};
use crate::text::{contains, has_substring, is_subpath, subpath};

verus! {

/// What a list of atoms holds, one view for each atom.
pub open spec fn atom_views(atoms: Seq<Atom>) -> Seq<AtomView> {
    atoms.map_values(|a: Atom| a@)
}

/// Whether `after` is `before` with atoms added at its end that hold `added`.
pub open spec fn extends_by(before: Seq<Atom>, after: Seq<Atom>, added: Seq<AtomView>) -> bool {
    atom_views(after) == atom_views(before) + added
}

/// Adding nothing leaves a list as it is.
pub proof fn lemma_extends_by_nothing(atoms: Seq<Atom>)
    ensures
        extends_by(atoms, atoms, Seq::empty()),
{
    assert(atom_views(atoms) + Seq::<AtomView>::empty() =~= atom_views(atoms));
}

/// A map rendering pass. Its hooks are applied to each atom in the order in
/// which they stand here, but for `adjust_sprite`, which follows `overlays`.
/// Each hook has a neutral meaning, given here, which a pass keeps for the
/// hooks that it does not need.
pub trait RenderPass {
    /// Whether atoms of the type at `path` are kept.
    open spec fn keeps_path(&self, path: Seq<char>) -> bool {
        true
    }

    /// Whether `atom` is kept at the beginning of the process.
    open spec fn keeps_early(&self, atom: AtomView, types: Seq<TypeDef>) -> bool {
        true
    }

    /// The atoms that `atom` expands to.
    open spec fn expansion(&self, atom: AtomView, types: Seq<TypeDef>) -> Seq<AtomView> {
        Seq::empty()
    }

    /// Whether the expansion takes the place of `atom`.
    open spec fn consumes(&self, atom: AtomView, types: Seq<TypeDef>) -> bool {
        false
    }

    /// `atom` with its variables adjusted.
    open spec fn adjusted_vars(&self, atom: AtomView, types: Seq<TypeDef>) -> AtomView {
        atom
    }

    /// `sprite` as it is adjusted for `atom`.
    open spec fn adjusted_sprite(&self, atom: AtomView, sprite: Sprite, types: Seq<TypeDef>) -> Sprite {
        sprite
    }

    /// `atom` as the `overlays` hook leaves it.
    open spec fn overlaid(&self, atom: AtomView, types: Seq<TypeDef>) -> AtomView {
        atom
    }

    /// The pseudo-atoms drawn beneath `atom`.
    open spec fn underlays_of(&self, atom: AtomView, types: Seq<TypeDef>) -> Seq<AtomView> {
        Seq::empty()
    }

    /// The pseudo-atoms drawn above `atom`.
    open spec fn overlays_of(&self, atom: AtomView, types: Seq<TypeDef>) -> Seq<AtomView> {
        Seq::empty()
    }

    /// Whether `atom` is kept at the end of the process.
    open spec fn keeps_late(&self, atom: AtomView, types: Seq<TypeDef>) -> bool {
        true
    }

    /// Filter atoms based solely on the path of their type.
    fn path_filter(&self, path: &str) -> (keep: bool)
        ensures
            keep == self.keeps_path(path@),
    ;

    /// Filter atoms at the beginning of the process; `false` discards the atom.
    fn early_filter(&self, atom: &Atom, objtree: &ObjectTree) -> (keep: bool)
        ensures
            keep == self.keeps_early(atom@, objtree.types@),
    ;

    /// Expand an atom, such as a spawner into the atoms it spawns, which are
    /// added to `output`; `true` consumes the atom itself.
    fn expand(&self, atom: &Atom, objtree: &ObjectTree, output: &mut Vec<Atom>) -> (consumed: bool)
        ensures
            consumed == self.consumes(atom@, objtree.types@),
            extends_by(old(output)@, final(output)@, self.expansion(atom@, objtree.types@)),
    ;

    /// Adjust the variables of an atom.
    fn adjust_vars(&self, atom: &mut Atom, objtree: &ObjectTree)
        ensures
            final(atom)@ == self.adjusted_vars(old(atom)@, objtree.types@),
    ;

    /// Adjust the sprite that an atom is drawn with.
    fn adjust_sprite(&self, atom: &Atom, sprite: &mut Sprite, objtree: &ObjectTree)
        ensures
            *final(sprite) == self.adjusted_sprite(atom@, *old(sprite), objtree.types@),
    ;

    /// Apply overlays and underlays to an atom, in the form of pseudo-atoms.
    fn overlays(
        &self,
        atom: &mut Atom,
        objtree: &ObjectTree,
        underlays: &mut Vec<Atom>,
        overlays: &mut Vec<Atom>,
    )
        ensures
            final(atom)@ == self.overlaid(old(atom)@, objtree.types@),
            extends_by(
                old(underlays)@,
                final(underlays)@,
                self.underlays_of(old(atom)@, objtree.types@),
            ),
            extends_by(
                old(overlays)@,
                final(overlays)@,
                self.overlays_of(old(atom)@, objtree.types@),
            ),
    ;

    /// Filter atoms at the end of the process, adjusted atoms and
    /// pseudo-atoms alike; `false` discards the atom.
    fn late_filter(&self, atom: &Atom, objtree: &ObjectTree) -> (keep: bool)
        ensures
            keep == self.keeps_late(atom@, objtree.types@),
    ;
}

/// The variable that names the frame of an atom's icon.
pub open spec fn icon_state_var() -> Seq<char> {
    "icon_state"@
}

/// `atom` with the frame of its icon set to `state`.
pub open spec fn with_icon_state(atom: AtomView, state: Seq<char>) -> AtomView {
    atom.with_var(icon_state_var(), ConstantView::String(state))
}

/// `atom` with its icon file set to `icon` and the frame to `state`.
pub open spec fn with_icon(atom: AtomView, icon: Seq<char>, state: Seq<char>) -> AtomView {
    atom.with_var("icon"@, ConstantView::String(icon)).with_var(
        icon_state_var(),
        ConstantView::String(state),
    )
}

/// Adds to `target` a copy of `atom` with the frame of its icon set to `icon`.
fn add_to(target: &mut Vec<Atom>, atom: &Atom, icon: &str)
    ensures
        atom_views(final(target)@) == atom_views(old(target)@).push(with_icon_state(atom@, icon@)),
{
    let mut copy = atom.clone();
    copy.set_var("icon_state", Constant::string(icon));
    proof {
        assert(atom_views(target@.push(copy)) =~= atom_views(target@).push(copy@));
    }
    target.push(copy);
}

/// Adds to `target` a copy of `atom` with its icon file set to `icon` and the
/// frame to `state`.
fn add_with_icon(target: &mut Vec<Atom>, atom: &Atom, icon: &str, state: &str)
    ensures
        atom_views(final(target)@) == atom_views(old(target)@).push(with_icon(atom@, icon@, state@)),
{
    let mut copy = atom.clone();
    copy.set_var("icon", Constant::string(icon));
    copy.set_var("icon_state", Constant::string(state));
    proof {
        assert(atom_views(target@.push(copy)) =~= atom_views(target@).push(copy@));
    }
    target.push(copy);
}

/// Do not render space tiles, instead leaving transparency.
#[derive(Default)]
pub struct HideSpace;

impl RenderPass for HideSpace {
    /// A placeholder turf expands to a space turf in its place.
    open spec fn expansion(&self, atom: AtomView, types: Seq<TypeDef>) -> Seq<AtomView> {
        if atom.istype("/turf/template_noop/"@) {
            seq![(AtomView { path: "/turf/open/space"@, vars: Map::empty(), loc: atom.loc })]
        } else {
            Seq::empty()
        }
    }

    /// The placeholder turf itself is not drawn.
    open spec fn consumes(&self, atom: AtomView, types: Seq<TypeDef>) -> bool {
        atom.istype("/turf/template_noop/"@)
    }

    /// Space turfs are discarded.
    open spec fn keeps_late(&self, atom: AtomView, types: Seq<TypeDef>) -> bool {
        !atom.istype("/turf/open/space/"@)
    }

    fn path_filter(&self, path: &str) -> (keep: bool) {
        true
    }

    fn early_filter(&self, atom: &Atom, objtree: &ObjectTree) -> (keep: bool) {
        true
    }

    fn expand(&self, atom: &Atom, objtree: &ObjectTree, output: &mut Vec<Atom>) -> (consumed: bool) {
        if atom.istype("/turf/template_noop/") {
            let space = Atom::from_type("/turf/open/space", atom.loc);
            proof {
                assert(atom_views(output@.push(space)) =~= atom_views(output@) + seq![space@]);
            }
            output.push(space);
            true
        } else {
            proof {
                lemma_extends_by_nothing(output@);
            }
            false
        }
    }

    fn adjust_vars(&self, atom: &mut Atom, objtree: &ObjectTree) {
    }

    fn adjust_sprite(&self, atom: &Atom, sprite: &mut Sprite, objtree: &ObjectTree) {
    }

    fn overlays(
        &self,
        atom: &mut Atom,
        objtree: &ObjectTree,
        underlays: &mut Vec<Atom>,
        overlays: &mut Vec<Atom>,
    ) {
        proof {
            lemma_extends_by_nothing(underlays@);
            lemma_extends_by_nothing(overlays@);
        }
    }

    fn late_filter(&self, atom: &Atom, objtree: &ObjectTree) -> (keep: bool) {
        !atom.istype("/turf/open/space/")
    }
}

/// Do not render area icons.
#[derive(Default)]
pub struct HideAreas;

impl RenderPass for HideAreas {
    /// Types below the area type are rejected.
    open spec fn keeps_path(&self, path: Seq<char>) -> bool {
        !is_subpath(path, "/area/"@)
    }

    fn path_filter(&self, path: &str) -> (keep: bool) {
        !subpath(path, "/area/")
    }

    fn early_filter(&self, atom: &Atom, objtree: &ObjectTree) -> (keep: bool) {
        true
    }

    fn expand(&self, atom: &Atom, objtree: &ObjectTree, output: &mut Vec<Atom>) -> (consumed: bool) {
        proof {
            lemma_extends_by_nothing(output@);
        }
        false
    }

    fn adjust_vars(&self, atom: &mut Atom, objtree: &ObjectTree) {
    }

    fn adjust_sprite(&self, atom: &Atom, sprite: &mut Sprite, objtree: &ObjectTree) {
    }

    fn overlays(
        &self,
        atom: &mut Atom,
        objtree: &ObjectTree,
        underlays: &mut Vec<Atom>,
        overlays: &mut Vec<Atom>,
    ) {
        proof {
            lemma_extends_by_nothing(underlays@);
            lemma_extends_by_nothing(overlays@);
        }
    }

    fn late_filter(&self, atom: &Atom, objtree: &ObjectTree) -> (keep: bool) {
        true
    }
}

/// The invisibility above which an atom is not shown.
pub const INVISIBILITY_LIMIT: i32 = 60;

/// The bit pattern of the invisibility limit as a floating-point number.
pub const INVISIBILITY_LIMIT_BITS: u32 = 0x4270_0000;

/// Do not render invisible or ephemeral objects such as mapping helpers.
#[derive(Default)]
pub struct HideInvisible;

impl RenderPass for HideInvisible {
    /// Rejected are atoms whose invisibility is above the limit (an undefined
    /// invisibility counts as zero), mapping helpers, and atoms that show the
    /// syndicate balloon without being one.
    open spec fn keeps_early(&self, atom: AtomView, types: Seq<TypeDef>) -> bool {
        &&& !atom.var_is_above(
            types,
            "invisibility"@,
            INVISIBILITY_LIMIT,
            FloatBits { bits: INVISIBILITY_LIMIT_BITS },
        )
        &&& !atom.istype("/obj/effect/mapping_helpers/"@)
        &&& !(atom.var_reads(types, "icon"@, "icons/obj/items_and_weapons.dmi"@) && atom.var_reads(
            types,
            "icon_state"@,
            "syndballoon"@,
        ) && !atom.istype("/obj/item/toy/syndicateballoon/"@))
    }

    fn path_filter(&self, path: &str) -> (keep: bool) {
        true
    }

    fn early_filter(&self, atom: &Atom, objtree: &ObjectTree) -> (keep: bool) {
        // invisible objects and syndicate balloons are not to show
        if atom.var_is_above(
            "invisibility",
            INVISIBILITY_LIMIT,
            FloatBits { bits: INVISIBILITY_LIMIT_BITS },
            objtree,
        ) || atom.istype("/obj/effect/mapping_helpers/") {
            return false;
        }
        if atom.var_reads("icon", "icons/obj/items_and_weapons.dmi", objtree) && atom.var_reads(
            "icon_state",
            "syndballoon",
            objtree,
        ) && !atom.istype("/obj/item/toy/syndicateballoon/") {
            return false;
        }
        true
    }

    fn expand(&self, atom: &Atom, objtree: &ObjectTree, output: &mut Vec<Atom>) -> (consumed: bool) {
        proof {
            lemma_extends_by_nothing(output@);
        }
        false
    }

    fn adjust_vars(&self, atom: &mut Atom, objtree: &ObjectTree) {
    }

    fn adjust_sprite(&self, atom: &Atom, sprite: &mut Sprite, objtree: &ObjectTree) {
    }

    fn overlays(
        &self,
        atom: &mut Atom,
        objtree: &ObjectTree,
        underlays: &mut Vec<Atom>,
        overlays: &mut Vec<Atom>,
    ) {
        proof {
            lemma_extends_by_nothing(underlays@);
            lemma_extends_by_nothing(overlays@);
        }
    }

    fn late_filter(&self, atom: &Atom, objtree: &ObjectTree) -> (keep: bool) {
        true
    }
}

/// Add underlays to fake glass turfs.
#[derive(Default)]
pub struct FakeGlass;

impl RenderPass for FakeGlass {
    /// Beneath a fake glass turf lie a plating and, on it, a grille.
    open spec fn underlays_of(&self, atom: AtomView, types: Seq<TypeDef>) -> Seq<AtomView> {
        if atom.istype("/turf/closed/indestructible/fakeglass/"@) {
            seq![
                with_icon(atom, "icons/turf/floors.dmi"@, "plating"@),
                with_icon(atom, "icons/obj/structures.dmi"@, "grille"@),
            ]
        } else {
            Seq::empty()
        }
    }

    fn path_filter(&self, path: &str) -> (keep: bool) {
        true
    }

    fn early_filter(&self, atom: &Atom, objtree: &ObjectTree) -> (keep: bool) {
        true
    }

    fn expand(&self, atom: &Atom, objtree: &ObjectTree, output: &mut Vec<Atom>) -> (consumed: bool) {
        proof {
            lemma_extends_by_nothing(output@);
        }
        false
    }

    fn adjust_vars(&self, atom: &mut Atom, objtree: &ObjectTree) {
    }

    fn adjust_sprite(&self, atom: &Atom, sprite: &mut Sprite, objtree: &ObjectTree) {
    }

    fn overlays(
        &self,
        atom: &mut Atom,
        objtree: &ObjectTree,
        underlays: &mut Vec<Atom>,
        overlays: &mut Vec<Atom>,
    ) {
        proof {
            lemma_extends_by_nothing(overlays@);
        }
        if atom.istype("/turf/closed/indestructible/fakeglass/") {
            add_with_icon(underlays, atom, "icons/turf/floors.dmi", "plating");
            add_with_icon(underlays, atom, "icons/obj/structures.dmi", "grille");
            proof {
                assert(atom_views(underlays@) =~= atom_views(old(underlays)@) + self.underlays_of(
                    atom@,
                    objtree.types@,
                ));
            }
        } else {
            proof {
                lemma_extends_by_nothing(underlays@);
            }
        }
    }

    fn late_filter(&self, atom: &Atom, objtree: &ObjectTree) -> (keep: bool) {
        true
    }
}

/// A count from one to nine, written as a digit; nothing for another number.
pub open spec fn digit(n: i32) -> Seq<char> {
    match n {
        1i32 => "1"@,
        2i32 => "2"@,
        3i32 => "3"@,
        4i32 => "4"@,
        5i32 => "5"@,
        6i32 => "6"@,
        7i32 => "7"@,
        8i32 => "8"@,
        9i32 => "9"@,
        _ => Seq::empty(),
    }
}

/// The frame that shows `count` tanks of a kind: `prefix` and the count,
/// which stops at `ceiling`; none where no tank is left.
pub open spec fn tank_state(prefix: Seq<char>, count: i32, ceiling: i32) -> Option<Seq<char>> {
    if count >= ceiling {
        Some(prefix + digit(ceiling))
    } else if count > 0 {
        Some(prefix + digit(count))
    } else {
        None
    }
}

/// The overlay that shows the tanks counted by the variable `var` of a
/// dispenser; none where the variable is not an integer or no tank is left.
pub open spec fn tank_overlay(
    atom: AtomView,
    types: Seq<TypeDef>,
    var: Seq<char>,
    prefix: Seq<char>,
    ceiling: i32,
) -> Seq<AtomView> {
    match atom.var(types, var) {
        Some(ConstantView::Int(count)) => match tank_state(prefix, count, ceiling) {
            Some(state) => seq![with_icon_state(atom, state)],
            None => Seq::empty(),
        },
        _ => Seq::empty(),
    }
}

/// A count from one to nine, written as a digit.
fn digit_str(n: i32) -> (s: &'static str)
    ensures
        s@ == digit(n),
{
    match n {
        1 => "1",
        2 => "2",
        3 => "3",
        4 => "4",
        5 => "5",
        6 => "6",
        7 => "7",
        8 => "8",
        9 => "9",
        _ => {
            proof {
                reveal_strlit("");
            }
            assert(""@ =~= Seq::<char>::empty());
            ""
        },
    }
}

/// Adds to `overlays` the overlay that shows the tanks counted by the
/// variable `var` of the dispenser `atom`.
fn add_tanks(
    overlays: &mut Vec<Atom>,
    atom: &Atom,
    objtree: &ObjectTree,
    var: &str,
    prefix: &str,
    ceiling: i32,
)
    ensures
        extends_by(
            old(overlays)@,
            final(overlays)@,
            tank_overlay(atom@, objtree.types@, var@, prefix@, ceiling),
        ),
{
    let count = match atom.get_var(var, objtree) {
        Ok(Constant::Int(count)) => Some(*count),
        _ => None,
    };
    let shown = match count {
        Some(count) => {
            if count >= ceiling {
                Some(ceiling)
            } else if count > 0 {
                Some(count)
            } else {
                None
            }
        },
        None => None,
    };
    match shown {
        Some(n) => {
            let state = String::from_str(prefix).concat(digit_str(n));
            add_to(overlays, atom, state.as_str());
            proof {
                assert(atom_views(overlays@) =~= atom_views(old(overlays)@) + seq![
                    with_icon_state(atom@, state@),
                ]);
            }
        },
        None => {
            proof {
                lemma_extends_by_nothing(overlays@);
            }
        },
    }
}

/// Add the minor cosmetic overlays for various objects.
#[derive(Default)]
pub struct Pretty;

impl RenderPass for Pretty {
    /// A bookcase shows its empty frame.
    open spec fn adjusted_vars(&self, atom: AtomView, types: Seq<TypeDef>) -> AtomView {
        if atom.istype("/obj/structure/bookcase/"@) {
            with_icon_state(atom, "book-0"@)
        } else {
            atom
        }
    }

    /// A storage box other than a paper sack carries its illustration, a
    /// fire alarm its three overlays, and a tank dispenser one overlay for
    /// its oxygen tanks and one for its plasma tanks.
    open spec fn overlays_of(&self, atom: AtomView, types: Seq<TypeDef>) -> Seq<AtomView> {
        if atom.istype("/obj/item/storage/box/"@) && !atom.istype(
            "/obj/item/storage/box/papersack/"@,
        ) {
            seq![atom.with_var(icon_state_var(), atom.var_or_null(types, "illustration"@))]
        } else if atom.istype("/obj/machinery/firealarm/"@) {
            seq![
                with_icon_state(atom, "fire_overlay"@),
                with_icon_state(atom, "fire_0"@),
                with_icon_state(atom, "fire_off"@),
            ]
        } else if atom.istype("/obj/structure/tank_dispenser/"@) {
            tank_overlay(atom, types, "oxygentanks"@, "oxygen-"@, 4) + tank_overlay(
                atom,
                types,
                "plasmatanks"@,
                "plasma-"@,
                5,
            )
        } else {
            Seq::empty()
        }
    }

    fn path_filter(&self, path: &str) -> (keep: bool) {
        true
    }

    fn early_filter(&self, atom: &Atom, objtree: &ObjectTree) -> (keep: bool) {
        true
    }

    fn expand(&self, atom: &Atom, objtree: &ObjectTree, output: &mut Vec<Atom>) -> (consumed: bool) {
        proof {
            lemma_extends_by_nothing(output@);
        }
        false
    }

    fn adjust_vars(&self, atom: &mut Atom, objtree: &ObjectTree) {
        if atom.istype("/obj/structure/bookcase/") {
            atom.set_var("icon_state", Constant::string("book-0"));
        }
    }

    fn adjust_sprite(&self, atom: &Atom, sprite: &mut Sprite, objtree: &ObjectTree) {
    }

    fn overlays(
        &self,
        atom: &mut Atom,
        objtree: &ObjectTree,
        underlays: &mut Vec<Atom>,
        overlays: &mut Vec<Atom>,
    ) {
        proof {
            lemma_extends_by_nothing(underlays@);
        }
        let ghost added = self.overlays_of(atom@, objtree.types@);
        if atom.istype("/obj/item/storage/box/") && !atom.istype("/obj/item/storage/box/papersack/") {
            let mut copy = atom.clone();
            copy.set_var("icon_state", atom.var_or_null("illustration", objtree));
            proof {
                assert(atom_views(overlays@.push(copy)) =~= atom_views(overlays@) + added);
            }
            overlays.push(copy);
        } else if atom.istype("/obj/machinery/firealarm/") {
            add_to(overlays, atom, "fire_overlay");
            add_to(overlays, atom, "fire_0");
            add_to(overlays, atom, "fire_off");
            proof {
                assert(atom_views(overlays@) =~= atom_views(old(overlays)@) + added);
            }
        } else if atom.istype("/obj/structure/tank_dispenser/") {
            add_tanks(overlays, atom, objtree, "oxygentanks", "oxygen-", 4);
            let ghost mid = overlays@;
            add_tanks(overlays, atom, objtree, "plasmatanks", "plasma-", 5);
            proof {
                let oxygen = tank_overlay(atom@, objtree.types@, "oxygentanks"@, "oxygen-"@, 4);
                let plasma = tank_overlay(atom@, objtree.types@, "plasmatanks"@, "plasma-"@, 5);
                assert(atom_views(overlays@) =~= atom_views(old(overlays)@) + (oxygen + plasma));
            }
        } else {
            proof {
                lemma_extends_by_nothing(overlays@);
            }
        }
    }

    fn late_filter(&self, atom: &Atom, objtree: &ObjectTree) -> (keep: bool) {
        true
    }
}

/// Render only power cables.
#[derive(Default)]
pub struct Wires;

impl RenderPass for Wires {
    /// Only cables are kept.
    open spec fn keeps_late(&self, atom: AtomView, types: Seq<TypeDef>) -> bool {
        atom.istype("/obj/structure/cable/"@)
    }

    fn path_filter(&self, path: &str) -> (keep: bool) {
        true
    }

    fn early_filter(&self, atom: &Atom, objtree: &ObjectTree) -> (keep: bool) {
        true
    }

    fn expand(&self, atom: &Atom, objtree: &ObjectTree, output: &mut Vec<Atom>) -> (consumed: bool) {
        proof {
            lemma_extends_by_nothing(output@);
        }
        false
    }

    fn adjust_vars(&self, atom: &mut Atom, objtree: &ObjectTree) {
    }

    fn adjust_sprite(&self, atom: &Atom, sprite: &mut Sprite, objtree: &ObjectTree) {
    }

    fn overlays(
        &self,
        atom: &mut Atom,
        objtree: &ObjectTree,
        underlays: &mut Vec<Atom>,
        overlays: &mut Vec<Atom>,
    ) {
        proof {
            lemma_extends_by_nothing(underlays@);
            lemma_extends_by_nothing(overlays@);
        }
    }

    fn late_filter(&self, atom: &Atom, objtree: &ObjectTree) -> (keep: bool) {
        atom.istype("/obj/structure/cable/")
    }
}

/// Render only atmospheric pipes.
#[derive(Default)]
pub struct Pipes;

impl RenderPass for Pipes {
    /// Only atmospheric pipes are kept.
    open spec fn keeps_late(&self, atom: AtomView, types: Seq<TypeDef>) -> bool {
        atom.istype("/obj/machinery/atmospherics/pipe/"@)
    }

    fn path_filter(&self, path: &str) -> (keep: bool) {
        true
    }

    fn early_filter(&self, atom: &Atom, objtree: &ObjectTree) -> (keep: bool) {
        true
    }

    fn expand(&self, atom: &Atom, objtree: &ObjectTree, output: &mut Vec<Atom>) -> (consumed: bool) {
        proof {
            lemma_extends_by_nothing(output@);
        }
        false
    }

    fn adjust_vars(&self, atom: &mut Atom, objtree: &ObjectTree) {
    }

    fn adjust_sprite(&self, atom: &Atom, sprite: &mut Sprite, objtree: &ObjectTree) {
    }

    fn overlays(
        &self,
        atom: &mut Atom,
        objtree: &ObjectTree,
        underlays: &mut Vec<Atom>,
        overlays: &mut Vec<Atom>,
    ) {
        proof {
            lemma_extends_by_nothing(underlays@);
            lemma_extends_by_nothing(overlays@);
        }
    }

    fn late_filter(&self, atom: &Atom, objtree: &ObjectTree) -> (keep: bool) {
        atom.istype("/obj/machinery/atmospherics/pipe/")
    }
}

/// The layer that the in-game rules give to the type at `path`, by the first
/// rule that matches; none for a type that no rule names.
pub open spec fn fancy_layer(p: Seq<char>) -> Option<i32> {
    if is_subpath(p, "/turf/open/floor/plating/"@) || is_subpath(p, "/turf/open/space/"@) {
        Some(-10_000i32)
    } else if is_subpath(p, "/turf/closed/mineral/"@) {
        Some(-3_000i32)
    } else if is_subpath(p, "/turf/open/floor/"@) || is_subpath(p, "/turf/closed/"@) {
        Some(-2_000i32)
    } else if is_subpath(p, "/turf/"@) {
        Some(-10_000i32)
    } else if is_subpath(p, "/obj/effect/turf_decal/"@) {
        Some(-1_000i32)
    } else if is_subpath(p, "/obj/structure/disposalpipe/"@) {
        Some(-6_000i32)
    } else if is_subpath(p, "/obj/machinery/atmospherics/pipe/"@) && !has_substring(
        p,
        "visible"@,
    ) {
        Some(-5_000i32)
    } else if is_subpath(p, "/obj/structure/cable/"@) {
        Some(-4_000i32)
    } else if is_subpath(p, "/obj/machinery/power/terminal/"@) {
        Some(-3_500i32)
    } else if is_subpath(p, "/obj/structure/lattice/"@) {
        Some(-8_000i32)
    } else if is_subpath(p, "/obj/machinery/navbeacon/"@) {
        Some(-3_000i32)
    } else {
        None
    }
}

/// The layer that the in-game rules give to the type at `p`.
pub fn fancy_layer_for_path(p: &str) -> (layer: Option<i32>)
    ensures
        layer == fancy_layer(p@),
{
    if subpath(p, "/turf/open/floor/plating/") || subpath(p, "/turf/open/space/") {
        // under everything
        Some(-10_000)
    } else if subpath(p, "/turf/closed/mineral/") {
        // above hidden stuff and plating but below walls
        Some(-3_000)
    } else if subpath(p, "/turf/open/floor/") || subpath(p, "/turf/closed/") {
        // above hidden pipes and wires
        Some(-2_000)
    } else if subpath(p, "/turf/") {
        // under everything
        Some(-10_000)
    } else if subpath(p, "/obj/effect/turf_decal/") {
        // above turfs
        Some(-1_000)
    } else if subpath(p, "/obj/structure/disposalpipe/") {
        Some(-6_000)
    } else if subpath(p, "/obj/machinery/atmospherics/pipe/") && !contains(p, "visible") {
        Some(-5_000)
    } else if subpath(p, "/obj/structure/cable/") {
        Some(-4_000)
    } else if subpath(p, "/obj/machinery/power/terminal/") {
        Some(-3_500)
    } else if subpath(p, "/obj/structure/lattice/") {
        Some(-8_000)
    } else if subpath(p, "/obj/machinery/navbeacon/") {
        Some(-3_000)
    } else {
        None
    }
}

/// Layer atoms according to in-game rules.
#[derive(Default)]
pub struct FancyLayers;

impl RenderPass for FancyLayers {
    /// The sprite on plane 0, on the layer that the rules give to the atom's
    /// type, or on its own layer where they give none.
    open spec fn adjusted_sprite(&self, atom: AtomView, sprite: Sprite, types: Seq<TypeDef>) -> Sprite {
        Sprite {
            plane: 0,
            layer: match fancy_layer(atom.path) {
                Some(layer) => layer,
                None => sprite.layer,
            },
        }
    }

    fn path_filter(&self, path: &str) -> (keep: bool) {
        true
    }

    fn early_filter(&self, atom: &Atom, objtree: &ObjectTree) -> (keep: bool) {
        true
    }

    fn expand(&self, atom: &Atom, objtree: &ObjectTree, output: &mut Vec<Atom>) -> (consumed: bool) {
        proof {
            lemma_extends_by_nothing(output@);
        }
        false
    }

    fn adjust_vars(&self, atom: &mut Atom, objtree: &ObjectTree) {
    }

    fn adjust_sprite(&self, atom: &Atom, sprite: &mut Sprite, objtree: &ObjectTree) {
        sprite.plane = 0;
        if let Some(layer) = fancy_layer_for_path(atom.get_path()) {
            sprite.layer = layer;
        }
    }

    fn overlays(
        &self,
        atom: &mut Atom,
        objtree: &ObjectTree,
        underlays: &mut Vec<Atom>,
        overlays: &mut Vec<Atom>,
    ) {
        proof {
            lemma_extends_by_nothing(underlays@);
            lemma_extends_by_nothing(overlays@);
        }
    }

    fn late_filter(&self, atom: &Atom, objtree: &ObjectTree) -> (keep: bool) {
        true
    }
}

} // verus!
