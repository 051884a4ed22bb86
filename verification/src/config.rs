//! The passes that the library provides, their registry, and the choice of
//! passes by name.

use vstd::prelude::*;
use crate::error::Error;
use crate::minimap::{Atom, AtomView, Sprite};
use crate::objtree::{same_chars, ObjectTree, TypeDef};
use crate::render_passes::{
    FakeGlass,
    FancyLayers,
    HideAreas,
    HideInvisible,
    HideSpace,
    Pipes,
    Pretty,
    RenderPass,
    Wires,
};
use crate::text::{chars_of, string_of};

verus! {

/// One of the passes that the library provides. As a render pass it does
/// what the pass of its name does.
#[derive(Copy, Clone, PartialEq, Eq, Debug, Structural)]
pub enum Pass {
    HideSpace,
    HideAreas,
    HideInvisible,
    Pretty,
    FakeGlass,
    Wires,
    Pipes,
    FancyLayers,
}

impl RenderPass for Pass {
    open spec fn keeps_path(&self, path: Seq<char>) -> bool {
        match self {
            Pass::HideSpace => HideSpace.keeps_path(path),
            Pass::HideAreas => HideAreas.keeps_path(path),
            Pass::HideInvisible => HideInvisible.keeps_path(path),
            Pass::Pretty => Pretty.keeps_path(path),
            Pass::FakeGlass => FakeGlass.keeps_path(path),
            Pass::Wires => Wires.keeps_path(path),
            Pass::Pipes => Pipes.keeps_path(path),
            Pass::FancyLayers => FancyLayers.keeps_path(path),
        }
    }

    open spec fn keeps_early(&self, atom: AtomView, types: Seq<TypeDef>) -> bool {
        match self {
            Pass::HideSpace => HideSpace.keeps_early(atom, types),
            Pass::HideAreas => HideAreas.keeps_early(atom, types),
            Pass::HideInvisible => HideInvisible.keeps_early(atom, types),
            Pass::Pretty => Pretty.keeps_early(atom, types),
            Pass::FakeGlass => FakeGlass.keeps_early(atom, types),
            Pass::Wires => Wires.keeps_early(atom, types),
            Pass::Pipes => Pipes.keeps_early(atom, types),
            Pass::FancyLayers => FancyLayers.keeps_early(atom, types),
        }
    }

    open spec fn expansion(&self, atom: AtomView, types: Seq<TypeDef>) -> Seq<AtomView> {
        match self {
            Pass::HideSpace => HideSpace.expansion(atom, types),
            Pass::HideAreas => HideAreas.expansion(atom, types),
            Pass::HideInvisible => HideInvisible.expansion(atom, types),
            Pass::Pretty => Pretty.expansion(atom, types),
            Pass::FakeGlass => FakeGlass.expansion(atom, types),
            Pass::Wires => Wires.expansion(atom, types),
            Pass::Pipes => Pipes.expansion(atom, types),
            Pass::FancyLayers => FancyLayers.expansion(atom, types),
        }
    }

    open spec fn consumes(&self, atom: AtomView, types: Seq<TypeDef>) -> bool {
        match self {
            Pass::HideSpace => HideSpace.consumes(atom, types),
            Pass::HideAreas => HideAreas.consumes(atom, types),
            Pass::HideInvisible => HideInvisible.consumes(atom, types),
            Pass::Pretty => Pretty.consumes(atom, types),
            Pass::FakeGlass => FakeGlass.consumes(atom, types),
            Pass::Wires => Wires.consumes(atom, types),
            Pass::Pipes => Pipes.consumes(atom, types),
            Pass::FancyLayers => FancyLayers.consumes(atom, types),
        }
    }

    open spec fn adjusted_vars(&self, atom: AtomView, types: Seq<TypeDef>) -> AtomView {
        match self {
            Pass::HideSpace => HideSpace.adjusted_vars(atom, types),
            Pass::HideAreas => HideAreas.adjusted_vars(atom, types),
            Pass::HideInvisible => HideInvisible.adjusted_vars(atom, types),
            Pass::Pretty => Pretty.adjusted_vars(atom, types),
            Pass::FakeGlass => FakeGlass.adjusted_vars(atom, types),
            Pass::Wires => Wires.adjusted_vars(atom, types),
            Pass::Pipes => Pipes.adjusted_vars(atom, types),
            Pass::FancyLayers => FancyLayers.adjusted_vars(atom, types),
        }
    }

    open spec fn adjusted_sprite(&self, atom: AtomView, sprite: Sprite, types: Seq<TypeDef>) -> Sprite {
        match self {
            Pass::HideSpace => HideSpace.adjusted_sprite(atom, sprite, types),
            Pass::HideAreas => HideAreas.adjusted_sprite(atom, sprite, types),
            Pass::HideInvisible => HideInvisible.adjusted_sprite(atom, sprite, types),
            Pass::Pretty => Pretty.adjusted_sprite(atom, sprite, types),
            Pass::FakeGlass => FakeGlass.adjusted_sprite(atom, sprite, types),
            Pass::Wires => Wires.adjusted_sprite(atom, sprite, types),
            Pass::Pipes => Pipes.adjusted_sprite(atom, sprite, types),
            Pass::FancyLayers => FancyLayers.adjusted_sprite(atom, sprite, types),
        }
    }

    open spec fn overlaid(&self, atom: AtomView, types: Seq<TypeDef>) -> AtomView {
        match self {
            Pass::HideSpace => HideSpace.overlaid(atom, types),
            Pass::HideAreas => HideAreas.overlaid(atom, types),
            Pass::HideInvisible => HideInvisible.overlaid(atom, types),
            Pass::Pretty => Pretty.overlaid(atom, types),
            Pass::FakeGlass => FakeGlass.overlaid(atom, types),
            Pass::Wires => Wires.overlaid(atom, types),
            Pass::Pipes => Pipes.overlaid(atom, types),
            Pass::FancyLayers => FancyLayers.overlaid(atom, types),
        }
    }

    open spec fn underlays_of(&self, atom: AtomView, types: Seq<TypeDef>) -> Seq<AtomView> {
        match self {
            Pass::HideSpace => HideSpace.underlays_of(atom, types),
            Pass::HideAreas => HideAreas.underlays_of(atom, types),
            Pass::HideInvisible => HideInvisible.underlays_of(atom, types),
            Pass::Pretty => Pretty.underlays_of(atom, types),
            Pass::FakeGlass => FakeGlass.underlays_of(atom, types),
            Pass::Wires => Wires.underlays_of(atom, types),
            Pass::Pipes => Pipes.underlays_of(atom, types),
            Pass::FancyLayers => FancyLayers.underlays_of(atom, types),
        }
    }

    open spec fn overlays_of(&self, atom: AtomView, types: Seq<TypeDef>) -> Seq<AtomView> {
        match self {
            Pass::HideSpace => HideSpace.overlays_of(atom, types),
            Pass::HideAreas => HideAreas.overlays_of(atom, types),
            Pass::HideInvisible => HideInvisible.overlays_of(atom, types),
            Pass::Pretty => Pretty.overlays_of(atom, types),
            Pass::FakeGlass => FakeGlass.overlays_of(atom, types),
            Pass::Wires => Wires.overlays_of(atom, types),
            Pass::Pipes => Pipes.overlays_of(atom, types),
            Pass::FancyLayers => FancyLayers.overlays_of(atom, types),
        }
    }

    open spec fn keeps_late(&self, atom: AtomView, types: Seq<TypeDef>) -> bool {
        match self {
            Pass::HideSpace => HideSpace.keeps_late(atom, types),
            Pass::HideAreas => HideAreas.keeps_late(atom, types),
            Pass::HideInvisible => HideInvisible.keeps_late(atom, types),
            Pass::Pretty => Pretty.keeps_late(atom, types),
            Pass::FakeGlass => FakeGlass.keeps_late(atom, types),
            Pass::Wires => Wires.keeps_late(atom, types),
            Pass::Pipes => Pipes.keeps_late(atom, types),
            Pass::FancyLayers => FancyLayers.keeps_late(atom, types),
        }
    }

    fn path_filter(&self, path: &str) -> (keep: bool) {
        match self {
            Pass::HideSpace => HideSpace.path_filter(path),
            Pass::HideAreas => HideAreas.path_filter(path),
            Pass::HideInvisible => HideInvisible.path_filter(path),
            Pass::Pretty => Pretty.path_filter(path),
            Pass::FakeGlass => FakeGlass.path_filter(path),
            Pass::Wires => Wires.path_filter(path),
            Pass::Pipes => Pipes.path_filter(path),
            Pass::FancyLayers => FancyLayers.path_filter(path),
        }
    }

    fn early_filter(&self, atom: &Atom, objtree: &ObjectTree) -> (keep: bool) {
        match self {
            Pass::HideSpace => HideSpace.early_filter(atom, objtree),
            Pass::HideAreas => HideAreas.early_filter(atom, objtree),
            Pass::HideInvisible => HideInvisible.early_filter(atom, objtree),
            Pass::Pretty => Pretty.early_filter(atom, objtree),
            Pass::FakeGlass => FakeGlass.early_filter(atom, objtree),
            Pass::Wires => Wires.early_filter(atom, objtree),
            Pass::Pipes => Pipes.early_filter(atom, objtree),
            Pass::FancyLayers => FancyLayers.early_filter(atom, objtree),
        }
    }

    fn expand(&self, atom: &Atom, objtree: &ObjectTree, output: &mut Vec<Atom>) -> (consumed: bool) {
        match self {
            Pass::HideSpace => HideSpace.expand(atom, objtree, output),
            Pass::HideAreas => HideAreas.expand(atom, objtree, output),
            Pass::HideInvisible => HideInvisible.expand(atom, objtree, output),
            Pass::Pretty => Pretty.expand(atom, objtree, output),
            Pass::FakeGlass => FakeGlass.expand(atom, objtree, output),
            Pass::Wires => Wires.expand(atom, objtree, output),
            Pass::Pipes => Pipes.expand(atom, objtree, output),
            Pass::FancyLayers => FancyLayers.expand(atom, objtree, output),
        }
    }

    fn adjust_vars(&self, atom: &mut Atom, objtree: &ObjectTree) {
        match self {
            Pass::HideSpace => HideSpace.adjust_vars(atom, objtree),
            Pass::HideAreas => HideAreas.adjust_vars(atom, objtree),
            Pass::HideInvisible => HideInvisible.adjust_vars(atom, objtree),
            Pass::Pretty => Pretty.adjust_vars(atom, objtree),
            Pass::FakeGlass => FakeGlass.adjust_vars(atom, objtree),
            Pass::Wires => Wires.adjust_vars(atom, objtree),
            Pass::Pipes => Pipes.adjust_vars(atom, objtree),
            Pass::FancyLayers => FancyLayers.adjust_vars(atom, objtree),
        }
    }

    fn adjust_sprite(&self, atom: &Atom, sprite: &mut Sprite, objtree: &ObjectTree) {
        match self {
            Pass::HideSpace => HideSpace.adjust_sprite(atom, sprite, objtree),
            Pass::HideAreas => HideAreas.adjust_sprite(atom, sprite, objtree),
            Pass::HideInvisible => HideInvisible.adjust_sprite(atom, sprite, objtree),
            Pass::Pretty => Pretty.adjust_sprite(atom, sprite, objtree),
            Pass::FakeGlass => FakeGlass.adjust_sprite(atom, sprite, objtree),
            Pass::Wires => Wires.adjust_sprite(atom, sprite, objtree),
            Pass::Pipes => Pipes.adjust_sprite(atom, sprite, objtree),
            Pass::FancyLayers => FancyLayers.adjust_sprite(atom, sprite, objtree),
        }
    }

    fn overlays(&self, atom: &mut Atom, objtree: &ObjectTree, underlays: &mut Vec<Atom>, overlays: &mut Vec<Atom>) {
        match self {
            Pass::HideSpace => HideSpace.overlays(atom, objtree, underlays, overlays),
            Pass::HideAreas => HideAreas.overlays(atom, objtree, underlays, overlays),
            Pass::HideInvisible => HideInvisible.overlays(atom, objtree, underlays, overlays),
            Pass::Pretty => Pretty.overlays(atom, objtree, underlays, overlays),
            Pass::FakeGlass => FakeGlass.overlays(atom, objtree, underlays, overlays),
            Pass::Wires => Wires.overlays(atom, objtree, underlays, overlays),
            Pass::Pipes => Pipes.overlays(atom, objtree, underlays, overlays),
            Pass::FancyLayers => FancyLayers.overlays(atom, objtree, underlays, overlays),
        }
    }

    fn late_filter(&self, atom: &Atom, objtree: &ObjectTree) -> (keep: bool) {
        match self {
            Pass::HideSpace => HideSpace.late_filter(atom, objtree),
            Pass::HideAreas => HideAreas.late_filter(atom, objtree),
            Pass::HideInvisible => HideInvisible.late_filter(atom, objtree),
            Pass::Pretty => Pretty.late_filter(atom, objtree),
            Pass::FakeGlass => FakeGlass.late_filter(atom, objtree),
            Pass::Wires => Wires.late_filter(atom, objtree),
            Pass::Pipes => Pipes.late_filter(atom, objtree),
            Pass::FancyLayers => FancyLayers.late_filter(atom, objtree),
        }
    }
}

/// An entry of the registry of passes.
pub struct RenderPassInfo {
    /// The name by which a configuration asks for the pass.
    pub name: &'static str,
    /// What the pass does, in a sentence.
    pub desc: &'static str,
    /// Whether the pass takes part where the configuration does not say.
    pub default: bool,
    /// The pass itself.
    pub pass: Pass,
}

/// The name that stands for every pass in a list of a configuration.
pub open spec fn all_token() -> Seq<char> {
    "all"@
}

/// The registry of the library's passes as names, default flags and passes,
/// in the order in which the passes are applied.
pub open spec fn registry() -> Seq<(Seq<char>, bool, Pass)> {
    seq![
        ("hide-space"@, true, Pass::HideSpace),
        ("hide-areas"@, true, Pass::HideAreas),
        ("hide-invisible"@, true, Pass::HideInvisible),
        ("pretty"@, true, Pass::Pretty),
        ("fake-glass"@, true, Pass::FakeGlass),
        ("wires"@, false, Pass::Wires),
        ("pipes"@, false, Pass::Pipes),
        ("fancy-layers"@, true, Pass::FancyLayers),
    ]
}

/// What the passes of the registry do, each in a sentence, in its order.
pub open spec fn descriptions() -> Seq<Seq<char>> {
    seq![
        "Do not render space tiles, instead leaving transparency."@,
        "Do not render area icons."@,
        "Do not render invisible or ephemeral objects such as mapping helpers."@,
        "Add the minor cosmetic overlays for various objects."@,
        "Add underlays to fake glass turfs."@,
        "Render only power cables."@,
        "Render only atmospheric pipes."@,
        "Layer atoms according to in-game rules."@,
    ]
}

/// What the entries of a registry hold: names, default flags and passes.
pub open spec fn entries_of(infos: Seq<RenderPassInfo>) -> Seq<(Seq<char>, bool, Pass)> {
    infos.map_values(|i: RenderPassInfo| (i.name@, i.default, i.pass))
}

/// The registry of the library's passes.
pub fn render_passes() -> (infos: Vec<RenderPassInfo>)
    ensures
        entries_of(infos@) == registry(),
        infos@.map_values(|i: RenderPassInfo| i.desc@) == descriptions(),
{
    let mut infos: Vec<RenderPassInfo> = Vec::new();
    infos.push(
        RenderPassInfo {
            name: "hide-space",
            desc: "Do not render space tiles, instead leaving transparency.",
            default: true,
            pass: Pass::HideSpace,
        },
    );
    infos.push(
        RenderPassInfo {
            name: "hide-areas",
            desc: "Do not render area icons.",
            default: true,
            pass: Pass::HideAreas,
        },
    );
    infos.push(
        RenderPassInfo {
            name: "hide-invisible",
            desc: "Do not render invisible or ephemeral objects such as mapping helpers.",
            default: true,
            pass: Pass::HideInvisible,
        },
    );
    infos.push(
        RenderPassInfo {
            name: "pretty",
            desc: "Add the minor cosmetic overlays for various objects.",
            default: true,
            pass: Pass::Pretty,
        },
    );
    infos.push(
        RenderPassInfo {
            name: "fake-glass",
            desc: "Add underlays to fake glass turfs.",
            default: true,
            pass: Pass::FakeGlass,
        },
    );
    infos.push(
        RenderPassInfo {
            name: "wires",
            desc: "Render only power cables.",
            default: false,
            pass: Pass::Wires,
        },
    );
    infos.push(
        RenderPassInfo {
            name: "pipes",
            desc: "Render only atmospheric pipes.",
            default: false,
            pass: Pass::Pipes,
        },
    );
    infos.push(
        RenderPassInfo {
            name: "fancy-layers",
            desc: "Layer atoms according to in-game rules.",
            default: true,
            pass: Pass::FancyLayers,
        },
    );
    assert(entries_of(infos@) =~= registry());
    assert(infos@.map_values(|i: RenderPassInfo| i.desc@) =~= descriptions());
    infos
}

/// The pieces of `s` between its commas. A string without a comma is one
/// piece, and two commas in a row hold an empty piece between them.
pub open spec fn split_commas(s: Seq<char>) -> Seq<Seq<char>>
    decreases s.len(),
{
    if s.len() == 0 {
        seq![Seq::empty()]
    } else {
        let before = split_commas(s.drop_last());
        if s.last() == ',' {
            before.push(Seq::empty())
        } else {
            before.update(before.len() - 1, before.last().push(s.last()))
        }
    }
}

/// What a list of names holds, one sequence of characters for each name.
pub open spec fn name_views(names: Seq<Vec<char>>) -> Seq<Seq<char>> {
    names.map_values(|n: Vec<char>| n@)
}

/// The names that a list of a configuration holds.
pub fn split_list(list: &str) -> (names: Vec<Vec<char>>)
    ensures
        name_views(names@) == split_commas(list@),
{
    let chars = chars_of(list);
    let mut names: Vec<Vec<char>> = Vec::new();
    let mut current: Vec<char> = Vec::new();
    let mut i: usize = 0;
    assert(chars@.subrange(0, 0) =~= Seq::<char>::empty());
    assert(name_views(names@).push(current@) =~= split_commas(Seq::<char>::empty()));
    while i < chars.len()
        invariant
            i <= chars.len(),
            name_views(names@).push(current@) == split_commas(chars@.subrange(0, i as int)),
        decreases chars.len() - i,
    {
        let ghost before = chars@.subrange(0, i as int);
        let ghost upto = chars@.subrange(0, i + 1);
        assert(upto.drop_last() =~= before);
        assert(upto.last() == chars@[i as int]);
        let c = chars[i];
        if c == ',' {
            proof {
                assert(name_views(names@.push(current)) =~= name_views(names@).push(current@));
            }
            names.push(current);
            current = Vec::new();
        } else {
            proof {
                let pieces = name_views(names@).push(current@);
                assert(pieces.update(pieces.len() - 1, pieces.last().push(c)) =~= name_views(
                    names@,
                ).push(current@.push(c)));
            }
            current.push(c);
        }
        i += 1;
    }
    proof {
        assert(chars@.subrange(0, i as int) =~= chars@);
        assert(name_views(names@.push(current)) =~= name_views(names@).push(current@));
    }
    names.push(current);
    names
}

/// Whether `name` is among `names`.
pub fn names_contain(names: &Vec<Vec<char>>, name: &Vec<char>) -> (r: bool)
    ensures
        r == name_views(names@).contains(name@),
{
    let mut i: usize = 0;
    while i < names.len()
        invariant
            i <= names.len(),
            forall|j: int| 0 <= j < i ==> name_views(names@)[j] != name@,
        decreases names.len() - i,
    {
        if same_chars(&names[i], name) {
            assert(name_views(names@)[i as int] == name@);
            return true;
        }
        i += 1;
    }
    false
}

/// Whether a pass takes part: one that the inclusion list names does; of the
/// others, one that the exclusion list names does not; of the rest, all do
/// where the inclusion list holds the wildcard, none where only the exclusion
/// list holds it, and else each goes by its default.
pub open spec fn is_included(
    inclusions: Seq<Seq<char>>,
    exclusions: Seq<Seq<char>>,
    name: Seq<char>,
    default: bool,
) -> bool {
    if inclusions.contains(name) {
        true
    } else if exclusions.contains(name) {
        false
    } else if inclusions.contains(all_token()) {
        true
    } else if exclusions.contains(all_token()) {
        false
    } else {
        default
    }
}

/// The passes of the registry `entries` that take part, in its order.
pub open spec fn selection(
    entries: Seq<(Seq<char>, bool, Pass)>,
    inclusions: Seq<Seq<char>>,
    exclusions: Seq<Seq<char>>,
) -> Seq<Pass>
    decreases entries.len(),
{
    if entries.len() == 0 {
        Seq::empty()
    } else {
        let before = selection(entries.drop_last(), inclusions, exclusions);
        if is_included(inclusions, exclusions, entries.last().0, entries.last().1) {
            before.push(entries.last().2)
        } else {
            before
        }
    }
}

/// Whether a name in a list of a configuration means something: it is empty,
/// the wildcard, or the name of a pass of the registry `entries`.
pub open spec fn is_known(entries: Seq<(Seq<char>, bool, Pass)>, name: Seq<char>) -> bool {
    name.len() == 0 || name == all_token() || exists|i: int|
        0 <= i < entries.len() && (#[trigger] entries[i]).0 == name
}

/// The first of `names` that means nothing, if there is one.
pub open spec fn first_unknown(entries: Seq<(Seq<char>, bool, Pass)>, names: Seq<Seq<char>>) -> Option<
    Seq<char>,
>
    decreases names.len(),
{
    if names.len() == 0 {
        None
    } else if !is_known(entries, names[0]) {
        Some(names[0])
    } else {
        first_unknown(entries, names.drop_first())
    }
}

/// The names in the lists of a configuration, those of the inclusion list
/// first.
pub open spec fn names_of(inclusions: Seq<char>, exclusions: Seq<char>) -> Seq<Seq<char>> {
    split_commas(inclusions) + split_commas(exclusions)
}

/// Whether `name` means something in a list of a configuration for `infos`.
fn check_known(infos: &Vec<RenderPassInfo>, name: &Vec<char>) -> (r: bool)
    ensures
        r == is_known(entries_of(infos@), name@),
{
    if name.len() == 0 {
        return true;
    }
    let all = chars_of("all");
    if same_chars(name, &all) {
        return true;
    }
    let mut i: usize = 0;
    while i < infos.len()
        invariant
            i <= infos.len(),
            forall|j: int| 0 <= j < i ==> (#[trigger] entries_of(infos@)[j]).0 != name@,
        decreases infos.len() - i,
    {
        let here = chars_of(infos[i].name);
        if same_chars(&here, name) {
            assert(entries_of(infos@)[i as int].0 == name@);
            return true;
        }
        i += 1;
    }
    false
}

/// The first of `names` that means nothing for `infos`, if there is one.
fn find_unknown(infos: &Vec<RenderPassInfo>, names: &Vec<Vec<char>>) -> (r: Option<String>)
    ensures
        match r {
            Some(n) => first_unknown(entries_of(infos@), name_views(names@)) == Some(n@),
            None => first_unknown(entries_of(infos@), name_views(names@)) is None,
        },
{
    let mut i: usize = 0;
    assert(name_views(names@).subrange(0, names.len() as int) =~= name_views(names@));
    while i < names.len()
        invariant
            i <= names.len(),
            first_unknown(entries_of(infos@), name_views(names@)) == first_unknown(
                entries_of(infos@),
                name_views(names@).subrange(i as int, names.len() as int),
            ),
        decreases names.len() - i,
    {
        let ghost rest = name_views(names@).subrange(i as int, names.len() as int);
        assert(rest[0] == names@[i as int]@);
        assert(rest.drop_first() =~= name_views(names@).subrange(i + 1, names.len() as int));
        if !check_known(infos, &names[i]) {
            return Some(string_of(&names[i]));
        }
        i += 1;
    }
    None
}

/// The passes of the registry `infos` that the lists `inclusions` and `exclusions`
/// choose, in the order of the registry. Each list holds names of passes
/// between commas; the name `all` stands for every pass, and an empty name
/// is passed over. A name that means nothing is an error: the first in
/// `inclusions`, or else the first in `exclusions`.
pub fn select(infos: &Vec<RenderPassInfo>, inclusions: &str, exclusions: &str) -> (r: Result<
    Vec<Pass>,
    Error,
>)
    ensures
        match r {
            Ok(passes) => first_unknown(entries_of(infos@), names_of(inclusions@, exclusions@))
                is None && passes@ == selection(
                entries_of(infos@),
                split_commas(inclusions@),
                split_commas(exclusions@),
            ),
            Err(e) => e is UnknownPass && first_unknown(
                entries_of(infos@),
                names_of(inclusions@, exclusions@),
            ) == Some(e.name()),
        },
{
    let inclusions = split_list(inclusions);
    let exclusions = split_list(exclusions);
    let ghost inc = name_views(inclusions@);
    let ghost exc = name_views(exclusions@);
    proof {
        lemma_first_unknown_concat(entries_of(infos@), inc, exc);
    }
    match find_unknown(infos, &inclusions) {
        Some(name) => {
            return Err(Error::UnknownPass(name));
        },
        None => {},
    }
    match find_unknown(infos, &exclusions) {
        Some(name) => {
            return Err(Error::UnknownPass(name));
        },
        None => {},
    }
    let all = chars_of("all");
    let all_included = names_contain(&inclusions, &all);
    let all_excluded = names_contain(&exclusions, &all);

    let mut output: Vec<Pass> = Vec::new();
    let mut i: usize = 0;
    assert(entries_of(infos@).subrange(0, 0) =~= Seq::<(Seq<char>, bool, Pass)>::empty());
    while i < infos.len()
        invariant
            i <= infos.len(),
            inc == name_views(inclusions@),
            exc == name_views(exclusions@),
            all_included == inc.contains(all_token()),
            all_excluded == exc.contains(all_token()),
            output@ == selection(entries_of(infos@).subrange(0, i as int), inc, exc),
        decreases infos.len() - i,
    {
        let ghost upto = entries_of(infos@).subrange(0, i + 1);
        assert(upto.drop_last() =~= entries_of(infos@).subrange(0, i as int));
        assert(upto.last() == entries_of(infos@)[i as int]);
        let info = &infos[i];
        let name = chars_of(info.name);
        let included = if names_contain(&inclusions, &name) {
            true
        } else if names_contain(&exclusions, &name) {
            false
        } else if all_included {
            true
        } else if all_excluded {
            false
        } else {
            info.default
        };
        if included {
            output.push(info.pass);
        }
        i += 1;
    }
    assert(entries_of(infos@).subrange(0, i as int) =~= entries_of(infos@));
    Ok(output)
}

/// The first name that means nothing in two lists, one after the other, is
/// the first in the first list, or else the first in the second.
pub proof fn lemma_first_unknown_concat(
    infos: Seq<(Seq<char>, bool, Pass)>,
    a: Seq<Seq<char>>,
    b: Seq<Seq<char>>,
)
    ensures
        first_unknown(infos, a + b) == match first_unknown(infos, a) {
            Some(n) => Some(n),
            None => first_unknown(infos, b),
        },
    decreases a.len(),
{
    if a.len() == 0 {
        assert(a + b =~= b);
    } else {
        assert((a + b)[0] == a[0]);
        assert((a + b).drop_first() =~= a.drop_first() + b);
        lemma_first_unknown_concat(infos, a.drop_first(), b);
    }
}

/// The passes of the library that the lists `inclusions` and `exclusions` choose,
/// in the order of the registry.
pub fn configure(inclusions: &str, exclusions: &str) -> (r: Result<Vec<Pass>, Error>)
    ensures
        match r {
            Ok(passes) => first_unknown(registry(), names_of(inclusions@, exclusions@)) is None
                && passes@ == selection(
                registry(),
                split_commas(inclusions@),
                split_commas(exclusions@),
            ),
            Err(e) => e is UnknownPass && first_unknown(
                registry(),
                names_of(inclusions@, exclusions@),
            ) == Some(e.name()),
        },
{
    let infos = render_passes();
    select(&infos, inclusions, exclusions)
}

/// The order of precedence in a configuration: a pass that the inclusion
/// list names takes part whatever else is said; one that only the exclusion
/// list names does not, even where the inclusion list holds the wildcard;
/// the wildcard of the exclusion list alone keeps out every pass that is not
/// named; and where neither list names the pass or holds the wildcard, the
/// pass goes by its default.
pub proof fn lemma_precedence(
    inclusions: Seq<Seq<char>>,
    exclusions: Seq<Seq<char>>,
    name: Seq<char>,
    default: bool,
)
    ensures
        inclusions.contains(name) ==> is_included(inclusions, exclusions, name, default),
        !inclusions.contains(name) && exclusions.contains(name) ==> !is_included(
            inclusions,
            exclusions,
            name,
            default,
        ),
        !inclusions.contains(name) && !exclusions.contains(name) && inclusions.contains(
            all_token(),
        ) ==> is_included(inclusions, exclusions, name, default),
        !inclusions.contains(name) && !inclusions.contains(all_token()) && exclusions.contains(
            all_token(),
        ) ==> !is_included(inclusions, exclusions, name, default),
        !inclusions.contains(name) && !exclusions.contains(name) && !inclusions.contains(
            all_token(),
        ) && !exclusions.contains(all_token()) ==> is_included(
            inclusions,
            exclusions,
            name,
            default,
        ) == default,
{
}

/// Whether the registry `entries` holds `pass` under a name that takes part.
pub open spec fn offered(
    entries: Seq<(Seq<char>, bool, Pass)>,
    inclusions: Seq<Seq<char>>,
    exclusions: Seq<Seq<char>>,
    pass: Pass,
) -> bool {
    exists|i: int|
        0 <= i < entries.len() && (#[trigger] entries[i]).2 == pass && is_included(
            inclusions,
            exclusions,
            entries[i].0,
            entries[i].1,
        )
}

/// A pass is chosen only if the registry holds it under a name that takes
/// part, and the chosen passes are no more than the registry holds.
pub proof fn lemma_selection_from_registry(
    entries: Seq<(Seq<char>, bool, Pass)>,
    inclusions: Seq<Seq<char>>,
    exclusions: Seq<Seq<char>>,
)
    ensures
        selection(entries, inclusions, exclusions).len() <= entries.len(),
        forall|k: int|
            0 <= k < selection(entries, inclusions, exclusions).len() ==> offered(
                entries,
                inclusions,
                exclusions,
                #[trigger] selection(entries, inclusions, exclusions)[k],
            ),
    decreases entries.len(),
{
    if entries.len() > 0 {
        let front = entries.drop_last();
        lemma_selection_from_registry(front, inclusions, exclusions);
        let chosen = selection(entries, inclusions, exclusions);
        let before = selection(front, inclusions, exclusions);
        assert forall|k: int| 0 <= k < chosen.len() implies offered(
            entries,
            inclusions,
            exclusions,
            #[trigger] chosen[k],
        ) by {
            if k < before.len() {
                assert(chosen[k] == before[k]);
                assert(offered(front, inclusions, exclusions, before[k]));
                let i = choose|i: int|
                    0 <= i < front.len() && (#[trigger] front[i]).2 == before[k] && is_included(
                        inclusions,
                        exclusions,
                        front[i].0,
                        front[i].1,
                    );
                assert(front[i] == entries[i]);
            } else {
                let i = entries.len() - 1;
                assert(entries[i].2 == chosen[k]);
            }
        }
    }
}

} // verus!
