use dmtools::constants::Constant;
use dmtools::minimap::{Atom, Sprite};
use dmtools::objtree::{ObjectTree, TypeDef};
use dmtools::render_passes::{
    fancy_layer_for_path, FakeGlass, FancyLayers, HideAreas, HideInvisible, HideSpace, Pipes,
    Pretty, RenderPass, Wires,
};

fn atom(path: &str) -> Atom {
    Atom::from_type(path, (3, 4, 1))
}

fn with(path: &str, vars: Vec<(&str, Constant)>) -> Atom {
    let mut a = atom(path);
    for (k, v) in vars {
        a.set_var(k, v);
    }
    a
}

fn icon_state(a: &Atom, tree: &ObjectTree) -> Constant {
    a.var_or_null("icon_state", tree)
}

fn states(atoms: &[Atom], tree: &ObjectTree) -> Vec<Constant> {
    atoms.iter().map(|a| icon_state(a, tree)).collect()
}

fn s(text: &str) -> Constant {
    Constant::String(text.to_string())
}

#[test]
fn hide_space_expands_placeholder() {
    let tree = ObjectTree::new();
    let mut out = Vec::new();
    let consumed = HideSpace.expand(&atom("/turf/template_noop"), &tree, &mut out);
    assert!(consumed);
    assert_eq!(out.len(), 1);
    assert_eq!(out[0].get_path(), "/turf/open/space");
    assert_eq!(out[0].loc, (3, 4, 1));
    assert!(out[0].vars.is_empty());
}

#[test]
fn hide_space_leaves_other_atoms() {
    let tree = ObjectTree::new();
    let mut out = vec![atom("/obj/kept")];
    assert!(!HideSpace.expand(&atom("/turf/open/floor"), &tree, &mut out));
    assert!(!HideSpace.expand(&atom("/turf/template_noops"), &tree, &mut out));
    assert_eq!(out.len(), 1);
    assert_eq!(out[0].get_path(), "/obj/kept");
}

#[test]
fn hide_space_discards_space_late() {
    let tree = ObjectTree::new();
    assert!(!HideSpace.late_filter(&atom("/turf/open/space"), &tree));
    assert!(!HideSpace.late_filter(&atom("/turf/open/space/basic"), &tree));
    assert!(HideSpace.late_filter(&atom("/turf/open/floor"), &tree));
    assert!(HideSpace.late_filter(&atom("/turf/template_noop"), &tree));
}

#[test]
fn hide_space_neutral_hooks() {
    let tree = ObjectTree::new();
    let mut a = with("/turf/open/space", vec![("dir", Constant::Int(2))]);
    let copy = a.clone();
    assert!(HideSpace.path_filter("/turf/open/space"));
    assert!(HideSpace.early_filter(&a, &tree));
    HideSpace.adjust_vars(&mut a, &tree);
    let mut sprite = Sprite { plane: 5, layer: 7 };
    HideSpace.adjust_sprite(&a, &mut sprite, &tree);
    let mut under = Vec::new();
    let mut over = Vec::new();
    HideSpace.overlays(&mut a, &tree, &mut under, &mut over);
    assert_eq!(a, copy);
    assert_eq!(sprite, Sprite { plane: 5, layer: 7 });
    assert!(under.is_empty() && over.is_empty());
}

#[test]
fn hide_areas_rejects_area_paths() {
    assert!(!HideAreas.path_filter("/area"));
    assert!(!HideAreas.path_filter("/area/station/bridge"));
    assert!(HideAreas.path_filter("/areas"));
    assert!(HideAreas.path_filter("/turf/open"));
    assert!(HideAreas.path_filter("/obj/area"));
}

#[test]
fn hide_invisible_by_invisibility() {
    let tree = ObjectTree::new();
    assert!(!HideInvisible.early_filter(&with("/obj/a", vec![("invisibility", Constant::Int(101))]), &tree));
    assert!(!HideInvisible.early_filter(&with("/obj/a", vec![("invisibility", Constant::Int(61))]), &tree));
    assert!(HideInvisible.early_filter(&with("/obj/a", vec![("invisibility", Constant::Int(60))]), &tree));
    assert!(HideInvisible.early_filter(&with("/obj/a", vec![("invisibility", Constant::Int(0))]), &tree));
    let f = |x: f32| Constant::Float(dmtools::ast::FloatBits { bits: x.to_bits() });
    assert!(!HideInvisible.early_filter(&with("/obj/a", vec![("invisibility", f(60.5))]), &tree));
    assert!(HideInvisible.early_filter(&with("/obj/a", vec![("invisibility", f(60.0))]), &tree));
    assert!(HideInvisible.early_filter(&with("/obj/a", vec![("invisibility", f(-100.0))]), &tree));
}

#[test]
fn hide_invisible_missing_invisibility_counts_as_zero() {
    let tree = ObjectTree::new();
    assert!(HideInvisible.early_filter(&atom("/obj/a"), &tree));
    assert!(HideInvisible.early_filter(&with("/obj/a", vec![("invisibility", Constant::Null)]), &tree));
    assert!(HideInvisible.early_filter(&with("/obj/a", vec![("invisibility", s("101"))]), &tree));
}

#[test]
fn hide_invisible_inherited_invisibility() {
    let tree = ObjectTree {
        types: vec![TypeDef { path: "/obj/effect".to_string(), vars: vec![("invisibility".to_string(), Constant::Int(101))] }],
    };
    assert!(!HideInvisible.early_filter(&atom("/obj/effect/landmark"), &tree));
    assert!(HideInvisible.early_filter(&with("/obj/effect/landmark", vec![("invisibility", Constant::Int(0))]), &tree));
    assert!(HideInvisible.early_filter(&atom("/obj/item"), &tree));
}

#[test]
fn hide_invisible_mapping_helpers() {
    let tree = ObjectTree::new();
    assert!(!HideInvisible.early_filter(&atom("/obj/effect/mapping_helpers"), &tree));
    assert!(!HideInvisible.early_filter(&atom("/obj/effect/mapping_helpers/airlock"), &tree));
    assert!(HideInvisible.early_filter(&atom("/obj/effect/decal"), &tree));
}

#[test]
fn hide_invisible_disguised_balloon() {
    let tree = ObjectTree::new();
    let vars = || vec![("icon", s("icons/obj/items_and_weapons.dmi")), ("icon_state", s("syndballoon"))];
    assert!(!HideInvisible.early_filter(&with("/obj/effect/spawner", vars()), &tree));
    assert!(HideInvisible.early_filter(&with("/obj/item/toy/syndicateballoon", vars()), &tree));
    assert!(HideInvisible.early_filter(&with("/obj/item/toy/syndicateballoon/red", vars()), &tree));
    assert!(HideInvisible.early_filter(
        &with("/obj/effect/spawner", vec![("icon", s("icons/obj/items_and_weapons.dmi")), ("icon_state", s("balloon"))]),
        &tree
    ));
    assert!(HideInvisible.early_filter(
        &with("/obj/effect/spawner", vec![("icon", s("icons/obj/toy.dmi")), ("icon_state", s("syndballoon"))]),
        &tree
    ));
    assert!(!HideInvisible.early_filter(
        &with("/obj/x", vec![("icon", Constant::Resource("icons/obj/items_and_weapons.dmi".to_string())), ("icon_state", s("syndballoon"))]),
        &tree
    ));
}

#[test]
fn fake_glass_underlays() {
    let tree = ObjectTree::new();
    let mut a = with(
        "/turf/closed/indestructible/fakeglass",
        vec![("icon", s("icons/turf/walls.dmi")), ("icon_state", s("fake_window"))],
    );
    let mut under = Vec::new();
    let mut over = Vec::new();
    FakeGlass.overlays(&mut a, &tree, &mut under, &mut over);
    assert_eq!(under.len(), 2);
    assert!(over.is_empty());
    assert_eq!(under[0].get_var("icon", &tree), Ok(&s("icons/turf/floors.dmi")));
    assert_eq!(under[0].get_var("icon_state", &tree), Ok(&s("plating")));
    assert_eq!(under[1].get_var("icon", &tree), Ok(&s("icons/obj/structures.dmi")));
    assert_eq!(under[1].get_var("icon_state", &tree), Ok(&s("grille")));
    assert_eq!(under[0].get_path(), "/turf/closed/indestructible/fakeglass");
    assert_eq!(under[1].loc, (3, 4, 1));
    assert_eq!(a.get_var("icon", &tree), Ok(&s("icons/turf/walls.dmi")));
    assert_eq!(a.get_var("icon_state", &tree), Ok(&s("fake_window")));
}

#[test]
fn fake_glass_leaves_other_turfs() {
    let tree = ObjectTree::new();
    let mut a = atom("/turf/closed/indestructible");
    let mut under = vec![atom("/obj/earlier")];
    let mut over = Vec::new();
    FakeGlass.overlays(&mut a, &tree, &mut under, &mut over);
    assert_eq!(under.len(), 1);
    assert!(over.is_empty());
}

#[test]
fn pretty_bookcase() {
    let tree = ObjectTree::new();
    let mut a = with("/obj/structure/bookcase/manuals", vec![("icon_state", s("book-5"))]);
    Pretty.adjust_vars(&mut a, &tree);
    assert_eq!(icon_state(&a, &tree), s("book-0"));
    let mut b = with("/obj/structure/table", vec![("icon_state", s("table"))]);
    Pretty.adjust_vars(&mut b, &tree);
    assert_eq!(icon_state(&b, &tree), s("table"));
}

fn overlays_of(a: &Atom, tree: &ObjectTree) -> Vec<Atom> {
    let mut a = a.clone();
    let mut under = Vec::new();
    let mut over = Vec::new();
    Pretty.overlays(&mut a, tree, &mut under, &mut over);
    assert!(under.is_empty());
    over
}

#[test]
fn pretty_box_illustration() {
    let tree = ObjectTree::new();
    let over = overlays_of(&with("/obj/item/storage/box/donk", vec![("illustration", s("donk"))]), &tree);
    assert_eq!(states(&over, &tree), vec![s("donk")]);
    let none = overlays_of(&with("/obj/item/storage/box/papersack", vec![("illustration", s("x"))]), &tree);
    assert!(none.is_empty());
    let missing = overlays_of(&atom("/obj/item/storage/box"), &tree);
    assert_eq!(states(&missing, &tree), vec![Constant::Null]);
}

#[test]
fn pretty_fire_alarm() {
    let tree = ObjectTree::new();
    let over = overlays_of(&atom("/obj/machinery/firealarm"), &tree);
    assert_eq!(states(&over, &tree), vec![s("fire_overlay"), s("fire_0"), s("fire_off")]);
}

fn dispenser(oxygen: Constant, plasma: Constant) -> Atom {
    with("/obj/structure/tank_dispenser", vec![("oxygentanks", oxygen), ("plasmatanks", plasma)])
}

#[test]
fn pretty_tank_dispenser_oxygen() {
    let tree = ObjectTree::new();
    let none = Constant::Int(0);
    assert!(overlays_of(&dispenser(Constant::Int(0), none.clone()), &tree).is_empty());
    assert_eq!(states(&overlays_of(&dispenser(Constant::Int(2), none.clone()), &tree), &tree), vec![s("oxygen-2")]);
    assert_eq!(states(&overlays_of(&dispenser(Constant::Int(5), none.clone()), &tree), &tree), vec![s("oxygen-4")]);
    assert_eq!(states(&overlays_of(&dispenser(Constant::Int(1), none.clone()), &tree), &tree), vec![s("oxygen-1")]);
    assert_eq!(states(&overlays_of(&dispenser(Constant::Int(3), none.clone()), &tree), &tree), vec![s("oxygen-3")]);
    assert_eq!(states(&overlays_of(&dispenser(Constant::Int(4), none.clone()), &tree), &tree), vec![s("oxygen-4")]);
    assert!(overlays_of(&dispenser(Constant::Int(-1), none.clone()), &tree).is_empty());
}

#[test]
fn pretty_tank_dispenser_plasma() {
    let tree = ObjectTree::new();
    let none = Constant::Int(0);
    assert_eq!(states(&overlays_of(&dispenser(none.clone(), Constant::Int(4)), &tree), &tree), vec![s("plasma-4")]);
    assert_eq!(states(&overlays_of(&dispenser(none.clone(), Constant::Int(5)), &tree), &tree), vec![s("plasma-5")]);
    assert_eq!(states(&overlays_of(&dispenser(none.clone(), Constant::Int(9)), &tree), &tree), vec![s("plasma-5")]);
    assert_eq!(states(&overlays_of(&dispenser(none.clone(), Constant::Int(1)), &tree), &tree), vec![s("plasma-1")]);
}

#[test]
fn pretty_tank_dispenser_both_and_neither() {
    let tree = ObjectTree::new();
    let both = overlays_of(&dispenser(Constant::Int(7), Constant::Int(2)), &tree);
    assert_eq!(states(&both, &tree), vec![s("oxygen-4"), s("plasma-2")]);
    let odd = overlays_of(&dispenser(s("3"), Constant::Null), &tree);
    assert!(odd.is_empty());
    assert!(overlays_of(&atom("/obj/structure/tank_dispenser"), &tree).is_empty());
}

#[test]
fn pretty_tank_counts_from_the_type() {
    let tree = ObjectTree {
        types: vec![TypeDef {
            path: "/obj/structure/tank_dispenser".to_string(),
            vars: vec![("oxygentanks".to_string(), Constant::Int(10)), ("plasmatanks".to_string(), Constant::Int(10))],
        }],
    };
    let over = overlays_of(&atom("/obj/structure/tank_dispenser/oxygen"), &tree);
    assert_eq!(states(&over, &tree), vec![s("oxygen-4"), s("plasma-5")]);
}

#[test]
fn wires_keep_only_cables() {
    let tree = ObjectTree::new();
    assert!(Wires.late_filter(&atom("/obj/structure/cable"), &tree));
    assert!(Wires.late_filter(&atom("/obj/structure/cable/yellow"), &tree));
    assert!(!Wires.late_filter(&atom("/obj/structure/table"), &tree));
    assert!(!Wires.late_filter(&atom("/turf/open/floor"), &tree));
}

#[test]
fn pipes_keep_only_pipes() {
    let tree = ObjectTree::new();
    assert!(Pipes.late_filter(&atom("/obj/machinery/atmospherics/pipe"), &tree));
    assert!(Pipes.late_filter(&atom("/obj/machinery/atmospherics/pipe/simple"), &tree));
    assert!(!Pipes.late_filter(&atom("/obj/machinery/atmospherics/components"), &tree));
    assert!(!Pipes.late_filter(&atom("/obj/structure/cable"), &tree));
}

#[test]
fn fancy_layer_rules() {
    assert_eq!(fancy_layer_for_path("/obj/machinery/atmospherics/pipe/something"), Some(-5000));
    assert_eq!(fancy_layer_for_path("/turf/closed/something"), Some(-2000));
    assert_eq!(fancy_layer_for_path("/turf/open/floor/plating"), Some(-10000));
    assert_eq!(fancy_layer_for_path("/turf/open/floor/plating/asteroid"), Some(-10000));
    assert_eq!(fancy_layer_for_path("/turf/open/space"), Some(-10000));
    assert_eq!(fancy_layer_for_path("/turf/closed/mineral/iron"), Some(-3000));
    assert_eq!(fancy_layer_for_path("/turf/open/floor/wood"), Some(-2000));
    assert_eq!(fancy_layer_for_path("/turf/closed"), Some(-2000));
    assert_eq!(fancy_layer_for_path("/turf/open/water"), Some(-10000));
    assert_eq!(fancy_layer_for_path("/turf"), Some(-10000));
    assert_eq!(fancy_layer_for_path("/obj/effect/turf_decal/stripes"), Some(-1000));
    assert_eq!(fancy_layer_for_path("/obj/structure/disposalpipe/segment"), Some(-6000));
    assert_eq!(fancy_layer_for_path("/obj/structure/cable"), Some(-4000));
    assert_eq!(fancy_layer_for_path("/obj/machinery/power/terminal"), Some(-3500));
    assert_eq!(fancy_layer_for_path("/obj/structure/lattice/catwalk"), Some(-8000));
    assert_eq!(fancy_layer_for_path("/obj/machinery/navbeacon"), Some(-3000));
}

#[test]
fn fancy_layer_unmatched_and_visible_pipes() {
    assert_eq!(fancy_layer_for_path("/obj/machinery/atmospherics/pipe/simple/general/visible"), None);
    assert_eq!(fancy_layer_for_path("/obj/machinery/atmospherics/pipe/simple/general/hidden"), Some(-5000));
    assert_eq!(fancy_layer_for_path("/obj/item/toy"), None);
    assert_eq!(fancy_layer_for_path("/mob/living"), None);
    assert_eq!(fancy_layer_for_path("/turfs"), None);
    assert_eq!(fancy_layer_for_path(""), None);
}

#[test]
fn fancy_layers_adjust_sprite() {
    let tree = ObjectTree::new();
    let mut sprite = Sprite { plane: 3, layer: 42 };
    FancyLayers.adjust_sprite(&atom("/obj/structure/cable"), &mut sprite, &tree);
    assert_eq!(sprite, Sprite { plane: 0, layer: -4000 });
    let mut sprite = Sprite { plane: 3, layer: 42 };
    FancyLayers.adjust_sprite(&atom("/obj/item/toy"), &mut sprite, &tree);
    assert_eq!(sprite, Sprite { plane: 0, layer: 42 });
}
