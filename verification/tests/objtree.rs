use dmtools::constants::Constant;
use dmtools::error::Error;
use dmtools::minimap::Atom;
use dmtools::objtree::{find_var, same_chars, ObjectTree, TypeDef};
use dmtools::text::chars_of;

fn def(path: &str, vars: Vec<(&str, Constant)>) -> TypeDef {
    TypeDef { path: path.to_string(), vars: vars.into_iter().map(|(k, v)| (k.to_string(), v)).collect() }
}

fn tree() -> ObjectTree {
    ObjectTree {
        types: vec![
            def("", vec![("invisibility", Constant::Int(0))]),
            def("/obj", vec![("icon", Constant::Resource("icons/obj/obj.dmi".to_string())), ("layer", Constant::Int(3))]),
            def("/obj/item", vec![("icon", Constant::Resource("icons/obj/items.dmi".to_string()))]),
            def("/obj/item/toy", vec![("name", Constant::String("toy".to_string()))]),
        ],
    }
}

#[test]
fn empty_tree_defines_nothing() {
    let t = ObjectTree::new();
    assert_eq!(t.types.len(), 0);
    assert_eq!(t.get_var("/obj", "icon"), Err(Error::UndefinedVariable("icon".to_string())));
}

#[test]
fn own_variable_is_found() {
    let t = tree();
    assert_eq!(t.get_var("/obj/item", "icon"), Ok(&Constant::Resource("icons/obj/items.dmi".to_string())));
    assert_eq!(t.get_var("/obj", "icon"), Ok(&Constant::Resource("icons/obj/obj.dmi".to_string())));
}

#[test]
fn nearest_override_wins() {
    let t = tree();
    assert_eq!(t.get_var("/obj/item/toy", "icon"), Ok(&Constant::Resource("icons/obj/items.dmi".to_string())));
    assert_eq!(t.get_var("/obj/item/toy", "layer"), Ok(&Constant::Int(3)));
    assert_eq!(t.get_var("/obj/item/toy", "name"), Ok(&Constant::String("toy".to_string())));
}

#[test]
fn root_variables_are_inherited() {
    let t = tree();
    assert_eq!(t.get_var("/obj/item/toy", "invisibility"), Ok(&Constant::Int(0)));
    assert_eq!(t.get_var("/turf", "invisibility"), Ok(&Constant::Int(0)));
    assert_eq!(t.get_var("", "invisibility"), Ok(&Constant::Int(0)));
}

#[test]
fn types_missing_from_the_tree_are_passed_over() {
    let t = tree();
    assert_eq!(t.get_var("/obj/item/toy/balloon/red", "name"), Ok(&Constant::String("toy".to_string())));
    assert_eq!(t.get_var("/obj/structure", "layer"), Ok(&Constant::Int(3)));
}

#[test]
fn undefined_variable_is_an_error() {
    let t = tree();
    assert_eq!(t.get_var("/obj/item", "name"), Err(Error::UndefinedVariable("name".to_string())));
    assert_eq!(t.get_var("/turf", "icon"), Err(Error::UndefinedVariable("icon".to_string())));
}

#[test]
fn names_are_compared_whole() {
    let t = tree();
    assert_eq!(t.get_var("/obj/items", "icon"), Ok(&Constant::Resource("icons/obj/obj.dmi".to_string())));
    assert_eq!(t.get_var("/object", "icon"), Err(Error::UndefinedVariable("icon".to_string())));
}

#[test]
fn first_definition_counts() {
    let vars = vec![
        ("a".to_string(), Constant::Int(1)),
        ("b".to_string(), Constant::Int(2)),
        ("a".to_string(), Constant::Int(3)),
    ];
    assert_eq!(find_var(&vars, &chars_of("a")), Some(0));
    assert_eq!(find_var(&vars, &chars_of("b")), Some(1));
    assert_eq!(find_var(&vars, &chars_of("c")), None);
}

#[test]
fn character_lists_compare() {
    assert!(same_chars(&chars_of("abc"), &chars_of("abc")));
    assert!(!same_chars(&chars_of("abc"), &chars_of("abd")));
    assert!(!same_chars(&chars_of("abc"), &chars_of("ab")));
}

#[test]
fn error_messages() {
    assert_eq!(Error::UndefinedVariable("icon".to_string()).message(), "undefined variable: icon");
    assert_eq!(Error::UnknownPass("x".to_string()).message(), "unknown pass: x");
    assert_eq!(Error::UnresolvedReference("f".to_string()).message(), "unresolved reference: f");
}

#[test]
fn atom_of_a_type() {
    let a = Atom::from_type("/turf/open/space", (1, 2, 3));
    assert_eq!(a.get_path(), "/turf/open/space");
    assert_eq!(a.loc, (1, 2, 3));
    assert!(a.vars.is_empty());
    assert!(a.istype("/turf/open/"));
    assert!(a.istype("/turf/open/space/"));
    assert!(!a.istype("/turf/closed/"));
}

#[test]
fn atom_variables_override_the_type() {
    let t = tree();
    let mut a = Atom::from_type("/obj/item/toy", (0, 0, 1));
    assert_eq!(a.get_var("icon", &t), Ok(&Constant::Resource("icons/obj/items.dmi".to_string())));
    a.set_var("icon", Constant::string("mine.dmi"));
    assert_eq!(a.get_var("icon", &t), Ok(&Constant::String("mine.dmi".to_string())));
    a.set_var("icon", Constant::string("other.dmi"));
    assert_eq!(a.get_var("icon", &t), Ok(&Constant::String("other.dmi".to_string())));
    assert_eq!(a.vars.len(), 1);
    assert_eq!(a.get_var("layer", &t), Ok(&Constant::Int(3)));
    assert_eq!(a.get_var("nothing", &t), Err(Error::UndefinedVariable("nothing".to_string())));
}

#[test]
fn atom_variable_helpers() {
    let t = tree();
    let mut a = Atom::from_type("/obj/item", (0, 0, 1));
    assert!(a.var_reads("icon", "icons/obj/items.dmi", &t));
    assert!(!a.var_reads("icon", "icons/obj/obj.dmi", &t));
    assert!(!a.var_reads("missing", "", &t));
    assert_eq!(a.var_or_null("missing", &t), Constant::Null);
    assert_eq!(a.var_or_null("layer", &t), Constant::Int(3));
    a.set_var("invisibility", Constant::Int(101));
    let sixty = dmtools::ast::FloatBits { bits: 60.0f32.to_bits() };
    assert!(a.var_is_above("invisibility", 60, sixty, &t));
    assert!(!a.var_is_above("layer", 60, sixty, &t));
    assert!(!a.var_is_above("missing", 60, sixty, &t));
}

#[test]
fn atom_clone_is_independent() {
    let t = tree();
    let mut a = Atom::from_type("/obj/item", (4, 5, 6));
    a.set_var("dir", Constant::Int(2));
    let mut b = a.clone();
    assert_eq!(a, b);
    b.set_var("dir", Constant::Int(8));
    assert_eq!(a.get_var("dir", &t), Ok(&Constant::Int(2)));
    assert_eq!(b.get_var("dir", &t), Ok(&Constant::Int(8)));
}
