use dmtools::ast::{Expression, PathOp, Prefab, Term, TypePath};
use dmtools::ast_same::same_path;
use dmtools::place::{EntryInput, Place};

fn path(names: &[&str]) -> TypePath {
    names.iter().map(|n| (PathOp::Slash, n.to_string())).collect()
}

fn fab(name: &str) -> Prefab {
    Prefab::new(path(&["obj", name]))
}

fn fab_with(name: &str, var: &str, value: i32) -> Prefab {
    let mut f = fab(name);
    f.set_var(var.to_string(), Expression::from(Term::Int(value)));
    f
}

fn tool(names: &[&str], current: usize) -> Place<u32> {
    let mut t = Place::new();
    for (i, n) in names.iter().enumerate() {
        t.add(fab(n), i as u32);
    }
    t.pal_current = current;
    t
}

fn names(t: &Place<u32>) -> Vec<String> {
    t.palette.iter().map(|e| e.fab.path[1].1.clone()).collect()
}

const NONE: EntryInput = EntryInput { select: false, remove: false };
const SELECT: EntryInput = EntryInput { select: true, remove: false };
const REMOVE: EntryInput = EntryInput { select: false, remove: true };

#[test]
fn new_tool_is_empty() {
    let t: Place<u32> = Place::new();
    assert!(t.palette.is_empty());
    assert_eq!(t.pal_current, 0);
    assert!(t.click().is_none());
}

#[test]
fn added_entry_becomes_current() {
    let mut t = tool(&["a", "b"], 0);
    t.add(fab("c"), 7);
    assert_eq!(names(&t), vec!["a", "b", "c"]);
    assert_eq!(t.pal_current, 2);
    assert_eq!(t.palette[2].extra, 7);
    assert_eq!(t.click(), Some(&fab("c")));
}

#[test]
fn click_gives_the_current_prefab() {
    let t = tool(&["a", "b", "c"], 1);
    assert_eq!(t.click(), Some(&fab("b")));
    let past = tool(&["a"], 1);
    assert_eq!(past.click(), None);
}

#[test]
fn settings_without_input_change_nothing() {
    let mut t = tool(&["a", "b", "c"], 2);
    t.settings(&vec![]);
    assert_eq!(names(&t), vec!["a", "b", "c"]);
    assert_eq!(t.pal_current, 2);
    t.settings(&vec![NONE, NONE, NONE, NONE]);
    assert_eq!(names(&t), vec!["a", "b", "c"]);
    assert_eq!(t.pal_current, 2);
}

#[test]
fn settings_select() {
    let mut t = tool(&["a", "b", "c"], 2);
    t.settings(&vec![NONE, SELECT]);
    assert_eq!(t.pal_current, 1);
    assert_eq!(names(&t), vec!["a", "b", "c"]);
}

#[test]
fn settings_remove_before_current() {
    let mut t = tool(&["a", "b", "c", "d"], 3);
    t.settings(&vec![REMOVE, REMOVE]);
    assert_eq!(names(&t), vec!["c", "d"]);
    assert_eq!(t.pal_current, 1);
    assert_eq!(t.palette[0].extra, 2);
}

#[test]
fn settings_remove_after_current() {
    let mut t = tool(&["a", "b", "c"], 0);
    t.settings(&vec![NONE, NONE, REMOVE]);
    assert_eq!(names(&t), vec!["a", "b"]);
    assert_eq!(t.pal_current, 0);
}

#[test]
fn settings_remove_current() {
    let mut t = tool(&["a", "b", "c"], 1);
    t.settings(&vec![NONE, REMOVE, NONE]);
    assert_eq!(names(&t), vec!["a", "c"]);
    assert_eq!(t.pal_current, 1);
}

#[test]
fn settings_counts_entries_by_their_first_place() {
    let mut t = tool(&["a", "b", "c", "d"], 2);
    t.settings(&vec![REMOVE, REMOVE]);
    assert_eq!(names(&t), vec!["c", "d"]);
    assert_eq!(t.pal_current, 1);
    let mut u = tool(&["a", "b", "c"], 0);
    u.settings(&vec![REMOVE, NONE, SELECT]);
    assert_eq!(names(&u), vec!["b", "c"]);
    assert_eq!(u.pal_current, 2);
}

#[test]
fn settings_select_and_remove_the_same_entry() {
    let mut t = tool(&["a", "b", "c"], 0);
    t.settings(&vec![NONE, EntryInput { select: true, remove: true }]);
    assert_eq!(names(&t), vec!["a", "c"]);
    assert_eq!(t.pal_current, 1);
}

#[test]
fn pick_finds_an_equal_prefab() {
    let mut t = tool(&["a", "b", "c"], 0);
    t.pick(fab("b"), 99);
    assert_eq!(t.pal_current, 1);
    assert_eq!(names(&t), vec!["a", "b", "c"]);
    assert_eq!(t.palette[1].extra, 1);
}

#[test]
fn pick_takes_the_first_of_equal_prefabs() {
    let mut t = tool(&["a", "b", "a"], 2);
    t.pick(fab("a"), 99);
    assert_eq!(t.pal_current, 0);
    assert_eq!(t.palette.len(), 3);
}

#[test]
fn pick_adds_an_unknown_prefab() {
    let mut t = tool(&["a", "b"], 0);
    t.pick(fab("z"), 99);
    assert_eq!(names(&t), vec!["a", "b", "z"]);
    assert_eq!(t.pal_current, 2);
    assert_eq!(t.palette[2].extra, 99);
}

#[test]
fn pick_compares_the_overrides() {
    let mut t: Place<u32> = Place::new();
    t.add(fab_with("a", "dir", 1), 0);
    t.add(fab_with("a", "dir", 2), 1);
    t.pick(fab_with("a", "dir", 2), 9);
    assert_eq!(t.pal_current, 1);
    assert_eq!(t.palette.len(), 2);
    t.pick(fab("a"), 9);
    assert_eq!(t.pal_current, 2);
    assert_eq!(t.palette.len(), 3);
    t.pick(fab_with("a", "name", 2), 9);
    assert_eq!(t.pal_current, 3);
}

#[test]
fn prefab_equality() {
    assert!(fab("a") == fab("a"));
    assert!(fab("a") != fab("b"));
    assert!(fab_with("a", "dir", 1) == fab_with("a", "dir", 1));
    assert!(fab_with("a", "dir", 1) != fab_with("a", "dir", 2));
    assert!(fab_with("a", "dir", 1) != fab_with("a", "name", 1));
    assert!(fab_with("a", "dir", 1) != fab("a"));
}

#[test]
fn prefab_equality_goes_by_order_of_overrides() {
    let mut x = fab("a");
    x.set_var("p".to_string(), Expression::from(Term::Int(1)));
    x.set_var("q".to_string(), Expression::from(Term::Int(2)));
    let mut y = fab("a");
    y.set_var("q".to_string(), Expression::from(Term::Int(2)));
    y.set_var("p".to_string(), Expression::from(Term::Int(1)));
    assert!(x != y);
    x.set_var("p".to_string(), Expression::from(Term::Int(1)));
    assert!(x == y);
}

#[test]
fn prefab_clone_holds_the_same() {
    let mut x = fab_with("a", "dir", 4);
    x.set_var("name".to_string(), Expression::from(Term::String("crate".to_string())));
    let y = x.clone();
    assert_eq!(x, y);
    assert_eq!(y.var_count(), 2);
    assert_eq!(y.get_var("dir"), Some(&Expression::from(Term::Int(4))));
    x.set_var("dir".to_string(), Expression::from(Term::Int(8)));
    assert_eq!(y.get_var("dir"), Some(&Expression::from(Term::Int(4))));
    assert!(x != y);
}

#[test]
fn path_equality() {
    assert!(same_path(&path(&["obj", "item"]), &path(&["obj", "item"])));
    assert!(!same_path(&path(&["obj", "item"]), &path(&["obj"])));
    assert!(!same_path(&path(&["obj", "item"]), &path(&["obj", "items"])));
    let dotted: TypePath = vec![(PathOp::Slash, "obj".to_string()), (PathOp::Dot, "item".to_string())];
    assert!(!same_path(&path(&["obj", "item"]), &dotted));
    assert!(same_path(&path(&[]), &path(&[])));
}
