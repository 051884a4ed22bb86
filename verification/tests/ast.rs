use dmtools::ast::{
    is_subtype, AssignOp, BinaryOp, Expression, FloatBits, Follow, PathOp, Prefab, Term, TypePath,
    UnaryOp,
};

fn path(names: &[&str]) -> TypePath {
    names.iter().map(|n| (PathOp::Slash, n.to_string())).collect()
}

fn bare(term: Term) -> Expression {
    Expression::from(term)
}

#[test]
fn compound_assignments_map_to_their_operator() {
    assert_eq!(AssignOp::AddAssign.binop(), Some(BinaryOp::Add));
    assert_eq!(AssignOp::SubAssign.binop(), Some(BinaryOp::Sub));
    assert_eq!(AssignOp::MulAssign.binop(), Some(BinaryOp::Mul));
    assert_eq!(AssignOp::DivAssign.binop(), Some(BinaryOp::Div));
    assert_eq!(AssignOp::BitAndAssign.binop(), Some(BinaryOp::BitAnd));
    assert_eq!(AssignOp::BitOrAssign.binop(), Some(BinaryOp::BitOr));
    assert_eq!(AssignOp::BitXorAssign.binop(), Some(BinaryOp::BitXor));
    assert_eq!(AssignOp::LShiftAssign.binop(), Some(BinaryOp::LShift));
    assert_eq!(AssignOp::RShiftAssign.binop(), Some(BinaryOp::RShift));
}

#[test]
fn plain_assignment_has_no_operator() {
    assert_eq!(AssignOp::Assign.binop(), None);
}

#[test]
fn operators_map_back_to_their_assignment() {
    assert_eq!(BinaryOp::Add.assignop(), Some(AssignOp::AddAssign));
    assert_eq!(BinaryOp::Sub.assignop(), Some(AssignOp::SubAssign));
    assert_eq!(BinaryOp::Mul.assignop(), Some(AssignOp::MulAssign));
    assert_eq!(BinaryOp::Div.assignop(), Some(AssignOp::DivAssign));
    assert_eq!(BinaryOp::BitAnd.assignop(), Some(AssignOp::BitAndAssign));
    assert_eq!(BinaryOp::BitOr.assignop(), Some(AssignOp::BitOrAssign));
    assert_eq!(BinaryOp::BitXor.assignop(), Some(AssignOp::BitXorAssign));
    assert_eq!(BinaryOp::LShift.assignop(), Some(AssignOp::LShiftAssign));
    assert_eq!(BinaryOp::RShift.assignop(), Some(AssignOp::RShiftAssign));
}

#[test]
fn operators_without_assignment_form() {
    for op in [
        BinaryOp::Pow,
        BinaryOp::Mod,
        BinaryOp::Less,
        BinaryOp::Greater,
        BinaryOp::LessEq,
        BinaryOp::GreaterEq,
        BinaryOp::Eq,
        BinaryOp::NotEq,
        BinaryOp::And,
        BinaryOp::Or,
    ] {
        assert_eq!(op.assignop(), None);
    }
}

#[test]
fn assignment_and_operator_are_inverse() {
    for a in [
        AssignOp::AddAssign,
        AssignOp::SubAssign,
        AssignOp::MulAssign,
        AssignOp::DivAssign,
        AssignOp::BitAndAssign,
        AssignOp::BitOrAssign,
        AssignOp::BitXorAssign,
        AssignOp::LShiftAssign,
        AssignOp::RShiftAssign,
    ] {
        assert_eq!(a.binop().unwrap().assignop(), Some(a));
    }
}

#[test]
fn term_wraps_into_bare_expression() {
    let e = bare(Term::Int(5));
    assert_eq!(e, Expression::Base { unary: vec![], term: Term::Int(5), follow: vec![] });
}

#[test]
fn round_trip_of_literals() {
    for make in [
        || Term::Null,
        || Term::Int(-7),
        || Term::Float(FloatBits { bits: 1.5f32.to_bits() }),
        || Term::String("hello".to_string()),
        || Term::Resource("icons/a.dmi".to_string()),
        || Term::Ident("x".to_string()),
        || Term::Call("rgb".to_string(), vec![]),
        || Term::List(vec![]),
    ] {
        assert_eq!(Term::from(Expression::from(make())), make());
    }
}

#[test]
fn round_trip_keeps_parenthesized_operation() {
    let make = || {
        Term::Expr(Box::new(Expression::BinaryOp {
            op: BinaryOp::Add,
            lhs: Box::new(bare(Term::Int(1))),
            rhs: Box::new(bare(Term::Int(2))),
        }))
    };
    assert_eq!(Term::from(Expression::from(make())), make());
}

#[test]
fn nested_parentheses_collapse() {
    let inner = bare(Term::Int(3));
    let twice = bare(Term::Expr(Box::new(bare(Term::Expr(Box::new(inner))))));
    assert_eq!(Term::from(twice), Term::Int(3));
}

#[test]
fn expression_with_unary_stays_boxed() {
    let e = Expression::Base { unary: vec![UnaryOp::Not, UnaryOp::Neg], term: Term::Ident("x".to_string()), follow: vec![] };
    let expected = Expression::Base { unary: vec![UnaryOp::Not, UnaryOp::Neg], term: Term::Ident("x".to_string()), follow: vec![] };
    assert_eq!(Term::from(e), Term::Expr(Box::new(expected)));
}

#[test]
fn expression_with_follow_stays_boxed() {
    let make = || Expression::Base {
        unary: vec![],
        term: Term::Ident("x".to_string()),
        follow: vec![Follow::Field("y".to_string())],
    };
    assert_eq!(Term::from(make()), Term::Expr(Box::new(make())));
}

#[test]
fn assignment_becomes_parenthesized_term() {
    let make = || Expression::AssignOp {
        op: AssignOp::AddAssign,
        lhs: Box::new(bare(Term::Ident("x".to_string()))),
        rhs: Box::new(bare(Term::Int(1))),
    };
    assert_eq!(Term::from(make()), Term::Expr(Box::new(make())));
}

#[test]
fn conversion_is_idempotent() {
    let make = || {
        bare(Term::Expr(Box::new(Expression::Base {
            unary: vec![UnaryOp::Neg],
            term: Term::Int(4),
            follow: vec![],
        })))
    };
    let once = Term::from(make());
    let again = Term::from(Expression::from(Term::from(make())));
    assert_eq!(once, again);
}

#[test]
fn subtype_is_reflexive() {
    let a = path(&["obj", "structure", "bookcase"]);
    assert!(is_subtype(&a, &a));
    let root = path(&[]);
    assert!(is_subtype(&root, &root));
}

#[test]
fn subtype_goes_by_whole_segments() {
    let a = path(&["obj", "structure", "bookcase"]);
    assert!(is_subtype(&a, &path(&["obj", "structure"])));
    assert!(is_subtype(&a, &path(&["obj"])));
    assert!(is_subtype(&a, &path(&[])));
    assert!(!is_subtype(&a, &path(&["obj", "struct"])));
    assert!(!is_subtype(&path(&["obj"]), &a));
    assert!(!is_subtype(&path(&["objects"]), &path(&["obj"])));
}

#[test]
fn subtype_is_transitive() {
    let a = path(&["turf", "open", "floor", "plating"]);
    let b = path(&["turf", "open", "floor"]);
    let c = path(&["turf"]);
    assert!(is_subtype(&a, &b));
    assert!(is_subtype(&b, &c));
    assert!(is_subtype(&a, &c));
}

#[test]
fn subtype_ignores_separators() {
    let a: TypePath = vec![(PathOp::Slash, "obj".to_string()), (PathOp::Dot, "item".to_string())];
    let b: TypePath = vec![(PathOp::Colon, "obj".to_string())];
    assert!(is_subtype(&a, &b));
}

#[test]
fn new_prefab_overrides_nothing() {
    let fab = Prefab::new(path(&["obj", "item"]));
    assert_eq!(fab.var_count(), 0);
    assert_eq!(fab.get_var("name"), None);
    assert_eq!(fab.path, path(&["obj", "item"]));
}

#[test]
fn prefab_keeps_what_was_set() {
    let mut fab = Prefab::new(path(&["obj"]));
    assert_eq!(fab.set_var("name".to_string(), bare(Term::String("box".to_string()))), None);
    assert_eq!(fab.set_var("dir".to_string(), bare(Term::Int(4))), None);
    assert_eq!(fab.var_count(), 2);
    assert_eq!(fab.get_var("name"), Some(&bare(Term::String("box".to_string()))));
    assert_eq!(fab.get_var("dir"), Some(&bare(Term::Int(4))));
    assert_eq!(fab.get_var("icon"), None);
}

#[test]
fn prefab_overwrites_duplicate_names() {
    let mut fab = Prefab::new(path(&["obj"]));
    fab.set_var("dir".to_string(), bare(Term::Int(1)));
    fab.set_var("name".to_string(), bare(Term::Null));
    let before = fab.set_var("dir".to_string(), bare(Term::Int(2)));
    assert_eq!(before, Some(bare(Term::Int(1))));
    assert_eq!(fab.var_count(), 2);
    assert_eq!(fab.get_var("dir"), Some(&bare(Term::Int(2))));
}

fn sample() -> Expression {
    Expression::BinaryOp {
        op: BinaryOp::Add,
        lhs: Box::new(Expression::Base {
            unary: vec![UnaryOp::Not, UnaryOp::Neg],
            term: Term::Call("rand".to_string(), vec![bare(Term::Int(1)), bare(Term::Float(FloatBits { bits: 7 }))]),
            follow: vec![
                Follow::Field("x".to_string()),
                Follow::Index(Box::new(bare(Term::Ident("i".to_string())))),
                Follow::Call("f".to_string(), vec![bare(Term::Null)]),
            ],
        }),
        rhs: Box::new(bare(Term::List(vec![
            (bare(Term::String("k".to_string())), Some(bare(Term::Resource("r.dmi".to_string())))),
            (bare(Term::Prefab(Prefab::new(path(&["obj"])))), None),
            (
                bare(Term::New { type_: dmtools::ast::NewType::Ident("T".to_string()), args: vec![bare(Term::Int(2))] }),
                None,
            ),
        ]))),
    }
}

#[test]
fn clone_holds_the_same() {
    let e = sample();
    assert_eq!(e.clone(), e);
    assert_eq!(Term::Expr(Box::new(sample())).clone(), Term::Expr(Box::new(sample())));
    assert_eq!(Follow::Index(Box::new(sample())).clone(), Follow::Index(Box::new(sample())));
}

#[test]
fn equality_sees_every_part() {
    let e = sample();
    let change = |f: &dyn Fn(&mut Expression)| {
        let mut c = sample();
        f(&mut c);
        c
    };
    assert_ne!(e, change(&|c| if let Expression::BinaryOp { op, .. } = c { *op = BinaryOp::Sub }));
    assert_ne!(e, change(&|c| if let Expression::BinaryOp { lhs, .. } = c {
        if let Expression::Base { unary, .. } = &mut **lhs { unary.reverse() }
    }));
    assert_ne!(e, change(&|c| if let Expression::BinaryOp { lhs, .. } = c {
        if let Expression::Base { follow, .. } = &mut **lhs { follow.pop(); }
    }));
    assert_ne!(e, change(&|c| if let Expression::BinaryOp { lhs, .. } = c {
        if let Expression::Base { term, .. } = &mut **lhs { *term = Term::Call("rand".to_string(), vec![]) }
    }));
    assert_ne!(e, change(&|c| if let Expression::BinaryOp { rhs, .. } = c {
        if let Expression::Base { term: Term::List(entries), .. } = &mut **rhs { entries[0].1 = None }
    }));
    assert_ne!(e, change(&|c| if let Expression::BinaryOp { rhs, .. } = c {
        if let Expression::Base { term: Term::List(entries), .. } = &mut **rhs {
            entries[1].0 = bare(Term::Prefab(Prefab::new(path(&["mob"]))))
        }
    }));
    assert_ne!(bare(Term::Int(1)), bare(Term::Float(FloatBits { bits: 1 })));
    assert_ne!(bare(Term::String("a".to_string())), bare(Term::Resource("a".to_string())));
    assert_ne!(
        Expression::AssignOp { op: AssignOp::Assign, lhs: Box::new(bare(Term::Null)), rhs: Box::new(bare(Term::Null)) },
        Expression::BinaryOp { op: BinaryOp::Eq, lhs: Box::new(bare(Term::Null)), rhs: Box::new(bare(Term::Null)) }
    );
}

#[test]
fn unary_operators_apply_from_the_last_recorded() {
    let e = Expression::Base { unary: vec![UnaryOp::Not, UnaryOp::Neg], term: Term::Ident("x".to_string()), follow: vec![] };
    assert_eq!(e.unary_in_order(), vec![UnaryOp::Neg, UnaryOp::Not]);
    let three = Expression::Base {
        unary: vec![UnaryOp::BitNot, UnaryOp::PreIncr, UnaryOp::PostDecr],
        term: Term::Null,
        follow: vec![],
    };
    assert_eq!(three.unary_in_order(), vec![UnaryOp::PostDecr, UnaryOp::PreIncr, UnaryOp::BitNot]);
    assert_eq!(bare(Term::Int(1)).unary_in_order(), vec![]);
    let sum = Expression::BinaryOp { op: BinaryOp::Add, lhs: Box::new(bare(Term::Int(1))), rhs: Box::new(bare(Term::Int(2))) };
    assert_eq!(sum.unary_in_order(), vec![]);
}
