//! Copies and equality of terms and expressions.

use vstd::prelude::*;
use vstd::std_specs::cmp::PartialEqSpecImpl;
use crate::ast::{
    expr_view,
    exprs_view,
    follow_view,
    follows_view,
    list_entries_view,
    list_entry_view,
    path_view,
    Expression,
    Follow,
    NewType,
    PathOp,
    Prefab,
    Term,
    TypePath,
    UnaryOp,
};

verus! {

/// A copy of a type path.
pub fn clone_path(path: &TypePath) -> (copy: TypePath)
    ensures
        path_view(copy@) == path_view(path@),
{
    let mut copy: TypePath = Vec::new();
    let mut i: usize = 0;
    while i < path.len()
        invariant
            i <= path.len(),
            copy@.len() == i,
            forall|j: int|
                0 <= j < i ==> (#[trigger] copy@[j]).0 == path@[j].0 && copy@[j].1@ == path@[j].1@,
        decreases path.len() - i,
    {
        copy.push((path[i].0, path[i].1.clone()));
        i += 1;
    }
    assert(path_view(copy@) =~= path_view(path@));
    copy
}

/// Copies of the expressions of a list.
fn clone_expressions(list: &Vec<Expression>) -> (copy: Vec<Expression>)
    ensures
        exprs_view(copy@) == exprs_view(list@),
    decreases list,
{
    let mut copy: Vec<Expression> = Vec::new();
    let mut i: usize = 0;
    while i < list.len()
        invariant
            i <= list.len(),
            copy@.len() == i,
            forall|j: int| 0 <= j < i ==> expr_view(#[trigger] copy@[j]) == expr_view(list@[j]),
        decreases list.len() - i,
    {
        proof {
            vstd::std_specs::vec::axiom_vec_index_decreases(*list, i as int);
        }
        copy.push(list[i].clone());
        i += 1;
    }
    assert(exprs_view(copy@) =~= exprs_view(list@));
    copy
}

/// Copies of the entries of a list literal.
fn clone_list_entries(list: &Vec<(Expression, Option<Expression>)>) -> (copy: Vec<
    (Expression, Option<Expression>),
>)
    ensures
        list_entries_view(copy@) == list_entries_view(list@),
    decreases list,
{
    let mut copy: Vec<(Expression, Option<Expression>)> = Vec::new();
    let mut i: usize = 0;
    while i < list.len()
        invariant
            i <= list.len(),
            copy@.len() == i,
            forall|j: int|
                0 <= j < i ==> list_entry_view(#[trigger] copy@[j]) == list_entry_view(list@[j]),
        decreases list.len() - i,
    {
        proof {
            vstd::std_specs::vec::axiom_vec_index_decreases(*list, i as int);
            assert(decreases_to!(list@[i as int] => list@[i as int].0));
            assert(decreases_to!(list@[i as int] => list@[i as int].1));
        }
        let key = list[i].0.clone();
        let value = match &list[i].1 {
            Some(e) => Some(e.clone()),
            None => None,
        };
        copy.push((key, value));
        i += 1;
    }
    assert(list_entries_view(copy@) =~= list_entries_view(list@));
    copy
}

/// Copies of the follows of an expression.
fn clone_follows(list: &Vec<Follow>) -> (copy: Vec<Follow>)
    ensures
        follows_view(copy@) == follows_view(list@),
    decreases list,
{
    let mut copy: Vec<Follow> = Vec::new();
    let mut i: usize = 0;
    while i < list.len()
        invariant
            i <= list.len(),
            copy@.len() == i,
            forall|j: int| 0 <= j < i ==> follow_view(#[trigger] copy@[j]) == follow_view(list@[j]),
        decreases list.len() - i,
    {
        proof {
            vstd::std_specs::vec::axiom_vec_index_decreases(*list, i as int);
        }
        copy.push(list[i].clone());
        i += 1;
    }
    assert(follows_view(copy@) =~= follows_view(list@));
    copy
}

impl Clone for Prefab {
    /// A copy that holds the same.
    fn clone(&self) -> (copy: Prefab)
        ensures
            copy@ == self@,
    {
        Prefab { path: clone_path(&self.path), vars: self.vars.copy() }
    }
}

impl Clone for NewType {
    /// A copy that holds the same.
    fn clone(&self) -> (copy: NewType)
        ensures
            copy@ == self@,
    {
        match self {
            NewType::Implicit => NewType::Implicit,
            NewType::Ident(name) => NewType::Ident(name.clone()),
            NewType::Prefab(fab) => NewType::Prefab(fab.clone()),
        }
    }
}

impl Clone for Expression {
    /// A copy that holds the same.
    fn clone(&self) -> (copy: Expression)
        ensures
            copy@ == self@,
        decreases self,
    {
        match self {
            Expression::Base { unary, term, follow } => Expression::Base {
                unary: unary.clone(),
                term: term.clone(),
                follow: clone_follows(follow),
            },
            Expression::BinaryOp { op, lhs, rhs } => Expression::BinaryOp {
                op: *op,
                lhs: Box::new((**lhs).clone()),
                rhs: Box::new((**rhs).clone()),
            },
            Expression::AssignOp { op, lhs, rhs } => Expression::AssignOp {
                op: *op,
                lhs: Box::new((**lhs).clone()),
                rhs: Box::new((**rhs).clone()),
            },
        }
    }
}

impl Clone for Term {
    /// A copy that holds the same.
    fn clone(&self) -> (copy: Term)
        ensures
            copy@ == self@,
        decreases self,
    {
        match self {
            Term::Null => Term::Null,
            Term::New { type_, args } => Term::New {
                type_: type_.clone(),
                args: clone_expressions(args),
            },
            Term::List(entries) => Term::List(clone_list_entries(entries)),
            Term::Call(name, args) => Term::Call(name.clone(), clone_expressions(args)),
            Term::Prefab(fab) => Term::Prefab(fab.clone()),
            Term::Ident(name) => Term::Ident(name.clone()),
            Term::String(text) => Term::String(text.clone()),
            Term::Resource(text) => Term::Resource(text.clone()),
            Term::Int(i) => Term::Int(*i),
            Term::Float(f) => Term::Float(*f),
            Term::Expr(inner) => Term::Expr(Box::new((**inner).clone())),
        }
    }
}

impl Clone for Follow {
    /// A copy that holds the same.
    fn clone(&self) -> (copy: Follow)
        ensures
            copy@ == self@,
        decreases self,
    {
        match self {
            Follow::Field(name) => Follow::Field(name.clone()),
            Follow::Index(inner) => Follow::Index(Box::new((**inner).clone())),
            Follow::Call(name, args) => Follow::Call(name.clone(), clone_expressions(args)),
        }
    }
}

/// Whether two lists of unary operators are the same.
fn same_unary(a: &Vec<UnaryOp>, b: &Vec<UnaryOp>) -> (r: bool)
    ensures
        r == (a@ == b@),
{
    if a.len() != b.len() {
        return false;
    }
    let mut i: usize = 0;
    while i < a.len()
        invariant
            i <= a.len(),
            a.len() == b.len(),
            forall|j: int| 0 <= j < i ==> a@[j] == b@[j],
        decreases a.len() - i,
    {
        if a[i] != b[i] {
            return false;
        }
        i += 1;
    }
    assert(a@ =~= b@);
    true
}

/// Whether two type paths hold the same segments with the same separators.
pub fn same_path(a: &TypePath, b: &TypePath) -> (r: bool)
    ensures
        r == (path_view(a@) == path_view(b@)),
{
    if a.len() != b.len() {
        assert(path_view(a@).len() != path_view(b@).len());
        return false;
    }
    let mut i: usize = 0;
    while i < a.len()
        invariant
            i <= a.len(),
            a.len() == b.len(),
            forall|j: int| 0 <= j < i ==> path_view(a@)[j] == path_view(b@)[j],
        decreases a.len() - i,
    {
        if a[i].0 != b[i].0 || a[i].1 != b[i].1 {
            assert(path_view(a@)[i as int] != path_view(b@)[i as int]);
            return false;
        }
        i += 1;
    }
    assert(path_view(a@) =~= path_view(b@));
    true
}

/// Whether two lists of expressions hold the same, one by one.
fn same_expressions(a: &Vec<Expression>, b: &Vec<Expression>) -> (r: bool)
    ensures
        r == (exprs_view(a@) == exprs_view(b@)),
    decreases a,
{
    if a.len() != b.len() {
        assert(exprs_view(a@).len() != exprs_view(b@).len());
        return false;
    }
    let mut i: usize = 0;
    while i < a.len()
        invariant
            i <= a.len(),
            a.len() == b.len(),
            forall|j: int| 0 <= j < i ==> exprs_view(a@)[j] == exprs_view(b@)[j],
        decreases a.len() - i,
    {
        proof {
            vstd::std_specs::vec::axiom_vec_index_decreases(*a, i as int);
        }
        if !a[i].eq(&b[i]) {
            assert(exprs_view(a@)[i as int] != exprs_view(b@)[i as int]);
            return false;
        }
        i += 1;
    }
    assert(exprs_view(a@) =~= exprs_view(b@));
    true
}

/// Whether two lists of follows hold the same, one by one.
fn same_follows(a: &Vec<Follow>, b: &Vec<Follow>) -> (r: bool)
    ensures
        r == (follows_view(a@) == follows_view(b@)),
    decreases a,
{
    if a.len() != b.len() {
        assert(follows_view(a@).len() != follows_view(b@).len());
        return false;
    }
    let mut i: usize = 0;
    while i < a.len()
        invariant
            i <= a.len(),
            a.len() == b.len(),
            forall|j: int| 0 <= j < i ==> follows_view(a@)[j] == follows_view(b@)[j],
        decreases a.len() - i,
    {
        proof {
            vstd::std_specs::vec::axiom_vec_index_decreases(*a, i as int);
        }
        if !a[i].eq(&b[i]) {
            assert(follows_view(a@)[i as int] != follows_view(b@)[i as int]);
            return false;
        }
        i += 1;
    }
    assert(follows_view(a@) =~= follows_view(b@));
    true
}

/// Whether the entries of two list literals hold the same, one by one.
fn same_list_entries(
    a: &Vec<(Expression, Option<Expression>)>,
    b: &Vec<(Expression, Option<Expression>)>,
) -> (r: bool)
    ensures
        r == (list_entries_view(a@) == list_entries_view(b@)),
    decreases a,
{
    if a.len() != b.len() {
        assert(list_entries_view(a@).len() != list_entries_view(b@).len());
        return false;
    }
    let mut i: usize = 0;
    while i < a.len()
        invariant
            i <= a.len(),
            a.len() == b.len(),
            forall|j: int| 0 <= j < i ==> list_entries_view(a@)[j] == list_entries_view(b@)[j],
        decreases a.len() - i,
    {
        proof {
            vstd::std_specs::vec::axiom_vec_index_decreases(*a, i as int);
            assert(decreases_to!(a@[i as int] => a@[i as int].0));
            assert(decreases_to!(a@[i as int] => a@[i as int].1));
        }
        let keys = a[i].0.eq(&b[i].0);
        let values = match (&a[i].1, &b[i].1) {
            (Some(x), Some(y)) => x.eq(y),
            (None, None) => true,
            _ => false,
        };
        if !keys || !values {
            assert(list_entries_view(a@)[i as int] != list_entries_view(b@)[i as int]);
            return false;
        }
        i += 1;
    }
    assert(list_entries_view(a@) =~= list_entries_view(b@));
    true
}

impl PartialEqSpecImpl for Prefab {
    open spec fn obeys_eq_spec() -> bool {
        true
    }

    open spec fn eq_spec(&self, other: &Prefab) -> bool {
        self@ == other@
    }
}

impl PartialEq for Prefab {
    /// Whether the two prefabs hold the same: the same path, and the same
    /// overrides in the same order.
    fn eq(&self, other: &Prefab) -> (r: bool) {
        same_path(&self.path, &other.path) && self.vars.same(&other.vars)
    }
}

impl PartialEqSpecImpl for NewType {
    open spec fn obeys_eq_spec() -> bool {
        true
    }

    open spec fn eq_spec(&self, other: &NewType) -> bool {
        self@ == other@
    }
}

impl PartialEq for NewType {
    /// Whether the two hold the same.
    fn eq(&self, other: &NewType) -> (r: bool) {
        match (self, other) {
            (NewType::Implicit, NewType::Implicit) => true,
            (NewType::Ident(a), NewType::Ident(b)) => *a == *b,
            (NewType::Prefab(a), NewType::Prefab(b)) => a.eq(b),
            _ => false,
        }
    }
}

impl PartialEqSpecImpl for Expression {
    open spec fn obeys_eq_spec() -> bool {
        true
    }

    open spec fn eq_spec(&self, other: &Expression) -> bool {
        self@ == other@
    }
}

impl PartialEq for Expression {
    /// Whether the two expressions hold the same.
    fn eq(&self, other: &Expression) -> (r: bool)
        decreases self,
    {
        match (self, other) {
            (
                Expression::Base { unary: u1, term: t1, follow: f1 },
                Expression::Base { unary: u2, term: t2, follow: f2 },
            ) => same_unary(u1, u2) && t1.eq(t2) && same_follows(f1, f2),
            (
                Expression::BinaryOp { op: o1, lhs: l1, rhs: r1 },
                Expression::BinaryOp { op: o2, lhs: l2, rhs: r2 },
            ) => *o1 == *o2 && (**l1).eq(&**l2) && (**r1).eq(&**r2),
            (
                Expression::AssignOp { op: o1, lhs: l1, rhs: r1 },
                Expression::AssignOp { op: o2, lhs: l2, rhs: r2 },
            ) => *o1 == *o2 && (**l1).eq(&**l2) && (**r1).eq(&**r2),
            _ => false,
        }
    }
}

impl PartialEqSpecImpl for Term {
    open spec fn obeys_eq_spec() -> bool {
        true
    }

    open spec fn eq_spec(&self, other: &Term) -> bool {
        self@ == other@
    }
}

impl PartialEq for Term {
    /// Whether the two terms hold the same.
    fn eq(&self, other: &Term) -> (r: bool)
        decreases self,
    {
        match (self, other) {
            (Term::Null, Term::Null) => true,
            (Term::New { type_: t1, args: a1 }, Term::New { type_: t2, args: a2 }) => t1.eq(t2)
                && same_expressions(a1, a2),
            (Term::List(a), Term::List(b)) => same_list_entries(a, b),
            (Term::Call(n1, a1), Term::Call(n2, a2)) => *n1 == *n2 && same_expressions(a1, a2),
            (Term::Prefab(a), Term::Prefab(b)) => a.eq(b),
            (Term::Ident(a), Term::Ident(b)) => *a == *b,
            (Term::String(a), Term::String(b)) => *a == *b,
            (Term::Resource(a), Term::Resource(b)) => *a == *b,
            (Term::Int(a), Term::Int(b)) => *a == *b,
            (Term::Float(a), Term::Float(b)) => a.bits == b.bits,
            (Term::Expr(a), Term::Expr(b)) => (**a).eq(&**b),
            _ => false,
        }
    }
}

impl PartialEqSpecImpl for Follow {
    open spec fn obeys_eq_spec() -> bool {
        true
    }

    open spec fn eq_spec(&self, other: &Follow) -> bool {
        self@ == other@
    }
}

impl PartialEq for Follow {
    /// Whether the two follows hold the same.
    fn eq(&self, other: &Follow) -> (r: bool)
        decreases self,
    {
        match (self, other) {
            (Follow::Field(a), Follow::Field(b)) => *a == *b,
            (Follow::Index(a), Follow::Index(b)) => (**a).eq(&**b),
            (Follow::Call(n1, a1), Follow::Call(n2, a2)) => *n1 == *n2 && same_expressions(a1, a2),
            _ => false,
        }
    }
}

} // verus!
