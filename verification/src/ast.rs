//! Operators, terms and expressions of the object language.

use vstd::prelude::*;
use linked_hash_map::LinkedHashMap;

verus! {

/// A prefix or postfix operator on a single operand.
#[derive(Copy, Clone, PartialEq, Eq, Debug, Structural)]
pub enum UnaryOp {
    Neg,
    Not,
    BitNot,
    PreIncr,
    PostIncr,
    PreDecr,
    PostDecr,
}

/// The separator in front of a path segment.
#[derive(Copy, Clone, PartialEq, Eq, Debug, Structural)]
pub enum PathOp {
    Slash,
    Dot,
    Colon,
}

/// An operator on two operands.
#[derive(Copy, Clone, PartialEq, Eq, Debug, Structural)]
pub enum BinaryOp {
    Pow,
    Add,
    Sub,
    Mul,
    Div,
    Mod,
    Less,
    Greater,
    LessEq,
    GreaterEq,
    LShift,
    RShift,
    Eq,
    NotEq,
    BitAnd,
    BitXor,
    BitOr,
    And,
    Or,
}

/// An assignment, plain or combined with a computation.
#[derive(Copy, Clone, PartialEq, Eq, Debug, Structural)]
pub enum AssignOp {
    Assign,
    AddAssign,
    SubAssign,
    MulAssign,
    DivAssign,
    BitAndAssign,
    BitOrAssign,
    BitXorAssign,
    LShiftAssign,
    RShiftAssign,
}

impl AssignOp {
    /// The computation that a compound assignment performs before it stores;
    /// plain assignment performs none.
    pub open spec fn spec_binop(self) -> Option<BinaryOp> {
        match self {
            AssignOp::Assign => None,
            AssignOp::AddAssign => Some(BinaryOp::Add),
            AssignOp::SubAssign => Some(BinaryOp::Sub),
            AssignOp::MulAssign => Some(BinaryOp::Mul),
            AssignOp::DivAssign => Some(BinaryOp::Div),
            AssignOp::BitAndAssign => Some(BinaryOp::BitAnd),
            AssignOp::BitOrAssign => Some(BinaryOp::BitOr),
            AssignOp::BitXorAssign => Some(BinaryOp::BitXor),
            AssignOp::LShiftAssign => Some(BinaryOp::LShift),
            AssignOp::RShiftAssign => Some(BinaryOp::RShift),
        }
    }

    /// The binary operator underlying this assignment, if it is a compound one.
    pub fn binop(self) -> (r: Option<BinaryOp>)
        ensures
            r == self.spec_binop(),
            r is None <==> self == AssignOp::Assign,
    {
        match self {
            AssignOp::Assign => None,
            AssignOp::AddAssign => Some(BinaryOp::Add),
            AssignOp::SubAssign => Some(BinaryOp::Sub),
            AssignOp::MulAssign => Some(BinaryOp::Mul),
            AssignOp::DivAssign => Some(BinaryOp::Div),
            AssignOp::BitAndAssign => Some(BinaryOp::BitAnd),
            AssignOp::BitOrAssign => Some(BinaryOp::BitOr),
            AssignOp::BitXorAssign => Some(BinaryOp::BitXor),
            AssignOp::LShiftAssign => Some(BinaryOp::LShift),
            AssignOp::RShiftAssign => Some(BinaryOp::RShift),
        }
    }
}

impl BinaryOp {
    /// The compound assignment that performs this computation, if there is one.
    pub open spec fn spec_assignop(self) -> Option<AssignOp> {
        match self {
            BinaryOp::Add => Some(AssignOp::AddAssign),
            BinaryOp::Sub => Some(AssignOp::SubAssign),
            BinaryOp::Mul => Some(AssignOp::MulAssign),
            BinaryOp::Div => Some(AssignOp::DivAssign),
            BinaryOp::BitAnd => Some(AssignOp::BitAndAssign),
            BinaryOp::BitOr => Some(AssignOp::BitOrAssign),
            BinaryOp::BitXor => Some(AssignOp::BitXorAssign),
            BinaryOp::LShift => Some(AssignOp::LShiftAssign),
            BinaryOp::RShift => Some(AssignOp::RShiftAssign),
            _ => None,
        }
    }

    /// The compound assignment built on this operator, if the language has one.
    pub fn assignop(self) -> (r: Option<AssignOp>)
        ensures
            r == self.spec_assignop(),
            r matches Some(a) ==> a.spec_binop() == Some(self),
    {
        match self {
            BinaryOp::Add => Some(AssignOp::AddAssign),
            BinaryOp::Sub => Some(AssignOp::SubAssign),
            BinaryOp::Mul => Some(AssignOp::MulAssign),
            BinaryOp::Div => Some(AssignOp::DivAssign),
            BinaryOp::BitAnd => Some(AssignOp::BitAndAssign),
            BinaryOp::BitOr => Some(AssignOp::BitOrAssign),
            BinaryOp::BitXor => Some(AssignOp::BitXorAssign),
            BinaryOp::LShift => Some(AssignOp::LShiftAssign),
            BinaryOp::RShift => Some(AssignOp::RShiftAssign),
            _ => None,
        }
    }
}

/// A type path: its segments from the root down, each with the separator
/// written in front of it. The empty path is the root type.
pub type TypePath = Vec<(PathOp, String)>;

/// The names of the segments of a type path, from the root down.
pub open spec fn segment_names(path: Seq<(PathOp, String)>) -> Seq<Seq<char>> {
    path.map_values(|segment: (PathOp, String)| segment.1@)
}

/// Whether the type at `path` is the type at `parent` or derives from it: the
/// segments of `path` begin with all the segments of `parent`. Segments are
/// compared by their whole names; the separators play no part.
pub open spec fn subtype_of(path: Seq<(PathOp, String)>, parent: Seq<(PathOp, String)>) -> bool {
    segment_names(parent).is_prefix_of(segment_names(path))
}

/// Whether the type at `path` is the type at `parent` or derives from it.
pub fn is_subtype(path: &TypePath, parent: &TypePath) -> (r: bool)
    ensures
        r == subtype_of(path@, parent@),
{
    if parent.len() > path.len() {
        return false;
    }
    let ghost a = segment_names(path@);
    let ghost b = segment_names(parent@);
    let mut i: usize = 0;
    while i < parent.len()
        invariant
            i <= parent.len() <= path.len(),
            a == segment_names(path@),
            b == segment_names(parent@),
            forall|j: int| 0 <= j < i ==> a[j] == b[j],
        decreases parent.len() - i,
    {
        if path[i].1 != parent[i].1 {
            assert(a.subrange(0, b.len() as int)[i as int] != b[i as int]);
            return false;
        }
        i += 1;
    }
    assert(a.subrange(0, b.len() as int) =~= b);
    true
}

/// Every type is a subtype of itself.
pub proof fn lemma_subtype_reflexive(a: Seq<(PathOp, String)>)
    ensures
        subtype_of(a, a),
{
    let n = segment_names(a);
    assert(n.subrange(0, n.len() as int) =~= n);
}

/// A subtype of a subtype of a type is a subtype of that type.
pub proof fn lemma_subtype_transitive(
    a: Seq<(PathOp, String)>,
    b: Seq<(PathOp, String)>,
    c: Seq<(PathOp, String)>,
)
    requires
        subtype_of(a, b),
        subtype_of(b, c),
    ensures
        subtype_of(a, c),
{
    let x = segment_names(a);
    let y = segment_names(b);
    let z = segment_names(c);
    assert forall|i: int| 0 <= i < z.len() implies x[i] == z[i] by {
        assert(y.subrange(0, z.len() as int)[i] == z[i]);
        assert(x.subrange(0, y.len() as int)[i] == y[i]);
    }
    assert(x.subrange(0, z.len() as int) =~= z);
}

/// The root, the path without segments, is a supertype of every type.
pub proof fn lemma_root_is_supertype(a: Seq<(PathOp, String)>, root: Seq<(PathOp, String)>)
    requires
        root.len() == 0,
    ensures
        subtype_of(a, root),
{
    assert(segment_names(a).subrange(0, 0) =~= segment_names(root));
}

/// The variable overrides of a prefab: names with their expressions, no name
/// twice, in the order in which they were last set. Kept in a linked hash map.
#[verifier::external_body]
#[derive(Debug)]
pub struct VarMap {
    inner: LinkedHashMap<String, Expression>,
}

/// What a map of variables holds: each name with what its expression holds,
/// in order.
pub uninterp spec fn var_entries(vars: VarMap) -> Seq<(Seq<char>, ExprView)>;

/// The place of the entry for `name` in `entries`, if there is one.
pub open spec fn find_name(entries: Seq<(Seq<char>, ExprView)>, name: Seq<char>) -> Option<int>
    decreases entries.len(),
{
    if entries.len() == 0 {
        None
    } else {
        match find_name(entries.drop_last(), name) {
            Some(i) => Some(i),
            None => if entries.last().0 == name {
                Some(entries.len() - 1)
            } else {
                None
            },
        }
    }
}

/// Whether no name occurs twice in `entries`.
pub open spec fn distinct_names(entries: Seq<(Seq<char>, ExprView)>) -> bool {
    forall|i: int, j: int|
        0 <= i < j < entries.len() ==> (#[trigger] entries[i]).0 != (#[trigger] entries[j]).0
}

/// Among distinct names, `find_name` finds the one entry for a name.
pub proof fn lemma_find_name_distinct(entries: Seq<(Seq<char>, ExprView)>, k: int)
    requires
        distinct_names(entries),
        0 <= k < entries.len(),
    ensures
        find_name(entries, entries[k].0) == Some(k),
    decreases entries.len(),
{
    let name = entries[k].0;
    let front = entries.drop_last();
    if k < entries.len() - 1 {
        assert(front[k] == entries[k]);
        assert forall|i: int, j: int| 0 <= i < j < front.len() implies (#[trigger] front[i]).0 != (
        #[trigger] front[j]).0 by {
            assert(front[i] == entries[i]);
            assert(front[j] == entries[j]);
        }
        lemma_find_name_distinct(front, k);
    } else {
        lemma_find_name(front, name);
        if find_name(front, name) is Some {
            let i = find_name(front, name)->0;
            assert(front[i] == entries[i]);
            assert(entries[i].0 != entries[k].0);
        }
    }
}

/// Where `find_name` finds an entry, it is an entry for that name.
pub proof fn lemma_find_name(entries: Seq<(Seq<char>, ExprView)>, name: Seq<char>)
    ensures
        match find_name(entries, name) {
            Some(i) => 0 <= i < entries.len() && entries[i].0 == name,
            None => forall|j: int| 0 <= j < entries.len() ==> (#[trigger] entries[j]).0 != name,
        },
    decreases entries.len(),
{
    if entries.len() > 0 {
        lemma_find_name(entries.drop_last(), name);
        if find_name(entries.drop_last(), name) is None {
            assert forall|j: int| 0 <= j < entries.len() - 1 implies (#[trigger] entries[j]).0
                != name by {
                assert(entries.drop_last()[j] == entries[j]);
            }
        }
    }
}

impl VarMap {
    /// `LinkedHashMap::new`: a map that holds nothing.
    #[verifier::external_body]
    pub(crate) fn new() -> (vars: VarMap)
        ensures
            var_entries(vars).len() == 0,
    {
        VarMap { inner: LinkedHashMap::new() }
    }

    /// `LinkedHashMap::len`: the number of entries.
    #[verifier::external_body]
    pub(crate) fn len(&self) -> (n: usize)
        ensures
            n == var_entries(*self).len(),
    {
        self.inner.len()
    }

    /// `LinkedHashMap::insert`: a name that the map does not hold is added at
    /// the end with its expression, and nothing is returned. For a name that
    /// it holds, the entry leaves its place and comes last with the new
    /// expression, and the expression that it had is returned. The map then
    /// holds no name twice.
    #[verifier::external_body]
    pub(crate) fn insert(&mut self, name: String, value: Expression) -> (before: Option<Expression>)
        ensures
            distinct_names(var_entries(*final(self))),
            match find_name(var_entries(*old(self)), name@) {
                Some(i) => before matches Some(e) && e@ == var_entries(*old(self))[i].1
                    && var_entries(*final(self)) == var_entries(*old(self)).remove(i).push(
                    (name@, value@),
                ),
                None => before is None && var_entries(*final(self)) == var_entries(
                    *old(self),
                ).push((name@, value@)),
            },
    {
        self.inner.insert(name, value)
    }

    /// `==` of `LinkedHashMap`: whether the two maps have as many entries
    /// and, place by place, the same name with an equal expression, where
    /// expressions are equal that hold the same.
    #[verifier::external_body]
    pub(crate) fn same(&self, other: &VarMap) -> (r: bool)
        ensures
            r == (var_entries(*self) == var_entries(*other)),
    {
        self.inner == other.inner
    }

    /// `LinkedHashMap::clone`: a map with a copy of each entry, in the same
    /// order.
    #[verifier::external_body]
    pub(crate) fn copy(&self) -> (vars: VarMap)
        ensures
            var_entries(vars) == var_entries(*self),
    {
        VarMap { inner: self.inner.clone() }
    }

    /// `LinkedHashMap::iter`, of which the item at place `i` is taken: the
    /// entries come in their order, so this is the entry at `i`, or nothing
    /// where the map holds no more than `i` entries.
    #[verifier::external_body]
    pub(crate) fn entry(&self, i: usize) -> (r: Option<(&String, &Expression)>)
        ensures
            match r {
                Some((name, value)) => i < var_entries(*self).len() && name@ == var_entries(
                    *self,
                )[i as int].0 && value@ == var_entries(*self)[i as int].1,
                None => i >= var_entries(*self).len(),
            },
    {
        self.inner.iter().nth(i)
    }

    /// `LinkedHashMap::get`: the expression of the entry for `name`, if the
    /// map holds one.
    #[verifier::external_body]
    pub(crate) fn get(&self, name: &str) -> (value: Option<&Expression>)
        ensures
            match find_name(var_entries(*self), name@) {
                Some(i) => value matches Some(e) && e@ == var_entries(*self)[i].1,
                None => value is None,
            },
    {
        self.inner.get(name)
    }
}

/// A type together with overrides of some of its variables.
#[derive(Debug)]
pub struct Prefab {
    pub path: TypePath,
    pub vars: VarMap,
}

/// What a prefab holds: the segments of its path, and each override with
/// what its expression holds, in the order in which they were last set.
pub struct PrefabView {
    pub path: Seq<(PathOp, Seq<char>)>,
    pub vars: Seq<(Seq<char>, ExprView)>,
}

/// What a type path holds: each segment with its separator.
pub open spec fn path_view(path: Seq<(PathOp, String)>) -> Seq<(PathOp, Seq<char>)> {
    path.map_values(|segment: (PathOp, String)| (segment.0, segment.1@))
}

impl View for Prefab {
    type V = PrefabView;

    open spec fn view(&self) -> PrefabView {
        PrefabView { path: path_view(self.path@), vars: var_entries(self.vars) }
    }
}

impl PrefabView {
    /// What the expression holds that the prefab sets the variable `name`
    /// to, if it sets it.
    pub open spec fn var(self, name: Seq<char>) -> Option<ExprView> {
        match find_name(self.vars, name) {
            Some(i) => Some(self.vars[i].1),
            None => None,
        }
    }

    /// The overrides of the prefab after `name` is set to `value`: an
    /// earlier override of that name is gone, and the new one comes last.
    pub open spec fn vars_with(self, name: Seq<char>, value: ExprView) -> Seq<(Seq<char>, ExprView)> {
        match find_name(self.vars, name) {
            Some(i) => self.vars.remove(i),
            None => self.vars,
        }.push((name, value))
    }
}

impl Prefab {
    /// The prefab of the type at `path` that overrides nothing.
    pub fn new(path: TypePath) -> (fab: Prefab)
        ensures
            fab.path == path,
            fab@.vars.len() == 0,
    {
        Prefab { path, vars: VarMap::new() }
    }

    /// The number of variables that the prefab overrides.
    pub fn var_count(&self) -> (n: usize)
        ensures
            n == self@.vars.len(),
    {
        self.vars.len()
    }

    /// The expression that the prefab sets the variable `name` to, if it
    /// sets it.
    pub fn get_var(&self, name: &str) -> (value: Option<&Expression>)
        ensures
            match value {
                Some(e) => self@.var(name@) == Some(e@),
                None => self@.var(name@) is None,
            },
    {
        self.vars.get(name)
    }

    /// The override at place `i` in the order of the prefab: its name and
    /// its expression.
    pub fn var_at(&self, i: usize) -> (r: Option<(&String, &Expression)>)
        ensures
            match r {
                Some((name, value)) => i < self@.vars.len() && (name@, value@)
                    == self@.vars[i as int],
                None => i >= self@.vars.len(),
            },
    {
        self.vars.entry(i)
    }

    /// Sets the variable `name` to `value`. The override comes last in the
    /// order, also where it takes the place of an earlier one, which is
    /// then returned.
    pub fn set_var(&mut self, name: String, value: Expression) -> (before: Option<Expression>)
        ensures
            final(self).path == old(self).path,
            match before {
                Some(e) => old(self)@.var(name@) == Some(e@),
                None => old(self)@.var(name@) is None,
            },
            final(self)@.vars == old(self)@.vars_with(name@, value@),
            final(self)@.var(name@) == Some(value@),
    {
        proof {
            lemma_find_name(self@.vars, name@);
        }
        let before = self.vars.insert(name, value);
        proof {
            lemma_find_name_distinct(self@.vars, self@.vars.len() - 1);
        }
        before
    }
}

/// The type that a `new` expression instantiates.
#[derive(Debug)]
pub enum NewType {
    /// Taken from the context of the expression.
    Implicit,
    /// Named by a variable.
    Ident(String),
    /// Given as a prefab.
    Prefab(Prefab),
}

/// The bit pattern of a single-precision floating-point literal.
#[derive(Copy, Clone, PartialEq, Eq, Debug, Structural)]
pub struct FloatBits {
    pub bits: u32,
}

/// An expression of the object language.
#[allow(inconsistent_fields)]
#[derive(Debug)]
pub enum Expression {
    /// A term with its postfix operations and its prefix operators. The term
    /// is evaluated first, then the follows from left to right, then the
    /// unary operators from the last recorded to the first.
    Base { unary: Vec<UnaryOp>, term: Term, follow: Vec<Follow> },
    /// A binary operation.
    BinaryOp { op: BinaryOp, lhs: Box<Expression>, rhs: Box<Expression> },
    /// An assignment.
    AssignOp { op: AssignOp, lhs: Box<Expression>, rhs: Box<Expression> },
}

/// A term, the basic building block of an expression.
#[derive(Debug)]
pub enum Term {
    /// The literal `null`.
    Null,
    /// A `new` call.
    New { type_: NewType, args: Vec<Expression> },
    /// A `list` call; an entry is a value or a key with its value.
    List(Vec<(Expression, Option<Expression>)>),
    /// An unscoped function call.
    Call(String, Vec<Expression>),
    /// A prefab literal.
    Prefab(Prefab),
    /// An identifier.
    Ident(String),
    /// A string literal.
    String(String),
    /// A resource literal.
    Resource(String),
    /// An integer literal.
    Int(i32),
    /// A floating-point literal.
    Float(FloatBits),
    /// An expression in parentheses.
    Expr(Box<Expression>),
}

/// A postfix operation, applied to a term or to the result of the follow
/// before it.
#[derive(Debug)]
pub enum Follow {
    /// Access a field of the value.
    Field(String),
    /// Index the value by an expression.
    Index(Box<Expression>),
    /// Call a method of the value.
    Call(String, Vec<Expression>),
}

/// What the type of a `new` expression holds.
pub enum NewTypeView {
    Implicit,
    Ident(Seq<char>),
    Prefab(PrefabView),
}

/// What an expression holds, as mathematical values.
#[allow(inconsistent_fields)]
pub enum ExprView {
    Base { unary: Seq<UnaryOp>, term: TermView, follow: Seq<FollowView> },
    BinaryOp { op: BinaryOp, lhs: Box<ExprView>, rhs: Box<ExprView> },
    AssignOp { op: AssignOp, lhs: Box<ExprView>, rhs: Box<ExprView> },
}

/// What a term holds, as mathematical values.
pub enum TermView {
    Null,
    New { type_: NewTypeView, args: Seq<ExprView> },
    List(Seq<(ExprView, Option<ExprView>)>),
    Call(Seq<char>, Seq<ExprView>),
    Prefab(PrefabView),
    Ident(Seq<char>),
    String(Seq<char>),
    Resource(Seq<char>),
    Int(i32),
    Float(u32),
    Expr(Box<ExprView>),
}

/// What a follow holds, as mathematical values.
pub enum FollowView {
    Field(Seq<char>),
    Index(Box<ExprView>),
    Call(Seq<char>, Seq<ExprView>),
}

/// What the expressions of a list hold, one by one.
pub open spec fn exprs_view(list: Seq<Expression>) -> Seq<ExprView>
    decreases list,
{
    Seq::new(
        list.len(),
        |i: int|
            if 0 <= i < list.len() {
                expr_view(list[i])
            } else {
                ExprView::Base { unary: Seq::empty(), term: TermView::Null, follow: Seq::empty() }
            },
    )
}

/// What an entry of a list literal holds.
pub open spec fn list_entry_view(entry: (Expression, Option<Expression>)) -> (
    ExprView,
    Option<ExprView>,
)
    decreases entry,
{
    (
        expr_view(entry.0),
        match entry.1 {
            Some(e) => Some(expr_view(e)),
            None => None,
        },
    )
}

/// What the entries of a list literal hold, one by one.
pub open spec fn list_entries_view(list: Seq<(Expression, Option<Expression>)>) -> Seq<
    (ExprView, Option<ExprView>),
>
    decreases list,
{
    Seq::new(
        list.len(),
        |i: int|
            if 0 <= i < list.len() {
                list_entry_view(list[i])
            } else {
                (
                    ExprView::Base {
                        unary: Seq::empty(),
                        term: TermView::Null,
                        follow: Seq::empty(),
                    },
                    None,
                )
            },
    )
}

/// What the follows of an expression hold, one by one.
pub open spec fn follows_view(list: Seq<Follow>) -> Seq<FollowView>
    decreases list,
{
    Seq::new(
        list.len(),
        |i: int|
            if 0 <= i < list.len() {
                follow_view(list[i])
            } else {
                FollowView::Field(Seq::empty())
            },
    )
}

/// What the type of a `new` expression holds.
pub open spec fn new_type_view(t: NewType) -> NewTypeView {
    match t {
        NewType::Implicit => NewTypeView::Implicit,
        NewType::Ident(name) => NewTypeView::Ident(name@),
        NewType::Prefab(fab) => NewTypeView::Prefab(fab@),
    }
}

/// What an expression holds.
pub open spec fn expr_view(e: Expression) -> ExprView
    decreases e,
{
    match e {
        Expression::Base { unary, term, follow } => ExprView::Base {
            unary: unary@,
            term: term_view(term),
            follow: follows_view(follow@),
        },
        Expression::BinaryOp { op, lhs, rhs } => ExprView::BinaryOp {
            op,
            lhs: Box::new(expr_view(*lhs)),
            rhs: Box::new(expr_view(*rhs)),
        },
        Expression::AssignOp { op, lhs, rhs } => ExprView::AssignOp {
            op,
            lhs: Box::new(expr_view(*lhs)),
            rhs: Box::new(expr_view(*rhs)),
        },
    }
}

/// What a term holds.
pub open spec fn term_view(t: Term) -> TermView
    decreases t,
{
    match t {
        Term::Null => TermView::Null,
        Term::New { type_, args } => TermView::New {
            type_: new_type_view(type_),
            args: exprs_view(args@),
        },
        Term::List(entries) => TermView::List(list_entries_view(entries@)),
        Term::Call(name, args) => TermView::Call(name@, exprs_view(args@)),
        Term::Prefab(fab) => TermView::Prefab(fab@),
        Term::Ident(name) => TermView::Ident(name@),
        Term::String(text) => TermView::String(text@),
        Term::Resource(text) => TermView::Resource(text@),
        Term::Int(i) => TermView::Int(i),
        Term::Float(f) => TermView::Float(f.bits),
        Term::Expr(inner) => TermView::Expr(Box::new(expr_view(*inner))),
    }
}

/// What a follow holds.
pub open spec fn follow_view(f: Follow) -> FollowView
    decreases f,
{
    match f {
        Follow::Field(name) => FollowView::Field(name@),
        Follow::Index(inner) => FollowView::Index(Box::new(expr_view(*inner))),
        Follow::Call(name, args) => FollowView::Call(name@, exprs_view(args@)),
    }
}

impl View for NewType {
    type V = NewTypeView;

    open spec fn view(&self) -> NewTypeView {
        new_type_view(*self)
    }
}

impl View for Expression {
    type V = ExprView;

    open spec fn view(&self) -> ExprView {
        expr_view(*self)
    }
}

impl View for Term {
    type V = TermView;

    open spec fn view(&self) -> TermView {
        term_view(*self)
    }
}

impl View for Follow {
    type V = FollowView;

    open spec fn view(&self) -> FollowView {
        follow_view(*self)
    }
}

impl Expression {
    /// Whether this expression is nothing but a term: no unary operator and
    /// no follow is applied to it.
    pub open spec fn is_bare(self) -> bool {
        self matches Expression::Base { unary, term, follow } && unary@.len() == 0
            && follow@.len() == 0
    }

    /// Whether this expression is the bare wrapper of `term`.
    pub open spec fn wraps(self, term: Term) -> bool {
        self.is_bare() && self->term == term
    }

    /// The unary operators of a base expression in the order in which they
    /// are applied, after the term and the follows: the reverse of the order
    /// in which they are recorded. Another expression has none of its own.
    pub open spec fn unary_application_order(self) -> Seq<UnaryOp> {
        match self {
            Expression::Base { unary, .. } => unary@.reverse(),
            _ => Seq::empty(),
        }
    }

    /// The unary operators of this expression in the order in which they
    /// are applied.
    pub fn unary_in_order(&self) -> (ops: Vec<UnaryOp>)
        ensures
            ops@ == self.unary_application_order(),
    {
        let mut ops: Vec<UnaryOp> = Vec::new();
        match self {
            Expression::Base { unary, .. } => {
                let mut left: usize = unary.len();
                while left > 0
                    invariant
                        left <= unary.len(),
                        ops@.len() == unary.len() - left,
                        forall|j: int|
                            0 <= j < ops@.len() ==> ops@[j] == unary@[unary.len() - 1 - j],
                    decreases left,
                {
                    left -= 1;
                    ops.push(unary[left]);
                }
                assert(ops@ =~= unary@.reverse());
            },
            _ => {},
        }
        ops
    }

    /// The term that stands for this expression: the term of a bare
    /// expression, with parentheses around bare expressions removed all the
    /// way down; any other expression in parentheses.
    pub open spec fn as_term(self) -> Term
        decreases self,
    {
        match self {
            Expression::Base { unary, term, follow } => if unary@.len() == 0 && follow@.len()
                == 0 {
                match term {
                    Term::Expr(inner) => (*inner).as_term(),
                    other => other,
                }
            } else {
                Term::Expr(Box::new(self))
            },
            other => Term::Expr(Box::new(other)),
        }
    }
}

impl Term {
    /// Whether converting this term to an expression and back gives the term
    /// again: it is not a pair of parentheses around a bare expression.
    pub open spec fn is_simplified(self) -> bool {
        self matches Term::Expr(inner) ==> !(*inner).is_bare()
    }
}

impl vstd::std_specs::convert::FromSpecImpl<Term> for Expression {
    open spec fn obeys_from_spec() -> bool {
        false
    }

    open spec fn from_spec(term: Term) -> Expression {
        arbitrary()
    }
}

impl From<Term> for Expression {
    /// Wraps a term with no unary operators and no follows.
    fn from(term: Term) -> (e: Expression)
        ensures
            e.wraps(term),
            e@ == (ExprView::Base { unary: Seq::empty(), term: term@, follow: Seq::empty() }),
    {
        let e = Expression::Base { unary: Vec::new(), term, follow: Vec::new() };
        assert(follows_view(Seq::<Follow>::empty()) =~= Seq::<FollowView>::empty());
        e
    }
}

impl vstd::std_specs::convert::FromSpecImpl<Expression> for Term {
    open spec fn obeys_from_spec() -> bool {
        true
    }

    open spec fn from_spec(expr: Expression) -> Term {
        expr.as_term()
    }
}

impl From<Expression> for Term {
    /// Collapses a bare expression to its term and puts any other expression
    /// in parentheses.
    fn from(expr: Expression) -> (t: Term)
        ensures
            t == expr.as_term(),
            t.is_simplified(),
        decreases expr,
    {
        match expr {
            Expression::Base { term, unary, follow } => if unary.len() == 0 && follow.len() == 0 {
                match term {
                    Term::Expr(inner) => Term::from(*inner),
                    other => other,
                }
            } else {
                Term::Expr(Box::new(Expression::Base { term, unary, follow }))
            },
            other => Term::Expr(Box::new(other)),
        }
    }
}

/// The term of an expression is always simplified.
pub proof fn lemma_as_term_simplified(e: Expression)
    ensures
        e.as_term().is_simplified(),
    decreases e,
{
    match e {
        Expression::Base { unary, term, follow } => {
            if unary@.len() == 0 && follow@.len() == 0 {
                match term {
                    Term::Expr(inner) => lemma_as_term_simplified(*inner),
                    _ => {},
                }
            }
        },
        _ => {},
    }
}

/// Wrapping a simplified term as a bare expression and converting back gives
/// the term again.
pub proof fn lemma_term_round_trip(term: Term, e: Expression)
    requires
        term.is_simplified(),
        e.wraps(term),
    ensures
        e.as_term() == term,
{
    reveal_with_fuel(Expression::as_term, 2);
}

/// Converting an expression to a term, back to a bare expression and to a
/// term again changes nothing: the conversion is idempotent.
pub proof fn lemma_as_term_idempotent(e: Expression, wrapped: Expression)
    requires
        wrapped.wraps(e.as_term()),
    ensures
        wrapped.as_term() == e.as_term(),
{
    lemma_as_term_simplified(e);
    lemma_term_round_trip(e.as_term(), wrapped);
}

/// Every compound assignment has exactly one underlying operator, and that
/// operator leads back to the same assignment.
pub proof fn lemma_assign_binop_inverse(a: AssignOp, b: BinaryOp)
    ensures
        a.spec_binop() == Some(b) <==> b.spec_assignop() == Some(a),
        a != AssignOp::Assign ==> a.spec_binop() is Some,
{
}

} // verus!
