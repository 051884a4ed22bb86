//! Evaluation of expressions to constants.
//!
//! An expression either reduces to a constant or fails with the name of what
//! could not be reduced: an identifier that the object tree does not define,
//! a call, a member, or the symbol of an operation that has no constant
//! result. Nothing is evaluated in part.

use vstd::prelude::*;
use vstd::string::{StrSliceExecFns, StringExecFns};
use crate::ast::{
    exprs_view,
    follows_view,
    list_entries_view,
    AssignOp,
    BinaryOp,
    ExprView,
    Expression,
    FloatBits,
    Follow,
    FollowView,
    Term,
    TermView,
    UnaryOp,
};
use crate::constants::{entries_view, entry_view, Constant, ConstantView};
use crate::error::Error;
use crate::objtree::{resolve, ObjectTree, TypeDef};

verus! {

/// What an evaluation gives: the constant, or the name of what could not be
/// reduced.
pub type Outcome = Result<ConstantView, Seq<char>>;

/// The bit of a floating-point pattern that holds the sign.
pub const SIGN_BIT: u32 = 0x8000_0000;

/// The symbol of a unary operator.
pub open spec fn unary_symbol(op: UnaryOp) -> Seq<char> {
    match op {
        UnaryOp::Neg => "-"@,
        UnaryOp::Not => "!"@,
        UnaryOp::BitNot => "~"@,
        UnaryOp::PreIncr => "++"@,
        UnaryOp::PostIncr => "++"@,
        UnaryOp::PreDecr => "--"@,
        UnaryOp::PostDecr => "--"@,
    }
}

/// The symbol of a binary operator.
pub open spec fn binary_symbol(op: BinaryOp) -> Seq<char> {
    match op {
        BinaryOp::Pow => "**"@,
        BinaryOp::Add => "+"@,
        BinaryOp::Sub => "-"@,
        BinaryOp::Mul => "*"@,
        BinaryOp::Div => "/"@,
        BinaryOp::Mod => "%"@,
        BinaryOp::Less => "<"@,
        BinaryOp::Greater => ">"@,
        BinaryOp::LessEq => "<="@,
        BinaryOp::GreaterEq => ">="@,
        BinaryOp::LShift => "<<"@,
        BinaryOp::RShift => ">>"@,
        BinaryOp::Eq => "=="@,
        BinaryOp::NotEq => "!="@,
        BinaryOp::BitAnd => "&"@,
        BinaryOp::BitXor => "^"@,
        BinaryOp::BitOr => "|"@,
        BinaryOp::And => "&&"@,
        BinaryOp::Or => "||"@,
    }
}

/// The symbol of an assignment.
pub open spec fn assign_symbol(op: AssignOp) -> Seq<char> {
    match op {
        AssignOp::Assign => "="@,
        AssignOp::AddAssign => "+="@,
        AssignOp::SubAssign => "-="@,
        AssignOp::MulAssign => "*="@,
        AssignOp::DivAssign => "/="@,
        AssignOp::BitAndAssign => "&="@,
        AssignOp::BitOrAssign => "|="@,
        AssignOp::BitXorAssign => "^="@,
        AssignOp::LShiftAssign => "<<="@,
        AssignOp::RShiftAssign => ">>="@,
    }
}

/// The name by which a follow is known in a failure: that of the field or of the
/// method, or a pair of brackets for an index.
pub open spec fn follow_name(f: FollowView) -> Seq<char> {
    match f {
        FollowView::Field(name) => name,
        FollowView::Index(_) => "[]"@,
        FollowView::Call(name, _) => name,
    }
}

/// Whether a constant counts as true: every constant but null, the number
/// zero and the empty string.
pub open spec fn truthy(c: ConstantView) -> bool {
    match c {
        ConstantView::Null => false,
        ConstantView::Int(i) => i != 0,
        ConstantView::Float(bits) => bits != 0 && bits != SIGN_BIT,
        ConstantView::String(s) => s.len() > 0,
        _ => true,
    }
}

/// One for true, zero for false.
pub open spec fn truth(b: bool) -> i32 {
    if b {
        1
    } else {
        0
    }
}

/// The integer if it fits.
pub open spec fn fitting(i: int) -> Option<i32> {
    if i32::MIN <= i <= i32::MAX {
        Some(i as i32)
    } else {
        None
    }
}

/// A unary operator applied to a constant. An integer is negated if its
/// negative fits, a floating-point number by its sign bit; any constant has
/// a logical opposite, one or zero. Nothing else has a constant result.
pub open spec fn unary_value(op: UnaryOp, c: ConstantView) -> Outcome {
    match (op, c) {
        (UnaryOp::Neg, ConstantView::Int(i)) => match fitting(-i) {
            Some(n) => Ok(ConstantView::Int(n)),
            None => Err(unary_symbol(op)),
        },
        (UnaryOp::Neg, ConstantView::Float(bits)) => Ok(ConstantView::Float(bits ^ SIGN_BIT)),
        (UnaryOp::Not, _) => Ok(ConstantView::Int(truth(!truthy(c)))),
        _ => Err(unary_symbol(op)),
    }
}

/// The unary operators `unary[..n]` applied to `c`, the last of them first.
pub open spec fn unaries_value(unary: Seq<UnaryOp>, n: int, c: ConstantView) -> Outcome
    decreases n,
{
    if n <= 0 {
        Ok(c)
    } else {
        match unary_value(unary[n - 1], c) {
            Ok(next) => unaries_value(unary, n - 1, next),
            Err(name) => Err(name),
        }
    }
}

/// A binary operator applied to two integers: sums, differences and products
/// that fit, and comparisons, which give one or zero.
pub open spec fn int_binary(op: BinaryOp, x: i32, y: i32) -> Option<i32> {
    match op {
        BinaryOp::Add => fitting(x + y),
        BinaryOp::Sub => fitting(x - y),
        BinaryOp::Mul => fitting(x * y),
        BinaryOp::Less => Some(truth(x < y)),
        BinaryOp::Greater => Some(truth(x > y)),
        BinaryOp::LessEq => Some(truth(x <= y)),
        BinaryOp::GreaterEq => Some(truth(x >= y)),
        BinaryOp::Eq => Some(truth(x == y)),
        BinaryOp::NotEq => Some(truth(x != y)),
        _ => None,
    }
}

/// A binary operator other than the logical ones applied to two constants:
/// two integers as `int_binary` says, two strings joined by `+`. Nothing
/// else has a constant result.
pub open spec fn binary_value(op: BinaryOp, a: ConstantView, b: ConstantView) -> Outcome {
    match (a, b) {
        (ConstantView::Int(x), ConstantView::Int(y)) => match int_binary(op, x, y) {
            Some(v) => Ok(ConstantView::Int(v)),
            None => Err(binary_symbol(op)),
        },
        (ConstantView::String(x), ConstantView::String(y)) => if op == BinaryOp::Add {
            Ok(ConstantView::String(x + y))
        } else {
            Err(binary_symbol(op))
        },
        _ => Err(binary_symbol(op)),
    }
}

/// Whether the left operand alone decides a logical operation: a false one
/// decides `&&`, a true one `||`.
pub open spec fn decided_by_left(op: BinaryOp, a: ConstantView) -> bool {
    (op == BinaryOp::And && !truthy(a)) || (op == BinaryOp::Or && truthy(a))
}

/// The value of an expression for the type at `scope`. Of a base expression
/// the term is evaluated first, then the follows from left to right, then
/// the unary operators from the last recorded to the first; as no follow has
/// a constant result, the first follow is what fails. Of a binary operation
/// the left operand is evaluated first, and the right one only where the
/// left one does not decide. An assignment has no value.
pub open spec fn value_of(e: ExprView, types: Seq<TypeDef>, scope: Seq<char>) -> Outcome
    decreases e, 0int,
{
    match e {
        ExprView::Base { unary, term, follow } => match term_value(term, types, scope) {
            Err(name) => Err(name),
            Ok(c) => if follow.len() > 0 {
                Err(follow_name(follow[0]))
            } else {
                unaries_value(unary, unary.len() as int, c)
            },
        },
        ExprView::BinaryOp { op, lhs, rhs } => match value_of(*lhs, types, scope) {
            Err(name) => Err(name),
            Ok(a) => if decided_by_left(op, a) {
                Ok(a)
            } else {
                match value_of(*rhs, types, scope) {
                    Err(name) => Err(name),
                    Ok(b) => if op == BinaryOp::And || op == BinaryOp::Or {
                        Ok(b)
                    } else {
                        binary_value(op, a, b)
                    },
                }
            },
        },
        ExprView::AssignOp { op, lhs, rhs } => Err(assign_symbol(op)),
    }
}

/// The value of a term for the type at `scope`. A literal is its own value;
/// an identifier has the value of the variable of that name, as the type
/// inherits it; a list has the values of its entries; calls and `new` have
/// none.
pub open spec fn term_value(t: TermView, types: Seq<TypeDef>, scope: Seq<char>) -> Outcome
    decreases t, 0int,
{
    match t {
        TermView::Null => Ok(ConstantView::Null),
        TermView::New { type_, args } => Err("new"@),
        TermView::List(entries) => match list_value(entries, entries.len() as int, types, scope) {
            Ok(values) => Ok(ConstantView::List(values)),
            Err(name) => Err(name),
        },
        TermView::Call(name, args) => Err(name),
        TermView::Prefab(fab) => Ok(ConstantView::Prefab(fab)),
        TermView::Ident(name) => match resolve(types, scope, name) {
            Some(c) => Ok(c),
            None => Err(name),
        },
        TermView::String(text) => Ok(ConstantView::String(text)),
        TermView::Resource(text) => Ok(ConstantView::Resource(text)),
        TermView::Int(i) => Ok(ConstantView::Int(i)),
        TermView::Float(bits) => Ok(ConstantView::Float(bits)),
        TermView::Expr(inner) => value_of(*inner, types, scope),
    }
}

/// The values of the first `n` entries of a list literal, each key before
/// its value; the first failure is the failure of the list.
pub open spec fn list_value(
    entries: Seq<(ExprView, Option<ExprView>)>,
    n: int,
    types: Seq<TypeDef>,
    scope: Seq<char>,
) -> Result<Seq<(ConstantView, Option<ConstantView>)>, Seq<char>>
    decreases entries, n,
{
    if n <= 0 || n > entries.len() {
        Ok(Seq::empty())
    } else {
        match list_value(entries, n - 1, types, scope) {
            Err(name) => Err(name),
            Ok(before) => match value_of(entries[n - 1].0, types, scope) {
                Err(name) => Err(name),
                Ok(key) => match entries[n - 1].1 {
                    None => Ok(before.push((key, None))),
                    Some(e) => match value_of(e, types, scope) {
                        Err(name) => Err(name),
                        Ok(v) => Ok(before.push((key, Some(v)))),
                    },
                },
            },
        }
    }
}

/// Whether the result of an evaluation is what `value` says: the constant,
/// or the failure to resolve the name.
pub open spec fn agrees(r: Result<Constant, Error>, value: Outcome) -> bool {
    match r {
        Ok(c) => value == Ok::<ConstantView, Seq<char>>(c@),
        Err(e) => e is UnresolvedReference && value == Err::<ConstantView, Seq<char>>(e.name()),
    }
}

/// The failure to resolve `name`.
fn unresolved(name: &str) -> (r: Result<Constant, Error>)
    ensures
        r matches Err(e) && e is UnresolvedReference && e.name() == name@,
{
    Err(Error::UnresolvedReference(name.to_owned()))
}

/// The symbol of a unary operator.
pub fn unary_sign(op: UnaryOp) -> (s: &'static str)
    ensures
        s@ == unary_symbol(op),
{
    match op {
        UnaryOp::Neg => "-",
        UnaryOp::Not => "!",
        UnaryOp::BitNot => "~",
        UnaryOp::PreIncr => "++",
        UnaryOp::PostIncr => "++",
        UnaryOp::PreDecr => "--",
        UnaryOp::PostDecr => "--",
    }
}

/// The symbol of a binary operator.
pub fn binary_sign(op: BinaryOp) -> (s: &'static str)
    ensures
        s@ == binary_symbol(op),
{
    match op {
        BinaryOp::Pow => "**",
        BinaryOp::Add => "+",
        BinaryOp::Sub => "-",
        BinaryOp::Mul => "*",
        BinaryOp::Div => "/",
        BinaryOp::Mod => "%",
        BinaryOp::Less => "<",
        BinaryOp::Greater => ">",
        BinaryOp::LessEq => "<=",
        BinaryOp::GreaterEq => ">=",
        BinaryOp::LShift => "<<",
        BinaryOp::RShift => ">>",
        BinaryOp::Eq => "==",
        BinaryOp::NotEq => "!=",
        BinaryOp::BitAnd => "&",
        BinaryOp::BitXor => "^",
        BinaryOp::BitOr => "|",
        BinaryOp::And => "&&",
        BinaryOp::Or => "||",
    }
}

/// The symbol of an assignment.
pub fn assign_sign(op: AssignOp) -> (s: &'static str)
    ensures
        s@ == assign_symbol(op),
{
    match op {
        AssignOp::Assign => "=",
        AssignOp::AddAssign => "+=",
        AssignOp::SubAssign => "-=",
        AssignOp::MulAssign => "*=",
        AssignOp::DivAssign => "/=",
        AssignOp::BitAndAssign => "&=",
        AssignOp::BitOrAssign => "|=",
        AssignOp::BitXorAssign => "^=",
        AssignOp::LShiftAssign => "<<=",
        AssignOp::RShiftAssign => ">>=",
    }
}

/// Whether a constant counts as true.
pub fn is_truthy(c: &Constant) -> (r: bool)
    ensures
        r == truthy(c@),
{
    match c {
        Constant::Null => false,
        Constant::Int(i) => *i != 0,
        Constant::Float(f) => f.bits != 0 && f.bits != SIGN_BIT,
        Constant::String(s) => s.as_str().unicode_len() > 0,
        _ => true,
    }
}

/// One for true, zero for false.
fn truth_of(b: bool) -> (r: Constant)
    ensures
        r@ == ConstantView::Int(truth(b)),
{
    if b {
        Constant::Int(1)
    } else {
        Constant::Int(0)
    }
}

/// Applies a unary operator to a constant.
pub fn apply_unary(op: UnaryOp, c: Constant) -> (r: Result<Constant, Error>)
    ensures
        agrees(r, unary_value(op, c@)),
{
    match op {
        UnaryOp::Neg => match c {
            Constant::Int(i) => {
                if i == i32::MIN {
                    unresolved(unary_sign(op))
                } else {
                    Ok(Constant::Int(-i))
                }
            },
            Constant::Float(f) => Ok(Constant::Float(FloatBits { bits: f.bits ^ SIGN_BIT })),
            _ => unresolved(unary_sign(op)),
        },
        UnaryOp::Not => Ok(truth_of(!is_truthy(&c))),
        _ => unresolved(unary_sign(op)),
    }
}

/// Applies a binary operator other than the logical ones to two constants.
pub fn apply_binary(op: BinaryOp, a: Constant, b: Constant) -> (r: Result<Constant, Error>)
    ensures
        agrees(r, binary_value(op, a@, b@)),
{
    match (a, b) {
        (Constant::Int(x), Constant::Int(y)) => {
            let value = match op {
                BinaryOp::Add => x.checked_add(y),
                BinaryOp::Sub => x.checked_sub(y),
                BinaryOp::Mul => x.checked_mul(y),
                BinaryOp::Less => Some(if x < y { 1 } else { 0 }),
                BinaryOp::Greater => Some(if x > y { 1 } else { 0 }),
                BinaryOp::LessEq => Some(if x <= y { 1 } else { 0 }),
                BinaryOp::GreaterEq => Some(if x >= y { 1 } else { 0 }),
                BinaryOp::Eq => Some(if x == y { 1 } else { 0 }),
                BinaryOp::NotEq => Some(if x != y { 1 } else { 0 }),
                _ => None,
            };
            match value {
                Some(v) => Ok(Constant::Int(v)),
                None => unresolved(binary_sign(op)),
            }
        },
        (Constant::String(x), Constant::String(y)) => {
            match op {
                BinaryOp::Add => Ok(Constant::String(x.concat(y.as_str()))),
                _ => unresolved(binary_sign(op)),
            }
        },
        _ => unresolved(binary_sign(op)),
    }
}

/// Applies the unary operators of an expression to the value of its term
/// and follows, the last recorded operator first.
pub fn apply_unaries(unary: &Vec<UnaryOp>, c: Constant) -> (r: Result<Constant, Error>)
    ensures
        agrees(r, unaries_value(unary@, unary@.len() as int, c@)),
{
    let ghost goal = unaries_value(unary@, unary@.len() as int, c@);
    let mut current = c;
    let mut left: usize = unary.len();
    while left > 0
        invariant
            left <= unary.len(),
            goal == unaries_value(unary@, unary@.len() as int, c@),
            goal == unaries_value(unary@, left as int, current@),
        decreases left,
    {
        let ghost before = current@;
        match apply_unary(unary[left - 1], current) {
            Ok(next) => {
                current = next;
            },
            Err(e) => {
                assert(unaries_value(unary@, left as int, before) == Err::<ConstantView, Seq<char>>(
                    e.name(),
                ));
                return Err(e);
            },
        }
        left -= 1;
    }
    Ok(current)
}

/// The name by which a follow is known in a failure.
fn name_of_follow(f: &Follow) -> (name: &str)
    ensures
        name@ == follow_name(f@),
{
    match f {
        Follow::Field(name) => name.as_str(),
        Follow::Index(_) => "[]",
        Follow::Call(name, _) => name.as_str(),
    }
}

/// The values of the entries of a list literal.
fn evaluate_list(
    entries: &Vec<(Expression, Option<Expression>)>,
    objtree: &ObjectTree,
    scope: &str,
) -> (r: Result<Vec<(Constant, Option<Constant>)>, Error>)
    ensures
        match r {
            Ok(values) => list_value(
                list_entries_view(entries@),
                entries@.len() as int,
                objtree.types@,
                scope@,
            ) == Ok::<Seq<(ConstantView, Option<ConstantView>)>, Seq<char>>(entries_view(values@)),
            Err(e) => e is UnresolvedReference && list_value(
                list_entries_view(entries@),
                entries@.len() as int,
                objtree.types@,
                scope@,
            ) == Err::<Seq<(ConstantView, Option<ConstantView>)>, Seq<char>>(e.name()),
        },
    decreases entries,
{
    let ghost all = list_entries_view(entries@);
    let ghost types = objtree.types@;
    let mut values: Vec<(Constant, Option<Constant>)> = Vec::new();
    let mut i: usize = 0;
    assert(entries_view(values@) =~= Seq::<(ConstantView, Option<ConstantView>)>::empty());
    while i < entries.len()
        invariant
            i <= entries.len(),
            all == list_entries_view(entries@),
            types == objtree.types@,
            values@.len() == i,
            list_value(all, i as int, types, scope@) == Ok::<
                Seq<(ConstantView, Option<ConstantView>)>,
                Seq<char>,
            >(entries_view(values@)),
        decreases entries.len() - i,
    {
        proof {
            vstd::std_specs::vec::axiom_vec_index_decreases(*entries, i as int);
            assert(decreases_to!(entries@[i as int] => entries@[i as int].0));
            assert(decreases_to!(entries@[i as int] => entries@[i as int].1));
            assert(all[i as int] == crate::ast::list_entry_view(entries@[i as int]));
        }
        let ghost before = entries_view(values@);
        let key = match evaluate(&entries[i].0, objtree, scope) {
            Ok(c) => c,
            Err(e) => {
                proof {
                    lemma_list_value_fails(all, i + 1, entries@.len() as int, types, scope@);
                }
                return Err(e);
            },
        };
        let value = match &entries[i].1 {
            Some(e) => match evaluate(e, objtree, scope) {
                Ok(c) => Some(c),
                Err(e) => {
                    proof {
                        lemma_list_value_fails(all, i + 1, entries@.len() as int, types, scope@);
                    }
                    return Err(e);
                },
            },
            None => None,
        };
        values.push((key, value));
        proof {
            assert(entries_view(values@) =~= before.push(entry_view(values@[i as int])));
        }
        i += 1;
    }
    Ok(values)
}

/// A list whose first entries fail fails as they do, however many entries
/// follow.
pub proof fn lemma_list_value_fails(
    entries: Seq<(ExprView, Option<ExprView>)>,
    n: int,
    m: int,
    types: Seq<TypeDef>,
    scope: Seq<char>,
)
    requires
        0 < n <= m <= entries.len(),
        list_value(entries, n, types, scope) is Err,
    ensures
        list_value(entries, m, types, scope) == list_value(entries, n, types, scope),
    decreases m - n,
{
    if n < m {
        lemma_list_value_fails(entries, n, m - 1, types, scope);
    }
}

/// The value of a term for the type at `scope`.
fn evaluate_term(term: &Term, objtree: &ObjectTree, scope: &str) -> (r: Result<Constant, Error>)
    ensures
        agrees(r, term_value(term@, objtree.types@, scope@)),
    decreases term,
{
    match term {
        Term::Null => Ok(Constant::Null),
        Term::New { type_, args } => unresolved("new"),
        Term::List(entries) => match evaluate_list(entries, objtree, scope) {
            Ok(values) => Ok(Constant::List(values)),
            Err(e) => Err(e),
        },
        Term::Call(name, args) => unresolved(name.as_str()),
        Term::Prefab(fab) => Ok(Constant::Prefab(fab.clone())),
        Term::Ident(name) => match objtree.get_var(scope, name.as_str()) {
            Ok(c) => Ok(c.clone()),
            Err(_) => unresolved(name.as_str()),
        },
        Term::String(text) => Ok(Constant::String(text.clone())),
        Term::Resource(text) => Ok(Constant::Resource(text.clone())),
        Term::Int(i) => Ok(Constant::Int(*i)),
        Term::Float(f) => Ok(Constant::Float(*f)),
        Term::Expr(inner) => evaluate(&**inner, objtree, scope),
    }
}

/// Evaluates an expression for the type at `scope`: gives its constant
/// value, or the failure to resolve the first name that could not be reduced.
pub fn evaluate(expr: &Expression, objtree: &ObjectTree, scope: &str) -> (r: Result<Constant, Error>)
    ensures
        agrees(r, value_of(expr@, objtree.types@, scope@)),
    decreases expr,
{
    match expr {
        Expression::Base { unary, term, follow } => {
            let c = match evaluate_term(term, objtree, scope) {
                Ok(c) => c,
                Err(e) => {
                    return Err(e);
                },
            };
            if follow.len() > 0 {
                assert(follows_view(follow@)[0] == follow[0]@);
                return unresolved(name_of_follow(&follow[0]));
            }
            assert(follows_view(follow@).len() == 0);
            apply_unaries(unary, c)
        },
        Expression::BinaryOp { op, lhs, rhs } => {
            let a = match evaluate(&**lhs, objtree, scope) {
                Ok(a) => a,
                Err(e) => {
                    return Err(e);
                },
            };
            let logical = match op {
                BinaryOp::And => Some(true),
                BinaryOp::Or => Some(false),
                _ => None,
            };
            match logical {
                Some(and) => {
                    if is_truthy(&a) != and {
                        return Ok(a);
                    }
                    evaluate(&**rhs, objtree, scope)
                },
                None => {
                    let b = match evaluate(&**rhs, objtree, scope) {
                        Ok(b) => b,
                        Err(e) => {
                            return Err(e);
                        },
                    };
                    apply_binary(*op, a, b)
                },
            }
        },
        Expression::AssignOp { op, lhs, rhs } => unresolved(assign_sign(*op)),
    }
}

} // verus!
