//! Resolving prefabs into atoms: the overrides of a prefab, evaluated, become
//! the variables of an instance of its type.

use vstd::prelude::*;
use vstd::string::StringExecFns;
use crate::ast::{path_view, ExprView, PathOp, Prefab, TypePath};
use crate::constants::ConstantView;
use crate::error::Error;
use crate::eval::{evaluate, value_of};
use crate::minimap::Atom;
use crate::objtree::{ObjectTree, TypeDef};

verus! {

/// The character that a separator is written as.
pub open spec fn op_char(op: PathOp) -> char {
    match op {
        PathOp::Slash => '/',
        PathOp::Dot => '.',
        PathOp::Colon => ':',
    }
}

/// A type path as it is written: each segment behind its separator.
pub open spec fn path_text(path: Seq<(PathOp, Seq<char>)>) -> Seq<char>
    decreases path.len(),
{
    if path.len() == 0 {
        Seq::empty()
    } else {
        path_text(path.drop_last()).push(op_char(path.last().0)) + path.last().1
    }
}

/// A type path as it is written.
pub fn path_string(path: &TypePath) -> (s: String)
    ensures
        s@ == path_text(path_view(path@)),
{
    let ghost all = path_view(path@);
    let mut s = String::new();
    let mut i: usize = 0;
    assert(all.subrange(0, 0) =~= Seq::<(PathOp, Seq<char>)>::empty());
    while i < path.len()
        invariant
            i <= path.len(),
            all == path_view(path@),
            s@ == path_text(all.subrange(0, i as int)),
        decreases path.len() - i,
    {
        let ghost upto = all.subrange(0, i + 1);
        assert(upto.drop_last() =~= all.subrange(0, i as int));
        assert(upto.last() == (path@[i as int].0, path@[i as int].1@));
        let c = match path[i].0 {
            PathOp::Slash => '/',
            PathOp::Dot => '.',
            PathOp::Colon => ':',
        };
        s.push(c);
        s.append(path[i].1.as_str());
        i += 1;
    }
    assert(all.subrange(0, i as int) =~= all);
    s
}

/// The variables that the first `n` overrides give to an instance, each
/// evaluated for the type at `scope`, a later one of the same name in place
/// of an earlier one; or the name that the first failing override could not
/// resolve.
pub open spec fn resolved_vars(
    entries: Seq<(Seq<char>, ExprView)>,
    n: int,
    types: Seq<TypeDef>,
    scope: Seq<char>,
) -> Result<Map<Seq<char>, ConstantView>, Seq<char>>
    decreases n,
{
    if n <= 0 || n > entries.len() {
        Ok(Map::empty())
    } else {
        match resolved_vars(entries, n - 1, types, scope) {
            Err(name) => Err(name),
            Ok(vars) => match value_of(entries[n - 1].1, types, scope) {
                Err(name) => Err(name),
                Ok(value) => Ok(vars.insert(entries[n - 1].0, value)),
            },
        }
    }
}

/// Overrides of which the first fail fail as they do, however many follow.
pub proof fn lemma_resolved_vars_fails(
    entries: Seq<(Seq<char>, ExprView)>,
    n: int,
    m: int,
    types: Seq<TypeDef>,
    scope: Seq<char>,
)
    requires
        0 < n <= m <= entries.len(),
        resolved_vars(entries, n, types, scope) is Err,
    ensures
        resolved_vars(entries, m, types, scope) == resolved_vars(entries, n, types, scope),
    decreases m - n,
{
    if n < m {
        lemma_resolved_vars_fails(entries, n, m - 1, types, scope);
    }
}

/// The atom that a prefab stands for at `loc`: an instance of the prefab's
/// type whose variables are the overrides of the prefab, each evaluated for
/// that type. Fails with the first name that an override could not resolve.
pub fn resolve_prefab(prefab: &Prefab, objtree: &ObjectTree, loc: (u32, u32, u32)) -> (r: Result<
    Atom,
    Error,
>)
    ensures
        match r {
            Ok(atom) => atom@.path == path_text(prefab@.path) && atom@.loc == loc && resolved_vars(
                prefab@.vars,
                prefab@.vars.len() as int,
                objtree.types@,
                path_text(prefab@.path),
            ) == Ok::<Map<Seq<char>, ConstantView>, Seq<char>>(atom@.vars),
            Err(e) => e is UnresolvedReference && resolved_vars(
                prefab@.vars,
                prefab@.vars.len() as int,
                objtree.types@,
                path_text(prefab@.path),
            ) == Err::<Map<Seq<char>, ConstantView>, Seq<char>>(e.name()),
        },
{
    let scope = path_string(&prefab.path);
    let mut atom = Atom::from_type(scope.as_str(), loc);
    let count = prefab.var_count();
    let mut i: usize = 0;
    while i < count
        invariant
            i <= count,
            count == prefab@.vars.len(),
            scope@ == path_text(prefab@.path),
            atom@.path == scope@,
            atom@.loc == loc,
            resolved_vars(prefab@.vars, i as int, objtree.types@, scope@) == Ok::<
                Map<Seq<char>, ConstantView>,
                Seq<char>,
            >(atom@.vars),
        decreases count - i,
    {
        match prefab.var_at(i) {
            Some((name, value)) => {
                match evaluate(value, objtree, scope.as_str()) {
                    Ok(c) => {
                        atom.set_var(name.as_str(), c);
                    },
                    Err(e) => {
                        proof {
                            lemma_resolved_vars_fails(
                                prefab@.vars,
                                i + 1,
                                count as int,
                                objtree.types@,
                                scope@,
                            );
                        }
                        return Err(e);
                    },
                }
            },
            None => {},
        }
        i += 1;
    }
    Ok(atom)
}

} // verus!
