//! Atoms, the objects placed on a map, and the sprites they are drawn with.

use vstd::prelude::*;
use crate::ast::FloatBits;
use crate::constants::{Constant, ConstantView};
use crate::error::Error;
use crate::objtree::{
    find_var,
    lemma_vars_map_push,
    lemma_vars_map_same,
    lemma_vars_map_update,
    resolve,
    vars_map,
    ObjectTree,
    TypeDef,
};
use crate::text::{chars_of, is_subpath, subpath};

verus! {

/// Where and in which order an atom is drawn.
#[derive(Copy, Clone, PartialEq, Eq, Debug, Structural)]
pub struct Sprite {
    pub plane: i32,
    pub layer: i32,
}

/// An object on the map: its type, the variables set on this instance, and
/// its place.
#[derive(Debug, PartialEq)]
pub struct Atom {
    pub path: String,
    pub vars: Vec<(String, Constant)>,
    pub loc: (u32, u32, u32),
}

/// What an atom holds, as mathematical values.
pub struct AtomView {
    pub path: Seq<char>,
    pub vars: Map<Seq<char>, ConstantView>,
    pub loc: (u32, u32, u32),
}

impl AtomView {
    /// The value of the variable `name`: the one set on the instance, else
    /// the one that the type inherits.
    pub open spec fn var(self, types: Seq<TypeDef>, name: Seq<char>) -> Option<ConstantView> {
        if self.vars.contains_key(name) {
            Some(self.vars[name])
        } else {
            resolve(types, self.path, name)
        }
    }

    /// This atom with the variable `name` set to `value`.
    pub open spec fn with_var(self, name: Seq<char>, value: ConstantView) -> AtomView {
        AtomView { path: self.path, vars: self.vars.insert(name, value), loc: self.loc }
    }

    /// Whether the atom's type is the type written `parent` or lies below it.
    pub open spec fn istype(self, parent: Seq<char>) -> bool {
        is_subpath(self.path, parent)
    }

    /// Whether the variable `name` is a string or a resource name that reads `s`.
    pub open spec fn var_reads(self, types: Seq<TypeDef>, name: Seq<char>, s: Seq<char>) -> bool {
        self.var(types, name) matches Some(c) && c.reads(s)
    }

    /// Whether the variable `name` is a number greater than the integer
    /// `limit`, whose bit pattern as a floating-point number is `limit_bits`.
    /// A variable that is not defined is not.
    pub open spec fn var_is_above(
        self,
        types: Seq<TypeDef>,
        name: Seq<char>,
        limit: i32,
        limit_bits: FloatBits,
    ) -> bool {
        self.var(types, name) matches Some(c) && c.is_above(limit, limit_bits)
    }

    /// The value of the variable `name`, or null where it is not defined.
    pub open spec fn var_or_null(self, types: Seq<TypeDef>, name: Seq<char>) -> ConstantView {
        match self.var(types, name) {
            Some(c) => c,
            None => ConstantView::Null,
        }
    }
}

impl View for Atom {
    type V = AtomView;

    open spec fn view(&self) -> AtomView {
        AtomView { path: self.path@, vars: vars_map(self.vars@), loc: self.loc }
    }
}

impl Atom {
    /// An atom of the type at `path`, placed at `loc`, with no variable set
    /// on the instance.
    pub fn from_type(path: &str, loc: (u32, u32, u32)) -> (a: Atom)
        ensures
            a@ == (AtomView { path: path@, vars: Map::empty(), loc }),
    {
        Atom { path: path.to_owned(), vars: Vec::new(), loc }
    }

    /// The path of the atom's type.
    pub fn get_path(&self) -> (p: &str)
        ensures
            p@ == self@.path,
    {
        self.path.as_str()
    }

    /// Whether the atom's type is the type written `parent` or lies below it.
    pub fn istype(&self, parent: &str) -> (r: bool)
        ensures
            r == self@.istype(parent@),
    {
        subpath(self.path.as_str(), parent)
    }

    /// The value of the variable `name`: the one set on the instance, else
    /// the one that the type inherits; an error if there is neither.
    pub fn get_var<'a>(&'a self, name: &str, tree: &'a ObjectTree) -> (r: Result<
        &'a Constant,
        Error,
    >)
        ensures
            match r {
                Ok(c) => self@.var(tree.types@, name@) == Some(c@),
                Err(e) => self@.var(tree.types@, name@) is None && e is UndefinedVariable
                    && e.name() == name@,
            },
    {
        let key = chars_of(name);
        match find_var(&self.vars, &key) {
            Some(i) => Ok(&self.vars[i].1),
            None => tree.get_var(self.path.as_str(), name),
        }
    }

    /// Whether the variable `name` is a string or a resource name that reads `s`.
    pub fn var_reads(&self, name: &str, s: &str, tree: &ObjectTree) -> (r: bool)
        ensures
            r == self@.var_reads(tree.types@, name@, s@),
    {
        match self.get_var(name, tree) {
            Ok(c) => c.eq_str(s),
            Err(_) => false,
        }
    }

    /// Whether the variable `name` is a number greater than the integer
    /// `limit`, which is zero or positive and whose bit pattern as a
    /// floating-point number is `limit_bits`.
    pub fn var_is_above(&self, name: &str, limit: i32, limit_bits: FloatBits, tree: &ObjectTree) -> (r:
        bool)
        ensures
            r == self@.var_is_above(tree.types@, name@, limit, limit_bits),
    {
        match self.get_var(name, tree) {
            Ok(c) => c.is_above(limit, limit_bits),
            Err(_) => false,
        }
    }

    /// A copy of the value of the variable `name`, or null where it is not
    /// defined.
    pub fn var_or_null(&self, name: &str, tree: &ObjectTree) -> (c: Constant)
        ensures
            c@ == self@.var_or_null(tree.types@, name@),
    {
        match self.get_var(name, tree) {
            Ok(c) => c.clone(),
            Err(_) => Constant::Null,
        }
    }

    /// Sets the variable `name` on the instance, in place of an earlier
    /// value if it had one.
    pub fn set_var(&mut self, name: &str, value: Constant)
        ensures
            final(self)@ == old(self)@.with_var(name@, value@),
    {
        let key = chars_of(name);
        let entry = (name.to_owned(), value);
        match find_var(&self.vars, &key) {
            Some(i) => {
                proof {
                    lemma_vars_map_update(self.vars@, name@, i as int, entry);
                }
                self.vars.set(i, entry);
            },
            None => {
                proof {
                    lemma_vars_map_push(self.vars@, entry);
                }
                self.vars.push(entry);
            },
        }
    }
}

impl Clone for Atom {
    /// A copy with the same type, variables and place.
    fn clone(&self) -> (c: Atom)
        ensures
            c@ == self@,
    {
        let mut vars: Vec<(String, Constant)> = Vec::new();
        let mut i: usize = 0;
        while i < self.vars.len()
            invariant
                i <= self.vars.len(),
                vars.len() == i,
                forall|j: int|
                    0 <= j < i ==> (#[trigger] vars@[j]).0@ == self.vars@[j].0@ && vars@[j].1@
                        == self.vars@[j].1@,
            decreases self.vars.len() - i,
        {
            vars.push((self.vars[i].0.clone(), self.vars[i].1.clone()));
            i += 1;
        }
        proof {
            lemma_vars_map_same(vars@, self.vars@);
        }
        Atom { path: self.path.clone(), vars, loc: self.loc }
    }
}

} // verus!
