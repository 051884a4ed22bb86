//! The object tree: the types of the world and the variables they define.

use vstd::prelude::*;
use crate::constants::{Constant, ConstantView};
use crate::error::Error;
use crate::text::chars_of;

verus! {

/// The mapping that a list of variable definitions stands for. Where a name
/// is defined more than once, the first definition counts.
pub open spec fn vars_map(vars: Seq<(String, Constant)>) -> Map<Seq<char>, ConstantView>
    decreases vars.len(),
{
    if vars.len() == 0 {
        Map::empty()
    } else {
        vars_map(vars.drop_first()).insert(vars[0].0@, vars[0].1@)
    }
}

/// A list that defines `name` nowhere maps it to nothing.
pub proof fn lemma_vars_map_miss(vars: Seq<(String, Constant)>, name: Seq<char>)
    requires
        forall|j: int| 0 <= j < vars.len() ==> (#[trigger] vars[j]).0@ != name,
    ensures
        !vars_map(vars).contains_key(name),
    decreases vars.len(),
{
    if vars.len() > 0 {
        let rest = vars.drop_first();
        assert forall|j: int| 0 <= j < rest.len() implies (#[trigger] rest[j]).0@ != name by {
            assert(rest[j] == vars[j + 1]);
        }
        lemma_vars_map_miss(rest, name);
    }
}

/// A list maps `name` to the value of the first entry that defines it.
pub proof fn lemma_vars_map_hit(vars: Seq<(String, Constant)>, name: Seq<char>, i: int)
    requires
        0 <= i < vars.len(),
        vars[i].0@ == name,
        forall|j: int| 0 <= j < i ==> (#[trigger] vars[j]).0@ != name,
    ensures
        vars_map(vars).contains_key(name),
        vars_map(vars)[name] == vars[i].1@,
    decreases vars.len(),
{
    if i > 0 {
        let rest = vars.drop_first();
        assert(vars[0].0@ != name);
        assert forall|j: int| 0 <= j < i - 1 implies (#[trigger] rest[j]).0@ != name by {
            assert(rest[j] == vars[j + 1]);
        }
        lemma_vars_map_hit(rest, name, i - 1);
    }
}

/// Replacing the value of the first entry that defines `name` redefines
/// `name` in the mapping and nothing else.
pub proof fn lemma_vars_map_update(
    vars: Seq<(String, Constant)>,
    name: Seq<char>,
    i: int,
    entry: (String, Constant),
)
    requires
        0 <= i < vars.len(),
        vars[i].0@ == name,
        entry.0@ == name,
        forall|j: int| 0 <= j < i ==> (#[trigger] vars[j]).0@ != name,
    ensures
        vars_map(vars.update(i, entry)) == vars_map(vars).insert(name, entry.1@),
    decreases vars.len(),
{
    let new = vars.update(i, entry);
    if i == 0 {
        assert(new.drop_first() == vars.drop_first());
        assert(vars_map(new) == vars_map(vars).insert(name, entry.1@));
    } else {
        let rest = vars.drop_first();
        assert(vars[0].0@ != name);
        assert forall|j: int| 0 <= j < i - 1 implies (#[trigger] rest[j]).0@ != name by {
            assert(rest[j] == vars[j + 1]);
        }
        lemma_vars_map_update(rest, name, i - 1, entry);
        assert(new.drop_first() == rest.update(i - 1, entry));
        assert(vars_map(new) == vars_map(vars).insert(name, entry.1@));
    }
}

/// Adding an entry for a name that the list does not define yet defines that
/// name in the mapping and nothing else.
pub proof fn lemma_vars_map_push(vars: Seq<(String, Constant)>, entry: (String, Constant))
    requires
        forall|j: int| 0 <= j < vars.len() ==> (#[trigger] vars[j]).0@ != entry.0@,
    ensures
        vars_map(vars.push(entry)) == vars_map(vars).insert(entry.0@, entry.1@),
    decreases vars.len(),
{
    let new = vars.push(entry);
    if vars.len() == 0 {
        assert(new.drop_first() == vars);
        assert(vars_map(new) == vars_map(vars).insert(entry.0@, entry.1@));
    } else {
        let rest = vars.drop_first();
        assert forall|j: int| 0 <= j < rest.len() implies (#[trigger] rest[j]).0@ != entry.0@ by {
            assert(rest[j] == vars[j + 1]);
        }
        lemma_vars_map_push(rest, entry);
        assert(new.drop_first() == rest.push(entry));
        assert(vars[0].0@ != entry.0@);
        assert(vars_map(new) == vars_map(vars).insert(entry.0@, entry.1@));
    }
}

/// Lists whose entries hold the same names and values, one by one, stand for
/// the same mapping.
pub proof fn lemma_vars_map_same(a: Seq<(String, Constant)>, b: Seq<(String, Constant)>)
    requires
        a.len() == b.len(),
        forall|j: int| 0 <= j < a.len() ==> (#[trigger] a[j]).0@ == b[j].0@ && a[j].1@ == b[j].1@,
    ensures
        vars_map(a) == vars_map(b),
    decreases a.len(),
{
    if a.len() > 0 {
        let ra = a.drop_first();
        let rb = b.drop_first();
        assert forall|j: int| 0 <= j < ra.len() implies (#[trigger] ra[j]).0@ == rb[j].0@
            && ra[j].1@ == rb[j].1@ by {
            assert(ra[j] == a[j + 1]);
            assert(rb[j] == b[j + 1]);
        }
        lemma_vars_map_same(ra, rb);
        assert(a[0].0@ == b[0].0@);
    }
}

/// The index of the first entry of `vars` that defines `name`.
pub fn find_var(vars: &Vec<(String, Constant)>, name: &Vec<char>) -> (r: Option<usize>)
    ensures
        match r {
            Some(i) => i < vars.len() && vars@[i as int].0@ == name@ && vars_map(vars@).contains_key(
                name@,
            ) && vars_map(vars@)[name@] == vars@[i as int].1@ && forall|j: int|
                0 <= j < i ==> (#[trigger] vars@[j]).0@ != name@,
            None => !vars_map(vars@).contains_key(name@) && forall|j: int|
                0 <= j < vars.len() ==> (#[trigger] vars@[j]).0@ != name@,
        },
{
    let mut i: usize = 0;
    while i < vars.len()
        invariant
            i <= vars.len(),
            forall|j: int| 0 <= j < i ==> (#[trigger] vars@[j]).0@ != name@,
        decreases vars.len() - i,
    {
        let key = chars_of(vars[i].0.as_str());
        if same_chars(&key, name) {
            proof {
                lemma_vars_map_hit(vars@, name@, i as int);
            }
            return Some(i);
        }
        i += 1;
    }
    proof {
        lemma_vars_map_miss(vars@, name@);
    }
    None
}

/// Whether two lists of characters are the same.
pub fn same_chars(a: &Vec<char>, b: &Vec<char>) -> (r: bool)
    ensures
        r == (a@ == b@),
{
    if a.len() != b.len() {
        return false;
    }
    let mut i: usize = 0;
    while i < a.len()
        invariant
            a.len() == b.len(),
            i <= a.len(),
            forall|j: int| 0 <= j < i ==> a@[j] == b@[j],
        decreases a.len() - i,
    {
        if a[i] != b[i] {
            return false;
        }
        i += 1;
    }
    assert(a@ =~= b@);
    true
}

/// The path of the type that `path` derives from: `path` up to its last
/// slash. The root, the empty path, has no parent and gives itself.
pub open spec fn parent_path(path: Seq<char>) -> Seq<char>
    decreases path.len(),
{
    if path.len() == 0 {
        path
    } else if path.last() == '/' {
        path.drop_last()
    } else {
        parent_path(path.drop_last())
    }
}

/// The parent of a path is a proper beginning of it, unless the path is the root.
pub proof fn lemma_parent_path_shorter(path: Seq<char>)
    ensures
        parent_path(path).is_prefix_of(path),
        path.len() > 0 ==> parent_path(path).len() < path.len(),
    decreases path.len(),
{
    if path.len() > 0 && path.last() != '/' {
        lemma_parent_path_shorter(path.drop_last());
    }
}

/// A type of the tree: its path and the variables that it defines itself.
pub struct TypeDef {
    pub path: String,
    pub vars: Vec<(String, Constant)>,
}

/// The variables that the type at `path` defines itself, in the first
/// definition of that type; none where the tree has no such type.
pub open spec fn own_vars(types: Seq<TypeDef>, path: Seq<char>) -> Map<Seq<char>, ConstantView>
    decreases types.len(),
{
    if types.len() == 0 {
        Map::empty()
    } else if types[0].path@ == path {
        vars_map(types[0].vars@)
    } else {
        own_vars(types.drop_first(), path)
    }
}

/// The value of the variable `name` for the type at `path`: that of the
/// nearest type, from `path` up to the root, that defines it.
pub open spec fn resolve(types: Seq<TypeDef>, path: Seq<char>, name: Seq<char>) -> Option<
    ConstantView,
>
    decreases path.len(),
{
    if own_vars(types, path).contains_key(name) {
        Some(own_vars(types, path)[name])
    } else if parent_path(path).len() < path.len() {
        resolve(types, parent_path(path), name)
    } else {
        None
    }
}

/// The types of the world, each with the variables it defines.
pub struct ObjectTree {
    pub types: Vec<TypeDef>,
}

impl ObjectTree {
    /// A tree without types.
    pub fn new() -> (t: ObjectTree)
        ensures
            t.types@.len() == 0,
    {
        ObjectTree { types: Vec::new() }
    }

    /// The index of the first type defined at `path`.
    fn find_type(&self, path: &Vec<char>) -> (r: Option<usize>)
        ensures
            match r {
                Some(i) => i < self.types.len() && own_vars(self.types@, path@) == vars_map(
                    self.types@[i as int].vars@,
                ),
                None => own_vars(self.types@, path@) == Map::<Seq<char>, ConstantView>::empty(),
            },
    {
        let mut i: usize = 0;
        assert(self.types@.subrange(0, self.types.len() as int) == self.types@);
        while i < self.types.len()
            invariant
                i <= self.types.len(),
                own_vars(self.types@, path@) == own_vars(
                    self.types@.subrange(i as int, self.types.len() as int),
                    path@,
                ),
            decreases self.types.len() - i,
        {
            let here = chars_of(self.types[i].path.as_str());
            let ghost rest = self.types@.subrange(i as int, self.types.len() as int);
            assert(rest[0] == self.types@[i as int]);
            if same_chars(&here, path) {
                return Some(i);
            }
            assert(rest.drop_first() == self.types@.subrange(i + 1, self.types.len() as int));
            i += 1;
        }
        assert(self.types@.subrange(i as int, self.types.len() as int).len() == 0);
        None
    }

    /// The value of the variable `name` for the type at `path`, from the
    /// nearest type that defines it; an error if none does.
    pub fn get_var(&self, path: &str, name: &str) -> (r: Result<&Constant, Error>)
        ensures
            match r {
                Ok(c) => resolve(self.types@, path@, name@) == Some(c@),
                Err(e) => resolve(self.types@, path@, name@) is None && e is UndefinedVariable
                    && e.name() == name@,
            },
    {
        let mut cur = chars_of(path);
        let key = chars_of(name);
        loop
            invariant
                key@ == name@,
                resolve(self.types@, path@, name@) == resolve(self.types@, cur@, name@),
            decreases cur.len(),
        {
            match self.find_type(&cur) {
                Some(t) => {
                    match find_var(&self.types[t].vars, &key) {
                        Some(v) => {
                            return Ok(&self.types[t].vars[v].1);
                        },
                        None => {},
                    }
                },
                None => {},
            }
            proof {
                lemma_parent_path_shorter(cur@);
            }
            if cur.len() == 0 {
                return Err(Error::UndefinedVariable(name.to_owned()));
            }
            let ghost before = cur@;
            let mut done = false;
            while !done
                invariant
                    cur@.len() <= before.len(),
                    done ==> cur@ == parent_path(before),
                    !done ==> cur@.len() > 0 && parent_path(cur@) == parent_path(before),
                decreases cur.len() + (if done { 0int } else { 1int }),
            {
                let ghost longer = cur@;
                let last = cur.pop();
                assert(cur@ == longer.drop_last());
                if last == Some('/') || cur.len() == 0 {
                    proof {
                        reveal_with_fuel(parent_path, 2);
                    }
                    done = true;
                }
            }
        }
    }
}

} // verus!
