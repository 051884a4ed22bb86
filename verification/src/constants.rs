//! The values that variables of resolved objects hold.

use vstd::prelude::*;
use crate::ast::{FloatBits, Prefab, PrefabView};
use crate::text::str_eq;

verus! {

/// The bit pattern of positive infinity, the largest pattern of a
/// non-negative number.
pub const POSITIVE_INFINITY_BITS: u32 = 0x7F80_0000;

impl FloatBits {
    /// Whether the number with this bit pattern is greater than the number
    /// with the pattern `limit`, for a limit that is zero or positive. Among
    /// such numbers the greater one has the greater pattern; a negative number
    /// has its top bit set, and a pattern above infinity is no number.
    pub open spec fn spec_exceeds(self, limit: FloatBits) -> bool {
        limit.bits < self.bits <= POSITIVE_INFINITY_BITS
    }

    /// Whether this number is greater than `limit`, which is zero or positive.
    pub fn exceeds(self, limit: FloatBits) -> (r: bool)
        ensures
            r == self.spec_exceeds(limit),
    {
        limit.bits < self.bits && self.bits <= POSITIVE_INFINITY_BITS
    }
}

/// An evaluated literal.
#[derive(Debug, PartialEq)]
pub enum Constant {
    /// The null value.
    Null,
    /// A text string.
    String(String),
    /// The name of a resource file.
    Resource(String),
    /// An integer.
    Int(i32),
    /// A floating-point number.
    Float(FloatBits),
    /// A list; an entry is a value or a key with its value.
    List(Vec<(Constant, Option<Constant>)>),
    /// A reference to a type, with the overrides written beside it.
    Prefab(Prefab),
}

/// What a constant holds, as mathematical values.
pub enum ConstantView {
    Null,
    String(Seq<char>),
    Resource(Seq<char>),
    Int(i32),
    Float(u32),
    List(Seq<(ConstantView, Option<ConstantView>)>),
    Prefab(PrefabView),
}

/// What an entry of a list holds.
pub open spec fn entry_view(e: (Constant, Option<Constant>)) -> (ConstantView, Option<ConstantView>)
    decreases e,
{
    (
        e.0.view(),
        match e.1 {
            Some(c) => Some(c.view()),
            None => None,
        },
    )
}

/// What the entries of a list hold, one by one.
pub open spec fn entries_view(list: Seq<(Constant, Option<Constant>)>) -> Seq<
    (ConstantView, Option<ConstantView>),
>
    decreases list,
{
    Seq::new(
        list.len(),
        |i: int|
            if 0 <= i < list.len() {
                entry_view(list[i])
            } else {
                (ConstantView::Null, None)
            },
    )
}

impl View for Constant {
    type V = ConstantView;

    open spec fn view(&self) -> ConstantView
        decreases self,
    {
        match self {
            Constant::Null => ConstantView::Null,
            Constant::String(s) => ConstantView::String(s@),
            Constant::Resource(s) => ConstantView::Resource(s@),
            Constant::Int(i) => ConstantView::Int(*i),
            Constant::Float(f) => ConstantView::Float(f.bits),
            Constant::List(v) => ConstantView::List(entries_view(v@)),
            Constant::Prefab(p) => ConstantView::Prefab(p@),
        }
    }
}

impl ConstantView {
    /// The text of a string or of a resource name.
    pub open spec fn text(self) -> Option<Seq<char>> {
        match self {
            ConstantView::String(s) => Some(s),
            ConstantView::Resource(s) => Some(s),
            _ => None,
        }
    }

    /// Whether this is a string or a resource name that reads `s`.
    pub open spec fn reads(self, s: Seq<char>) -> bool {
        self.text() == Some(s)
    }

    /// Whether this is a number greater than the integer `limit`, whose bit
    /// pattern as a floating-point number is `limit_bits`.
    pub open spec fn is_above(self, limit: i32, limit_bits: FloatBits) -> bool {
        match self {
            ConstantView::Int(i) => i > limit,
            ConstantView::Float(bits) => (FloatBits { bits }).spec_exceeds(limit_bits),
            _ => false,
        }
    }
}

impl Constant {
    /// A string constant holding `s`.
    pub fn string(s: &str) -> (c: Constant)
        ensures
            c@ == ConstantView::String(s@),
    {
        Constant::String(s.to_owned())
    }

    /// Whether this is a string or a resource name that reads `s`.
    pub fn eq_str(&self, s: &str) -> (r: bool)
        ensures
            r == self@.reads(s@),
    {
        match self {
            Constant::String(t) => str_eq(t.as_str(), s),
            Constant::Resource(t) => str_eq(t.as_str(), s),
            _ => false,
        }
    }

    /// Whether this is a number greater than the integer `limit`, which is
    /// zero or positive and whose bit pattern as a floating-point number is
    /// `limit_bits`.
    pub fn is_above(&self, limit: i32, limit_bits: FloatBits) -> (r: bool)
        ensures
            r == self@.is_above(limit, limit_bits),
    {
        match self {
            Constant::Int(i) => *i > limit,
            Constant::Float(f) => f.exceeds(limit_bits),
            _ => false,
        }
    }
}

/// A copy of the entries of a list.
fn clone_entries(v: &Vec<(Constant, Option<Constant>)>) -> (out: Vec<(Constant, Option<Constant>)>)
    ensures
        out@.len() == v@.len(),
        forall|j: int| 0 <= j < v@.len() ==> entry_view(#[trigger] out@[j]) == entry_view(v@[j]),
    decreases v,
{
    let mut out: Vec<(Constant, Option<Constant>)> = Vec::new();
    let mut i: usize = 0;
    while i < v.len()
        invariant
            i <= v.len(),
            out.len() == i,
            forall|j: int| 0 <= j < i ==> entry_view(#[trigger] out@[j]) == entry_view(v@[j]),
        decreases v.len() - i,
    {
        proof {
            vstd::std_specs::vec::axiom_vec_index_decreases(*v, i as int);
            assert(decreases_to!(v@[i as int] => v@[i as int].0));
            assert(decreases_to!(v@[i as int] => v@[i as int].1));
        }
        let key = v[i].0.clone();
        let value = match &v[i].1 {
            Some(c) => Some(c.clone()),
            None => None,
        };
        out.push((key, value));
        i += 1;
    }
    out
}

impl Clone for Constant {
    /// A copy that holds the same values.
    fn clone(&self) -> (c: Constant)
        ensures
            c@ == self@,
        decreases self,
    {
        match self {
            Constant::Null => Constant::Null,
            Constant::String(s) => Constant::String(s.clone()),
            Constant::Resource(s) => Constant::Resource(s.clone()),
            Constant::Int(i) => Constant::Int(*i),
            Constant::Float(f) => Constant::Float(*f),
            Constant::List(v) => {
                let c = Constant::List(clone_entries(v));
                proof {
                    assert(c@->List_0 =~= self@->List_0);
                }
                c
            },
            Constant::Prefab(p) => Constant::Prefab(p.clone()),
        }
    }
}

} // verus!
