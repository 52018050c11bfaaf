//! Parameter values and the order-preserving property map.

use vstd::prelude::*;
use crate::key::Key;
use crate::model::{
    map_insert, map_lookup, lemma_map_lookup_absent, lemma_map_lookup_at, MapModel, ValueModel,
};

verus! {

broadcast use vstd::seq::group_seq_axioms, vstd::std_specs::vec::group_vec_axioms;

/// A parameter value.
#[derive(Debug, PartialEq)]
pub enum Value {
    /// A bare token, possibly carrying a verbatim parenthesized suffix
    /// such as `char(80  )`.
    Literal(String),
    /// The raw content of a `"..."` string, tilde escapes kept.
    DoubleQuotedString(String),
    /// The raw content of a `'...'` string, tilde escapes kept.
    SingleQuotedString(String),
    /// A numeric token, kept exactly as it stood in the source.
    Number(String),
    /// A nested property map.
    Mapping(PropMap),
    /// An ordered, heterogeneous list.
    List(Vec<Value>),
}

/// A property map that keeps declaration order.
#[derive(Debug, PartialEq)]
pub struct PropMap {
    pub entries: Vec<(Key, Value)>,
}

/// The models of a sequence of values.
pub open spec fn list_model(l: Seq<Value>) -> Seq<ValueModel>
    decreases l,
{
    Seq::new(
        l.len(),
        |i: int|
            if 0 <= i < l.len() {
                l[i].model()
            } else {
                ValueModel::Literal(Seq::empty())
            },
    )
}

/// The association list a sequence of entries stands for.
pub open spec fn entries_model(es: Seq<(Key, Value)>) -> MapModel
    decreases es,
{
    Seq::new(
        es.len(),
        |i: int|
            if 0 <= i < es.len() {
                (es[i].0@, es[i].1.model())
            } else {
                (Seq::empty(), ValueModel::Literal(Seq::empty()))
            },
    )
}

impl Value {
    /// The mathematical value this node stands for.
    pub open spec fn model(self) -> ValueModel
        decreases self,
    {
        match self {
            Value::Literal(s) => ValueModel::Literal(s@),
            Value::DoubleQuotedString(s) => ValueModel::DoubleQuoted(s@),
            Value::SingleQuotedString(s) => ValueModel::SingleQuoted(s@),
            Value::Number(s) => ValueModel::Number(s@),
            Value::Mapping(m) => ValueModel::Mapping(m.model()),
            Value::List(l) => ValueModel::List(list_model(l@)),
        }
    }

    /// Whether the value is a bare literal.
    pub fn is_literal(&self) -> (r: bool)
        ensures
            r == (self.model() is Literal),
    {
        match self {
            Value::Literal(_) => true,
            _ => false,
        }
    }

    /// Whether the value is a quoted string of either kind.
    pub fn is_string(&self) -> (r: bool)
        ensures
            r == (self.model() is DoubleQuoted || self.model() is SingleQuoted),
    {
        match self {
            Value::DoubleQuotedString(_) => true,
            Value::SingleQuotedString(_) => true,
            _ => false,
        }
    }

    /// Whether the value is numeric.
    pub fn is_number(&self) -> (r: bool)
        ensures
            r == (self.model() is Number),
    {
        match self {
            Value::Number(_) => true,
            _ => false,
        }
    }

    /// Whether the value is a nested property map.
    pub fn is_map(&self) -> (r: bool)
        ensures
            r == (self.model() is Mapping),
    {
        match self {
            Value::Mapping(_) => true,
            _ => false,
        }
    }

    /// Whether the value is a list.
    pub fn is_list(&self) -> (r: bool)
        ensures
            r == (self.model() is List),
    {
        match self {
            Value::List(_) => true,
            _ => false,
        }
    }

    /// The literal token, when the value is a bare literal.
    pub fn as_literal(&self) -> (r: Option<&String>)
        ensures
            match r {
                Some(s) => self.model() == ValueModel::Literal(s@),
                None => !(self.model() is Literal),
            },
    {
        match self {
            Value::Literal(s) => Some(s),
            _ => None,
        }
    }

    /// The raw string content, when the value is a quoted string.
    pub fn as_string(&self) -> (r: Option<&String>)
        ensures
            match r {
                Some(s) => self.model() == ValueModel::DoubleQuoted(s@) || self.model()
                    == ValueModel::SingleQuoted(s@),
                None => !(self.model() is DoubleQuoted || self.model() is SingleQuoted),
            },
    {
        match self {
            Value::DoubleQuotedString(s) => Some(s),
            Value::SingleQuotedString(s) => Some(s),
            _ => None,
        }
    }

    /// The numeric token, when the value is numeric.
    pub fn as_number(&self) -> (r: Option<&String>)
        ensures
            match r {
                Some(s) => self.model() == ValueModel::Number(s@),
                None => !(self.model() is Number),
            },
    {
        match self {
            Value::Number(s) => Some(s),
            _ => None,
        }
    }

    /// The nested map, when the value is one.
    pub fn as_map(&self) -> (r: Option<&PropMap>)
        ensures
            match r {
                Some(m) => self.model() == ValueModel::Mapping(m.model()),
                None => !(self.model() is Mapping),
            },
    {
        match self {
            Value::Mapping(m) => Some(m),
            _ => None,
        }
    }

    /// The element list, when the value is a list.
    pub fn as_list(&self) -> (r: Option<&Vec<Value>>)
        ensures
            match r {
                Some(l) => self.model() == ValueModel::List(list_model(l@)),
                None => !(self.model() is List),
            },
    {
        match self {
            Value::List(l) => Some(l),
            _ => None,
        }
    }
}

impl PropMap {
    /// The association list this map stands for, in declaration order.
    pub open spec fn model(self) -> MapModel
        decreases self,
    {
        entries_model(self.entries@)
    }

    /// An empty map.
    pub fn new() -> (r: PropMap)
        ensures
            r.model() == MapModel::empty(),
    {
        let r = PropMap { entries: Vec::new() };
        proof {
            assert(r.model() =~= MapModel::empty());
        }
        r
    }

    /// The number of entries.
    pub fn len(&self) -> (r: usize)
        ensures
            r == self.model().len(),
    {
        self.entries.len()
    }

    /// Whether the map holds no entry.
    pub fn is_empty(&self) -> (r: bool)
        ensures
            r == (self.model().len() == 0),
    {
        self.entries.len() == 0
    }

    /// Remove every entry.
    pub fn clear(&mut self)
        ensures
            final(self).model() == MapModel::empty(),
    {
        self.entries.clear();
        proof {
            assert(self.model() =~= MapModel::empty());
        }
    }

    /// The value stored under `k`, if any.
    pub fn get(&self, k: &str) -> (r: Option<&Value>)
        ensures
            match r {
                Some(v) => map_lookup(self.model(), k@) == Some(v.model()),
                None => map_lookup(self.model(), k@) is None,
            },
    {
        let n = self.entries.len();
        let mut i: usize = 0;
        while i < n
            invariant
                0 <= i <= n,
                n == self.entries@.len(),
                forall|j: int| 0 <= j < i ==> self.model()[j].0 != k@,
            decreases n - i,
        {
            if crate::text::str_eq(self.entries[i].0.as_str(), k) {
                proof {
                    lemma_map_lookup_at(self.model(), k@, i as int);
                }
                return Some(&self.entries[i].1);
            }
            i = i + 1;
        }
        proof {
            lemma_map_lookup_absent(self.model(), k@);
        }
        None
    }

    /// Insert or overwrite: an existing key keeps its position, a new key
    /// is appended.
    pub fn insert(&mut self, k: Key, v: Value)
        ensures
            final(self).model() == map_insert(old(self).model(), k@, v.model()),
    {
        let ghost m0 = self.model();
        let n = self.entries.len();
        let mut i: usize = 0;
        while i < n
            invariant
                0 <= i <= n,
                *self == *old(self),
                m0 == self.model(),
                n == self.entries@.len(),
                n == m0.len(),
                forall|j: int| 0 <= j < i ==> m0[j].0 != k@,
            decreases n - i,
        {
            if crate::text::str_eq(self.entries[i].0.as_str(), k.0.as_str()) {
                proof {
                    lemma_map_lookup_at(m0, k@, i as int);
                }
                self.entries.remove(i);
                self.entries.insert(i, (k, v));
                proof {
                    assert(self.model() =~= map_insert(m0, k@, v.model()));
                }
                return ;
            }
            i = i + 1;
        }
        proof {
            lemma_map_lookup_absent(m0, k@);
        }
        self.entries.push((k, v));
        proof {
            assert(self.model() =~= map_insert(m0, k@, v.model()));
        }
    }
}

} // verus!
