//! The neutral structured value used for row/record conversion.

use vstd::prelude::*;

verus! {

/// Mathematical view of a [`DynValue`].
pub ghost enum ValueModel {
    Null,
    Bool(bool),
    Int(int),
    Float(Seq<char>),
    Text(Seq<char>),
    Object(Seq<(Seq<char>, ValueModel)>),
}

/// The structured interchange value: null, boolean, 64-bit integer, decimal
/// number carried in its lexical form, text, or an ordered mapping from
/// string key to value.
///
/// It bridges typed records and SQL parameters on write, and raw rows and
/// typed records on read.  A non-integer number is kept as its decimal text:
/// the verified code never computes with it, only carries and rebinds it.
#[derive(Debug, PartialEq)]
pub enum DynValue {
    Null,
    Bool(bool),
    Int(i64),
    Float(String),
    Text(String),
    Object(Vec<(String, DynValue)>),
}

/// The mathematical value that a [`DynValue`] stands for.
pub open spec fn value_model(v: DynValue) -> ValueModel
    decreases v, 1int,
{
    match v {
        DynValue::Null => ValueModel::Null,
        DynValue::Bool(b) => ValueModel::Bool(b),
        DynValue::Int(n) => ValueModel::Int(n as int),
        DynValue::Float(s) => ValueModel::Float(s@),
        DynValue::Text(s) => ValueModel::Text(s@),
        DynValue::Object(entries) => {
            proof {
                assert(decreases_to!(v => entries));
                assert(decreases_to!(entries => entries@));
            }
            ValueModel::Object(entry_seq_model(entries@))
        },
    }
}

/// The mathematical view of a sequence of object entries.
pub open spec fn entry_seq_model(es: Seq<(String, DynValue)>) -> Seq<(Seq<char>, ValueModel)>
    decreases es, 0int,
{
    if es.len() == 0 {
        Seq::empty()
    } else {
        proof {
            assert(decreases_to!(es => es[0]));
            assert(decreases_to!(es[0] => es[0].1));
        }
        seq![(es[0].0@, value_model(es[0].1))] + entry_seq_model(es.drop_first())
    }
}

impl View for DynValue {
    type V = ValueModel;

    open spec fn view(&self) -> ValueModel {
        value_model(*self)
    }
}

/// Pointwise description of [`entry_seq_model`]: the view keeps the length
/// and maps each entry to its key's view paired with its value's model.
pub proof fn lemma_entry_seq_model(es: Seq<(String, DynValue)>)
    ensures
        entry_seq_model(es).len() == es.len(),
        forall|i: int|
            0 <= i < es.len() ==> entry_seq_model(es)[i] == (es[i].0@, value_model(es[i].1)),
    decreases es.len(),
{
    if es.len() > 0 {
        lemma_entry_seq_model(es.drop_first());
        assert forall|i: int|
            0 <= i < es.len() implies entry_seq_model(es)[i] == (
        es[i].0@,
        value_model(es[i].1),
        ) by {
            if i > 0 {
                assert(entry_seq_model(es)[i] == entry_seq_model(es.drop_first())[i - 1]);
                assert(es.drop_first()[i - 1] == es[i]);
            }
        }
    }
}

/// The first value bound to `key` among the entries, if any.
pub open spec fn lookup_field(es: Seq<(Seq<char>, ValueModel)>, key: Seq<char>) -> Option<ValueModel>
    decreases es.len(),
{
    if es.len() == 0 {
        None
    } else if es[0].0 == key {
        Some(es[0].1)
    } else {
        lookup_field(es.drop_first(), key)
    }
}

impl ValueModel {
    /// The entries of an object value; any other value has none.
    pub open spec fn fields(self) -> Seq<(Seq<char>, ValueModel)> {
        match self {
            ValueModel::Object(es) => es,
            _ => Seq::empty(),
        }
    }

    /// The value this object binds to `key`, if any; the first binding wins.
    pub open spec fn field(self, key: Seq<char>) -> Option<ValueModel> {
        lookup_field(self.fields(), key)
    }
}

impl DynValue {
    /// A structurally equal copy of this value.
    pub fn duplicate(&self) -> (r: DynValue)
        ensures
            r@ == self@,
        decreases *self,
    {
        match self {
            DynValue::Null => DynValue::Null,
            DynValue::Bool(b) => DynValue::Bool(*b),
            DynValue::Int(n) => DynValue::Int(*n),
            DynValue::Float(s) => DynValue::Float(s.clone()),
            DynValue::Text(s) => DynValue::Text(s.clone()),
            DynValue::Object(entries) => {
                let n: usize = entries.len();
                let mut out: Vec<(String, DynValue)> = Vec::new();
                for i in 0..n
                    invariant
                        n == entries.len(),
                        *self == DynValue::Object(*entries),
                        out@.len() == i,
                        forall|j: int| #![trigger out@[j]]
                            0 <= j < i ==> out@[j].0@ == entries@[j].0@ && out@[j].1@
                                == entries@[j].1@,
                    decreases n - i,
                {
                    proof {
                        assert(*entries == self->Object_0);
                        assert(decreases_to!(*self => self->Object_0));
                        assert(decreases_to!(*entries => entries@));
                        assert(decreases_to!(entries@ => entries@[i as int]));
                        assert(decreases_to!(entries@[i as int] => entries@[i as int].1));
                    }
                    let key = entries[i].0.clone();
                    let val = entries[i].1.duplicate();
                    out.push((key, val));
                }
                let r = DynValue::Object(out);
                proof {
                    lemma_entry_seq_model(out@);
                    lemma_entry_seq_model(entries@);
                    assert(entry_seq_model(out@) =~= entry_seq_model(entries@));
                }
                r
            },
        }
    }

    /// Look up the value bound to `key` if this is an object holding one.
    pub fn get_field<'a>(&'a self, key: &String) -> (r: Option<&'a DynValue>)
        ensures
            match r {
                Some(v) => self@.field(key@) == Some(v@),
                None => self@.field(key@) is None,
            },
    {
        match self {
            DynValue::Object(entries) => {
                let ghost m = self@.fields();
                let n: usize = entries.len();
                proof {
                    assert(m == entry_seq_model(entries@));
                    lemma_entry_seq_model(entries@);
                    assert(m.skip(0) =~= m);
                }
                for i in 0..n
                    invariant
                        n == entries.len(),
                        m == entry_seq_model(entries@),
                        m.len() == n,
                        self@.fields() == m,
                        forall|j: int|
                            0 <= j < n ==> m[j] == (entries@[j].0@, value_model(entries@[j].1)),
                        lookup_field(m, key@) == lookup_field(m.skip(i as int), key@),
                {
                    proof {
                        assert(m.skip(i as int).len() == n - i);
                        assert(m.skip(i as int)[0] == m[i as int]);
                    }
                    if entries[i].0 == *key {
                        return Some(&entries[i].1);
                    }
                    proof {
                        assert(m.skip(i as int).drop_first() =~= m.skip(i + 1));
                    }
                }
                proof {
                    assert(m.skip(n as int) =~= Seq::empty());
                }
                None
            },
            _ => None,
        }
    }
}

} // verus!
