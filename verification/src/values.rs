//! The typed parameter model: a recursive tagged value union, an optional
//! declared type tag, and the named parameter that combines the two.
//!
//! Floating-point numbers never enter the core: a numeric value is carried
//! as the 64 bits of its IEEE-754 representation, and the boundary that
//! talks to the host converts to and from `f64` outside the library.

use vstd::prelude::*;

verus! {

/// The declared type of a parameter.  Optional: a parameter may be untyped
/// (value-only) when the wire encoding is self-describing.
#[derive(Clone, Copy, PartialEq, Eq, Structural, Debug)]
pub enum ParameterType {
    /// A byte array, transmitted base64-encoded on the wire.
    ByteArray,
    /// A decimal or integer value representable as a 64-bit float.
    Float64,
    /// An array of values each representable as a 64-bit float.
    Float64Array,
}

/// Mathematical model of a [`ParameterValue`]: the same recursive shape
/// over `Seq` instead of `Vec` and `String`.
pub enum ValueModel {
    /// The bits of an IEEE-754 double.
    Number(u64),
    /// A boolean value.
    Bool(bool),
    /// An opaque byte sequence.
    Bytes(Seq<u8>),
    /// An ordered sequence of values.
    Array(Seq<ValueModel>),
    /// An ordered sequence of key/value entries.
    Dict(Seq<(Seq<char>, ValueModel)>),
}

/// A recursive tagged parameter value.  A dictionary keeps its entries in
/// insertion order; well-formedness ([`model_wf`]) asks that its keys be
/// unique.
#[derive(PartialEq, Debug)]
pub enum ParameterValue {
    /// A decimal or integer value, carried as the bits of an IEEE-754
    /// double.
    Number(u64),
    /// A boolean value.
    Bool(bool),
    /// A byte array.
    Bytes(Vec<u8>),
    /// An array of parameter values.
    Array(Vec<ParameterValue>),
    /// An associative map from string keys to parameter values.
    Dict(Vec<(String, ParameterValue)>),
}

impl ParameterValue {
    /// The mathematical value this node represents.
    pub open spec fn model(self) -> ValueModel
        decreases self,
    {
        match self {
            ParameterValue::Number(bits) => ValueModel::Number(bits),
            ParameterValue::Bool(b) => ValueModel::Bool(b),
            ParameterValue::Bytes(bs) => ValueModel::Bytes(bs@),
            ParameterValue::Array(vs) => ValueModel::Array(model_seq(vs@)),
            ParameterValue::Dict(es) => ValueModel::Dict(model_entries(es@)),
        }
    }
}

/// Element-wise model of a sequence of values.
pub open spec fn model_seq(vs: Seq<ParameterValue>) -> Seq<ValueModel>
    decreases vs,
{
    if vs.len() == 0 {
        Seq::empty()
    } else {
        model_seq(vs.subrange(1, vs.len() as int)).insert(0, vs[0].model())
    }
}

/// Element-wise model of a sequence of dictionary entries.
pub open spec fn model_entries(es: Seq<(String, ParameterValue)>) -> Seq<(Seq<char>, ValueModel)>
    decreases es,
{
    if es.len() == 0 {
        Seq::empty()
    } else {
        model_entries(es.subrange(1, es.len() as int)).insert(0, (es[0].0@, es[0].1.model()))
    }
}

/// [`model_seq`] maps each element to its model, preserving length and
/// order.
pub broadcast proof fn lemma_model_seq(vs: Seq<ParameterValue>)
    ensures
        (#[trigger] model_seq(vs)).len() == vs.len(),
        forall|i: int| 0 <= i < vs.len() ==> model_seq(vs)[i] == vs[i].model(),
    decreases vs,
{
    if vs.len() > 0 {
        lemma_model_seq(vs.subrange(1, vs.len() as int));
    }
}

/// [`model_entries`] maps each entry to its key view and value model,
/// preserving length and order.
pub broadcast proof fn lemma_model_entries(es: Seq<(String, ParameterValue)>)
    ensures
        (#[trigger] model_entries(es)).len() == es.len(),
        forall|i: int|
            0 <= i < es.len() ==> model_entries(es)[i] == (es[i].0@, es[i].1.model()),
    decreases es,
{
    if es.len() > 0 {
        lemma_model_entries(es.subrange(1, es.len() as int));
    }
}

impl View for ParameterValue {
    type V = ValueModel;

    open spec fn view(&self) -> ValueModel {
        self.model()
    }
}

/// Uniqueness of the keys of one dictionary level of a model value.
pub open spec fn unique_keys(es: Seq<(Seq<char>, ValueModel)>) -> bool {
    forall|i: int, j: int| 0 <= i < j < es.len() ==> es[i].0 != es[j].0
}

/// Well-formedness of a model value: every dictionary, at every depth,
/// has pairwise distinct keys.
pub open spec fn model_wf(m: ValueModel) -> bool
    decreases m, 0int,
{
    match m {
        ValueModel::Number(_) => true,
        ValueModel::Bool(_) => true,
        ValueModel::Bytes(_) => true,
        ValueModel::Array(vs) => seq_wf(vs),
        ValueModel::Dict(es) => unique_keys(es) && entries_wf(es),
    }
}

/// Well-formedness of every value in a sequence.
pub open spec fn seq_wf(vs: Seq<ValueModel>) -> bool
    decreases vs, 1int,
{
    vs.len() == 0 || (model_wf(vs[0]) && seq_wf(vs.subrange(1, vs.len() as int)))
}

/// Well-formedness of every value of a sequence of entries.
pub open spec fn entries_wf(es: Seq<(Seq<char>, ValueModel)>) -> bool
    decreases es, 1int,
{
    es.len() == 0 || (model_wf(es[0].1) && entries_wf(es.subrange(1, es.len() as int)))
}

/// [`seq_wf`] holds exactly when every element is well-formed.
pub proof fn lemma_seq_wf_index(vs: Seq<ValueModel>)
    ensures
        seq_wf(vs) <==> forall|i: int| 0 <= i < vs.len() ==> model_wf(#[trigger] vs[i]),
    decreases vs,
{
    if vs.len() > 0 {
        let tail = vs.subrange(1, vs.len() as int);
        lemma_seq_wf_index(tail);
        assert forall|i: int| 1 <= i < vs.len() implies vs[i] == tail[i - 1] by {}
        if seq_wf(vs) {
            assert forall|i: int| 0 <= i < vs.len() implies model_wf(#[trigger] vs[i]) by {
                if i > 0 {
                    assert(model_wf(tail[i - 1]));
                }
            }
        }
        if forall|i: int| 0 <= i < vs.len() ==> model_wf(#[trigger] vs[i]) {
            assert forall|i: int| 0 <= i < tail.len() implies model_wf(#[trigger] tail[i]) by {
                assert(model_wf(vs[i + 1]));
            }
            assert(model_wf(vs[0]));
        }
    }
}

/// [`entries_wf`] holds exactly when every entry's value is well-formed.
pub proof fn lemma_entries_wf_index(es: Seq<(Seq<char>, ValueModel)>)
    ensures
        entries_wf(es) <==> forall|i: int| 0 <= i < es.len() ==> model_wf((#[trigger] es[i]).1),
    decreases es,
{
    if es.len() > 0 {
        let tail = es.subrange(1, es.len() as int);
        lemma_entries_wf_index(tail);
        assert forall|i: int| 1 <= i < es.len() implies es[i] == tail[i - 1] by {}
        if entries_wf(es) {
            assert forall|i: int| 0 <= i < es.len() implies model_wf((#[trigger] es[i]).1) by {
                if i > 0 {
                    assert(model_wf(tail[i - 1].1));
                }
            }
        }
        if forall|i: int| 0 <= i < es.len() ==> model_wf((#[trigger] es[i]).1) {
            assert forall|i: int| 0 <= i < tail.len() implies model_wf((#[trigger] tail[i]).1) by {
                assert(model_wf(es[i + 1].1));
            }
            assert(model_wf(es[0].1));
        }
    }
}

impl ParameterValue {
    /// Decides [`model_wf`] for a value arriving from the transport:
    /// whether every dictionary, at every depth, has pairwise distinct
    /// keys.
    pub fn is_well_formed(&self) -> (r: bool)
        ensures
            r == model_wf(self.model()),
        decreases *self,
    {
        match self {
            ParameterValue::Number(_) => true,
            ParameterValue::Bool(_) => true,
            ParameterValue::Bytes(_) => true,
            ParameterValue::Array(vs) => {
                let ghost mseq = model_seq(vs@);
                proof {
                    lemma_model_seq(vs@);
                    lemma_seq_wf_index(mseq);
                }
                let mut i: usize = 0;
                while i < vs.len()
                    invariant
                        i <= vs.len(),
                        *self == ParameterValue::Array(*vs),
                        mseq == model_seq(vs@),
                        mseq.len() == vs@.len(),
                        forall|j: int| 0 <= j < vs@.len() ==> mseq[j] == vs@[j].model(),
                        forall|j: int| 0 <= j < i ==> model_wf(#[trigger] mseq[j]),
                    decreases vs.len() - i,
                {
                    proof {
                        assert(decreases_to!(*self => vs@[i as int])) by {
                            assert(decreases_to!(*self => *vs));
                            assert(decreases_to!(*vs => vs@));
                            assert(decreases_to!(vs@ => vs@[i as int]));
                        }
                    }
                    if !vs[i].is_well_formed() {
                        proof {
                            assert(self.model() == ValueModel::Array(mseq));
                            assert(!model_wf(mseq[i as int]));
                            lemma_seq_wf_index(mseq);
                        }
                        return false;
                    }
                    i = i + 1;
                }
                proof {
                    assert(self.model() == ValueModel::Array(mseq));
                    lemma_seq_wf_index(mseq);
                }
                true
            },
            ParameterValue::Dict(es) => {
                let ghost ments = model_entries(es@);
                proof {
                    lemma_model_entries(es@);
                    lemma_entries_wf_index(ments);
                }
                let mut i: usize = 0;
                while i < es.len()
                    invariant
                        i <= es.len(),
                        *self == ParameterValue::Dict(*es),
                        ments == model_entries(es@),
                        ments.len() == es@.len(),
                        forall|j: int| 0 <= j < es@.len() ==> ments[j] == (es@[j].0@, es@[j].1.model()),
                        forall|a: int, b: int|
                            #![trigger ments[a].0, ments[b].0]
                            0 <= a < b < i ==> ments[a].0 != ments[b].0,
                        forall|j: int| 0 <= j < i ==> model_wf(#[trigger] ments[j].1),
                    decreases es.len() - i,
                {
                    let mut j: usize = 0;
                    while j < i
                        invariant
                            j <= i < es.len(),
                            *self == ParameterValue::Dict(*es),
                            ments == model_entries(es@),
                            ments.len() == es@.len(),
                            forall|a: int|
                                0 <= a < es@.len() ==> ments[a] == (es@[a].0@, es@[a].1.model()),
                            forall|a: int| 0 <= a < j ==> (#[trigger] ments[a]).0 != ments[i as int].0,
                        decreases i - j,
                    {
                        if es[j].0 == es[i].0 {
                            proof {
                                assert(self.model() == ValueModel::Dict(ments));
                                assert(ments[j as int].0 == ments[i as int].0);
                                assert(!unique_keys(ments)) by {
                                    if unique_keys(ments) {
                                        assert(ments[j as int].0 != ments[i as int].0);
                                    }
                                }
                            }
                            return false;
                        }
                        j = j + 1;
                    }
                    proof {
                        assert(decreases_to!(*self => es@[i as int].1)) by {
                            assert(decreases_to!(*self => *es));
                            assert(decreases_to!(*es => es@));
                            assert(decreases_to!(es@ => es@[i as int]));
                            assert(decreases_to!(es@[i as int] => es@[i as int].1));
                        }
                    }
                    if !es[i].1.is_well_formed() {
                        proof {
                            assert(self.model() == ValueModel::Dict(ments));
                            assert(!model_wf(ments[i as int].1));
                            lemma_entries_wf_index(ments);
                        }
                        return false;
                    }
                    i = i + 1;
                }
                proof {
                    assert(self.model() == ValueModel::Dict(ments));
                    lemma_entries_wf_index(ments);
                }
                true
            },
        }
    }
}

/// A named, typed-or-untyped value exchanged between server and clients.
/// The authoritative parameter store is an external collaborator; the core
/// only transports get/set requests and change notifications, so nothing
/// here is persisted.
#[derive(PartialEq, Debug)]
pub struct Parameter {
    /// The parameter name, a unique key within one get/set batch.
    pub name: String,
    /// The declared type, if any.
    pub typ: Option<ParameterType>,
    /// The value, if any.  Type and value are independently optional and
    /// independently transmitted.
    pub value: Option<ParameterValue>,
}

/// Rejection of a parameter whose declared type and value disagree.
#[derive(PartialEq, Debug)]
pub enum ParameterError {
    /// A `ByteArray`-typed parameter carried a value that is not a byte
    /// array.
    ByteArrayValueMismatch {
        /// The name of the offending parameter.
        name: String,
    },
}

/// The type/value invariant over a pair of optional fields: a declared
/// `ByteArray` type, when a value is present, demands a `Bytes` value.
/// Type and value are otherwise independent.
pub open spec fn fields_consistent(typ: Option<ParameterType>, value: Option<
    ParameterValue,
>) -> bool {
    match (typ, value) {
        (Some(t), Some(v)) => t == ParameterType::ByteArray ==> v is Bytes,
        _ => true,
    }
}

impl Parameter {
    /// A `ByteArray`-typed parameter's value, if present, must be
    /// representable as `Bytes`.  Type and value are otherwise independent.
    pub open spec fn spec_consistent(self) -> bool {
        fields_consistent(self.typ, self.value)
    }

    /// Constructs a parameter, enforcing the type/value invariant at
    /// construction: accepted exactly when a `ByteArray` type does not
    /// coexist with a non-`Bytes` value.
    pub fn new(name: String, typ: Option<ParameterType>, value: Option<ParameterValue>) -> (r:
        Result<Parameter, ParameterError>)
        ensures
            match r {
                Ok(p) => fields_consistent(typ, value) && p.name == name && p.typ == typ
                    && p.value == value && p.spec_consistent(),
                Err(e) => !fields_consistent(typ, value) && e == (
                ParameterError::ByteArrayValueMismatch { name }),
            },
    {
        let consistent = match (&typ, &value) {
            (Some(t), Some(v)) => {
                if *t == ParameterType::ByteArray {
                    match v {
                        ParameterValue::Bytes(_) => true,
                        _ => false,
                    }
                } else {
                    true
                }
            },
            _ => true,
        };
        if consistent {
            Ok(Parameter { name, typ, value })
        } else {
            Err(ParameterError::ByteArrayValueMismatch { name })
        }
    }

    /// Validation of the type/value invariant on an already-built value,
    /// for the boundaries where parameters arrive whole.
    pub fn is_consistent(&self) -> (r: bool)
        ensures
            r == self.spec_consistent(),
    {
        match (&self.typ, &self.value) {
            (Some(t), Some(v)) => {
                if *t == ParameterType::ByteArray {
                    match v {
                        ParameterValue::Bytes(_) => true,
                        _ => false,
                    }
                } else {
                    true
                }
            },
            _ => true,
        }
    }
}

/// The type/value invariant over a whole batch.
pub open spec fn params_consistent(s: Seq<Parameter>) -> bool {
    forall|i: int| 0 <= i < s.len() ==> (#[trigger] s[i]).spec_consistent()
}

/// Finds the first parameter of a batch that breaks the type/value
/// invariant, if any.
pub fn find_inconsistent(parameters: &Vec<Parameter>) -> (r: Option<usize>)
    ensures
        match r {
            Some(i) => i < parameters@.len() && !parameters@[i as int].spec_consistent(),
            None => params_consistent(parameters@),
        },
{
    let mut i: usize = 0;
    while i < parameters.len()
        invariant
            i <= parameters.len(),
            forall|j: int| 0 <= j < i ==> (#[trigger] parameters@[j]).spec_consistent(),
        decreases parameters.len() - i,
    {
        if !parameters[i].is_consistent() {
            return Some(i);
        }
        i = i + 1;
    }
    None
}

} // verus!
