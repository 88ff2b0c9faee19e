use vstd::prelude::*;

use crate::ast::Expression;
use crate::float::{float_eq, float_neg, is_zero, spec_float_eq, spec_is_zero, SIGN_MASK};
use crate::jml_type::JmlType;
use crate::text::owned;

verus! {

/// The unit value `null`.
#[derive(Debug, Copy, Clone, PartialEq, Eq, Structural)]
pub struct Null;

#[derive(Debug, Copy, Clone, PartialEq, Eq, Structural)]
pub struct JmlBool(pub bool);

#[derive(Debug, Copy, Clone, PartialEq, Eq, Structural)]
pub struct JmlInt(pub i64);

/// A floating-point number as its IEEE-754 binary64 bit pattern.
#[derive(Debug, Copy, Clone, PartialEq, Eq, Structural)]
pub struct JmlFloat(pub u64);

#[derive(Debug)]
pub struct JmlString(pub String);

#[derive(Debug)]
pub struct JmlList<'a>(pub Vec<JmlValue<'a>>);

/// An object: entries in insertion order, each key at most once. The
/// entries are held as a vector of pairs and searched by key; inserting an
/// existing key replaces its value in place.
#[derive(Debug)]
pub struct JmlObject<'a>(pub(crate) Vec<(String, JmlValue<'a>)>);

/// The builtin functions that the standard environment provides.
#[derive(Debug, Copy, Clone, PartialEq, Eq, Structural)]
pub enum Builtin {
    Log,
    MapList,
    FilterList,
    ReduceList,
    Pluck,
}

/// What a lambda runs when applied: an expression of the program, or a
/// builtin.
#[derive(Debug)]
pub enum LambdaBody<'a> {
    Common(&'a Expression),
    Native(Builtin),
}

#[derive(Debug)]
pub struct JmlLambda<'a> {
    pub params: Vec<String>,
    pub body: LambdaBody<'a>,
}

/// A runtime value. `'a` is the lifetime of the program whose lambda bodies
/// the value may refer to.
#[derive(Debug)]
pub enum JmlValue<'a> {
    Null,
    Bool(JmlBool),
    Float(JmlFloat),
    Int(JmlInt),
    List(JmlList<'a>),
    String(JmlString),
    Object(JmlObject<'a>),
    Lambda(JmlLambda<'a>),
}

/// The mathematical model of a lambda body.
pub enum BodyModel {
    Common(Expression),
    Native(Builtin),
}

/// The mathematical model of a runtime value.
pub enum Val {
    Null,
    Bool(bool),
    Int(i64),
    Float(u64),
    Str(Seq<char>),
    List(Seq<Val>),
    Object(Seq<(Seq<char>, Val)>),
    Lambda { params: Seq<Seq<char>>, body: BodyModel },
}

pub open spec fn names_model(names: Seq<String>) -> Seq<Seq<char>> {
    Seq::new(names.len(), |i: int| names[i]@)
}

pub open spec fn body_model(b: LambdaBody) -> BodyModel {
    match b {
        LambdaBody::Common(e) => BodyModel::Common(*e),
        LambdaBody::Native(n) => BodyModel::Native(n),
    }
}

pub open(crate) spec fn value_model(v: JmlValue) -> Val
    decreases v,
{
    match v {
        JmlValue::Null => Val::Null,
        JmlValue::Bool(b) => Val::Bool(b.0),
        JmlValue::Int(i) => Val::Int(i.0),
        JmlValue::Float(f) => Val::Float(f.0),
        JmlValue::String(s) => Val::Str(s.0@),
        JmlValue::List(l) => Val::List(
            Seq::new(
                l.0@.len(),
                |i: int|
                    if 0 <= i < l.0@.len() {
                        value_model(l.0@[i])
                    } else {
                        Val::Null
                    },
            ),
        ),
        JmlValue::Object(o) => Val::Object(
            Seq::new(
                o.0@.len(),
                |i: int|
                    if 0 <= i < o.0@.len() {
                        (o.0@[i].0@, value_model(o.0@[i].1))
                    } else {
                        (Seq::empty(), Val::Null)
                    },
            ),
        ),
        JmlValue::Lambda(f) => Val::Lambda {
            params: names_model(f.params@),
            body: body_model(f.body),
        },
    }
}

impl<'a> View for JmlValue<'a> {
    type V = Val;

    open spec fn view(&self) -> Val {
        value_model(*self)
    }
}

/// The models of a sequence of values.
pub open spec fn values_model(s: Seq<JmlValue>) -> Seq<Val> {
    Seq::new(s.len(), |i: int| s[i]@)
}

pub open spec fn type_of_model(v: Val) -> JmlType {
    match v {
        Val::Null => JmlType::Null,
        Val::Bool(_) => JmlType::Bool,
        Val::Int(_) => JmlType::Int,
        Val::Float(_) => JmlType::Float,
        Val::Str(_) => JmlType::String,
        Val::List(_) => JmlType::List,
        Val::Object(_) => JmlType::Object,
        Val::Lambda { params, .. } => JmlType::Lambda { arity: params.len() as usize },
    }
}

/// Equality of values as `==` sees it: same variant and equal payloads, with
/// no numeric promotion; floats compare as IEEE numbers; objects are equal
/// when they have as many entries and each key of the first is found in the
/// second with an equal value, in whatever order; lambdas compare by their
/// number of parameters.
pub open spec fn val_eq(a: Val, b: Val) -> bool
    decreases a,
{
    match (a, b) {
        (Val::Null, Val::Null) => true,
        (Val::Bool(x), Val::Bool(y)) => x == y,
        (Val::Int(x), Val::Int(y)) => x == y,
        (Val::Float(x), Val::Float(y)) => spec_float_eq(x, y),
        (Val::Str(x), Val::Str(y)) => x == y,
        (Val::List(x), Val::List(y)) => x.len() == y.len() && forall|i: int|
            0 <= i < x.len() ==> val_eq(#[trigger] x[i], y[i]),
        (Val::Object(x), Val::Object(y)) => x.len() == y.len() && forall|i: int|
            0 <= i < x.len() ==> match find_key(y, (#[trigger] x[i]).0) {
                Some(j) => val_eq(x[i].1, y[j].1),
                None => false,
            },
        (Val::Lambda { params: p, .. }, Val::Lambda { params: q, .. }) => p.len() == q.len(),
        _ => false,
    }
}

/// Only `true` is truthy.
pub open spec fn truthy_model(v: Val) -> bool {
    v == Val::Bool(true)
}

pub open spec fn zero_model(v: Val) -> bool {
    match v {
        Val::Int(i) => i == 0,
        Val::Float(f) => spec_is_zero(f),
        _ => false,
    }
}

/// The index of the first entry whose key is `k`.
pub open spec fn find_key(entries: Seq<(Seq<char>, Val)>, k: Seq<char>) -> Option<int> {
    if exists|i: int| 0 <= i < entries.len() && entries[i].0 == k {
        let i = choose|i: int|
            0 <= i < entries.len() && entries[i].0 == k && forall|j: int|
                0 <= j < i ==> entries[j].0 != k;
        Some(i)
    } else {
        None
    }
}

/// The value stored under `k`, or `null`.
pub open spec fn lookup_key(entries: Seq<(Seq<char>, Val)>, k: Seq<char>) -> Val {
    match find_key(entries, k) {
        Some(i) => entries[i].1,
        None => Val::Null,
    }
}

/// No key occurs twice.
pub open spec fn keys_unique(entries: Seq<(Seq<char>, Val)>) -> bool {
    forall|i: int, j: int|
        0 <= i < entries.len() && 0 <= j < entries.len() && #[trigger] entries[i].0
            == #[trigger] entries[j].0 ==> i == j
}

/// The entries after `insert(k, v)`: an existing key keeps its place and takes
/// the new value; a new key goes last.
pub open spec fn inserted(entries: Seq<(Seq<char>, Val)>, k: Seq<char>, v: Val) -> Seq<
    (Seq<char>, Val),
> {
    match find_key(entries, k) {
        Some(i) => entries.update(i, (k, v)),
        None => entries.push((k, v)),
    }
}

pub proof fn lemma_find_key(entries: Seq<(Seq<char>, Val)>, k: Seq<char>, i: int)
    requires
        0 <= i < entries.len(),
        entries[i].0 == k,
        forall|j: int| 0 <= j < i ==> entries[j].0 != k,
    ensures
        find_key(entries, k) == Some(i),
{
    let c = choose|c: int|
        0 <= c < entries.len() && entries[c].0 == k && forall|j: int|
            0 <= j < c ==> entries[j].0 != k;
    if c < i {
    } else if c > i {
    }
}

/// Inserting keeps keys unique.
pub proof fn lemma_inserted_keys_unique(entries: Seq<(Seq<char>, Val)>, k: Seq<char>, v: Val)
    requires
        keys_unique(entries),
    ensures
        keys_unique(inserted(entries, k, v)),
{
    let r = inserted(entries, k, v);
    match find_key(entries, k) {
        Some(i) => {
            assert forall|a: int, b: int|
                0 <= a < r.len() && 0 <= b < r.len() && #[trigger] r[a].0 == #[trigger] r[b].0 implies a == b by {
                assert(r[a].0 == entries[a].0);
                assert(r[b].0 == entries[b].0);
            }
        },
        None => {
            assert forall|a: int, b: int|
                0 <= a < r.len() && 0 <= b < r.len() && #[trigger] r[a].0 == #[trigger] r[b].0 implies a == b by {
                if a < entries.len() && b < entries.len() {
                    assert(r[a].0 == entries[a].0);
                    assert(r[b].0 == entries[b].0);
                } else if a < entries.len() {
                    assert(entries[a].0 == k);
                } else if b < entries.len() {
                    assert(entries[b].0 == k);
                }
            }
        },
    }
}

pub proof fn lemma_find_key_none(entries: Seq<(Seq<char>, Val)>, k: Seq<char>)
    requires
        forall|j: int| 0 <= j < entries.len() ==> entries[j].0 != k,
    ensures
        find_key(entries, k) == None::<int>,
{
}

proof fn lemma_list_element_decreases(v: JmlValue, i: int)
    requires
        v is List,
        0 <= i < v->List_0.0@.len(),
    ensures
        decreases_to!(v => v->List_0.0@[i]),
{
    let l = v->List_0;
    assert(decreases_to!(v => l));
    assert(decreases_to!(l => l.0));
    assert(decreases_to!(l.0 => l.0@));
    assert(decreases_to!(l.0@ => l.0@[i]));
}

proof fn lemma_object_entry_decreases(v: JmlValue, i: int)
    requires
        v is Object,
        0 <= i < v->Object_0.0@.len(),
    ensures
        decreases_to!(v => v->Object_0.0@[i].1),
{
    let o = v->Object_0;
    assert(decreases_to!(v => o));
    assert(decreases_to!(o => o.0));
    assert(decreases_to!(o.0 => o.0@));
    assert(decreases_to!(o.0@ => o.0@[i]));
    assert(decreases_to!(o.0@[i] => o.0@[i].1));
}

pub proof fn lemma_list_model(l: JmlList)
    ensures
        JmlValue::List(l)@ == Val::List(values_model(l.0@)),
{
    assert(JmlValue::List(l)@->List_0 =~= values_model(l.0@));
}

pub proof fn lemma_object_model(o: JmlObject)
    ensures
        JmlValue::Object(o)@ == Val::Object(o.entries_model()),
{
    assert(JmlValue::Object(o)@->Object_0 =~= o.entries_model());
}

/// A copy of `v` with the same model.
pub fn copy_value<'a>(v: &JmlValue<'a>) -> (r: JmlValue<'a>)
    ensures
        r@ == v@,
    decreases v,
{
    match v {
        JmlValue::Null => JmlValue::Null,
        JmlValue::Bool(b) => JmlValue::Bool(*b),
        JmlValue::Int(i) => JmlValue::Int(*i),
        JmlValue::Float(f) => JmlValue::Float(*f),
        JmlValue::String(s) => JmlValue::String(JmlString(s.0.clone())),
        JmlValue::List(l) => {
            let mut out: Vec<JmlValue<'a>> = Vec::new();
            let mut i: usize = 0;
            while i < l.0.len()
                invariant
                    *v == JmlValue::List(*l),
                    i <= l.0@.len(),
                    out@.len() == i,
                    forall|j: int| 0 <= j < i ==> (#[trigger] out@[j])@ == l.0@[j]@,
                decreases l.0@.len() - i,
            {
                proof {
                    lemma_list_element_decreases(*v, i as int);
                }
                let c = copy_value(&l.0[i]);
                out.push(c);
                i = i + 1;
            }
            let r = JmlValue::List(JmlList(out));
            proof {
                assert(out@.len() == l.0@.len());
                assert forall|j: int| 0 <= j < out@.len() implies value_model(out@[j]) == value_model(l.0@[j]) by {
                    assert(out@[j]@ == l.0@[j]@);
                }
                assert(value_model(r)->List_0 =~= value_model(*v)->List_0);
            }
            r
        },
        JmlValue::Object(o) => {
            let mut out: Vec<(String, JmlValue<'a>)> = Vec::new();
            let mut i: usize = 0;
            while i < o.0.len()
                invariant
                    *v == JmlValue::Object(*o),
                    i <= o.0@.len(),
                    out@.len() == i,
                    forall|j: int|
                        0 <= j < i ==> (#[trigger] out@[j]).0@ == o.0@[j].0@ && out@[j].1@
                            == o.0@[j].1@,
                decreases o.0@.len() - i,
            {
                let k = o.0[i].0.clone();
                proof {
                    lemma_object_entry_decreases(*v, i as int);
                }
                let c = copy_value(&o.0[i].1);
                out.push((k, c));
                i = i + 1;
            }
            proof {
                use_type_invariant(o);
                let em = Seq::new(out@.len(), |j: int| (out@[j].0@, out@[j].1@));
                assert forall|a: int, b: int|
                    0 <= a < em.len() && 0 <= b < em.len() && #[trigger] em[a].0 == #[trigger] em[b].0 implies a == b by {
                    assert(o.entries_model()[a].0 == em[a].0);
                    assert(o.entries_model()[b].0 == em[b].0);
                }
            }
            let r = JmlValue::Object(JmlObject(out));
            proof {
                assert forall|j: int| 0 <= j < out@.len() implies value_model(out@[j].1) == value_model(o.0@[j].1) by {
                    assert(out@[j].1@ == o.0@[j].1@);
                }
                assert(value_model(r)->Object_0 =~= value_model(*v)->Object_0);
            }
            r
        },
        JmlValue::Lambda(f) => {
            let mut params: Vec<String> = Vec::new();
            let mut i: usize = 0;
            while i < f.params.len()
                invariant
                    i <= f.params@.len(),
                    params@.len() == i,
                    forall|j: int| 0 <= j < i ==> (#[trigger] params@[j])@ == f.params@[j]@,
                decreases f.params@.len() - i,
            {
                params.push(f.params[i].clone());
                i = i + 1;
            }
            let body = match &f.body {
                LambdaBody::Common(e) => LambdaBody::Common(*e),
                LambdaBody::Native(n) => LambdaBody::Native(*n),
            };
            assert(names_model(params@) =~= names_model(f.params@));
            JmlValue::Lambda(JmlLambda { params, body })
        },
    }
}

impl<'a> Clone for JmlValue<'a> {
    fn clone(&self) -> (r: Self)
        ensures
            r@ == self@,
    {
        copy_value(self)
    }
}

impl JmlBool {
    pub fn is_truthy(&self) -> (r: bool)
        ensures
            r == self.0,
    {
        self.0
    }

    pub fn not(self) -> (r: JmlBool)
        ensures
            r.0 == !self.0,
    {
        JmlBool(!self.0)
    }
}

impl JmlInt {
    /// Negation; the one value without a negative, `i64::MIN`, is excluded.
    pub fn negative(self) -> (r: Self)
        requires
            self.0 != i64::MIN,
        ensures
            r.0 == -self.0,
    {
        JmlInt(-self.0)
    }
}

impl JmlFloat {
    /// Negation flips the sign, zeros and NaNs included.
    pub fn negative(self) -> (r: Self)
        ensures
            r.0 == self.0 ^ SIGN_MASK,
    {
        JmlFloat(float_neg(self.0))
    }
}

impl<'a> JmlList<'a> {
    /// The element at `index`, or `null` past the end.
    pub fn access_by_index(&self, index: usize) -> (r: JmlValue<'a>)
        ensures
            index < self.0@.len() ==> r@ == self.0@[index as int]@,
            index >= self.0@.len() ==> r@ == Val::Null,
    {
        if index < self.0.len() {
            self.0[index].clone()
        } else {
            JmlValue::Null
        }
    }
}

impl JmlString {
    /// The character at `index`, counted in code points, as a string; `null`
    /// past the end.
    pub fn get_by_index<'a>(&self, index: usize) -> (r: JmlValue<'a>)
        ensures
            index < self.0@.len() ==> r@ == Val::Str(seq![self.0@[index as int]]),
            index >= self.0@.len() ==> r@ == Val::Null,
    {
        let s = self.0.as_str();
        if index < s.unicode_len() {
            let c = owned(s.substring_char(index, index + 1));
            assert(c@ =~= seq![self.0@[index as int]]);
            JmlValue::String(JmlString(c))
        } else {
            JmlValue::Null
        }
    }
}

impl<'a> JmlObject<'a> {
    /// The model of the entries, in order.
    pub open(crate) spec fn entries_model(&self) -> Seq<(Seq<char>, Val)> {
        Seq::new(self.0@.len(), |i: int| (self.0@[i].0@, self.0@[i].1@))
    }

    /// An object's keys are unique.
    pub open spec fn well_formed(&self) -> bool {
        keys_unique(self.entries_model())
    }

    #[verifier::type_invariant]
    spec fn keys_are_unique(self) -> bool {
        keys_unique(self.entries_model())
    }

    /// The entries, in insertion order.
    pub fn entries(&self) -> (r: &Vec<(String, JmlValue<'a>)>)
        ensures
            Seq::new(r@.len(), |i: int| (r@[i].0@, r@[i].1@)) == self.entries_model(),
            self.well_formed(),
    {
        proof {
            use_type_invariant(self);
        }
        assert(Seq::new(self.0@.len(), |i: int| (self.0@[i].0@, self.0@[i].1@)) =~= self.entries_model());
        &self.0
    }

    pub fn new() -> (r: Self)
        ensures
            r.entries_model() == Seq::<(Seq<char>, Val)>::empty(),
            r.well_formed(),
    {
        let r = JmlObject(Vec::new());
        assert(r.entries_model() =~= Seq::<(Seq<char>, Val)>::empty());
        r
    }

    fn position(&self, key: &String) -> (r: Option<usize>)
        ensures
            r matches Some(i) ==> i < self.0@.len() && find_key(self.entries_model(), key@) == Some(
                i as int,
            ),
            r is None ==> find_key(self.entries_model(), key@) is None,
    {
        let mut i: usize = 0;
        while i < self.0.len()
            invariant
                i <= self.0@.len(),
                forall|j: int| 0 <= j < i ==> (#[trigger] self.0@[j]).0@ != key@,
            decreases self.0@.len() - i,
        {
            if self.0[i].0 == *key {
                proof {
                    lemma_find_key(self.entries_model(), key@, i as int);
                }
                return Some(i);
            }
            i = i + 1;
        }
        proof {
            assert forall|j: int| 0 <= j < self.entries_model().len() implies #[trigger] self.entries_model()[j].0 != key@ by {
                assert(self.0@[j].0@ != key@);
            }
            lemma_find_key_none(self.entries_model(), key@);
        }
        None
    }

    /// The value stored under `key`, or `null`.
    pub fn access_by_key(&self, key: &String) -> (r: JmlValue<'a>)
        ensures
            r@ == lookup_key(self.entries_model(), key@),
    {
        match self.position(key) {
            Some(i) => {
                assert(self.entries_model()[i as int].1 == self.0@[i as int].1@);
                self.0[i].1.clone()
            },
            None => JmlValue::Null,
        }
    }

    /// Stores `value` under `key`. A key already present keeps its position
    /// and takes the new value; a new key is appended.
    pub fn insert(&mut self, key: String, value: JmlValue<'a>)
        ensures
            final(self).entries_model() == inserted(old(self).entries_model(), key@, value@),
            final(self).well_formed(),
    {
        proof {
            use_type_invariant(&*self);
        }
        let pos = self.position(&key);
        let mut entries: Vec<(String, JmlValue<'a>)> = Vec::new();
        core::mem::swap(&mut entries, &mut self.0);
        let ghost before = Seq::new(entries@.len(), |i: int| (entries@[i].0@, entries@[i].1@));
        assert(before == old(self).entries_model());
        match pos {
            Some(i) => {
                entries.set(i, (key, value));
            },
            None => {
                entries.push((key, value));
            },
        }
        let ghost after = Seq::new(entries@.len(), |i: int| (entries@[i].0@, entries@[i].1@));
        assert(after =~= inserted(before, key@, value@));
        proof {
            lemma_inserted_keys_unique(before, key@, value@);
        }
        *self = JmlObject(entries);
        assert(self.entries_model() =~= after);
    }

    pub fn len(&self) -> (r: usize)
        ensures
            r == self.entries_model().len(),
    {
        self.0.len()
    }
}

impl<'a> JmlValue<'a> {
    pub fn null() -> (r: JmlValue<'a>)
        ensures
            r@ == Val::Null,
    {
        JmlValue::Null
    }

    /// A float from its binary64 bit pattern.
    pub fn float(bits: u64) -> (r: JmlValue<'a>)
        ensures
            r@ == Val::Float(bits),
    {
        JmlValue::Float(JmlFloat(bits))
    }

    pub fn object(value: JmlObject<'a>) -> (r: JmlValue<'a>)
        ensures
            r@ == Val::Object(value.entries_model()),
    {
        let r = JmlValue::Object(value);
        assert(r@->Object_0 =~= value.entries_model());
        r
    }

    pub fn list(value: Vec<JmlValue<'a>>) -> (r: JmlValue<'a>)
        ensures
            r@ == Val::List(values_model(value@)),
    {
        let r = JmlValue::List(JmlList(value));
        assert(r@->List_0 =~= values_model(value@));
        r
    }

    pub fn integer(value: i64) -> (r: JmlValue<'a>)
        ensures
            r@ == Val::Int(value),
    {
        JmlValue::Int(JmlInt(value))
    }

    pub fn bool(value: bool) -> (r: JmlValue<'a>)
        ensures
            r@ == Val::Bool(value),
    {
        JmlValue::Bool(JmlBool(value))
    }

    pub fn string(value: String) -> (r: JmlValue<'a>)
        ensures
            r@ == Val::Str(value@),
    {
        JmlValue::String(JmlString(value))
    }

    pub fn type_of(&self) -> (r: JmlType)
        ensures
            r == type_of_model(self@),
    {
        match self {
            JmlValue::Null => JmlType::Null,
            JmlValue::Int(_) => JmlType::Int,
            JmlValue::Float(_) => JmlType::Float,
            JmlValue::Bool(_) => JmlType::Bool,
            JmlValue::List(_) => JmlType::List,
            JmlValue::String(_) => JmlType::String,
            JmlValue::Object(_) => JmlType::Object,
            JmlValue::Lambda(f) => JmlType::Lambda { arity: f.params.len() },
        }
    }

    pub fn is_number(&self) -> (r: bool)
        ensures
            r == (self@ is Int || self@ is Float),
    {
        self.type_of().is_number()
    }

    pub fn is_bool(&self) -> (r: bool)
        ensures
            r == self@ is Bool,
    {
        self.type_of().is_bool()
    }

    pub fn is_comparable(&self) -> (r: bool)
        ensures
            r == !(self@ is Lambda),
    {
        self.type_of().is_comparable()
    }

    pub fn is_ord(&self) -> (r: bool)
        ensures
            r == !(self@ is List || self@ is Object || self@ is Lambda),
    {
        self.type_of().is_ord()
    }

    pub fn is_truthy(&self) -> (r: bool)
        ensures
            r == truthy_model(self@),
    {
        match self {
            JmlValue::Bool(b) => b.is_truthy(),
            _ => false,
        }
    }

    /// Numeric zero: `0`, `0.0` or `-0.0`.
    pub fn is_zero(&self) -> (r: bool)
        ensures
            r == zero_model(self@),
    {
        match self {
            JmlValue::Float(f) => is_zero(f.0),
            JmlValue::Int(i) => i.0 == 0,
            _ => false,
        }
    }
}

/// Decides `val_eq` on two values.
pub fn values_equal(a: &JmlValue, b: &JmlValue) -> (r: bool)
    ensures
        r == val_eq(a@, b@),
    decreases a,
{
    match (a, b) {
        (JmlValue::Null, JmlValue::Null) => true,
        (JmlValue::Bool(x), JmlValue::Bool(y)) => x.0 == y.0,
        (JmlValue::Int(x), JmlValue::Int(y)) => x.0 == y.0,
        (JmlValue::Float(x), JmlValue::Float(y)) => float_eq(x.0, y.0),
        (JmlValue::String(x), JmlValue::String(y)) => x.0 == y.0,
        (JmlValue::List(x), JmlValue::List(y)) => {
            if x.0.len() != y.0.len() {
                return false;
            }
            let mut i: usize = 0;
            while i < x.0.len()
                invariant
                    *a == JmlValue::List(*x),
                    *b == JmlValue::List(*y),
                    x.0@.len() == y.0@.len(),
                    i <= x.0@.len(),
                    forall|j: int| 0 <= j < i ==> val_eq(#[trigger] a@->List_0[j], b@->List_0[j]),
                decreases x.0@.len() - i,
            {
                proof {
                    lemma_list_element_decreases(*a, i as int);
                    assert(a@->List_0[i as int] == x.0@[i as int]@);
                    assert(b@->List_0[i as int] == y.0@[i as int]@);
                }
                if !values_equal(&x.0[i], &y.0[i]) {
                    return false;
                }
                i = i + 1;
            }
            true
        },
        (JmlValue::Object(x), JmlValue::Object(y)) => {
            if x.0.len() != y.0.len() {
                return false;
            }
            proof {
                lemma_object_model(*x);
                lemma_object_model(*y);
            }
            let mut i: usize = 0;
            while i < x.0.len()
                invariant
                    *a == JmlValue::Object(*x),
                    *b == JmlValue::Object(*y),
                    a@->Object_0 == x.entries_model(),
                    b@->Object_0 == y.entries_model(),
                    x.0@.len() == y.0@.len(),
                    i <= x.0@.len(),
                    forall|k: int|
                        0 <= k < i ==> match find_key(b@->Object_0, (#[trigger] a@->Object_0[k]).0) {
                            Some(j) => val_eq(a@->Object_0[k].1, b@->Object_0[j].1),
                            None => false,
                        },
                decreases x.0@.len() - i,
            {
                proof {
                    lemma_object_entry_decreases(*a, i as int);
                    assert(a@->Object_0[i as int] == (x.0@[i as int].0@, x.0@[i as int].1@));
                }
                match y.position(&x.0[i].0) {
                    None => {
                        return false;
                    },
                    Some(j) => {
                        assert(b@->Object_0[j as int] == (y.0@[j as int].0@, y.0@[j as int].1@));
                        if !values_equal(&x.0[i].1, &y.0[j].1) {
                            return false;
                        }
                    },
                }
                i = i + 1;
            }
            true
        },
        (JmlValue::Lambda(x), JmlValue::Lambda(y)) => x.params.len() == y.params.len(),
        _ => false,
    }
}

impl<'a> PartialEq for JmlValue<'a> {
    fn eq(&self, other: &Self) -> (r: bool) {
        values_equal(self, other)
    }
}

impl<'a> vstd::std_specs::cmp::PartialEqSpecImpl for JmlValue<'a> {
    open spec fn obeys_eq_spec() -> bool {
        true
    }

    open spec fn eq_spec(&self, other: &Self) -> bool {
        val_eq(self@, other@)
    }
}

} // verus!
