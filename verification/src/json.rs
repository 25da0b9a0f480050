//! An owned JSON tree that the parsers read and the payload builders write,
//! together with its mathematical model.

use vstd::prelude::*;

verus! {

broadcast use vstd::std_specs::vec::group_vec_axioms;

/// Mathematical model of a JSON value.
pub enum JsonModel {
    Null,
    Bool(bool),
    PosInt(u64),
    NegInt(i64),
    Float(Seq<char>),
    Str(Seq<char>),
    Array(Seq<JsonModel>),
    Object(Seq<(Seq<char>, JsonModel)>),
}

/// A JSON value. Non-negative integers are `PosInt`, negative ones `NegInt`;
/// numbers with a fraction or exponent keep their decimal text in `Float`.
#[derive(Debug, PartialEq)]
pub enum JsonValue {
    Null,
    Bool(bool),
    PosInt(u64),
    NegInt(i64),
    Float(String),
    Str(String),
    Array(Vec<JsonValue>),
    Object(Vec<(String, JsonValue)>),
}

pub open spec fn models_of(s: Seq<JsonValue>) -> Seq<JsonModel>
    decreases s,
{
    if s.len() == 0 {
        Seq::empty()
    } else {
        models_of(s.drop_last()).push(s.last().model())
    }
}

pub open spec fn entries_of(s: Seq<(String, JsonValue)>) -> Seq<(Seq<char>, JsonModel)>
    decreases s,
{
    if s.len() == 0 {
        Seq::empty()
    } else {
        entries_of(s.drop_last()).push((s.last().0@, s.last().1.model()))
    }
}

impl JsonValue {
    pub open spec fn model(&self) -> JsonModel
        decreases self,
    {
        match self {
            JsonValue::Null => JsonModel::Null,
            JsonValue::Bool(b) => JsonModel::Bool(*b),
            JsonValue::PosInt(n) => JsonModel::PosInt(*n),
            JsonValue::NegInt(n) => JsonModel::NegInt(*n),
            JsonValue::Float(t) => JsonModel::Float(t@),
            JsonValue::Str(s) => JsonModel::Str(s@),
            JsonValue::Array(v) => JsonModel::Array(models_of(v@)),
            JsonValue::Object(v) => JsonModel::Object(entries_of(v@)),
        }
    }
}


impl View for JsonValue {
    type V = JsonModel;

    open spec fn view(&self) -> JsonModel {
        self.model()
    }
}

pub proof fn lemma_models_of(s: Seq<JsonValue>)
    ensures
        models_of(s).len() == s.len(),
        forall|i: int| 0 <= i < s.len() ==> #[trigger] models_of(s)[i] == s[i].model(),
    decreases s.len(),
{
    if s.len() > 0 {
        lemma_models_of(s.drop_last());
        assert forall|i: int| 0 <= i < s.len() implies #[trigger] models_of(s)[i] == s[i].model() by {
            if i < s.len() - 1 {
                assert(s.drop_last()[i] == s[i]);
            }
        }
    }
}

pub broadcast proof fn lemma_models_len(s: Seq<JsonValue>)
    ensures
        #[trigger] models_of(s).len() == s.len(),
{
    lemma_models_of(s);
}

pub broadcast proof fn lemma_models_index(s: Seq<JsonValue>, i: int)
    requires
        0 <= i < s.len(),
    ensures
        #[trigger] models_of(s)[i] == s[i].model(),
{
    lemma_models_of(s);
}

pub proof fn lemma_entries_of(s: Seq<(String, JsonValue)>)
    ensures
        entries_of(s).len() == s.len(),
        forall|i: int|
            0 <= i < s.len() ==> #[trigger] entries_of(s)[i] == (s[i].0@, s[i].1.model()),
    decreases s.len(),
{
    if s.len() > 0 {
        lemma_entries_of(s.drop_last());
        assert forall|i: int| 0 <= i < s.len() implies #[trigger] entries_of(s)[i] == (
            s[i].0@,
            s[i].1.model(),
        ) by {
            if i < s.len() - 1 {
                assert(s.drop_last()[i] == s[i]);
            }
        }
    }
}

pub broadcast proof fn lemma_entries_len(s: Seq<(String, JsonValue)>)
    ensures
        #[trigger] entries_of(s).len() == s.len(),
{
    lemma_entries_of(s);
}

pub broadcast proof fn lemma_entries_index(s: Seq<(String, JsonValue)>, i: int)
    requires
        0 <= i < s.len(),
    ensures
        #[trigger] entries_of(s)[i] == (s[i].0@, s[i].1.model()),
{
    lemma_entries_of(s);
}

impl JsonModel {
    /// The elements, when the value is an array.
    pub open spec fn arr(self) -> Option<Seq<JsonModel>> {
        match self {
            JsonModel::Array(s) => Some(s),
            _ => None,
        }
    }

    /// The characters, when the value is a string.
    pub open spec fn text(self) -> Option<Seq<char>> {
        match self {
            JsonModel::Str(s) => Some(s),
            _ => None,
        }
    }

    /// The value as a signed 64-bit integer, when it is an integer in range.
    pub open spec fn int64(self) -> Option<i64> {
        match self {
            JsonModel::PosInt(n) => if n <= i64::MAX { Some(n as i64) } else { None },
            JsonModel::NegInt(n) => Some(n),
            _ => None,
        }
    }

    /// The value as an unsigned 64-bit integer, when it is a non-negative integer.
    pub open spec fn uint64(self) -> Option<u64> {
        match self {
            JsonModel::PosInt(n) => Some(n),
            _ => None,
        }
    }

    pub open spec fn boolean(self) -> Option<bool> {
        match self {
            JsonModel::Bool(b) => Some(b),
            _ => None,
        }
    }

    pub open spec fn is_null(self) -> bool {
        self is Null
    }

    /// Element `i` of an array; `None` for other values or out of range.
    pub open spec fn at(self, i: int) -> Option<JsonModel> {
        match self {
            JsonModel::Array(s) => seq_at(s, i),
            _ => None,
        }
    }

    /// The value under `key` in an object (the first entry with that key).
    pub open spec fn field(self, key: Seq<char>) -> Option<JsonModel> {
        match self {
            JsonModel::Object(entries) => lookup(entries, key),
            _ => None,
        }
    }
}

/// Element `i` of a sequence, if in range.
pub open spec fn seq_at(s: Seq<JsonModel>, i: int) -> Option<JsonModel> {
    if 0 <= i < s.len() {
        Some(s[i])
    } else {
        None
    }
}

/// The first entry of `entries` whose key is `key`.
pub open spec fn lookup(entries: Seq<(Seq<char>, JsonModel)>, key: Seq<char>) -> Option<JsonModel>
    decreases entries.len(),
{
    if entries.len() == 0 {
        None
    } else if entries[0].0 == key {
        Some(entries[0].1)
    } else {
        lookup(entries.drop_first(), key)
    }
}

/// The models of the elements of a vector of values.
pub open spec fn vmodel(v: &Vec<JsonValue>) -> Seq<JsonModel> {
    models_of(v@)
}

impl JsonValue {
    pub fn as_array(&self) -> (r: Option<&Vec<JsonValue>>)
        ensures
            r is Some == self@ is Array,
            r matches Some(v) ==> self@ == JsonModel::Array(vmodel(v)),
    {
        match self {
            JsonValue::Array(v) => Some(v),
            _ => None,
        }
    }

    pub fn as_str(&self) -> (r: Option<&String>)
        ensures
            r is Some == self@ is Str,
            r matches Some(s) ==> self@ == JsonModel::Str(s@),
    {
        match self {
            JsonValue::Str(s) => Some(s),
            _ => None,
        }
    }

    pub fn as_i64(&self) -> (r: Option<i64>)
        ensures
            r == self@.int64(),
    {
        match self {
            JsonValue::PosInt(n) => if *n <= 9223372036854775807u64 {
                Some(*n as i64)
            } else {
                None
            },
            JsonValue::NegInt(n) => Some(*n),
            _ => None,
        }
    }

    pub fn as_u64(&self) -> (r: Option<u64>)
        ensures
            r == self@.uint64(),
    {
        match self {
            JsonValue::PosInt(n) => Some(*n),
            _ => None,
        }
    }

    pub fn as_bool(&self) -> (r: Option<bool>)
        ensures
            r == self@.boolean(),
    {
        match self {
            JsonValue::Bool(b) => Some(*b),
            _ => None,
        }
    }

    pub fn is_null(&self) -> (r: bool)
        ensures
            r == self@.is_null(),
    {
        match self {
            JsonValue::Null => true,
            _ => false,
        }
    }

    pub fn is_array(&self) -> (r: bool)
        ensures
            r == self@ is Array,
    {
        match self {
            JsonValue::Array(_) => true,
            _ => false,
        }
    }

    pub fn is_string(&self) -> (r: bool)
        ensures
            r == self@ is Str,
    {
        match self {
            JsonValue::Str(_) => true,
            _ => false,
        }
    }

    /// Element `i` when the value is an array.
    pub fn get(&self, i: usize) -> (r: Option<&JsonValue>)
        ensures
            match r {
                Some(e) => self@.at(i as int) == Some(e@),
                None => self@.at(i as int) is None,
            },
    {
        match self {
            JsonValue::Array(v) => item(v, i),
            _ => None,
        }
    }

    /// The value under `key` when the value is an object.
    pub fn get_key(&self, key: &str) -> (r: Option<&JsonValue>)
        ensures
            match r {
                Some(e) => self@.field(key@) == Some(e@),
                None => self@.field(key@) is None,
            },
    {
        broadcast use group_json;

        match self {
            JsonValue::Object(entries) => {
                let mut i: usize = 0;
                assert(entries_of(entries@).skip(0) =~= entries_of(entries@));
                while i < entries.len()
                    invariant
                        self@ == JsonModel::Object(entries_of(entries@)),
                        i <= entries@.len(),
                        lookup(entries_of(entries@), key@) == lookup(
                            entries_of(entries@).skip(i as int),
                            key@,
                        ),
                    decreases entries@.len() - i,
                {
                    proof {
                        lemma_entries_of(entries@);
                    }
                    let ghost rest = entries_of(entries@).skip(i as int);
                    assert(rest.len() == entries@.len() - i);
                    assert(rest[0] == entries_of(entries@)[i as int]);
                    if crate::text::str_eq(entries[i].0.as_str(), key) {
                        return Some(&entries[i].1);
                    }
                    assert(rest.drop_first() =~= entries_of(entries@).skip(i + 1));
                    i = i + 1;
                }
                proof {
                    lemma_entries_of(entries@);
                }
                assert(entries_of(entries@).skip(i as int).len() == 0);
                None
            },
            _ => None,
        }
    }

    /// A copy with the same model.
    #[verifier::loop_isolation(false)]
    pub fn deep_clone(&self) -> (r: JsonValue)
        ensures
            r@ == self@,
        decreases self,
    {
        broadcast use group_json;

        match self {
            JsonValue::Null => JsonValue::Null,
            JsonValue::Bool(b) => JsonValue::Bool(*b),
            JsonValue::PosInt(n) => JsonValue::PosInt(*n),
            JsonValue::NegInt(n) => JsonValue::NegInt(*n),
            JsonValue::Float(t) => JsonValue::Float(t.clone()),
            JsonValue::Str(s) => JsonValue::Str(s.clone()),
            JsonValue::Array(v) => {
                let mut out: Vec<JsonValue> = Vec::new();
                let mut i: usize = 0;
                while i < v.len()
                    invariant
                        i <= v@.len(),
                        out@.len() == i,
                        forall|k: int| #![trigger out@[k]] 0 <= k < i ==> out@[k].model() == v@[k].model(),
                    decreases v@.len() - i,
                {
                    proof {
                        assert(decreases_to!(*v => v[i as int]));
                        assert(decreases_to!(*self => *v));
                    }
                    let c = v[i].deep_clone();
                    out.push(c);
                    i = i + 1;
                }
                proof {
                    lemma_models_of(out@);
                    lemma_models_of(v@);
                }
                assert(models_of(out@) =~= models_of(v@));
                JsonValue::Array(out)
            },
            JsonValue::Object(v) => {
                let mut out: Vec<(String, JsonValue)> = Vec::new();
                let mut i: usize = 0;
                while i < v.len()
                    invariant
                        i <= v@.len(),
                        out@.len() == i,
                        forall|k: int|
                            #![trigger out@[k]]
                            0 <= k < i ==> out@[k].0@ == v@[k].0@ && out@[k].1.model() == v@[k].1.model(),
                    decreases v@.len() - i,
                {
                    let k = v[i].0.clone();
                    proof {
                        assert(decreases_to!(*v => v[i as int]));
                        assert(decreases_to!(*self => *v));
                        assert(decreases_to!(v[i as int] => v[i as int].1));
                    }
                    let c = v[i].1.deep_clone();
                    out.push((k, c));
                    i = i + 1;
                }
                proof {
                    lemma_entries_of(out@);
                    lemma_entries_of(v@);
                }
                assert(entries_of(out@) =~= entries_of(v@));
                JsonValue::Object(out)
            },
        }
    }
}

/// Element `i` of a vector of values, if in range.
pub fn item(v: &Vec<JsonValue>, i: usize) -> (r: Option<&JsonValue>)
    ensures
        match r {
            Some(e) => seq_at(vmodel(v), i as int) == Some(e@),
            None => seq_at(vmodel(v), i as int) is None,
        },
{
    broadcast use group_json;

    if i < v.len() {
        Some(&v[i])
    } else {
        None
    }
}

/// A string value holding `s`.
pub fn jstr(s: &str) -> (r: JsonValue)
    ensures
        r@ == JsonModel::Str(s@),
{
    JsonValue::Str(crate::text::owned(s))
}

/// Appends `x` to a vector of values; the models grow by `x`'s model.
pub fn push_val(v: &mut Vec<JsonValue>, x: JsonValue)
    ensures
        models_of(final(v)@) == models_of(old(v)@).push(x@),
        final(v)@.len() == old(v)@.len() + 1,
{
    let ghost before = v@;
    v.push(x);
    assert(v@.drop_last() =~= before);
}

/// Appends the entry `key: x` to the entries of an object.
pub fn push_entry(v: &mut Vec<(String, JsonValue)>, key: &str, x: JsonValue)
    ensures
        entries_of(final(v)@) == entries_of(old(v)@).push((key@, x@)),
{
    let ghost before = v@;
    v.push((crate::text::owned(key), x));
    assert(v@.drop_last() =~= before);
}

/// A string, or `null` when absent.
pub open spec fn text_or_null(o: Option<Seq<char>>) -> JsonModel {
    match o {
        Some(t) => JsonModel::Str(t),
        None => JsonModel::Null,
    }
}

/// The value of an optional string: the string, or `null`.
pub fn jopt_str(o: &Option<String>) -> (r: JsonValue)
    ensures
        r@ == text_or_null(match o {
            Some(s) => Some(s@),
            None => None,
        }),
{
    match o {
        Some(s) => JsonValue::Str(s.clone()),
        None => JsonValue::Null,
    }
}

/// An array of the given values.
pub fn jarr1(a: JsonValue) -> (r: JsonValue)
    ensures
        r@ == JsonModel::Array(seq![a@]),
{
    let mut v: Vec<JsonValue> = Vec::new();
    push_val(&mut v, a);
    JsonValue::Array(v)
}

/// An array of the given values.
pub fn jarr2(a: JsonValue, b: JsonValue) -> (r: JsonValue)
    ensures
        r@ == JsonModel::Array(seq![a@, b@]),
{
    let ghost (ma, mb) = (a@, b@);
    let mut v: Vec<JsonValue> = Vec::new();
    push_val(&mut v, a);
    push_val(&mut v, b);
    assert(models_of(v@) =~= seq![ma, mb]);
    JsonValue::Array(v)
}

/// An array value holding `v`.
pub fn jarr(v: Vec<JsonValue>) -> (r: JsonValue)
    ensures
        r@ == JsonModel::Array(models_of(v@)),
{
    broadcast use group_json;

    JsonValue::Array(v)
}

/// The JSON number for a small signed integer.
pub open spec fn int_model(n: int) -> JsonModel {
    if n >= 0 {
        JsonModel::PosInt(n as u64)
    } else {
        JsonModel::NegInt(n as i64)
    }
}

/// A number value holding `n`.
pub fn jint(n: i32) -> (r: JsonValue)
    ensures
        r@ == int_model(n as int),
{
    if n >= 0 {
        JsonValue::PosInt(n as u64)
    } else {
        JsonValue::NegInt(n as i64)
    }
}

pub broadcast group group_json {
    lemma_models_len,
    lemma_models_index,
    lemma_entries_len,
    lemma_entries_index,
}

/// The model of an optional reference to a value.
pub open spec fn omodel(o: Option<&JsonValue>) -> Option<JsonModel> {
    match o {
        Some(v) => Some(v@),
        None => None,
    }
}

/// The model of an optional owned value.
pub open spec fn omodel_owned(o: Option<JsonValue>) -> Option<JsonModel> {
    match o {
        Some(v) => Some(v@),
        None => None,
    }
}

/// Element `i` of an optional array value.
pub open spec fn then_at(o: Option<JsonModel>, i: int) -> Option<JsonModel> {
    match o {
        Some(m) => m.at(i),
        None => None,
    }
}

/// The characters of an optional string value.
pub open spec fn then_text(o: Option<JsonModel>) -> Option<Seq<char>> {
    match o {
        Some(m) => m.text(),
        None => None,
    }
}

/// The elements of an optional array value.
pub open spec fn then_arr(o: Option<JsonModel>) -> Option<Seq<JsonModel>> {
    match o {
        Some(m) => m.arr(),
        None => None,
    }
}

/// An optional value read as a signed integer.
pub open spec fn then_int(o: Option<JsonModel>) -> Option<i64> {
    match o {
        Some(m) => m.int64(),
        None => None,
    }
}

/// An optional value read as a boolean.
pub open spec fn then_bool(o: Option<JsonModel>) -> Option<bool> {
    match o {
        Some(m) => m.boolean(),
        None => None,
    }
}

/// Element `i` of an optional value, when it is an array.
pub fn get_in(o: Option<&JsonValue>, i: usize) -> (r: Option<&JsonValue>)
    ensures
        omodel(r) == then_at(omodel(o), i as int),
{
    match o {
        Some(v) => v.get(i),
        None => None,
    }
}

/// The string inside an optional value, when it is one.
pub fn str_in(o: Option<&JsonValue>) -> (r: Option<&String>)
    ensures
        match r {
            Some(s) => then_text(omodel(o)) == Some(s@),
            None => then_text(omodel(o)) is None,
        },
{
    match o {
        Some(v) => v.as_str(),
        None => None,
    }
}

/// The elements of an optional value, when it is an array.
pub fn arr_in(o: Option<&JsonValue>) -> (r: Option<&Vec<JsonValue>>)
    ensures
        match r {
            Some(v) => then_arr(omodel(o)) == Some(vmodel(v)),
            None => then_arr(omodel(o)) is None,
        },
{
    match o {
        Some(v) => v.as_array(),
        None => None,
    }
}

/// An optional value read as a signed integer.
pub fn int_in(o: Option<&JsonValue>) -> (r: Option<i64>)
    ensures
        r == then_int(omodel(o)),
{
    match o {
        Some(v) => v.as_i64(),
        None => None,
    }
}

/// An optional value read as a boolean.
pub fn bool_in(o: Option<&JsonValue>) -> (r: Option<bool>)
    ensures
        r == then_bool(omodel(o)),
{
    match o {
        Some(v) => v.as_bool(),
        None => None,
    }
}

} // verus!
