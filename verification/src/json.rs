//! JSON values as they flow through tool calls, tool results, skill
//! frontmatter and session metadata.
//!
//! `JsonValue` holds a JSON document as plain data; its view `JsonView` is
//! the mathematical value that contracts speak of. Turning a value into
//! compact JSON text and parsing YAML are left to `serde_json` and
//! `serde_yaml_ng`.

use vstd::prelude::*;

verus! {

/// A JSON number, as `serde_json` distinguishes them. A floating-point
/// number is held by its decimal text.
#[derive(Debug)]
pub enum JsonNumber {
    /// A non-negative integer.
    PosInt(u64),
    /// A negative integer.
    NegInt(i64),
    /// A floating-point number, by its decimal text.
    Float(String),
}

/// A JSON value. Object members keep the order in which they were added.
/// Values that come from `serde_json` are well formed ([`wf_json`]): keys
/// are distinct and float text is a JSON number.
///
/// `serde_json` (without its `preserve_order` feature) keeps object keys
/// sorted, and its object equality ignores member order. The compact text
/// of a value is the same either way, since it is rendered through
/// `serde_json`; but equality of views is stricter here: two objects with
/// the same members in another order have different views.
#[derive(Debug)]
pub enum JsonValue {
    Null,
    Bool(bool),
    Number(JsonNumber),
    String(String),
    Array(Vec<JsonValue>),
    Object(Vec<(String, JsonValue)>),
}

/// The abstract content of a [`JsonNumber`].
pub enum NumberView {
    PosInt(u64),
    NegInt(i64),
    Float(Seq<char>),
}

/// The abstract content of a [`JsonValue`]: object members are a sequence,
/// in order, so member order is part of a view (see [`JsonValue`]).
pub enum JsonView {
    Null,
    Bool(bool),
    Number(NumberView),
    Str(Seq<char>),
    Array(Seq<JsonView>),
    Object(Seq<(Seq<char>, JsonView)>),
}

pub open spec fn number_view(n: JsonNumber) -> NumberView {
    match n {
        JsonNumber::PosInt(u) => NumberView::PosInt(u),
        JsonNumber::NegInt(i) => NumberView::NegInt(i),
        JsonNumber::Float(s) => NumberView::Float(s@),
    }
}

pub open spec fn json_view(v: JsonValue) -> JsonView
    decreases v,
{
    match v {
        JsonValue::Null => JsonView::Null,
        JsonValue::Bool(b) => JsonView::Bool(b),
        JsonValue::Number(n) => JsonView::Number(number_view(n)),
        JsonValue::String(s) => JsonView::Str(s@),
        JsonValue::Array(a) => JsonView::Array(json_views(a@)),
        JsonValue::Object(o) => JsonView::Object(entry_views(o@)),
    }
}

pub open spec fn json_views(s: Seq<JsonValue>) -> Seq<JsonView>
    decreases s,
{
    if s.len() == 0 {
        Seq::empty()
    } else {
        json_views(s.drop_last()).push(json_view(s.last()))
    }
}

pub open spec fn entry_views(s: Seq<(String, JsonValue)>) -> Seq<(Seq<char>, JsonView)>
    decreases s,
{
    if s.len() == 0 {
        Seq::empty()
    } else {
        entry_views(s.drop_last()).push((s.last().0@, json_view(s.last().1)))
    }
}

/// Whether `c` is a decimal digit.
pub open spec fn is_ascii_digit(c: char) -> bool {
    '0' <= c <= '9'
}

/// A non-empty run of decimal digits.
pub open spec fn digit_run(s: Seq<char>) -> bool {
    s.len() > 0 && forall|i: int| 0 <= i < s.len() ==> is_ascii_digit(#[trigger] s[i])
}

/// Whether `t` is the text of a JSON number: an optional `-`, an integer
/// part without leading zeros, an optional `.` and digits, and an optional
/// exponent (`e` or `E`, an optional sign, digits).
pub open spec fn json_number_text(t: Seq<char>) -> bool {
    let u = if t.len() > 0 && t[0] == '-' {
        t.drop_first()
    } else {
        t
    };
    exists|i: int, j: int|
        0 < i <= j <= u.len() && #[trigger] number_parts(u, i, j)
}

/// `u` split at `i` and `j` into integer part, fraction and exponent.
pub open spec fn number_parts(u: Seq<char>, i: int, j: int) -> bool {
    let int_part = u.take(i);
    let frac = u.subrange(i, j);
    let exp = u.skip(j);
    &&& (int_part == seq!['0'] || (digit_run(int_part) && int_part[0] != '0'))
    &&& (frac.len() == 0 || (frac[0] == '.' && digit_run(frac.drop_first())))
    &&& (exp.len() == 0 || ((exp[0] == 'e' || exp[0] == 'E') && (digit_run(exp.drop_first()) || (
    exp.len() > 1 && (exp[1] == '+' || exp[1] == '-') && digit_run(exp.skip(2))))))
}

/// Whether no two members share a key.
pub open spec fn distinct_keys(e: Seq<(Seq<char>, JsonView)>) -> bool {
    forall|i: int, j: int| 0 <= i < j < e.len() ==> #[trigger] e[i].0 != #[trigger] e[j].0
}

/// What `serde_json` keeps of every value it holds: object keys are
/// distinct (its maps are keyed) and a float is held by the text of a JSON
/// number, at every depth.
pub open spec fn wf_json(v: JsonView) -> bool
    decreases v,
{
    match v {
        JsonView::Number(NumberView::Float(t)) => json_number_text(t),
        JsonView::Array(a) => forall|i: int| 0 <= i < a.len() ==> wf_json(#[trigger] a[i]),
        JsonView::Object(e) => distinct_keys(e) && forall|i: int|
            0 <= i < e.len() ==> wf_json(#[trigger] e[i].1),
        _ => true,
    }
}

/// In an object with distinct keys, the member found under a key is the
/// only member with that key, so looking it up and the last-wins map that
/// `serde_json` serialises agree.
pub proof fn lemma_member_of_distinct_keys(e: Seq<(Seq<char>, JsonView)>, i: int)
    requires
        distinct_keys(e),
        0 <= i < e.len(),
    ensures
        member(e, e[i].0) == Some(e[i].1),
        forall|j: int| 0 <= j < e.len() && j != i ==> e[j].0 != e[i].0,
{
    assert forall|j: int| 0 <= j < i implies e[j].0 != e[i].0 by {
        assert(e[j].0 != e[i].0);
    }
    lemma_member_found(e, e[i].0, i);
    assert forall|j: int| 0 <= j < e.len() && j != i implies e[j].0 != e[i].0 by {
        if j < i {
            assert(e[j].0 != e[i].0);
        } else {
            assert(e[i].0 != e[j].0);
        }
    }
}

impl View for JsonValue {
    type V = JsonView;

    open spec fn view(&self) -> JsonView {
        json_view(*self)
    }
}


pub proof fn lemma_json_views_push(s: Seq<JsonValue>, x: JsonValue)
    ensures
        json_views(s.push(x)) == json_views(s).push(json_view(x)),
{
    assert(s.push(x).drop_last() == s);
}

pub proof fn lemma_entry_views_push(s: Seq<(String, JsonValue)>, x: (String, JsonValue))
    ensures
        entry_views(s.push(x)) == entry_views(s).push((x.0@, json_view(x.1))),
{
    assert(s.push(x).drop_last() == s);
}

pub proof fn lemma_json_views_index(s: Seq<JsonValue>)
    ensures
        json_views(s).len() == s.len(),
        forall|i: int| 0 <= i < s.len() ==> #[trigger] json_views(s)[i] == json_view(s[i]),
    decreases s.len(),
{
    if s.len() > 0 {
        lemma_json_views_index(s.drop_last());
    }
}

pub proof fn lemma_entry_views_index(s: Seq<(String, JsonValue)>)
    ensures
        entry_views(s).len() == s.len(),
        forall|i: int|
            0 <= i < s.len() ==> #[trigger] entry_views(s)[i] == (s[i].0@, json_view(s[i].1)),
    decreases s.len(),
{
    if s.len() > 0 {
        lemma_entry_views_index(s.drop_last());
    }
}

fn clone_number(n: &JsonNumber) -> (r: JsonNumber)
    ensures
        number_view(r) == number_view(*n),
{
    match n {
        JsonNumber::PosInt(u) => JsonNumber::PosInt(*u),
        JsonNumber::NegInt(i) => JsonNumber::NegInt(*i),
        JsonNumber::Float(t) => JsonNumber::Float(t.clone()),
    }
}

#[verifier::loop_isolation(false)]
fn clone_json(v: &JsonValue) -> (r: JsonValue)
    ensures
        r@ == v@,
    decreases v,
{
    match v {
        JsonValue::Null => JsonValue::Null,
        JsonValue::Bool(b) => JsonValue::Bool(*b),
        JsonValue::Number(n) => JsonValue::Number(clone_number(n)),
        JsonValue::String(t) => JsonValue::String(t.clone()),
        JsonValue::Array(a) => {
            let mut out: Vec<JsonValue> = Vec::new();
            let mut i: usize = 0;
            while i < a.len()
                invariant
                    i <= a.len(),
                    json_views(out@) == json_views(a@.take(i as int)),
                decreases a.len() - i,
            {
                proof {
                    assert(decreases_to!(*v => (*v)->Array_0));
                    assert(decreases_to!(*a => a@));
                    assert(decreases_to!(a@ => a@[i as int]));
                    assert(decreases_to!(*v => a@[i as int]));
                }
                let c = clone_json(&a[i]);
                proof {
                    lemma_json_views_push(out@, c);
                    lemma_json_views_push(a@.take(i as int), a@[i as int]);
                    assert(a@.take(i as int).push(a@[i as int]) == a@.take(i + 1));
                }
                out.push(c);
                i = i + 1;
            }
            assert(a@.take(a.len() as int) == a@);
            JsonValue::Array(out)
        },
        JsonValue::Object(o) => {
            let mut out: Vec<(String, JsonValue)> = Vec::new();
            let mut i: usize = 0;
            while i < o.len()
                invariant
                    i <= o.len(),
                    entry_views(out@) == entry_views(o@.take(i as int)),
                decreases o.len() - i,
            {
                proof {
                    assert(decreases_to!(*v => (*v)->Object_0));
                    assert(decreases_to!(*o => o@));
                    assert(decreases_to!(o@ => o@[i as int]));
                    assert(decreases_to!(o@[i as int] => o@[i as int].1));
                    assert(decreases_to!(*v => o@[i as int].1));
                }
                let c = (o[i].0.clone(), clone_json(&o[i].1));
                proof {
                    lemma_entry_views_push(out@, c);
                    lemma_entry_views_push(o@.take(i as int), o@[i as int]);
                    assert(o@.take(i as int).push(o@[i as int]) == o@.take(i + 1));
                }
                out.push(c);
                i = i + 1;
            }
            assert(o@.take(o.len() as int) == o@);
            JsonValue::Object(out)
        },
    }
}

/// A copy of object members with the same content.
pub fn clone_entries(o: &Vec<(String, JsonValue)>) -> (r: Vec<(String, JsonValue)>)
    ensures
        entry_views(r@) == entry_views(o@),
{
    let mut out: Vec<(String, JsonValue)> = Vec::new();
    let mut i: usize = 0;
    while i < o.len()
        invariant
            i <= o.len(),
            entry_views(out@) == entry_views(o@.take(i as int)),
        decreases o.len() - i,
    {
        let c = (o[i].0.clone(), o[i].1.clone());
        proof {
            lemma_entry_views_push(out@, c);
            lemma_entry_views_push(o@.take(i as int), o@[i as int]);
            assert(o@.take(i as int).push(o@[i as int]) == o@.take(i + 1));
        }
        out.push(c);
        i = i + 1;
    }
    assert(o@.take(o.len() as int) == o@);
    out
}

impl Clone for JsonValue {
    fn clone(&self) -> (r: Self)
        ensures
            r@ == self@,
    {
        clone_json(self)
    }
}


/// The value stored under `key` among object members: the first member
/// with that key.
pub open spec fn member(entries: Seq<(Seq<char>, JsonView)>, key: Seq<char>) -> Option<JsonView>
    decreases entries.len(),
{
    if entries.len() == 0 {
        None
    } else if entries[0].0 == key {
        Some(entries[0].1)
    } else {
        member(entries.drop_first(), key)
    }
}

/// `v[key]` when `v` is an object that has `key`; `None` otherwise
/// (`serde_json::Value::get` with a string key).
pub open spec fn view_get(v: JsonView, key: Seq<char>) -> Option<JsonView> {
    match v {
        JsonView::Object(e) => member(e, key),
        _ => None,
    }
}

/// The text of `v[key]` when that member exists and is a string.
pub open spec fn str_member(v: JsonView, key: Seq<char>) -> Option<Seq<char>> {
    match view_get(v, key) {
        Some(JsonView::Str(t)) => Some(t),
        _ => None,
    }
}

/// The value of `v` as an unsigned integer (`serde_json::Value::as_u64`).
pub open spec fn view_as_u64(v: JsonView) -> Option<u64> {
    match v {
        JsonView::Number(NumberView::PosInt(u)) => Some(u),
        JsonView::Number(NumberView::NegInt(i)) => if i >= 0 {
            Some(i as u64)
        } else {
            None
        },
        _ => None,
    }
}

/// The first member under `key` is the one that [`member`] finds.
pub(crate) proof fn lemma_member_found(e: Seq<(Seq<char>, JsonView)>, key: Seq<char>, i: int)
    requires
        0 <= i < e.len(),
        e[i].0 == key,
        forall|j: int| 0 <= j < i ==> e[j].0 != key,
    ensures
        member(e, key) == Some(e[i].1),
    decreases i,
{
    if i > 0 {
        assert forall|j: int| 0 <= j < i - 1 implies e.drop_first()[j].0 != key by {
            assert(e.drop_first()[j] == e[j + 1]);
        }
        lemma_member_found(e.drop_first(), key, i - 1);
    }
}

/// [`member`] finds nothing under a key that no member has.
pub(crate) proof fn lemma_member_absent(e: Seq<(Seq<char>, JsonView)>, key: Seq<char>)
    requires
        forall|j: int| 0 <= j < e.len() ==> e[j].0 != key,
    ensures
        member(e, key) is None,
    decreases e.len(),
{
    if e.len() > 0 {
        assert forall|j: int| 0 <= j < e.len() - 1 implies e.drop_first()[j].0 != key by {
            assert(e.drop_first()[j] == e[j + 1]);
        }
        lemma_member_absent(e.drop_first(), key);
    }
}

impl JsonValue {
    /// The member stored under `key` when `self` is an object.
    pub fn get(&self, key: &str) -> (r: Option<&JsonValue>)
        ensures
            r is None <==> view_get(self@, key@) is None,
            r matches Some(x) ==> view_get(self@, key@) == Some(x@),
    {
        match self {
            JsonValue::Object(o) => {
                let k = key.to_owned();
                let mut i: usize = 0;
                proof {
                    lemma_entry_views_index(o@);
                }
                while i < o.len()
                    invariant
                        i <= o.len(),
                        k@ == key@,
                        *self == JsonValue::Object(*o),
                        entry_views(o@).len() == o@.len(),
                        forall|j: int|
                            0 <= j < o@.len() ==> #[trigger] entry_views(o@)[j] == (
                                o@[j].0@,
                                json_view(o@[j].1),
                            ),
                        forall|j: int| 0 <= j < i ==> entry_views(o@)[j].0 != key@,
                    decreases o.len() - i,
                {
                    if o[i].0 == k {
                        proof {
                            lemma_member_found(entry_views(o@), key@, i as int);
                        }
                        return Some(&o[i].1);
                    }
                    i = i + 1;
                }
                proof {
                    lemma_member_absent(entry_views(o@), key@);
                }
                None
            },
            _ => None,
        }
    }

    /// The text of `self` when it is a JSON string.
    pub fn as_str(&self) -> (r: Option<&str>)
        ensures
            r is None <==> !(self@ is Str),
            r matches Some(t) ==> self@ == JsonView::Str(t@),
    {
        match self {
            JsonValue::String(t) => Some(t.as_str()),
            _ => None,
        }
    }

    /// The value of `self` as an unsigned integer.
    pub fn as_u64(&self) -> (r: Option<u64>)
        ensures
            r == view_as_u64(self@),
    {
        match self {
            JsonValue::Number(JsonNumber::PosInt(u)) => Some(*u),
            JsonValue::Number(JsonNumber::NegInt(i)) => if *i >= 0 {
                Some(*i as u64)
            } else {
                None
            },
            _ => None,
        }
    }

    /// The text of member `key` when it exists and is a string.
    pub fn str_member(&self, key: &str) -> (r: Option<&str>)
        ensures
            r is None <==> str_member(self@, key@) is None,
            r matches Some(t) ==> str_member(self@, key@) == Some(t@),
    {
        match self.get(key) {
            Some(v) => v.as_str(),
            None => None,
        }
    }

    /// A JSON string holding `s`.
    pub fn string(s: &str) -> (r: JsonValue)
        ensures
            r@ == JsonView::Str(s@),
    {
        JsonValue::String(s.to_owned())
    }

    /// A JSON number holding `n`.
    pub fn unsigned(n: u64) -> (r: JsonValue)
        ensures
            r@ == JsonView::Number(NumberView::PosInt(n)),
    {
        JsonValue::Number(JsonNumber::PosInt(n))
    }

    /// The compact JSON text of `self`, as `serde_json` writes it.
    pub fn to_compact_string(&self) -> (s: String)
        ensures
            s@ == compact_text(self@),
    {
        compact_json(self)
    }
}

/// Appends the member `key: value` to object members.
pub fn push_member(entries: &mut Vec<(String, JsonValue)>, key: &str, value: JsonValue)
    ensures
        entry_views(final(entries)@) == entry_views(old(entries)@).push((key@, value@)),
{
    let ghost old_entries = entries@;
    let k = key.to_owned();
    proof {
        lemma_entry_views_push(old_entries, (k, value));
    }
    entries.push((k, value));
}

#[verifier::external_type_specification]
#[verifier::external_body]
pub struct ExSerdeJsonValue(serde_json::Value);

#[verifier::external_type_specification]
#[verifier::external_body]
pub struct ExYamlError(serde_yaml_ng::Error);

#[verifier::external_type_specification]
#[verifier::external_body]
pub struct ExSerdeJsonError(serde_json::Error);

#[verifier::external_type_specification]
#[verifier::external_body]
pub struct ExSerdeJsonNumber(serde_json::Number);

/// The compact JSON text that `serde_json` writes for a value.
pub uninterp spec fn compact_text(v: JsonView) -> Seq<char>;

/// The JSON document that `serde_yaml_ng` reads from YAML text, or `None`
/// when the text is not a YAML document of that shape.
pub uninterp spec fn yaml_document(text: Seq<char>) -> Option<JsonView>;

/// The `serde_json` number for `n`; a float is read back from its text.
#[verifier::external_body]
fn serde_number_of(n: &JsonNumber) -> serde_json::Value {
    match n {
        JsonNumber::PosInt(u) => serde_json::Value::from(*u),
        JsonNumber::NegInt(i) => serde_json::Value::from(*i),
        JsonNumber::Float(t) => serde_json::from_str(t).unwrap_or(serde_json::Value::Null),
    }
}

/// Builds the `serde_json` value with the same content as `v`.
#[verifier::external_body]
fn serde_value_of(v: &JsonValue) -> serde_json::Value {
    match v {
        JsonValue::Null => serde_json::Value::Null,
        JsonValue::Bool(b) => serde_json::Value::Bool(*b),
        JsonValue::Number(n) => serde_number_of(n),
        JsonValue::String(s) => serde_json::Value::String(s.clone()),
        JsonValue::Array(a) => serde_json::Value::Array(a.iter().map(serde_value_of).collect()),
        JsonValue::Object(o) => serde_json::Value::Object(
            o.iter().map(|(k, x)| (k.clone(), serde_value_of(x))).collect(),
        ),
    }
}

/// The number `n` as a [`JsonNumber`]: `serde_json` keeps non-negative
/// integers, negative integers and floats apart, and `as_u64`/`as_i64`
/// tell which one `n` is.
#[verifier::external_body]
fn number_of(n: &serde_json::Number) -> JsonNumber {
    match (n.as_u64(), n.as_i64()) {
        (Some(u), _) => JsonNumber::PosInt(u),
        (None, Some(i)) => JsonNumber::NegInt(i),
        _ => JsonNumber::Float(n.to_string()),
    }
}

/// Builds the [`JsonValue`] with the same content as `v`.
#[verifier::external_body]
fn json_value_of(v: &serde_json::Value) -> JsonValue {
    match v {
        serde_json::Value::Null => JsonValue::Null,
        serde_json::Value::Bool(b) => JsonValue::Bool(*b),
        serde_json::Value::Number(n) => JsonValue::Number(number_of(n)),
        serde_json::Value::String(s) => JsonValue::String(s.clone()),
        serde_json::Value::Array(a) => JsonValue::Array(a.iter().map(json_value_of).collect()),
        serde_json::Value::Object(o) => JsonValue::Object(
            o.iter().map(|(k, x)| (k.clone(), json_value_of(x))).collect(),
        ),
    }
}

#[verifier::external_body]
fn compact_json(v: &JsonValue) -> (s: String)
    ensures
        s@ == compact_text(v@),
{
    serde_value_of(v).to_string()
}

/// `serde_yaml_ng::from_str` into a generic JSON value. What comes back is
/// a `serde_json::Value`: its objects are `serde_json` maps (keys are
/// distinct) and its floats are finite `f64`s, whose text is a JSON number.
#[verifier::external_body]
pub(crate) fn parse_yaml(text: &str) -> (r: Result<JsonValue, serde_yaml_ng::Error>)
    ensures
        r is Ok <==> yaml_document(text@) is Some,
        r matches Ok(v) ==> yaml_document(text@) == Some(v@),
        r matches Ok(v) ==> wf_json(v@),
{
    match serde_yaml_ng::from_str::<serde_json::Value>(text) {
        Ok(v) => Ok(json_value_of(&v)),
        Err(e) => Err(e),
    }
}

/// `serde_json::Error`'s `Display` text. Nothing is stated of it: it
/// describes where and why the input failed to parse.
#[verifier::external_body]
pub(crate) fn json_error_text(e: &serde_json::Error) -> String {
    e.to_string()
}

} // verus!
