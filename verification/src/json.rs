//! JSON values as the library reads them: parsed with `serde_json`, then looked at field by
//! field.
use vstd::prelude::*;
use vstd::string::*;

verus! {

/// A JSON value. Numbers keep their text; objects keep their members in order.
pub enum JsonValue {
    Null,
    Bool(bool),
    Number(String),
    Str(String),
    Array(Vec<JsonValue>),
    Object(Vec<(String, JsonValue)>),
}

/// A JSON value seen mathematically.
pub enum JsonView {
    Null,
    Bool(bool),
    Number(Seq<char>),
    Str(Seq<char>),
    Array(Seq<JsonView>),
    Object(Seq<(Seq<char>, JsonView)>),
}

pub open spec fn json_view(j: JsonValue) -> JsonView
    decreases j, 0nat,
{
    match j {
        JsonValue::Null => JsonView::Null,
        JsonValue::Bool(b) => JsonView::Bool(b),
        JsonValue::Number(n) => JsonView::Number(n@),
        JsonValue::Str(s) => JsonView::Str(s@),
        JsonValue::Array(v) => JsonView::Array(json_views(v@)),
        JsonValue::Object(m) => JsonView::Object(member_views(m@)),
    }
}

pub open spec fn json_views(s: Seq<JsonValue>) -> Seq<JsonView>
    decreases s, 1nat,
{
    if s.len() == 0 {
        Seq::empty()
    } else {
        json_views(s.subrange(0, s.len() - 1)).push(json_view(s[s.len() - 1]))
    }
}

pub open spec fn member_views(m: Seq<(String, JsonValue)>) -> Seq<(Seq<char>, JsonView)>
    decreases m, 1nat,
{
    if m.len() == 0 {
        Seq::empty()
    } else {
        member_views(m.subrange(0, m.len() - 1)).push(
            (m[m.len() - 1].0@, json_view(m[m.len() - 1].1)),
        )
    }
}

impl View for JsonValue {
    type V = JsonView;

    open spec fn view(&self) -> JsonView {
        json_view(*self)
    }
}

/// The value `serde_json::from_str` parses out of a text, if the text is JSON.
pub uninterp spec fn json_parse(text: Seq<char>) -> Option<JsonView>;

/// Parses a text as JSON with `serde_json::from_str` into a `serde_json::Value` and takes
/// that value apart variant by variant. The result is `json_parse` of the text; what that
/// is, is `serde_json`'s and is not stated here.
#[verifier::external_body]
pub(crate) fn parse_json(text: &str) -> (r: Option<JsonValue>)
    ensures
        match r {
            Some(v) => json_parse(text@) == Some(v@),
            None => json_parse(text@) is None,
        },
{
    serde_json::from_str::<serde_json::Value>(text).ok().map(from_serde)
}

/// The value `serde_json::from_slice` parses out of bytes, if they are JSON.
pub uninterp spec fn json_parse_bytes(bytes: Seq<u8>) -> Option<JsonView>;

/// Parses bytes as JSON with `serde_json::from_slice` into a `serde_json::Value` and takes
/// that value apart variant by variant. The result is `json_parse_bytes` of the bytes; what
/// that is, is `serde_json`'s and is not stated here.
#[verifier::external_body]
pub(crate) fn parse_json_bytes(bytes: &[u8]) -> (r: Option<JsonValue>)
    ensures
        match r {
            Some(v) => json_parse_bytes(bytes@) == Some(v@),
            None => json_parse_bytes(bytes@) is None,
        },
{
    serde_json::from_slice::<serde_json::Value>(bytes).ok().map(from_serde)
}

/// `serde_json::Value`, carried through opaque.
#[verifier::external_type_specification]
#[verifier::external_body]
pub struct ExSerdeJsonValue(serde_json::Value);

/// Takes a `serde_json::Value` apart, one arm per variant; a number keeps its text.
#[verifier::external_body]
fn from_serde(v: serde_json::Value) -> JsonValue {
    match v {
        serde_json::Value::Null => JsonValue::Null,
        serde_json::Value::Bool(b) => JsonValue::Bool(b),
        serde_json::Value::Number(n) => JsonValue::Number(n.to_string()),
        serde_json::Value::String(s) => JsonValue::Str(s),
        serde_json::Value::Array(a) => JsonValue::Array(a.into_iter().map(from_serde).collect()),
        serde_json::Value::Object(m) => JsonValue::Object(
            m.into_iter().map(|(k, x)| (k, from_serde(x))).collect(),
        ),
    }
}

/// The member `key` of an object (the first one of that name), if there is one.
pub open spec fn field_of(v: JsonView, key: Seq<char>) -> Option<JsonView> {
    match v {
        JsonView::Object(m) => if exists|i: int| 0 <= i < m.len() && #[trigger] m[i].0 == key {
            Some(
                m[choose|i: int|
                    0 <= i < m.len() && m[i].0 == key && forall|j: int| 0 <= j < i ==> m[j].0 != key].1,
            )
        } else {
            None
        },
        _ => None,
    }
}

/// The text of a string value.
pub open spec fn as_text(v: Option<JsonView>) -> Option<Seq<char>> {
    match v {
        Some(JsonView::Str(s)) => Some(s),
        _ => None,
    }
}

/// The flag of a boolean value.
pub open spec fn as_flag(v: Option<JsonView>) -> Option<bool> {
    match v {
        Some(JsonView::Bool(b)) => Some(b),
        _ => None,
    }
}

/// The elements of an array value.
pub open spec fn as_items(v: Option<JsonView>) -> Option<Seq<JsonView>> {
    match v {
        Some(JsonView::Array(a)) => Some(a),
        _ => None,
    }
}

proof fn lemma_views_index(s: Seq<JsonValue>)
    ensures
        json_views(s).len() == s.len(),
        forall|i: int| 0 <= i < s.len() ==> #[trigger] json_views(s)[i] == json_view(s[i]),
    decreases s.len(),
{
    if s.len() > 0 {
        let t = s.subrange(0, s.len() - 1);
        lemma_views_index(t);
        assert forall|i: int| 0 <= i < s.len() implies #[trigger] json_views(s)[i] == json_view(s[i]) by {
            if i < s.len() - 1 {
                assert(t[i] == s[i]);
            }
        }
    }
}

pub proof fn lemma_members_index(m: Seq<(String, JsonValue)>)
    ensures
        member_views(m).len() == m.len(),
        forall|i: int|
            0 <= i < m.len() ==> #[trigger] member_views(m)[i] == (m[i].0@, json_view(m[i].1)),
    decreases m.len(),
{
    if m.len() > 0 {
        let t = m.subrange(0, m.len() - 1);
        lemma_members_index(t);
        assert forall|i: int| 0 <= i < m.len() implies #[trigger] member_views(m)[i] == (
            m[i].0@,
            json_view(m[i].1),
        ) by {
            if i < m.len() - 1 {
                assert(t[i] == m[i]);
            }
        }
    }
}

/// The elements of an array seen one by one.
pub proof fn lemma_array_view(v: &Vec<JsonValue>)
    ensures
        json_views(v@).len() == v@.len(),
        forall|i: int| 0 <= i < v@.len() ==> #[trigger] json_views(v@)[i] == v@[i]@,
{
    lemma_views_index(v@);
}

/// The position of the first member named `key`, if any.
fn member_position(m: &Vec<(String, JsonValue)>, key: &str) -> (r: Option<usize>)
    ensures
        member_views(m@).len() == m@.len(),
        match r {
            Some(i) => i < m@.len() && m@[i as int].0@ == key@ && forall|j: int|
                0 <= j < i ==> m@[j].0@ != key@,
            None => forall|j: int| 0 <= j < m@.len() ==> m@[j].0@ != key@,
        },
{
    proof {
        lemma_members_index(m@);
    }
    let k = String::from_str(key);
    let n = m.len();
    let mut i: usize = 0;
    while i < n
        invariant
            n == m@.len(),
            member_views(m@).len() == m@.len(),
            k@ == key@,
            i <= n,
            forall|j: int| 0 <= j < i ==> m@[j].0@ != key@,
        decreases n - i,
    {
        if m[i].0 == k {
            return Some(i);
        }
        i = i + 1;
    }
    None
}

/// The member `key` of an object value (see `field_of`).
pub fn field<'a>(v: &'a JsonValue, key: &str) -> (r: Option<&'a JsonValue>)
    ensures
        match r {
            Some(x) => field_of(v@, key@) == Some(x@),
            None => field_of(v@, key@) is None,
        },
{
    match v {
        JsonValue::Object(m) => {
            let p = member_position(m, key);
            proof {
                lemma_members_index(m@);
            }
            let ghost mv = member_views(m@);
            match p {
                Some(i) => {
                    proof {
                        assert(mv[i as int].0 == key@);
                        let c = choose|c: int|
                            0 <= c < mv.len() && mv[c].0 == key@ && forall|j: int|
                                0 <= j < c ==> mv[j].0 != key@;
                        assert(mv[c].0 == key@);
                        if c < i {
                            assert(m@[c].0@ != key@);
                        } else if c > i {
                            assert(mv[i as int].0 != key@);
                        }
                    }
                    Some(&m[i].1)
                },
                None => {
                    proof {
                        if exists|i: int| 0 <= i < mv.len() && #[trigger] mv[i].0 == key@ {
                            let j = choose|i: int| 0 <= i < mv.len() && #[trigger] mv[i].0 == key@;
                            assert(m@[j].0@ != key@);
                        }
                    }
                    None
                },
            }
        },
        _ => None,
    }
}

/// The text of a string value.
pub fn text_of(v: Option<&JsonValue>) -> (r: Option<String>)
    ensures
        crate::text::opt_text(r) == as_text(
            match v {
                Some(x) => Some(x@),
                None => None,
            },
        ),
{
    match v {
        Some(JsonValue::Str(s)) => Some(s.clone()),
        _ => None,
    }
}

/// The flag of a boolean value.
pub fn flag_of(v: Option<&JsonValue>) -> (r: Option<bool>)
    ensures
        r == as_flag(
            match v {
                Some(x) => Some(x@),
                None => None,
            },
        ),
{
    match v {
        Some(JsonValue::Bool(b)) => Some(*b),
        _ => None,
    }
}

/// What `member_position` finds is what `field_of` gives.
proof fn lemma_field_position(m: Seq<(String, JsonValue)>, key: Seq<char>, r: Option<usize>)
    requires
        match r {
            Some(i) => i < m.len() && m[i as int].0@ == key && forall|j: int|
                0 <= j < i ==> m[j].0@ != key,
            None => forall|j: int| 0 <= j < m.len() ==> m[j].0@ != key,
        },
    ensures
        field_of(JsonView::Object(member_views(m)), key) == match r {
            Some(i) => Some(json_view(m[i as int].1)),
            None => None,
        },
{
    lemma_members_index(m);
    let mv = member_views(m);
    match r {
        Some(i) => {
            assert(mv[i as int].0 == key);
            let c = choose|c: int|
                0 <= c < mv.len() && mv[c].0 == key && forall|j: int| 0 <= j < c ==> mv[j].0 != key;
            assert(mv[c].0 == key);
            if c < i {
                assert(m[c].0@ != key);
            } else if c > i {
                assert(mv[i as int].0 != key);
            }
        },
        None => {
            if exists|i: int| 0 <= i < mv.len() && #[trigger] mv[i].0 == key {
                let j = choose|i: int| 0 <= i < mv.len() && #[trigger] mv[i].0 == key;
                assert(m[j].0@ != key);
            }
        },
    }
}

/// The event a decoded frame carries: its `payload` member when there is one and it is not
/// null, otherwise the whole frame.
pub open spec fn payload_of(frame: JsonView) -> JsonView {
    match field_of(frame, "payload"@) {
        Some(p) => if p is Null {
            frame
        } else {
            p
        },
        None => frame,
    }
}

/// The event a decoded frame carries (see `payload_of`).
pub fn frame_payload(frame: JsonValue) -> (r: JsonValue)
    ensures
        r@ == payload_of(frame@),
{
    match frame {
        JsonValue::Object(mut m) => {
            let p = member_position(&m, "payload");
            proof {
                lemma_field_position(m@, "payload"@, p);
            }
            match p {
                Some(i) => {
                    let is_null = match &m[i].1 {
                        JsonValue::Null => true,
                        _ => false,
                    };
                    if is_null {
                        JsonValue::Object(m)
                    } else {
                        let (_, v) = m.remove(i);
                        v
                    }
                },
                None => JsonValue::Object(m),
            }
        },
        other => other,
    }
}

/// Values seen mathematically, one by one.
pub open spec fn values_view(v: Seq<JsonValue>) -> Seq<JsonView> {
    v.map_values(|j: JsonValue| j@)
}

/// The member `key` of an optional value.
pub open spec fn field_in(v: Option<JsonView>, key: Seq<char>) -> Option<JsonView> {
    match v {
        Some(x) => field_of(x, key),
        None => None,
    }
}

/// The member `key` of an optional value (see `field_in`).
pub fn field_opt<'a>(v: Option<&'a JsonValue>, key: &str) -> (r: Option<&'a JsonValue>)
    ensures
        match r {
            Some(x) => field_in(
                match v {
                    Some(y) => Some(y@),
                    None => None,
                },
                key@,
            ) == Some(x@),
            None => field_in(
                match v {
                    Some(y) => Some(y@),
                    None => None,
                },
                key@,
            ) is None,
        },
{
    match v {
        Some(x) => field(x, key),
        None => None,
    }
}

/// Takes the member `key` out of an object value (see `field_of`).
pub fn take_field(v: JsonValue, key: &str) -> (r: Option<JsonValue>)
    ensures
        match r {
            Some(x) => field_of(v@, key@) == Some(x@),
            None => field_of(v@, key@) is None,
        },
{
    match v {
        JsonValue::Object(mut m) => {
            let p = member_position(&m, key);
            proof {
                lemma_field_position(m@, key@, p);
            }
            match p {
                Some(i) => {
                    let (_, x) = m.remove(i);
                    Some(x)
                },
                None => None,
            }
        },
        _ => None,
    }
}

} // verus!
