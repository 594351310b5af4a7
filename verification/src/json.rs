//! A JSON document as the extractors read it, with the lookups they use:
//! object member, array element, JSON Pointer (RFC 6901) and the scalar
//! readings of a value.
use vstd::prelude::*;

use crate::text::{char_vec, replace_lit, same_string, split_chars, string_of};

verus! {

/// A JSON number by its integer readings.
#[derive(Debug, Clone, Copy, PartialEq, Eq, Structural)]
pub struct JsonNumber {
    /// The number as a `u64`, when it is a non-negative integer in range.
    pub as_u64: Option<u64>,
    /// The number as an `i64`, when it is an integer in range.
    pub as_i64: Option<i64>,
    /// The number read as a float, rounded toward zero into the `i64`
    /// range (saturating), as an `as i64` cast gives it.
    pub truncated: i64,
}

/// A JSON value. An object keeps its members in order; its keys are
/// distinct, as in a parsed document.
#[derive(Debug)]
pub enum JsonValue {
    Null,
    Bool(bool),
    Number(JsonNumber),
    Str(String),
    Array(Vec<JsonValue>),
    Object(Vec<(String, JsonValue)>),
}

/// The value of the first member named `key`.
pub open spec fn member(entries: Seq<(String, JsonValue)>, key: Seq<char>) -> Option<JsonValue>
    decreases entries.len(),
{
    if entries.len() == 0 {
        None
    } else if entries[0].0@ == key {
        Some(entries[0].1)
    } else {
        member(entries.drop_first(), key)
    }
}

/// `v[key]` for an object, nothing otherwise.
pub open spec fn json_get(v: JsonValue, key: Seq<char>) -> Option<JsonValue> {
    match v {
        JsonValue::Object(entries) => member(entries@, key),
        _ => None,
    }
}

/// `v[i]` for an array, nothing otherwise or out of range.
pub open spec fn json_at(v: JsonValue, i: int) -> Option<JsonValue> {
    match v {
        JsonValue::Array(items) => if 0 <= i < items@.len() {
            Some(items@[i])
        } else {
            None
        },
        _ => None,
    }
}

/// The elements of an array.
pub open spec fn json_array(v: JsonValue) -> Option<Seq<JsonValue>> {
    match v {
        JsonValue::Array(items) => Some(items@),
        _ => None,
    }
}

/// The text of a string.
pub open spec fn json_str(v: JsonValue) -> Option<Seq<char>> {
    match v {
        JsonValue::Str(s) => Some(s@),
        _ => None,
    }
}

/// The value of a boolean.
pub open spec fn json_bool(v: JsonValue) -> Option<bool> {
    match v {
        JsonValue::Bool(b) => Some(b),
        _ => None,
    }
}

/// A number as a `u64`.
pub open spec fn json_u64(v: JsonValue) -> Option<u64> {
    match v {
        JsonValue::Number(n) => n.as_u64,
        _ => None,
    }
}

/// A number as an `i64`.
pub open spec fn json_i64(v: JsonValue) -> Option<i64> {
    match v {
        JsonValue::Number(n) => n.as_i64,
        _ => None,
    }
}

/// A number read as a float and cast to `i64`.
pub open spec fn json_truncated(v: JsonValue) -> Option<i64> {
    match v {
        JsonValue::Number(n) => Some(n.truncated),
        _ => None,
    }
}

/// Lifts a reading over an optional value.
pub open spec fn opt_get(v: Option<JsonValue>, key: Seq<char>) -> Option<JsonValue> {
    match v {
        Some(x) => json_get(x, key),
        None => None,
    }
}

/// The string under `key` of an optional value.
pub open spec fn opt_str(v: Option<JsonValue>) -> Option<Seq<char>> {
    match v {
        Some(x) => json_str(x),
        None => None,
    }
}

/// The `u64` of an optional value.
pub open spec fn opt_u64(v: Option<JsonValue>) -> Option<u64> {
    match v {
        Some(x) => json_u64(x),
        None => None,
    }
}

/// The `u64` of an optional value, zero when absent.
pub open spec fn u64_or_zero(v: Option<JsonValue>) -> u64 {
    match opt_u64(v) {
        Some(n) => n,
        None => 0,
    }
}

/// The array of an optional value.
pub open spec fn opt_array(v: Option<JsonValue>) -> Option<Seq<JsonValue>> {
    match v {
        Some(x) => json_array(x),
        None => None,
    }
}

/// A pointer token with its escapes undone: `~1` is `/`, then `~0` is `~`.
pub open spec fn unescaped_token(t: Seq<char>) -> Seq<char> {
    crate::text::replace_all(crate::text::replace_all(t, seq!['~', '1'], seq!['/']), seq!['~', '0'], seq!['~'])
}

/// An array index token: digits without a sign and without a leading zero
/// (unless it is `0` itself), in the range of `usize`.
pub open spec fn index_token(t: Seq<char>) -> Option<nat> {
    if t.len() > 0 && (t[0] == '+' || (t[0] == '0' && t.len() != 1)) {
        None
    } else {
        crate::text::parse_unsigned(t, usize::MAX as nat)
    }
}

/// One pointer step: an object member or an array element.
pub open spec fn pointer_step(v: JsonValue, token: Seq<char>) -> Option<JsonValue> {
    match v {
        JsonValue::Object(entries) => member(entries@, token),
        JsonValue::Array(items) => match index_token(token) {
            Some(i) => if i < items@.len() {
                Some(items@[i as int])
            } else {
                None
            },
            None => None,
        },
        _ => None,
    }
}

/// Follows the (unescaped) tokens from `v`.
pub open spec fn follow(v: JsonValue, tokens: Seq<Seq<char>>) -> Option<JsonValue>
    decreases tokens.len(),
{
    if tokens.len() == 0 {
        Some(v)
    } else {
        match pointer_step(v, unescaped_token(tokens[0])) {
            Some(next) => follow(next, tokens.drop_first()),
            None => None,
        }
    }
}

/// The value that a JSON Pointer designates: the whole value for the empty
/// pointer; otherwise the pointer starts with `/` and each `/`-separated
/// token after it selects a member or an element.
pub open spec fn json_pointer(v: JsonValue, ptr: Seq<char>) -> Option<JsonValue> {
    if ptr.len() == 0 {
        Some(v)
    } else if ptr[0] != '/' {
        None
    } else {
        follow(v, crate::text::split_on(ptr, '/').drop_first())
    }
}

proof fn lemma_member_skip(entries: Seq<(String, JsonValue)>, i: int, key: Seq<char>)
    requires
        0 <= i < entries.len(),
        entries[i].0@ != key,
    ensures
        member(entries.subrange(i, entries.len() as int), key) == member(
            entries.subrange(i + 1, entries.len() as int),
            key,
        ),
{
    assert(entries.subrange(i, entries.len() as int).drop_first() =~= entries.subrange(
        i + 1,
        entries.len() as int,
    ));
}

impl JsonValue {
    /// The member named `key` of an object.
    pub fn get(&self, key: &str) -> (r: Option<&JsonValue>)
        ensures
            r.is_some() == json_get(*self, key@).is_some(),
            r.is_some() ==> *r.unwrap() == json_get(*self, key@).unwrap(),
    {
        match self {
            JsonValue::Object(entries) => {
                let k = key.to_owned();
                let mut i: usize = 0;
                assert(entries@.subrange(0, entries@.len() as int) =~= entries@);
                while i < entries.len()
                    invariant
                        i <= entries@.len(),
                        k@ == key@,
                        json_get(*self, key@) == member(entries@, key@),
                        member(entries@.subrange(i as int, entries@.len() as int), key@) == member(
                            entries@,
                            key@,
                        ),
                    decreases entries.len() - i,
                {
                    if same_string(&entries[i].0, &k) {
                        assert(entries@.subrange(i as int, entries@.len() as int)[0] == entries@[i as int]);
                        return Some(&entries[i].1);
                    }
                    proof {
                        lemma_member_skip(entries@, i as int, key@);
                    }
                    i += 1;
                }
                None
            },
            _ => None,
        }
    }

    /// The element at `i` of an array.
    pub fn at(&self, i: usize) -> (r: Option<&JsonValue>)
        ensures
            r.is_some() == json_at(*self, i as int).is_some(),
            r.is_some() ==> *r.unwrap() == json_at(*self, i as int).unwrap(),
    {
        match self {
            JsonValue::Array(items) => if i < items.len() {
                Some(&items[i])
            } else {
                None
            },
            _ => None,
        }
    }

    /// The elements of an array.
    pub fn as_array(&self) -> (r: Option<&Vec<JsonValue>>)
        ensures
            r.is_some() == json_array(*self).is_some(),
            r.is_some() ==> r.unwrap()@ == json_array(*self).unwrap(),
    {
        match self {
            JsonValue::Array(items) => Some(items),
            _ => None,
        }
    }

    /// The text of a string.
    pub fn as_str(&self) -> (r: Option<&str>)
        ensures
            r.is_some() == json_str(*self).is_some(),
            r.is_some() ==> r.unwrap()@ == json_str(*self).unwrap(),
    {
        match self {
            JsonValue::Str(s) => Some(s.as_str()),
            _ => None,
        }
    }

    /// The value of a boolean.
    pub fn as_bool(&self) -> (r: Option<bool>)
        ensures
            r == json_bool(*self),
    {
        match self {
            JsonValue::Bool(b) => Some(*b),
            _ => None,
        }
    }

    /// A number as a `u64`.
    pub fn as_u64(&self) -> (r: Option<u64>)
        ensures
            r == json_u64(*self),
    {
        match self {
            JsonValue::Number(n) => n.as_u64,
            _ => None,
        }
    }

    /// A number as an `i64`.
    pub fn as_i64(&self) -> (r: Option<i64>)
        ensures
            r == json_i64(*self),
    {
        match self {
            JsonValue::Number(n) => n.as_i64,
            _ => None,
        }
    }

    /// A number read as a float and cast to `i64`.
    pub fn as_truncated(&self) -> (r: Option<i64>)
        ensures
            r == json_truncated(*self),
    {
        match self {
            JsonValue::Number(n) => Some(n.truncated),
            _ => None,
        }
    }

    /// The `u64` under `key`, zero when absent or not such a number.
    pub fn u64_field(&self, key: &str) -> (r: u64)
        ensures
            r == u64_or_zero(json_get(*self, key@)),
    {
        match self.get(key) {
            Some(v) => match v.as_u64() {
                Some(n) => n,
                None => 0,
            },
            None => 0,
        }
    }

    /// The string under `key`.
    pub fn str_field(&self, key: &str) -> (r: Option<&str>)
        ensures
            r.is_some() == opt_str(json_get(*self, key@)).is_some(),
            r.is_some() ==> r.unwrap()@ == opt_str(json_get(*self, key@)).unwrap(),
    {
        match self.get(key) {
            Some(v) => v.as_str(),
            None => None,
        }
    }

    /// The array under `key`.
    pub fn array_field(&self, key: &str) -> (r: Option<&Vec<JsonValue>>)
        ensures
            r.is_some() == opt_array(json_get(*self, key@)).is_some(),
            r.is_some() ==> r.unwrap()@ == opt_array(json_get(*self, key@)).unwrap(),
    {
        match self.get(key) {
            Some(v) => v.as_array(),
            None => None,
        }
    }

    /// One pointer step from this value.
    fn step(&self, token: &Vec<char>) -> (r: Option<&JsonValue>)
        ensures
            r.is_some() == pointer_step(*self, token@).is_some(),
            r.is_some() ==> *r.unwrap() == pointer_step(*self, token@).unwrap(),
    {
        match self {
            JsonValue::Object(_) => {
                let t = string_of(token);
                self.get(t.as_str())
            },
            JsonValue::Array(items) => {
                if token.len() > 0 && (token[0] == '+' || (token[0] == '0' && token.len() != 1)) {
                    return None;
                }
                let max: u64 = usize::MAX as u64;
                match crate::text::parse_unsigned_chars(token, max) {
                    Some(n) => {
                        let i: usize = n as usize;
                        if i < items.len() {
                            Some(&items[i])
                        } else {
                            None
                        }
                    },
                    None => None,
                }
            },
            _ => None,
        }
    }

    /// The value that the JSON Pointer `ptr` designates.
    pub fn pointer(&self, ptr: &str) -> (r: Option<&JsonValue>)
        ensures
            r.is_some() == json_pointer(*self, ptr@).is_some(),
            r.is_some() ==> *r.unwrap() == json_pointer(*self, ptr@).unwrap(),
    {
        let p = char_vec(ptr);
        if p.len() == 0 {
            return Some(self);
        }
        if p[0] != '/' {
            return None;
        }
        let parts = split_chars(&p, '/');
        let ghost tokens = crate::text::split_on(p@, '/').drop_first();
        proof {
            crate::text::lemma_split_on_nonempty(p@, '/');
        }
        let mut cur: &JsonValue = self;
        let mut i: usize = 1;
        assert(tokens.subrange(0, tokens.len() as int) =~= tokens);
        while i < parts.len()
            invariant
                1 <= i <= parts@.len(),
                p@ == ptr@,
                p@.len() > 0,
                p@[0] == '/',
                parts.deep_view() == crate::text::split_on(p@, '/'),
                tokens == crate::text::split_on(p@, '/').drop_first(),
                follow(*cur, tokens.subrange(i - 1, tokens.len() as int)) == follow(*self, tokens),
            decreases parts.len() - i,
        {
            proof {
                reveal_strlit("~1");
                reveal_strlit("/");
                reveal_strlit("~0");
                reveal_strlit("~");
                assert("~1"@ =~= seq!['~', '1']);
                assert("/"@ =~= seq!['/']);
                assert("~0"@ =~= seq!['~', '0']);
                assert("~"@ =~= seq!['~']);
            }
            let a = replace_lit(&parts[i], "~1", "/");
            let t = replace_lit(&a, "~0", "~");
            let ghost rest = tokens.subrange(i - 1, tokens.len() as int);
            proof {
                crate::text::lemma_char_vec_deep_view(parts@[i as int]);
                assert(parts.deep_view()[i as int] == parts@[i as int]@);
                assert(rest[0] == tokens[i - 1]);
                assert(tokens[i - 1] == parts@[i as int]@);
                assert(t@ == unescaped_token(rest[0]));
                assert(rest.drop_first() =~= tokens.subrange(i as int, tokens.len() as int));
            }
            match cur.step(&t) {
                Some(next) => {
                    cur = next;
                },
                None => {
                    assert(follow(*cur, rest) is None);
                    assert(json_pointer(*self, ptr@) == follow(*self, tokens));
                    return None;
                },
            }
            i += 1;
        }
        assert(tokens.subrange(tokens.len() as int, tokens.len() as int) =~= Seq::<Seq<char>>::empty());
        Some(cur)
    }
}

} // verus!
