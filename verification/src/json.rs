//! JSON values as Herdr reports them, and the accessors that the topology readers use.
use vstd::prelude::*;
use crate::text::eq_str;

verus! {

/// A JSON value. Integers that fit in `i64` are kept; other numbers are only known to be
/// numbers.
#[derive(Debug)]
pub enum Json {
    Null,
    Bool(bool),
    Int(i64),
    Number,
    Str(String),
    Array(Vec<Json>),
    Object(Vec<(String, Json)>),
}

/// The value of the first member named `key` at or after `from`.
pub open spec fn member_from(m: Seq<(String, Json)>, key: Seq<char>, from: int) -> Option<Json>
    decreases m.len() - from,
{
    if from < 0 || from >= m.len() {
        None
    } else if m[from].0@ == key {
        Some(m[from].1)
    } else {
        member_from(m, key, from + 1)
    }
}

/// The member `key` of an object; nothing for other values.
pub open spec fn field(j: Json, key: Seq<char>) -> Option<Json> {
    match j {
        Json::Object(m) => member_from(m@, key, 0),
        _ => None,
    }
}

/// The member `key` of an optional object.
pub open spec fn field_of(j: Option<Json>, key: Seq<char>) -> Option<Json> {
    match j {
        Some(v) => field(v, key),
        None => None,
    }
}

/// The text of a string value.
pub open spec fn str_of(j: Option<Json>) -> Option<Seq<char>> {
    match j {
        Some(Json::Str(s)) => Some(s@),
        _ => None,
    }
}

/// A boolean value.
pub open spec fn bool_of(j: Option<Json>) -> Option<bool> {
    match j {
        Some(Json::Bool(b)) => Some(b),
        _ => None,
    }
}

/// An integer value that fits in `i64`.
pub open spec fn int_of(j: Option<Json>) -> Option<i64> {
    match j {
        Some(Json::Int(i)) => Some(i),
        _ => None,
    }
}

/// The elements of an array value.
pub open spec fn array_of(j: Option<Json>) -> Option<Seq<Json>> {
    match j {
        Some(Json::Array(a)) => Some(a@),
        _ => None,
    }
}

/// The string member `key` of `j`, when it is a string.
pub open spec fn str_field(j: Json, key: Seq<char>) -> Option<Seq<char>> {
    str_of(field(j, key))
}

impl Json {
    /// The member `key` of an object.
    pub fn get(&self, key: &str) -> (r: Option<&Json>)
        ensures
            match r {
                Some(v) => field(*self, key@) == Some(*v),
                None => field(*self, key@) is None,
            },
    {
        match self {
            Json::Object(m) => {
                let mut i: usize = 0;
                while i < m.len()
                    invariant
                        i <= m@.len(),
                        field(*self, key@) == member_from(m@, key@, 0),
                        member_from(m@, key@, 0) == member_from(m@, key@, i as int),
                    decreases m.len() - i,
                {
                    let pair = &m[i];
                    if eq_str(pair.0.as_str(), key) {
                        return Some(&pair.1);
                    }
                    i = i + 1;
                }
                None
            },
            _ => None,
        }
    }

    /// The text of a string value.
    pub fn as_str(&self) -> (r: Option<&str>)
        ensures
            match r {
                Some(s) => str_of(Some(*self)) == Some(s@),
                None => str_of(Some(*self)) is None,
            },
    {
        match self {
            Json::Str(s) => Some(s.as_str()),
            _ => None,
        }
    }

    /// A boolean value.
    pub fn as_bool(&self) -> (r: Option<bool>)
        ensures
            r == bool_of(Some(*self)),
    {
        match self {
            Json::Bool(b) => Some(*b),
            _ => None,
        }
    }

    /// An integer value that fits in `i64`.
    pub fn as_i64(&self) -> (r: Option<i64>)
        ensures
            r == int_of(Some(*self)),
    {
        match self {
            Json::Int(i) => Some(*i),
            _ => None,
        }
    }

    /// The elements of an array value.
    pub fn as_array(&self) -> (r: Option<&Vec<Json>>)
        ensures
            match r {
                Some(a) => array_of(Some(*self)) == Some(a@),
                None => array_of(Some(*self)) is None,
            },
    {
        match self {
            Json::Array(a) => Some(a),
            _ => None,
        }
    }

    /// Whether the value is `null`.
    pub fn is_null(&self) -> (r: bool)
        ensures
            r == (*self is Null),
    {
        match self {
            Json::Null => true,
            _ => false,
        }
    }
}

/// The member `key` of an optional value.
pub fn get_opt<'a>(j: Option<&'a Json>, key: &str) -> (r: Option<&'a Json>)
    ensures
        match r {
            Some(v) => field_of(opt_json(j), key@) == Some(*v),
            None => field_of(opt_json(j), key@) is None,
        },
{
    match j {
        Some(v) => v.get(key),
        None => None,
    }
}

/// An optional reference as an optional value.
pub open spec fn opt_json(j: Option<&Json>) -> Option<Json> {
    match j {
        Some(v) => Some(*v),
        None => None,
    }
}

/// The string member `key`, when it is a string.
pub fn str_at<'a>(j: &'a Json, key: &str) -> (r: Option<&'a str>)
    ensures
        match r {
            Some(s) => str_field(*j, key@) == Some(s@),
            None => str_field(*j, key@) is None,
        },
{
    match j.get(key) {
        Some(v) => v.as_str(),
        None => None,
    }
}

} // verus!

verus! {

/// The elements among the first `n` of `s` that satisfy `p`, in order.
pub open spec fn keep(s: Seq<Json>, p: spec_fn(Json) -> bool, n: int) -> Seq<Json>
    decreases n,
{
    if n <= 0 {
        seq![]
    } else if p(s[n - 1]) {
        keep(s, p, n - 1).push(s[n - 1])
    } else {
        keep(s, p, n - 1)
    }
}

/// The views of a list of names.
pub open spec fn names_view(names: Seq<&str>) -> Seq<Seq<char>> {
    names.map_values(|s: &str| s@)
}

/// The first of the `names` members of `v`, from position `k`, that is a non-empty string.
pub open spec fn value_string_of(v: Json, names: Seq<Seq<char>>, k: int) -> Option<Seq<char>>
    decreases names.len() - k,
{
    if k < 0 || k >= names.len() {
        None
    } else {
        match str_field(v, names[k]) {
            Some(s) => if s.len() > 0 {
                Some(s)
            } else {
                value_string_of(v, names, k + 1)
            },
            None => value_string_of(v, names, k + 1),
        }
    }
}

/// The first of the `names` members of `value` that is a non-empty string.
pub fn value_string(value: &Json, names: &[&str]) -> (r: Option<String>)
    ensures
        crate::model::opt_view(r) == value_string_of(*value, names_view(names@), 0),
{
    let mut k: usize = 0;
    while k < names.len()
        invariant
            k <= names@.len(),
            value_string_of(*value, names_view(names@), 0) == value_string_of(*value, names_view(names@), k as int),
        decreases names.len() - k,
    {
        match str_at(value, names[k]) {
            Some(s) => {
                if !s.is_empty() {
                    return Some(s.to_owned());
                }
            },
            None => {},
        }
        k = k + 1;
    }
    None
}


fn member_index(members: &Vec<(String, Json)>, key: &str) -> (r: Option<usize>)
    ensures
        match r {
            Some(i) => i < members@.len() && member_from(members@, key@, 0) == Some(members@[i as int].1),
            None => member_from(members@, key@, 0) is None,
        },
{
    let mut i: usize = 0;
    while i < members.len()
        invariant
            i <= members@.len(),
            member_from(members@, key@, 0) == member_from(members@, key@, i as int),
        decreases members.len() - i,
    {
        if eq_str(members[i].0.as_str(), key) {
            return Some(i);
        }
        i = i + 1;
    }
    None
}

/// The member `key` of an object, moved out of it.
pub fn take_field(j: Json, key: &str) -> (r: Option<Json>)
    ensures
        r == field(j, key@),
{
    match j {
        Json::Object(mut members) => match member_index(&members, key) {
            Some(i) => {
                let (_, v) = members.remove(i);
                Some(v)
            },
            None => None,
        },
        _ => None,
    }
}

} // verus!
