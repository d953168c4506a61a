//! A JSON document model for the payloads the router builds and reads.
//!
//! Numbers are integers or fixed-point decimals in millionths. Objects keep
//! their members in insertion order; lookups find the first member with a
//! given key.

use vstd::prelude::*;

use crate::text::str_eq;

verus! {

#[derive(Debug, PartialEq)]
pub enum Json {
    Null,
    Bool(bool),
    /// An integer.
    Int(i128),
    /// A decimal number, stored in millionths (`1_500_000` is 1.5).
    Fixed(i128),
    Str(String),
    Array(Vec<Json>),
    Object(Vec<(String, Json)>),
}

/// The mathematical value of a [`Json`] document.
pub enum JsonView {
    Null,
    Bool(bool),
    Int(int),
    Fixed(int),
    Str(Seq<char>),
    Array(Seq<JsonView>),
    Object(Seq<(Seq<char>, JsonView)>),
}

pub open spec fn json_view(j: Json) -> JsonView
    decreases j,
{
    match j {
        Json::Null => JsonView::Null,
        Json::Bool(b) => JsonView::Bool(b),
        Json::Int(n) => JsonView::Int(n as int),
        Json::Fixed(n) => JsonView::Fixed(n as int),
        Json::Str(s) => JsonView::Str(s@),
        Json::Array(v) => JsonView::Array(
            Seq::new(
                v@.len(),
                |i: int|
                    if 0 <= i < v@.len() {
                        json_view(v@[i])
                    } else {
                        JsonView::Null
                    },
            ),
        ),
        Json::Object(v) => JsonView::Object(
            Seq::new(
                v@.len(),
                |i: int|
                    if 0 <= i < v@.len() {
                        (v@[i].0@, json_view(v@[i].1))
                    } else {
                        (Seq::empty(), JsonView::Null)
                    },
            ),
        ),
    }
}

impl View for Json {
    type V = JsonView;

    open spec fn view(&self) -> JsonView {
        json_view(*self)
    }
}

/// `i` is the first member of `members` whose key is `k`.
pub open spec fn first_member(members: Seq<(Seq<char>, JsonView)>, k: Seq<char>, i: int) -> bool {
    &&& 0 <= i < members.len()
    &&& members[i].0 == k
    &&& forall|j: int| 0 <= j < i ==> #[trigger] members[j].0 != k
}

/// The value of member `k` of an object (the first one with that key).
pub open spec fn member(v: JsonView, k: Seq<char>) -> Option<JsonView> {
    match v {
        JsonView::Object(members) => if exists|i: int| first_member(members, k, i) {
            Some(members[choose|i: int| first_member(members, k, i)].1)
        } else {
            None
        },
        _ => None,
    }
}

pub proof fn lemma_first_member_unique(members: Seq<(Seq<char>, JsonView)>, k: Seq<char>, i: int, j: int)
    requires
        first_member(members, k, i),
        first_member(members, k, j),
    ensures
        i == j,
{
    if i < j {
        assert(members[i].0 == k);
    } else if j < i {
        assert(members[j].0 == k);
    }
}

/// The member with key `k` at position `i`, with no earlier member under
/// `k`, is what the object holds under `k`.
pub proof fn lemma_member_at(members: Seq<(Seq<char>, JsonView)>, k: Seq<char>, i: int)
    requires
        0 <= i < members.len(),
        members[i].0 == k,
        forall|j: int| 0 <= j < i ==> members[j].0 != k,
    ensures
        member(JsonView::Object(members), k) == Some(members[i].1),
{
    assert(first_member(members, k, i));
    let c = choose|c: int| first_member(members, k, c);
    lemma_first_member_unique(members, k, i, c);
}

pub fn json_str(s: &str) -> (j: Json)
    ensures
        j@ == JsonView::Str(s@),
{
    Json::Str(s.to_owned())
}

pub fn json_opt_str(s: &Option<String>) -> (j: Json)
    ensures
        j@ == (match s {
            Some(t) => JsonView::Str(t@),
            None => JsonView::Null,
        }),
{
    match s {
        Some(t) => Json::Str(t.clone()),
        None => Json::Null,
    }
}

pub fn json_opt_u32(n: Option<u32>) -> (j: Json)
    ensures
        j@ == (match n {
            Some(m) => JsonView::Int(m as int),
            None => JsonView::Null,
        }),
{
    match n {
        Some(m) => Json::Int(m as i128),
        None => Json::Null,
    }
}

pub fn json_opt_bool(b: Option<bool>) -> (j: Json)
    ensures
        j@ == (match b {
            Some(x) => JsonView::Bool(x),
            None => JsonView::Null,
        }),
{
    match b {
        Some(x) => Json::Bool(x),
        None => Json::Null,
    }
}

impl Json {
    /// The member `k` of this object, if it is an object with such a member.
    pub fn get(&self, k: &str) -> (r: Option<&Json>)
        ensures
            member(self@, k@) == (match r {
                Some(j) => Some(j@),
                None => None::<JsonView>,
            }),
    {
        match self {
            Json::Object(members) => {
                let ghost mv = match self@ {
                    JsonView::Object(m) => m,
                    _ => Seq::empty(),
                };
                assert(mv.len() == members@.len());
                let n = members.len();
                let mut i: usize = 0;
                while i < n
                    invariant
                        n == members@.len(),
                        mv.len() == n,
                        self@ == JsonView::Object(mv),
                        i <= n,
                        forall|j: int| 0 <= j < n ==> #[trigger] mv[j] == (members@[j].0@, json_view(members@[j].1)),
                        forall|j: int| 0 <= j < i ==> #[trigger] mv[j].0 != k@,
                    decreases n - i,
                {
                    if str_eq(members[i].0.as_str(), k) {
                        proof {
                            assert(first_member(mv, k@, i as int));
                            let c = choose|c: int| first_member(mv, k@, c);
                            lemma_first_member_unique(mv, k@, i as int, c);
                            assert(self@ == JsonView::Object(mv));
                            assert(member(self@, k@) == Some(mv[i as int].1));
                            assert(mv[i as int].1 == json_view(members@[i as int].1));
                        }
                        return Some(&members[i].1);
                    }
                    i = i + 1;
                }
                proof {
                    if exists|c: int| first_member(mv, k@, c) {
                        let c = choose|c: int| first_member(mv, k@, c);
                        assert(mv[c].0 == k@);
                    }
                }
                None
            },
            _ => None,
        }
    }

    /// The text of a string value.
    pub fn as_text(&self) -> (r: Option<&str>)
        ensures
            match self@ {
                JsonView::Str(s) => r is Some && r.unwrap()@ == s,
                _ => r is None,
            },
    {
        match self {
            Json::Str(s) => Some(s.as_str()),
            _ => None,
        }
    }

    /// The value of a boolean.
    pub fn as_bool(&self) -> (r: Option<bool>)
        ensures
            r == (match self@ {
                JsonView::Bool(b) => Some(b),
                _ => None::<bool>,
            }),
    {
        match self {
            Json::Bool(b) => Some(*b),
            _ => None,
        }
    }

    /// The value of a non-negative integer.
    pub fn as_u64(&self) -> (r: Option<u64>)
        ensures
            r == (match self@ {
                JsonView::Int(n) => if 0 <= n <= u64::MAX { Some(n as u64) } else { None::<u64> },
                _ => None::<u64>,
            }),
    {
        match self {
            Json::Int(n) => if 0 <= *n && *n <= 0xffff_ffff_ffff_ffff { Some(*n as u64) } else { None },
            _ => None,
        }
    }
}

/// The mathematical members of an object's member list.
pub open spec fn members_view(v: Seq<(String, Json)>) -> Seq<(Seq<char>, JsonView)> {
    Seq::new(v.len(), |i: int| (v[i].0@, json_view(v[i].1)))
}

/// The mathematical elements of an array's element list.
pub open spec fn elems_view(v: Seq<Json>) -> Seq<JsonView> {
    Seq::new(v.len(), |i: int| json_view(v[i]))
}

pub open spec fn jopt_str(o: Option<Seq<char>>) -> JsonView {
    match o {
        Some(s) => JsonView::Str(s),
        None => JsonView::Null,
    }
}

pub open spec fn jopt_int(o: Option<nat>) -> JsonView {
    match o {
        Some(n) => JsonView::Int(n as int),
        None => JsonView::Null,
    }
}

pub open spec fn jopt_fixed(o: Option<nat>) -> JsonView {
    match o {
        Some(n) => JsonView::Fixed(n as int),
        None => JsonView::Null,
    }
}

pub open spec fn jopt_bool(o: Option<bool>) -> JsonView {
    match o {
        Some(b) => JsonView::Bool(b),
        None => JsonView::Null,
    }
}

/// Appends member `key: value` to an object's member list.
pub fn push_member(members: &mut Vec<(String, Json)>, key: &str, value: Json)
    ensures
        members_view(final(members)@) == members_view(old(members)@).push((key@, value@)),
{
    let ghost v = value@;
    members.push((key.to_owned(), value));
    assert(members_view(members@) =~= members_view(old(members)@).push((key@, v)));
}

pub fn make_object(members: Vec<(String, Json)>) -> (j: Json)
    ensures
        j@ == JsonView::Object(members_view(members@)),
{
    let j = Json::Object(members);
    assert(j@ matches JsonView::Object(m) && m =~= members_view(members@));
    j
}

pub fn make_array(elems: Vec<Json>) -> (j: Json)
    ensures
        j@ == JsonView::Array(elems_view(elems@)),
{
    let j = Json::Array(elems);
    assert(j@ matches JsonView::Array(m) && m =~= elems_view(elems@));
    j
}

/// Appends an element to an array's element list.
pub fn push_elem(elems: &mut Vec<Json>, value: Json)
    ensures
        elems_view(final(elems)@) == elems_view(old(elems)@).push(value@),
{
    let ghost v = value@;
    elems.push(value);
    assert(elems_view(elems@) =~= elems_view(old(elems)@).push(v));
}

pub fn json_opt_fixed(n: Option<u64>) -> (j: Json)
    ensures
        j@ == jopt_fixed(match n {
            Some(m) => Some(m as nat),
            None => None,
        }),
{
    match n {
        Some(m) => Json::Fixed(m as i128),
        None => Json::Null,
    }
}

impl Json {
    /// The elements of an array.
    pub fn as_array(&self) -> (r: Option<&Vec<Json>>)
        ensures
            match self@ {
                JsonView::Array(s) => r is Some && elems_view(r.unwrap()@) == s,
                _ => r is None,
            },
    {
        match self {
            Json::Array(v) => {
                assert(elems_view(v@) =~= match self@ {
                    JsonView::Array(s) => s,
                    _ => Seq::empty(),
                });
                Some(v)
            },
            _ => None,
        }
    }
}

/// The text of a string value, if it is one.
pub open spec fn text_of(v: Option<JsonView>) -> Option<Seq<char>> {
    match v {
        Some(JsonView::Str(s)) => Some(s),
        _ => None,
    }
}

/// The value of a boolean, if it is one.
pub open spec fn bool_of(v: Option<JsonView>) -> Option<bool> {
    match v {
        Some(JsonView::Bool(b)) => Some(b),
        _ => None,
    }
}

/// The text of member `k`, if it is a string.
pub fn member_text<'a>(j: &'a Json, k: &str) -> (r: Option<&'a str>)
    ensures
        match r {
            Some(t) => text_of(member(j@, k@)) == Some(t@),
            None => text_of(member(j@, k@)) is None,
        },
{
    match j.get(k) {
        Some(v) => v.as_text(),
        None => None,
    }
}

/// The value of member `k`, if it is a boolean.
pub fn member_bool(j: &Json, k: &str) -> (r: Option<bool>)
    ensures
        r == bool_of(member(j@, k@)),
{
    match j.get(k) {
        Some(v) => v.as_bool(),
        None => None,
    }
}

/// A deep copy of a document.
pub fn copy_json(j: &Json) -> (r: Json)
    ensures
        r@ == j@,
    decreases j,
{
    match j {
        Json::Null => Json::Null,
        Json::Bool(b) => Json::Bool(*b),
        Json::Int(n) => Json::Int(*n),
        Json::Fixed(n) => Json::Fixed(*n),
        Json::Str(s) => Json::Str(s.clone()),
        Json::Array(v) => {
            let mut out: Vec<Json> = Vec::new();
            let n = v.len();
            let mut i: usize = 0;
            while i < n
                invariant
                    n == v@.len(),
                    i <= n,
                    *j == Json::Array(*v),
                    out@.len() == i,
                    forall|k: int| 0 <= k < i ==> (#[trigger] out@[k])@ == v@[k]@,
                decreases n - i,
            {
                assert(decreases_to!(*j => (*j)->Array_0));
                assert(decreases_to!(*v => v@));
                assert(decreases_to!(v@ => v@[i as int]));
                out.push(copy_json(&v[i]));
                i = i + 1;
            }
            let r = Json::Array(out);
            assert(r@ matches JsonView::Array(a) && j@ matches JsonView::Array(b) && a =~= b);
            r
        },
        Json::Object(v) => {
            let mut out: Vec<(String, Json)> = Vec::new();
            let n = v.len();
            let mut i: usize = 0;
            while i < n
                invariant
                    n == v@.len(),
                    i <= n,
                    *j == Json::Object(*v),
                    out@.len() == i,
                    forall|k: int| 0 <= k < i ==> (#[trigger] out@[k]).0@ == v@[k].0@ && out@[k].1@ == v@[k].1@,
                decreases n - i,
            {
                assert(decreases_to!(*j => (*j)->Object_0));
                assert(decreases_to!(*v => v@));
                assert(decreases_to!(v@ => v@[i as int]));
                assert(decreases_to!(v@[i as int] => v@[i as int].1));
                out.push((v[i].0.clone(), copy_json(&v[i].1)));
                i = i + 1;
            }
            let r = Json::Object(out);
            assert(r@ matches JsonView::Object(a) && j@ matches JsonView::Object(b) && a =~= b);
            r
        },
    }
}

/// An optional string field: absent or `null` is no value.
pub open spec fn opt_text_ok(v: Option<JsonView>) -> bool {
    match v {
        None => true,
        Some(JsonView::Null) => true,
        Some(JsonView::Str(_)) => true,
        _ => false,
    }
}

/// An optional `u32` field: absent or `null` is no value.
pub open spec fn opt_u32_ok(v: Option<JsonView>) -> bool {
    match v {
        None => true,
        Some(JsonView::Null) => true,
        Some(JsonView::Int(n)) => 0 <= n <= u32::MAX,
        _ => false,
    }
}

pub open spec fn opt_u32_value(v: Option<JsonView>) -> Option<u32> {
    match v {
        Some(JsonView::Int(n)) => if 0 <= n <= u32::MAX { Some(n as u32) } else { None },
        _ => None,
    }
}

/// Checks an optional string field.
pub fn opt_text_ok_exec(v: Option<&Json>) -> (b: bool)
    ensures
        b == opt_text_ok(match v {
            Some(j) => Some(j@),
            None => None,
        }),
{
    match v {
        None => true,
        Some(Json::Null) => true,
        Some(Json::Str(_)) => true,
        _ => false,
    }
}

/// Reads an optional `u32` field: whether it is well formed, and its value.
pub fn opt_u32_exec(v: Option<&Json>) -> (r: (bool, Option<u32>))
    ensures
        r.0 == opt_u32_ok(match v {
            Some(j) => Some(j@),
            None => None,
        }),
        r.1 == opt_u32_value(match v {
            Some(j) => Some(j@),
            None => None,
        }),
{
    match v {
        None => (true, None),
        Some(Json::Null) => (true, None),
        Some(Json::Int(n)) => if 0 <= *n && *n <= 0xffff_ffff {
            (true, Some(*n as u32))
        } else {
            (false, None)
        },
        _ => (false, None),
    }
}

} // verus!
