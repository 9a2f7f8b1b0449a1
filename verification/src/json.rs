//! A JSON document as the catalog logic reads and writes it. Numbers keep
//! their text, so a document passes through unchanged.

use vstd::prelude::*;

use crate::text::{
    all_digits, assoc_first, chars_of, digits_value, lemma_assoc_first_hit, lemma_assoc_first_step,
    parse_unsigned, parse_unsigned_chars, str_eq, unsigned_digits,
};

verus! {

/// A JSON value.
pub enum Json {
    Null,
    Bool(bool),
    /// A number, as the text it is written with.
    Num(String),
    Str(String),
    Arr(Vec<Json>),
    /// An object's members in order; a key occurs once.
    Obj(Vec<(String, Json)>),
}

/// A JSON value as plain values.
pub enum JsonV {
    Null,
    Bool(bool),
    Num(Seq<char>),
    Str(Seq<char>),
    Arr(Seq<JsonV>),
    Obj(Seq<(Seq<char>, JsonV)>),
}

pub open spec fn json_view(j: Json) -> JsonV
    decreases j, 0nat,
{
    match j {
        Json::Null => JsonV::Null,
        Json::Bool(b) => JsonV::Bool(b),
        Json::Num(n) => JsonV::Num(n@),
        Json::Str(s) => JsonV::Str(s@),
        Json::Arr(v) => JsonV::Arr(items_view(v@)),
        Json::Obj(v) => JsonV::Obj(members_view(v@)),
    }
}

pub open spec fn items_view(s: Seq<Json>) -> Seq<JsonV>
    decreases s, 1nat,
{
    if s.len() == 0 {
        Seq::empty()
    } else {
        items_view(s.drop_last()).push(json_view(s.last()))
    }
}

pub open spec fn members_view(s: Seq<(String, Json)>) -> Seq<(Seq<char>, JsonV)>
    decreases s, 1nat,
{
    if s.len() == 0 {
        Seq::empty()
    } else {
        members_view(s.drop_last()).push((s.last().0@, json_view(s.last().1)))
    }
}

impl View for Json {
    type V = JsonV;

    open spec fn view(&self) -> JsonV {
        json_view(*self)
    }
}

pub proof fn lemma_items_view(s: Seq<Json>)
    ensures
        items_view(s).len() == s.len(),
        forall|i: int| 0 <= i < s.len() ==> #[trigger] items_view(s)[i] == json_view(s[i]),
    decreases s.len(),
{
    if s.len() > 0 {
        lemma_items_view(s.drop_last());
        assert forall|i: int| 0 <= i < s.len() implies #[trigger] items_view(s)[i] == json_view(
            s[i],
        ) by {
            if i < s.len() - 1 {
                assert(s.drop_last()[i] == s[i]);
            }
        }
    }
}

pub proof fn lemma_members_view(s: Seq<(String, Json)>)
    ensures
        members_view(s).len() == s.len(),
        forall|i: int|
            0 <= i < s.len() ==> #[trigger] members_view(s)[i] == (s[i].0@, json_view(s[i].1)),
    decreases s.len(),
{
    if s.len() > 0 {
        lemma_members_view(s.drop_last());
        assert forall|i: int| 0 <= i < s.len() implies #[trigger] members_view(s)[i] == (
            s[i].0@,
            json_view(s[i].1),
        ) by {
            if i < s.len() - 1 {
                assert(s.drop_last()[i] == s[i]);
            }
        }
    }
}

/// The member `k` of an object; `None` for a missing key or a non-object.
pub open spec fn field(j: JsonV, k: Seq<char>) -> Option<JsonV> {
    match j {
        JsonV::Obj(ms) => assoc_first(ms, k),
        _ => None,
    }
}

/// The text of a string value.
pub open spec fn str_of(j: JsonV) -> Option<Seq<char>> {
    match j {
        JsonV::Str(s) => Some(s),
        _ => None,
    }
}

/// The value of a number written as a non-negative integer that fits in a
/// `u64` (what `serde_json::Value::as_u64` accepts).
pub open spec fn u64_of(j: JsonV) -> Option<nat> {
    match j {
        JsonV::Num(t) => if t.len() > 0 && t[0] != '+' && all_digits(t) && digits_value(t)
            <= u64::MAX {
            Some(digits_value(t))
        } else {
            None
        },
        _ => None,
    }
}

pub open spec fn opt_json_view(o: Option<&Json>) -> Option<JsonV> {
    match o {
        Some(j) => Some(j@),
        None => None,
    }
}

impl Json {
    /// The member `key` of an object.
    pub fn get(&self, key: &str) -> (r: Option<&Json>)
        ensures
            opt_json_view(r) == field(self@, key@),
    {
        match self {
            Json::Obj(ms) => {
                proof {
                    lemma_members_view(ms@);
                }
                let ghost mv = members_view(ms@);
                assert(mv.subrange(0, mv.len() as int) =~= mv);
                let mut i: usize = 0;
                while i < ms.len()
                    invariant
                        self@ == JsonV::Obj(mv),
                        mv == members_view(ms@),
                        mv.len() == ms@.len(),
                        forall|j: int| 0 <= j < ms@.len() ==> #[trigger] mv[j] == (ms@[j].0@, json_view(ms@[j].1)),
                        i <= ms@.len(),
                        assoc_first(mv, key@) == assoc_first(mv.subrange(i as int, mv.len() as int), key@),
                    decreases ms.len() - i,
                {
                    if str_eq(ms[i].0.as_str(), key) {
                        proof {
                            lemma_assoc_first_hit(mv, i as int, key@);
                        }
                        return Some(&ms[i].1);
                    }
                    proof {
                        lemma_assoc_first_step(mv, i as int, key@);
                    }
                    i = i + 1;
                }
                None
            },
            _ => None,
        }
    }

    /// The text of a string value.
    pub fn as_str(&self) -> (r: Option<&String>)
        ensures
            match r {
                Some(s) => str_of(self@) == Some(s@),
                None => str_of(self@) is None,
            },
    {
        match self {
            Json::Str(s) => Some(s),
            _ => None,
        }
    }

    /// The items of an array.
    pub fn as_array(&self) -> (r: Option<&Vec<Json>>)
        ensures
            match r {
                Some(v) => self@ == JsonV::Arr(items_view(v@)),
                None => !(self@ is Arr),
            },
    {
        match self {
            Json::Arr(v) => Some(v),
            _ => None,
        }
    }

    /// The value is `null`.
    pub fn is_null(&self) -> (r: bool)
        ensures
            r == (self@ is Null),
    {
        match self {
            Json::Null => true,
            _ => false,
        }
    }

    /// The value of a number written as a non-negative integer that fits in
    /// a `u64`.
    pub fn as_u64(&self) -> (r: Option<u64>)
        ensures
            match r {
                Some(n) => u64_of(self@) == Some(n as nat),
                None => u64_of(self@) is None,
            },
    {
        match self {
            Json::Num(t) => {
                let cs = chars_of(t.as_str());
                if cs.len() == 0 || cs[0] == '+' {
                    return None;
                }
                assert(unsigned_digits(cs@) == cs@);
                let r = parse_unsigned_chars(cs.as_slice(), u64::MAX);
                r
            },
            _ => None,
        }
    }

    /// A copy of the value.
    #[verifier::loop_isolation(false)]
    pub fn duplicate(&self) -> (r: Json)
        ensures
            r@ == self@,
        decreases self,
    {
        match self {
            Json::Null => Json::Null,
            Json::Bool(b) => Json::Bool(*b),
            Json::Num(n) => Json::Num(n.clone()),
            Json::Str(s) => Json::Str(s.clone()),
            Json::Arr(v) => {
                let mut out: Vec<Json> = Vec::new();
                let mut i: usize = 0;
                while i < v.len()
                    invariant
                        i <= v@.len(),
                        items_view(out@) == items_view(v@.subrange(0, i as int)),
                    decreases v.len() - i,
                {
                    let c = v[i].duplicate();
                    let ghost before = out@;
                    out.push(c);
                    assert(out@.drop_last() == before);
                    assert(v@.subrange(0, i + 1).drop_last() =~= v@.subrange(0, i as int));
                    i = i + 1;
                }
                assert(v@.subrange(0, v@.len() as int) =~= v@);
                Json::Arr(out)
            },
            Json::Obj(v) => {
                let mut out: Vec<(String, Json)> = Vec::new();
                let mut i: usize = 0;
                while i < v.len()
                    invariant
                        i <= v@.len(),
                        members_view(out@) == members_view(v@.subrange(0, i as int)),
                    decreases v.len() - i,
                {
                    let c = v[i].1.duplicate();
                    let k = v[i].0.clone();
                    let ghost before = out@;
                    out.push((k, c));
                    assert(out@.drop_last() == before);
                    assert(v@.subrange(0, i + 1).drop_last() =~= v@.subrange(0, i as int));
                    i = i + 1;
                }
                assert(v@.subrange(0, v@.len() as int) =~= v@);
                Json::Obj(out)
            },
        }
    }
}

} // verus!
