//! JSON values.

use vstd::prelude::*;
use vstd::string::*;

verus! {

/// A JSON value.
#[derive(Debug, PartialEq)]
pub enum Json {
    Null,
    Bool(bool),
    /// A number that is an integer from zero up.
    Unsigned(u64),
    /// A number that is an integer below zero.
    Negative(i64),
    /// Any other number, as it is written.
    Fraction(String),
    Str(String),
    Array(Vec<Json>),
    /// Members, each under a name.
    Object(Vec<(String, Json)>),
}

/// Where the first member of a name stands, or the length where there is none.
pub open spec fn member_place(members: Seq<(String, Json)>, name: Seq<char>) -> int
    decreases members.len(),
{
    if members.len() == 0 || members[0].0@ == name {
        0
    } else {
        1 + member_place(members.skip(1), name)
    }
}

/// The member of a name, of an object that has one.
pub open spec fn member(j: Json, name: Seq<char>) -> Option<Json> {
    match j {
        Json::Object(ms) => if member_place(ms@, name) < ms@.len() {
            Some(ms@[member_place(ms@, name)].1)
        } else {
            None
        },
        _ => None,
    }
}

/// The text of a member that is a text.
pub open spec fn text_member(j: Json, name: Seq<char>) -> Option<Seq<char>> {
    match member(j, name) {
        Some(Json::Str(s)) => Some(s@),
        _ => None,
    }
}

/// The number of a member that is an integer from zero up.
pub open spec fn unsigned_member(j: Json, name: Seq<char>) -> Option<u64> {
    match member(j, name) {
        Some(Json::Unsigned(n)) => Some(n),
        _ => None,
    }
}

/// A value is a text with these characters.
pub open spec fn is_text(j: Json, s: Seq<char>) -> bool {
    j matches Json::Str(t) && t@ == s
}

/// What the texts of a list hold.
pub open spec fn texts(v: Seq<String>) -> Seq<Seq<char>> {
    Seq::new(v.len(), |i: int| v[i]@)
}

/// A value is a list of exactly these texts.
pub open spec fn is_text_list(j: Json, v: Seq<Seq<char>>) -> bool {
    j matches Json::Array(a) && a@.len() == v.len() && forall|i: int|
        0 <= i < v.len() ==> is_text(#[trigger] a@[i], v[i])
}

/// The texts of a member that is a list of texts.
pub open spec fn text_list_member(j: Json, name: Seq<char>) -> Option<Seq<Seq<char>>> {
    match member(j, name) {
        Some(Json::Array(a)) => if forall|i: int| 0 <= i < a@.len() ==> #[trigger] a@[i] is Str {
            Some(Seq::new(a@.len(), |i: int| a@[i]->Str_0@))
        } else {
            None
        },
        _ => None,
    }
}

impl Json {
    /// The member of a name, of an object that has one.
    pub fn get(&self, name: &str) -> (r: Option<&Json>)
        ensures
            match r {
                Some(j) => member(*self, name@) == Some(*j),
                None => member(*self, name@) is None,
            },
    {
        match self {
            Json::Object(ms) => {
                let key = name.to_owned();
                let mut i: usize = 0;
                assert(ms@.skip(0) =~= ms@);
                while i < ms.len()
                    invariant
                        i <= ms@.len(),
                        key@ == name@,
                        *self == Json::Object(*ms),
                        member_place(ms@, name@) == i + member_place(ms@.skip(i as int), name@),
                    decreases ms.len() - i,
                {
                    if ms[i].0 == key {
                        return Some(&ms[i].1);
                    }
                    assert(ms@.skip(i as int).skip(1) =~= ms@.skip(i + 1));
                    i = i + 1;
                }
                None
            },
            _ => None,
        }
    }

    /// The text of a member that is a text.
    pub fn get_text(&self, name: &str) -> (r: Option<&String>)
        ensures
            match r {
                Some(s) => text_member(*self, name@) == Some(s@),
                None => text_member(*self, name@) is None,
            },
    {
        match self.get(name) {
            Some(Json::Str(s)) => Some(s),
            _ => None,
        }
    }

    /// The number of a member that is an integer from zero up.
    pub fn get_unsigned(&self, name: &str) -> (r: Option<u64>)
        ensures
            r == unsigned_member(*self, name@),
    {
        match self.get(name) {
            Some(Json::Unsigned(n)) => Some(*n),
            _ => None,
        }
    }

    /// The texts of a member that is a list of texts.
    pub fn get_text_list(&self, name: &str) -> (r: Option<Vec<String>>)
        ensures
            match r {
                Some(v) => text_list_member(*self, name@) == Some(texts(v@)),
                None => text_list_member(*self, name@) is None,
            },
    {
        match self.get(name) {
            Some(Json::Array(a)) => {
                let mut out: Vec<String> = Vec::new();
                let mut i: usize = 0;
                while i < a.len()
                    invariant
                        i <= a@.len(),
                        member(*self, name@) == Some(Json::Array(*a)),
                        forall|j: int| 0 <= j < i ==> #[trigger] a@[j] is Str,
                        texts(out@) =~= Seq::new(i as nat, |j: int| a@[j]->Str_0@),
                    decreases a.len() - i,
                {
                    match &a[i] {
                        Json::Str(s) => {
                            let ghost before = texts(out@);
                            out.push(s.clone());
                            assert(texts(out@) =~= before.push(s@));
                        },
                        _ => {
                            assert(!(a@[i as int] is Str));
                            return None;
                        },
                    }
                    i = i + 1;
                }
                Some(out)
            },
            _ => None,
        }
    }
}

} // verus!
