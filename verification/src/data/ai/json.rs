//! JSON values.
use vstd::prelude::*;

verus! {

/// A JSON number: a natural number, a negative integer, or any other number by
/// the bit pattern of its double-precision value.
#[derive(Clone, Copy, Debug, PartialEq, Eq, Structural)]
pub enum JsonNumber {
    Natural(u64),
    Negative(i64),
    Fractional(u64),
}

/// A JSON value. The members of an object are listed in the order in which they
/// are walked.
#[derive(Debug, PartialEq, Eq)]
pub enum Json {
    Null,
    Bool(bool),
    Number(JsonNumber),
    Text(String),
    Array(Vec<Json>),
    Object(Vec<(String, Json)>),
}

/// The index of the first member of this name, or the length.
pub open spec fn member_index(members: Seq<(String, Json)>, name: Seq<char>) -> int
    decreases members.len(),
{
    if members.len() == 0 {
        0
    } else if members[0].0@ == name {
        0
    } else {
        1 + member_index(members.drop_first(), name)
    }
}

pub proof fn member_index_bounds(members: Seq<(String, Json)>, name: Seq<char>)
    ensures
        0 <= member_index(members, name) <= members.len(),
        forall|j: int|
            0 <= j < member_index(members, name) ==> #[trigger] members[j].0@ != name,
        member_index(members, name) < members.len() ==> members[member_index(
            members,
            name,
        )].0@ == name,
    decreases members.len(),
{
    if members.len() > 0 && members[0].0@ != name {
        let rest = members.drop_first();
        member_index_bounds(rest, name);
        assert forall|j: int| 0 <= j < member_index(members, name) implies (
        #[trigger] members[j]).0@ != name by {
            if j > 0 {
                assert(rest[j - 1] == members[j]);
            }
        }
        if member_index(members, name) < members.len() {
            assert(rest[member_index(rest, name)] == members[member_index(members, name)]);
        }
    }
}

/// Whether there is a member of this name.
pub open spec fn has_member(members: Seq<(String, Json)>, name: Seq<char>) -> bool {
    member_index(members, name) < members.len()
}

/// Finds the first member of this name.
pub fn find_member(members: &Vec<(String, Json)>, name: &str) -> (r: Option<usize>)
    ensures
        match r {
            Some(i) => has_member(members@, name@) && i == member_index(members@, name@) && i
                < members@.len(),
            None => !has_member(members@, name@),
        },
{
    let mut i: usize = 0;
    while i < members.len()
        invariant
            i <= members@.len(),
            forall|j: int| 0 <= j < i ==> #[trigger] members@[j].0@ != name@,
        decreases members@.len() - i,
    {
        if crate::text::same_text(&members[i].0, name) {
            proof {
                member_index_bounds(members@, name@);
                let k = member_index(members@, name@);
                if k < i {
                    assert(members@[k].0@ != name@);
                }
            }
            return Some(i);
        }
        i = i + 1;
    }
    proof {
        member_index_bounds(members@, name@);
    }
    None
}

impl Json {
    /// The member of this name, where the value is an object that has it.
    pub open spec fn member(self, name: Seq<char>) -> Option<Json> {
        match self {
            Json::Object(members) => if has_member(members@, name) {
                Some(members@[member_index(members@, name)].1)
            } else {
                None
            },
            _ => None,
        }
    }

    /// The member of this name.
    pub fn get(&self, name: &str) -> (r: Option<&Json>)
        ensures
            match r {
                Some(value) => self.member(name@) == Some(*value),
                None => self.member(name@) is None,
            },
    {
        match self {
            Json::Object(members) => match find_member(members, name) {
                Some(i) => Some(&members[i].1),
                None => None,
            },
            _ => None,
        }
    }

    /// The text of a text value.
    pub fn as_str(&self) -> (r: Option<&String>)
        ensures
            match r {
                Some(text) => *self == Json::Text(*text),
                None => !(self is Text),
            },
    {
        match self {
            Json::Text(text) => Some(text),
            _ => None,
        }
    }

    /// The value of a natural number that fits in 64 bits.
    pub fn as_u64(&self) -> (r: Option<u64>)
        ensures
            match r {
                Some(n) => *self == Json::Number(JsonNumber::Natural(n)),
                None => !(self matches Json::Number(JsonNumber::Natural(_))),
            },
    {
        match self {
            Json::Number(JsonNumber::Natural(n)) => Some(*n),
            _ => None,
        }
    }

    /// A copy of the value: the same shape, with the same texts and numbers.
    pub open spec fn same(self, other: Json) -> bool
        decreases self,
    {
        match (self, other) {
            (Json::Null, Json::Null) => true,
            (Json::Bool(a), Json::Bool(b)) => a == b,
            (Json::Number(a), Json::Number(b)) => a == b,
            (Json::Text(a), Json::Text(b)) => a@ == b@,
            (Json::Array(a), Json::Array(b)) => a@.len() == b@.len() && forall|i: int|
                0 <= i < a@.len() ==> (#[trigger] a@[i]).same(b@[i]),
            (Json::Object(a), Json::Object(b)) => a@.len() == b@.len() && forall|i: int|
                0 <= i < a@.len() ==> (#[trigger] a@[i]).0@ == b@[i].0@ && a@[i].1.same(b@[i].1),
            _ => false,
        }
    }
}

impl Clone for Json {
    fn clone(&self) -> (r: Self)
        ensures
            self.same(r),
        decreases self,
    {
        match self {
            Json::Null => Json::Null,
            Json::Bool(b) => Json::Bool(*b),
            Json::Number(n) => Json::Number(*n),
            Json::Text(text) => Json::Text(text.clone()),
            Json::Array(items) => {
                let mut copy: Vec<Json> = Vec::new();
                let mut i: usize = 0;
                while i < items.len()
                    invariant
                        i <= items@.len(),
                        copy@.len() == i,
                        *self == Json::Array(*items),
                        forall|j: int| 0 <= j < i ==> (#[trigger] items@[j]).same(copy@[j]),
                    decreases items@.len() - i,
                {
                    let item = &items[i];
                    proof {
                        assert(decreases_to!(*self => self->Array_0));
                        assert(decreases_to!(self->Array_0 => self->Array_0@));
                        assert(decreases_to!(items@ => items@[i as int]));
                    }
                    copy.push(item.clone());
                    i = i + 1;
                }
                Json::Array(copy)
            },
            Json::Object(members) => {
                let mut copy: Vec<(String, Json)> = Vec::new();
                let mut i: usize = 0;
                while i < members.len()
                    invariant
                        i <= members@.len(),
                        copy@.len() == i,
                        *self == Json::Object(*members),
                        forall|j: int|
                            0 <= j < i ==> (#[trigger] members@[j]).0@ == copy@[j].0@
                                && members@[j].1.same(copy@[j].1),
                    decreases members@.len() - i,
                {
                    let item = &members[i].1;
                    proof {
                        assert(decreases_to!(*self => self->Object_0));
                        assert(decreases_to!(self->Object_0 => self->Object_0@));
                        assert(decreases_to!(members@ => members@[i as int]));
                        assert(decreases_to!(members@[i as int] => members@[i as int].1));
                    }
                    copy.push((members[i].0.clone(), item.clone()));
                    i = i + 1;
                }
                Json::Object(copy)
            },
        }
    }
}

/// A member of an object is the first one of its name. An object without one of that
/// name has no such member.
pub proof fn the_first_member_counts(members: Vec<(String, Json)>, name: Seq<char>, i: int)
    requires
        0 <= i <= members@.len(),
        forall|j: int| 0 <= j < i ==> (#[trigger] members@[j]).0@ != name,
        i < members@.len() ==> members@[i].0@ == name,
    ensures
        i < members@.len() ==> Json::Object(members).member(name) == Some(members@[i].1),
        i == members@.len() ==> Json::Object(members).member(name) is None,
{
    member_index_bounds(members@, name);
    let at = member_index(members@, name);
    if at < i {
        assert(members@[at].0@ != name);
    }
    if i < at {
        assert(members@[i].0@ != name);
    }
}

} // verus!
