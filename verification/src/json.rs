//! JSON documents as trees, with the mathematical value each tree denotes.
use vstd::prelude::*;
use crate::text::{parse_u64, plain_decimal_value, str_eq};

verus! {

/// A JSON document held as a tree.
///
/// A number is held as its literal text (`"4096"`, `"-1"`, `"0.7"`). An object
/// is held as the list of its members; where a key occurs more than once, the
/// last member with that key is the one that counts.
#[derive(Debug)]
pub enum Json {
    Null,
    Bool(bool),
    Number(String),
    String(String),
    Array(Vec<Json>),
    Object(Vec<(String, Json)>),
}

/// The value that a [`Json`] tree denotes.
pub ghost enum JsonView {
    Null,
    Bool(bool),
    Number(Seq<char>),
    String(Seq<char>),
    Array(Seq<JsonView>),
    Object(Map<Seq<char>, JsonView>),
}

/// The mapping that a list of object members denotes: a later member replaces
/// an earlier one with the same key.
pub open spec fn members_view(members: Seq<(String, Json)>) -> Map<Seq<char>, JsonView>
    decreases members, 0nat,
{
    if members.len() == 0 {
        Map::empty()
    } else {
        members_view(members.drop_last()).insert(members.last().0@, members.last().1.view())
    }
}

/// The values that a list of trees denotes, one for one.
pub open spec fn items_view(items: Seq<Json>) -> Seq<JsonView>
    decreases items, 0nat,
{
    Seq::new(
        items.len(),
        |i: int|
            if 0 <= i < items.len() {
                items[i].view()
            } else {
                JsonView::Null
            },
    )
}

impl Json {
    pub open spec fn view(&self) -> JsonView
        decreases self, 1nat,
    {
        match self {
            Json::Null => JsonView::Null,
            Json::Bool(b) => JsonView::Bool(*b),
            Json::Number(t) => JsonView::Number(t@),
            Json::String(s) => JsonView::String(s@),
            Json::Array(items) => JsonView::Array(items_view(items@)),
            Json::Object(members) => JsonView::Object(members_view(members@)),
        }
    }
}

/// The position of the last member with the given key, or `-1` where no
/// member has it.
pub open spec fn last_index(members: Seq<(String, Json)>, key: Seq<char>) -> int
    decreases members.len(),
{
    if members.len() == 0 {
        -1
    } else if members.last().0@ == key {
        members.len() - 1
    } else {
        last_index(members.drop_last(), key)
    }
}

/// The tree of the last member with the given key.
pub open spec fn last_member(members: Seq<(String, Json)>, key: Seq<char>) -> Option<Json> {
    let i = last_index(members, key);
    if 0 <= i < members.len() {
        Some(members[i].1)
    } else {
        None
    }
}

/// `last_index` is a position of the list, or `-1`.
pub proof fn lemma_last_index_bounds(members: Seq<(String, Json)>, key: Seq<char>)
    ensures
        -1 <= last_index(members, key) < members.len(),
    decreases members.len(),
{
    if members.len() > 0 && members.last().0@ != key {
        lemma_last_index_bounds(members.drop_last(), key);
    }
}

/// A member that no later member overrides is the one its key maps to.
pub proof fn lemma_members_last_match(members: Seq<(String, Json)>, i: int)
    requires
        0 <= i < members.len(),
        forall|j: int| i < j < members.len() ==> members[j].0@ != members[i].0@,
    ensures
        members_view(members).contains_key(members[i].0@),
        members_view(members)[members[i].0@] == members[i].1.view(),
        last_index(members, members[i].0@) == i,
        last_member(members, members[i].0@) == Some(members[i].1),
    decreases members.len(),
{
    if i < members.len() - 1 {
        lemma_members_last_match(members.drop_last(), i);
    }
}

/// A key that no member has is not in the mapping.
pub proof fn lemma_members_no_match(members: Seq<(String, Json)>, key: Seq<char>)
    requires
        forall|j: int| 0 <= j < members.len() ==> members[j].0@ != key,
    ensures
        !members_view(members).contains_key(key),
        last_index(members, key) == -1,
        last_member(members, key) is None,
    decreases members.len(),
{
    if members.len() > 0 {
        lemma_members_no_match(members.drop_last(), key);
    }
}

/// What a member of an object turns out to be when a value of some kind is
/// looked for under its key.
pub enum Field<T> {
    /// The key is missing, or its value is `null`.
    Missing,
    /// The key has a value of the kind looked for.
    Present(T),
    /// The key has a value of another kind.
    Invalid,
}

impl<T> Field<T> {
    /// Whether the member is missing or of the kind looked for.
    pub open spec fn is_valid(self) -> bool {
        !(self is Invalid)
    }

    /// The value found, if one was.
    pub open spec fn value(self) -> Option<T> {
        match self {
            Field::Present(v) => Some(v),
            _ => None,
        }
    }
}

/// The views of the elements of a list, one for one.
pub open spec fn views<T: View>(s: Seq<T>) -> Seq<T::V> {
    Seq::new(s.len(), |i: int| s[i]@)
}

/// The value under `key`, where `j` is an object that has the key.
pub open spec fn member(j: JsonView, key: Seq<char>) -> Option<JsonView> {
    match j {
        JsonView::Object(m) => if m.contains_key(key) {
            Some(m[key])
        } else {
            None
        },
        _ => None,
    }
}

/// The text looked for under `key`.
pub open spec fn text_field(j: JsonView, key: Seq<char>) -> Field<Seq<char>> {
    match member(j, key) {
        None => Field::Missing,
        Some(JsonView::Null) => Field::Missing,
        Some(JsonView::String(s)) => Field::Present(s),
        Some(_) => Field::Invalid,
    }
}

/// The boolean looked for under `key`.
pub open spec fn bool_field(j: JsonView, key: Seq<char>) -> Field<bool> {
    match member(j, key) {
        None => Field::Missing,
        Some(JsonView::Null) => Field::Missing,
        Some(JsonView::Bool(b)) => Field::Present(b),
        Some(_) => Field::Invalid,
    }
}

/// The non-negative integer of at most 64 bits that a value is, if it is one.
pub open spec fn count_of(j: JsonView) -> Option<nat> {
    match j {
        JsonView::Number(t) => match plain_decimal_value(t) {
            Some(n) => if n <= u64::MAX {
                Some(n)
            } else {
                None
            },
            None => None,
        },
        _ => None,
    }
}

/// The non-negative integer looked for under `key`.
pub open spec fn count_field(j: JsonView, key: Seq<char>) -> Field<nat> {
    match member(j, key) {
        None => Field::Missing,
        Some(JsonView::Null) => Field::Missing,
        Some(v) => match count_of(v) {
            Some(n) => Field::Present(n),
            None => Field::Invalid,
        },
    }
}

/// The value of any kind looked for under `key`; only `null` counts as missing.
pub open spec fn value_field(j: JsonView, key: Seq<char>) -> Option<JsonView> {
    match member(j, key) {
        Some(JsonView::Null) => None,
        other => other,
    }
}

/// The array under `key`, where the key has one.
pub open spec fn array_member(j: JsonView, key: Seq<char>) -> Option<Seq<JsonView>> {
    match member(j, key) {
        Some(JsonView::Array(items)) => Some(items),
        _ => None,
    }
}

/// The position of the last member with the given key.
pub fn find_member(members: &Vec<(String, Json)>, key: &str) -> (r: Option<usize>)
    ensures
        r is Some <==> members_view(members@).contains_key(key@),
        r matches Some(i) ==> i < members.len() && members@[i as int].0@ == key@
            && members_view(members@)[key@] == members@[i as int].1.view() && last_member(
            members@,
            key@,
        ) == Some(members@[i as int].1) && last_index(members@, key@) == i,
        r is None ==> last_member(members@, key@) is None,
{
    let mut i: usize = members.len();
    while i > 0
        invariant
            i <= members.len(),
            forall|j: int| i <= j < members.len() ==> members@[j].0@ != key@,
        decreases i,
    {
        i = i - 1;
        if str_eq(members[i].0.as_str(), key) {
            proof {
                lemma_members_last_match(members@, i as int);
            }
            return Some(i);
        }
    }
    proof {
        lemma_members_no_match(members@, key@);
    }
    None
}

impl Json {
    /// The tree under `key`, where this is an object that has the key.
    pub open spec fn child(&self, key: Seq<char>) -> Option<Json> {
        match self {
            Json::Object(members) => last_member(members@, key),
            _ => None,
        }
    }

    /// The member of an object with the given key; `None` for a missing key
    /// and for anything that is not an object.
    pub fn get(&self, key: &str) -> (r: Option<&Json>)
        ensures
            r is Some <==> self@ is Object && self@->Object_0.contains_key(key@),
            r matches Some(j) ==> j@ == self@->Object_0[key@] && self.child(key@) == Some(*j),
            r is None ==> self.child(key@) is None,
    {
        match self {
            Json::Object(members) => {
                match find_member(members, key) {
                    Some(i) => Some(&members[i].1),
                    None => None,
                }
            },
            _ => None,
        }
    }

    /// The items of an array; `None` for anything else.
    pub fn as_array(&self) -> (r: Option<&Vec<Json>>)
        ensures
            r is Some <==> self@ is Array,
            r matches Some(items) ==> items_view(items@) == self@->Array_0,
    {
        match self {
            Json::Array(items) => Some(items),
            _ => None,
        }
    }

    /// The text of a string; `None` for anything else.
    pub fn as_str(&self) -> (r: Option<&str>)
        ensures
            r is Some <==> self@ is String,
            r matches Some(s) ==> s@ == self@->String_0,
    {
        match self {
            Json::String(s) => Some(s.as_str()),
            _ => None,
        }
    }

    /// The value of a boolean; `None` for anything else.
    pub fn as_bool(&self) -> (r: Option<bool>)
        ensures
            r is Some <==> self@ is Bool,
            r matches Some(b) ==> b == self@->Bool_0,
    {
        match self {
            Json::Bool(b) => Some(*b),
            _ => None,
        }
    }

    /// The members of an object; `None` for anything else.
    pub fn as_object(&self) -> (r: Option<&Vec<(String, Json)>>)
        ensures
            r is Some <==> self@ is Object,
            r matches Some(members) ==> members_view(members@) == self@->Object_0,
    {
        match self {
            Json::Object(members) => Some(members),
            _ => None,
        }
    }

    /// Whether this is `null`.
    pub fn is_null(&self) -> (r: bool)
        ensures
            r == (self@ is Null),
    {
        match self {
            Json::Null => true,
            _ => false,
        }
    }

    /// The non-negative integer of at most 64 bits that this value is.
    pub fn as_u64(&self) -> (r: Option<u64>)
        ensures
            r is Some <==> count_of(self@) is Some,
            r matches Some(n) ==> count_of(self@) == Some(n as nat),
    {
        match self {
            Json::Number(t) => parse_u64(t.as_str()),
            _ => None,
        }
    }

    /// The text looked for under `key`.
    pub fn text_field(&self, key: &str) -> (r: Field<String>)
        ensures
            match text_field(self@, key@) {
                Field::Missing => r is Missing,
                Field::Present(s) => r matches Field::Present(t) && t@ == s,
                Field::Invalid => r is Invalid,
            },
    {
        match self.get(key) {
            None => Field::Missing,
            Some(Json::Null) => Field::Missing,
            Some(Json::String(s)) => Field::Present(s.clone()),
            Some(_) => Field::Invalid,
        }
    }

    /// The boolean looked for under `key`.
    pub fn bool_field(&self, key: &str) -> (r: Field<bool>)
        ensures
            r == bool_field(self@, key@),
    {
        match self.get(key) {
            None => Field::Missing,
            Some(Json::Null) => Field::Missing,
            Some(Json::Bool(b)) => Field::Present(*b),
            Some(_) => Field::Invalid,
        }
    }

    /// The non-negative integer looked for under `key`.
    pub fn count_field(&self, key: &str) -> (r: Field<u64>)
        ensures
            match count_field(self@, key@) {
                Field::Missing => r is Missing,
                Field::Present(n) => r matches Field::Present(m) && m == n,
                Field::Invalid => r is Invalid,
            },
    {
        match self.get(key) {
            None => Field::Missing,
            Some(Json::Null) => Field::Missing,
            Some(v) => match v.as_u64() {
                Some(n) => Field::Present(n),
                None => Field::Invalid,
            },
        }
    }

    /// A copy of the value of any kind under `key`; only `null` counts as
    /// missing.
    pub fn value_field(&self, key: &str) -> (r: Option<Json>)
        ensures
            r is Some <==> value_field(self@, key@) is Some,
            r matches Some(j) ==> value_field(self@, key@) == Some(j@),
    {
        match self.get(key) {
            None => None,
            Some(Json::Null) => None,
            Some(v) => Some(v.clone()),
        }
    }

    /// The items of the array under `key`.
    pub fn array_member(&self, key: &str) -> (r: Option<&Vec<Json>>)
        ensures
            r is Some <==> array_member(self@, key@) is Some,
            r matches Some(items) ==> array_member(self@, key@) == Some(items_view(items@)),
    {
        match self.get(key) {
            Some(Json::Array(items)) => Some(items),
            _ => None,
        }
    }

    /// Whether this is an object.
    pub fn is_object(&self) -> (r: bool)
        ensures
            r == (self@ is Object),
    {
        match self {
            Json::Object(_) => true,
            _ => false,
        }
    }

    /// A string value holding the characters of `s`.
    pub fn string(s: &str) -> (j: Json)
        ensures
            j@ == JsonView::String(s@),
    {
        Json::String(s.to_owned())
    }

    /// A number value with the literal text `literal`.
    pub fn number(literal: &str) -> (j: Json)
        ensures
            j@ == JsonView::Number(literal@),
    {
        Json::Number(literal.to_owned())
    }

    /// An object without members.
    pub fn object() -> (j: Json)
        ensures
            j@ == JsonView::Object(Map::empty()),
    {
        Json::Object(Vec::new())
    }

    /// Sets the member `key` of an object to `value`, replacing what the key
    /// mapped to before. Anything that is not an object is left as it is.
    pub fn insert(&mut self, key: &str, value: Json)
        ensures
            old(self)@ is Object ==> final(self)@ == JsonView::Object(
                old(self)@->Object_0.insert(key@, value@),
            ),
            !(old(self)@ is Object) ==> final(self)@ == old(self)@,
    {
        match self {
            Json::Object(members) => {
                let ghost before = members@;
                members.push((key.to_owned(), value));
                assert(members@.drop_last() == before);
            },
            _ => {},
        }
    }

    /// A copy of this tree.
    #[verifier::loop_isolation(false)]
    pub fn clone(&self) -> (j: Json)
        ensures
            j@ == self@,
        decreases self,
    {
        match self {
            Json::Null => Json::Null,
            Json::Bool(b) => Json::Bool(*b),
            Json::Number(t) => Json::Number(t.clone()),
            Json::String(s) => Json::String(s.clone()),
            Json::Array(items) => {
                let mut copy: Vec<Json> = Vec::new();
                let mut i: usize = 0;
                while i < items.len()
                    invariant
                        i <= items.len(),
                        copy.len() == i,
                        forall|k: int| 0 <= k < i ==> copy@[k].view() == items@[k].view(),
                    decreases items.len() - i,
                {
                    copy.push(items[i].clone());
                    i = i + 1;
                }
                assert(items_view(copy@) =~= items_view(items@));
                Json::Array(copy)
            },
            Json::Object(members) => {
                let mut copy: Vec<(String, Json)> = Vec::new();
                let mut i: usize = 0;
                while i < members.len()
                    invariant
                        i <= members.len(),
                        copy.len() == i,
                        members_view(copy@) == members_view(members@.take(i as int)),
                    decreases members.len() - i,
                {
                    let ghost before = copy@;
                    copy.push((members[i].0.clone(), members[i].1.clone()));
                    proof {
                        assert(copy@.drop_last() == before);
                        assert(members@.take(i + 1).drop_last() == members@.take(i as int));
                    }
                    i = i + 1;
                }
                assert(members@.take(members.len() as int) == members@);
                Json::Object(copy)
            },
        }
    }
}

} // verus!
