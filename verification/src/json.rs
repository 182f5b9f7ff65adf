//! JSON documents as values of the library, and what they hold.
use vstd::prelude::*;

use crate::document::{clone_number, number_as_i64, number_from_i64};
use crate::text::{compare_texts, TextOrder};

verus! {

/// What a JSON document holds.
///
/// A number is kept as the text in which it is written, and the members of an object stand in
/// ascending order of their keys.
pub enum JsonTree {
    Null,
    Bool(bool),
    Number(Seq<char>),
    Text(Seq<char>),
    Array(Seq<JsonTree>),
    Object(Seq<(Seq<char>, JsonTree)>),
}

/// Every key comes before those that follow it; so no key occurs twice.
pub open spec fn keys_ascend(members: Seq<(Seq<char>, JsonTree)>) -> bool {
    forall|i: int, j: int|
        0 <= i < j < members.len() ==> crate::text::text_before(
            (#[trigger] members[i]).0,
            (#[trigger] members[j]).0,
        )
}

/// Some member has this key.
pub open spec fn has_key(members: Seq<(Seq<char>, JsonTree)>, key: Seq<char>) -> bool {
    exists|i: int| 0 <= i < members.len() && (#[trigger] members[i]).0 == key
}

/// What stands under a key.
pub open spec fn member_of(members: Seq<(Seq<char>, JsonTree)>, key: Seq<char>) -> Option<JsonTree> {
    if has_key(members, key) {
        let i = choose|i: int| 0 <= i < members.len() && (#[trigger] members[i]).0 == key;
        Some(members[i].1)
    } else {
        None
    }
}

/// The number of members at the front whose keys come before `key`.
pub open spec fn rank(members: Seq<(Seq<char>, JsonTree)>, key: Seq<char>) -> int
    decreases members.len(),
{
    if members.len() == 0 || !crate::text::text_before(members[0].0, key) {
        0
    } else {
        1 + rank(members.drop_first(), key)
    }
}

/// The members with `value` under `key`: in the place of the member that had the key, or else as
/// a new member at the place that the order of keys gives it.
pub open spec fn with_member(
    members: Seq<(Seq<char>, JsonTree)>,
    key: Seq<char>,
    value: JsonTree,
) -> Seq<(Seq<char>, JsonTree)> {
    let r = rank(members, key);
    if r < members.len() && members[r].0 == key {
        members.update(r, (key, value))
    } else {
        members.insert(r, (key, value))
    }
}

impl JsonTree {
    /// The value under a key of an object.
    pub open spec fn member(self, key: Seq<char>) -> Option<JsonTree> {
        match self {
            JsonTree::Object(members) => member_of(members, key),
            _ => None,
        }
    }

    /// The text of a string.
    pub open spec fn text(self) -> Option<Seq<char>> {
        match self {
            JsonTree::Text(text) => Some(text),
            _ => None,
        }
    }

    /// The number where it is an integer of 64 bits with a sign.
    pub open spec fn integer(self) -> Option<i64> {
        match self {
            JsonTree::Number(text) => if exists|n: i64| text == #[trigger] crate::text::decimal(n as int) {
                Some(choose|n: i64| text == #[trigger] crate::text::decimal(n as int))
            } else {
                None
            },
            _ => None,
        }
    }

    /// The string under a key of an object.
    pub open spec fn text_member(self, key: Seq<char>) -> Option<Seq<char>> {
        match self.member(key) {
            Some(value) => value.text(),
            None => None,
        }
    }

    /// The integer under a key of an object.
    pub open spec fn integer_member(self, key: Seq<char>) -> Option<i64> {
        match self.member(key) {
            Some(value) => value.integer(),
            None => None,
        }
    }

    /// The elements of the array under a key of an object.
    pub open spec fn array_member(self, key: Seq<char>) -> Option<Seq<JsonTree>> {
        match self.member(key) {
            Some(JsonTree::Array(items)) => Some(items),
            _ => None,
        }
    }

    /// The members of the object under a key of an object.
    pub open spec fn object_member(self, key: Seq<char>) -> Option<Seq<(Seq<char>, JsonTree)>> {
        match self.member(key) {
            Some(JsonTree::Object(members)) => Some(members),
            _ => None,
        }
    }
}

/// Members with ascending keys hold a key exactly at its rank, and are parted there: the keys
/// before come before it, the keys after come after it.
proof fn rank_parts_members(members: Seq<(Seq<char>, JsonTree)>, key: Seq<char>)
    requires
        keys_ascend(members),
    ensures
        0 <= rank(members, key) <= members.len(),
        forall|i: int|
            0 <= i < rank(members, key) ==> crate::text::text_before((#[trigger] members[i]).0, key),
        forall|i: int|
            rank(members, key) <= i < members.len() ==> !crate::text::text_before(
                (#[trigger] members[i]).0,
                key,
            ),
        forall|i: int|
            rank(members, key) < i < members.len() ==> crate::text::text_before(
                key,
                (#[trigger] members[i]).0,
            ),
        has_key(members, key) <==> rank(members, key) < members.len() && members[rank(
            members,
            key,
        )].0 == key,
        has_key(members, key) ==> member_of(members, key) == Some(members[rank(members, key)].1),
    decreases members.len(),
{
    if members.len() > 0 && crate::text::text_before(members[0].0, key) {
        let rest = members.drop_first();
        assert forall|i: int, j: int| 0 <= i < j < rest.len() implies crate::text::text_before(
            (#[trigger] rest[i]).0,
            (#[trigger] rest[j]).0,
        ) by {
            assert(rest[i] == members[i + 1] && rest[j] == members[j + 1]);
        }
        rank_parts_members(rest, key);
        assert forall|i: int|
            0 <= i < rank(members, key) implies crate::text::text_before((#[trigger] members[i]).0, key) by {
            if i > 0 {
                assert(members[i] == rest[i - 1]);
            }
        }
        assert forall|i: int|
            rank(members, key) <= i < members.len() implies !crate::text::text_before(
            (#[trigger] members[i]).0,
            key,
        ) by {
            assert(members[i] == rest[i - 1]);
        }
    } else if members.len() > 0 {
        assert forall|i: int|
            0 <= i < members.len() implies !crate::text::text_before((#[trigger] members[i]).0, key) by {
            if i > 0 && crate::text::text_before(members[i].0, key) {
                crate::text::text_before_transitive(members[0].0, members[i].0, key);
            }
        }
    }
    let r = rank(members, key);
    assert forall|i: int| r < i < members.len() implies crate::text::text_before(
        key,
        (#[trigger] members[i]).0,
    ) by {
        assert(crate::text::text_before(members[r].0, members[i].0));
        crate::text::text_before_total(key, members[r].0);
        if key != members[r].0 {
            crate::text::text_before_transitive(key, members[r].0, members[i].0);
        }
    }
    crate::text::text_before_irreflexive(key);
    if has_key(members, key) {
        let i = choose|i: int| 0 <= i < members.len() && (#[trigger] members[i]).0 == key;
        assert(i == r);
    }
}

/// Storing a value under a key keeps the keys in ascending order, makes that value the one under
/// the key, and leaves what stands under every other key.
pub proof fn stored_member_is_found(
    members: Seq<(Seq<char>, JsonTree)>,
    key: Seq<char>,
    value: JsonTree,
)
    requires
        keys_ascend(members),
    ensures
        keys_ascend(with_member(members, key, value)),
        member_of(with_member(members, key, value), key) == Some(value),
        forall|other: Seq<char>|
            other != key ==> #[trigger] member_of(with_member(members, key, value), other)
                == member_of(members, other),
{
    rank_parts_members(members, key);
    let r = rank(members, key);
    let stored = with_member(members, key, value);
    let replaced = r < members.len() && members[r].0 == key;
    if !replaced && r < members.len() {
        crate::text::text_before_total(key, members[r].0);
    }
    assert forall|i: int, j: int| 0 <= i < j < stored.len() implies crate::text::text_before(
        (#[trigger] stored[i]).0,
        (#[trigger] stored[j]).0,
    ) by {
        if replaced {
            assert(stored[i].0 == members[i].0 && stored[j].0 == members[j].0);
        } else {
            assert(j < r ==> stored[i] == members[i] && stored[j] == members[j]);
            assert(i < r < j ==> stored[i] == members[i] && stored[j] == members[j - 1]);
            assert(r < i ==> stored[i] == members[i - 1] && stored[j] == members[j - 1]);
            assert(i == r ==> stored[j] == members[j - 1]);
            assert(j == r ==> stored[i] == members[i]);
        }
    }
    rank_parts_members(stored, key);
    assert(stored[r].0 == key);
    assert(has_key(stored, key));
    assert forall|other: Seq<char>| other != key implies #[trigger] member_of(stored, other) == member_of(
        members,
        other,
    ) by {
        rank_parts_members(stored, other);
        rank_parts_members(members, other);
        if has_key(members, other) {
            let m = rank(members, other);
            let s = if replaced || m < r { m } else { m + 1 };
            assert(stored[s] == members[m]);
            assert(has_key(stored, other));
            keys_are_unique(stored, s, rank(stored, other));
        }
        if has_key(stored, other) {
            let s = rank(stored, other);
            let m = if replaced || s < r { s } else { s - 1 };
            assert(stored[s] == members[m]);
            assert(has_key(members, other));
        }
    }
    keys_are_unique(stored, r, rank(stored, key));
}

/// Storing under a key what stands there already changes nothing.
pub proof fn storing_again_changes_nothing(
    members: Seq<(Seq<char>, JsonTree)>,
    key: Seq<char>,
    value: JsonTree,
)
    requires
        keys_ascend(members),
        member_of(members, key) == Some(value),
    ensures
        with_member(members, key, value) == members,
{
    rank_parts_members(members, key);
    assert(with_member(members, key, value) =~= members);
}

proof fn keys_are_unique(members: Seq<(Seq<char>, JsonTree)>, i: int, j: int)
    requires
        keys_ascend(members),
        0 <= i < members.len(),
        0 <= j < members.len(),
        members[i].0 == members[j].0,
    ensures
        i == j,
{
    crate::text::text_before_irreflexive(members[i].0);
    if i < j {
        assert(crate::text::text_before(members[i].0, members[j].0));
    } else if j < i {
        assert(crate::text::text_before(members[j].0, members[i].0));
    }
}

/// A JSON document.
pub enum Json {
    Null,
    Bool(bool),
    Number(serde_json::Number),
    Text(String),
    Array(Vec<Json>),
    Object(JsonObject),
}

/// The members of a JSON object, by ascending key.
pub struct JsonObject {
    members: Vec<Member>,
}

struct Member {
    key: String,
    value: Json,
}

impl Json {
    pub open spec fn tree(self) -> JsonTree
        decreases self,
    {
        match self {
            Json::Null => JsonTree::Null,
            Json::Bool(b) => JsonTree::Bool(b),
            Json::Number(n) => JsonTree::Number(crate::document::number_text(n)),
            Json::Text(s) => JsonTree::Text(s@),
            Json::Array(items) => JsonTree::Array(
                Seq::new(items@.len(), |i: int| if 0 <= i < items@.len() { items@[i].tree() } else { JsonTree::Null }),
            ),
            Json::Object(object) => JsonTree::Object(object.entries()),
        }
    }
}

impl JsonObject {
    pub closed spec fn entries(self) -> Seq<(Seq<char>, JsonTree)>
        decreases self,
    {
        Seq::new(
            self.members@.len(),
            |i: int| if 0 <= i < self.members@.len() {
                (self.members@[i].key@, self.members@[i].value.tree())
            } else {
                (Seq::empty(), JsonTree::Null)
            },
        )
    }

    #[verifier::type_invariant]
    spec fn ascending(self) -> bool {
        forall|i: int, j: int|
            0 <= i < j < self.members@.len() ==> crate::text::text_before(
                (#[trigger] self.members@[i]).key@,
                (#[trigger] self.members@[j]).key@,
            )
    }
}

impl View for Json {
    type V = JsonTree;

    open spec fn view(&self) -> JsonTree {
        self.tree()
    }
}

impl View for JsonObject {
    type V = Seq<(Seq<char>, JsonTree)>;

    open spec fn view(&self) -> Seq<(Seq<char>, JsonTree)> {
        self.entries()
    }
}

impl JsonObject {
    /// An object without members.
    pub fn new() -> (object: JsonObject)
        ensures
            object@ == Seq::<(Seq<char>, JsonTree)>::empty(),
    {
        let object = JsonObject { members: Vec::new() };
        assert(object@ =~= Seq::<(Seq<char>, JsonTree)>::empty());
        object
    }

    /// What the members hold is in order where the members are.
    proof fn members_ascend(self)
        requires
            self.ascending(),
        ensures
            keys_ascend(self@),
    {
        assert forall|i: int, j: int| 0 <= i < j < self@.len() implies crate::text::text_before(
            (#[trigger] self@[i]).0,
            (#[trigger] self@[j]).0,
        ) by {
            assert(crate::text::text_before(self.members@[i].key@, self.members@[j].key@));
        }
    }

    /// The number of members, whose keys ascend.
    pub fn len(&self) -> (len: usize)
        ensures
            len == self@.len(),
            keys_ascend(self@),
    {
        proof {
            use_type_invariant(self);
            self.members_ascend();
        }
        self.members.len()
    }

    /// The key of a member.
    pub fn key(&self, i: usize) -> (key: &str)
        requires
            i < self@.len(),
        ensures
            key@ == self@[i as int].0,
    {
        self.members[i].key.as_str()
    }

    /// The value of a member.
    pub fn value(&self, i: usize) -> (value: &Json)
        requires
            i < self@.len(),
        ensures
            value@ == self@[i as int].1,
            decreases_to!(self => value),
    {
        &self.members[i].value
    }

    /// The number of members at the front whose keys come before `key`.
    fn find(&self, key: &str) -> (place: usize)
        ensures
            keys_ascend(self@),
            place == rank(self@, key@),
            place <= self@.len(),
    {
        let len = self.len();
        proof {
            rank_parts_members(self@, key@);
        }
        let mut place: usize = 0;
        while place < len
            invariant
                place <= self@.len(),
                len == self@.len(),
                len == self.members@.len(),
                0 <= rank(self@, key@) <= self@.len(),
                forall|i: int|
                    0 <= i < rank(self@, key@) ==> crate::text::text_before((#[trigger] self@[i]).0, key@),
                forall|i: int|
                    rank(self@, key@) <= i < self@.len() ==> !crate::text::text_before(
                        (#[trigger] self@[i]).0,
                        key@,
                    ),
                place <= rank(self@, key@),
            ensures
                place == rank(self@, key@),
            decreases len - place,
        {
            assert(self@[place as int].0 == self.members@[place as int].key@);
            match compare_texts(self.members[place].key.as_str(), key) {
                TextOrder::Before => {
                    place = place + 1;
                },
                _ => {
                    break ;
                },
            }
        }
        place
    }

    /// The value under a key.
    pub fn get(&self, key: &str) -> (result: Option<&Json>)
        ensures
            match result {
                Some(value) => member_of(self@, key@) == Some(value@),
                None => member_of(self@, key@) is None,
            },
    {
        let place = self.find(key);
        proof {
            rank_parts_members(self@, key@);
        }
        if place < self.members.len() {
            assert(self@[place as int].0 == self.members@[place as int].key@);
            if crate::text::same_text(self.members[place].key.as_str(), key) {
                return Some(&self.members[place].value);
            }
        }
        None
    }

    /// Adds a member whose key comes after all others.
    pub(crate) fn push(&mut self, key: String, value: Json)
        requires
            forall|i: int|
                0 <= i < old(self)@.len() ==> crate::text::text_before((#[trigger] old(self)@[i]).0, key@),
        ensures
            final(self)@ == old(self)@.push((key@, value@)),
    {
        let ghost before = self@;
        proof {
            use_type_invariant(&*self);
            assert forall|i: int| 0 <= i < self.members@.len() implies crate::text::text_before(
                (#[trigger] self.members@[i]).key@,
                key@,
            ) by {
                assert(crate::text::text_before(self@[i].0, key@));
            }
        }
        let ghost added = (key@, value@);
        let mut members: Vec<Member> = Vec::new();
        std::mem::swap(&mut members, &mut self.members);
        members.push(Member { key, value });
        self.members = members;
        assert(self@ =~= before.push(added));
    }

    /// Stores a value under a key, in place of the one that was there.
    pub fn insert(&mut self, key: String, value: Json)
        ensures
            final(self)@ == with_member(old(self)@, key@, value@),
    {
        let place = self.find(key.as_str());
        let ghost before = self@;
        proof {
            use_type_invariant(&*self);
            rank_parts_members(before, key@);
            stored_member_is_found(before, key@, value@);
        }
        let mut members: Vec<Member> = Vec::new();
        std::mem::swap(&mut members, &mut self.members);
        let ghost old_members = members@;
        assert(forall|i: int| 0 <= i < before.len() ==> before[i] == ((#[trigger] old_members[i]).key@, old_members[i].value@));
        let ghost shown = (key@, value@);
        let present = place < members.len() && crate::text::same_text(members[place].key.as_str(), key.as_str());
        if present {
            members.set(place, Member { key, value });
        } else {
            members.insert(place, Member { key, value });
        }
        let ghost after = with_member(before, shown.0, shown.1);
        assert(after.len() == members@.len());
        assert forall|i: int| 0 <= i < after.len() implies after[i] == ((#[trigger] members@[i]).key@, members@[i].value@) by {}
        assert forall|i: int, j: int| 0 <= i < j < members@.len() implies crate::text::text_before(
            (#[trigger] members@[i]).key@,
            (#[trigger] members@[j]).key@,
        ) by {
            assert(crate::text::text_before(after[i].0, after[j].0));
        }
        self.members = members;
        assert(self@ =~= after);
    }
}

impl Json {
    /// A document that is an integer.
    pub fn from_i64(n: i64) -> (json: Json)
        ensures
            json@ == JsonTree::Number(crate::text::decimal(n as int)),
    {
        Json::Number(number_from_i64(n))
    }

    /// A document that is an array.
    pub fn from_items(items: Vec<Json>) -> (json: Json)
        ensures
            json@ == JsonTree::Array(items@.map_values(|item: Json| item@)),
    {
        let json = Json::Array(items);
        assert(json@->Array_0 =~= items@.map_values(|item: Json| item@));
        json
    }

    /// Whether the document is `null`.
    pub fn is_null(&self) -> (null: bool)
        ensures
            null == (self@ is Null),
    {
        matches!(self, Json::Null)
    }

    /// The text of a string.
    pub fn as_str(&self) -> (result: Option<&str>)
        ensures
            match result {
                Some(text) => self@.text() == Some(text@),
                None => self@.text() is None,
            },
    {
        match self {
            Json::Text(text) => Some(text.as_str()),
            _ => None,
        }
    }

    /// The number where it is an integer of 64 bits with a sign.
    pub fn as_i64(&self) -> (result: Option<i64>)
        ensures
            result == self@.integer(),
    {
        match self {
            Json::Number(number) => {
                let result = number_as_i64(number);
                proof {
                    let text = crate::document::number_text(*number);
                    if let Some(n) = result {
                        let m = choose|m: i64| text == #[trigger] crate::text::decimal(m as int);
                        assert(text == crate::text::decimal(n as int));
                        crate::text::decimal_is_injective(m as int, n as int);
                    }
                }
                result
            },
            _ => None,
        }
    }

    /// The members of an object, whose keys ascend.
    pub fn as_object(&self) -> (result: Option<&JsonObject>)
        ensures
            match result {
                Some(object) => self@ == JsonTree::Object(object@) && keys_ascend(object@),
                None => !(self@ is Object),
            },
    {
        match self {
            Json::Object(object) => {
                proof {
                    use_type_invariant(object);
                    object.members_ascend();
                }
                Some(object)
            },
            _ => None,
        }
    }

    /// The elements of an array.
    pub fn as_array(&self) -> (result: Option<&Vec<Json>>)
        ensures
            match result {
                Some(items) => self@ == JsonTree::Array(items@.map_values(|item: Json| item@)),
                None => !(self@ is Array),
            },
    {
        match self {
            Json::Array(items) => {
                assert(self@->Array_0 =~= items@.map_values(|item: Json| item@));
                Some(items)
            },
            _ => None,
        }
    }

    /// The value under a key of an object.
    pub fn get(&self, key: &str) -> (result: Option<&Json>)
        ensures
            match result {
                Some(value) => self@.member(key@) == Some(value@),
                None => self@.member(key@) is None,
            },
    {
        match self {
            Json::Object(object) => object.get(key),
            _ => None,
        }
    }

    /// The string under a key of an object.
    pub fn get_str(&self, key: &str) -> (result: Option<&str>)
        ensures
            match result {
                Some(text) => self@.text_member(key@) == Some(text@),
                None => self@.text_member(key@) is None,
            },
    {
        match self.get(key) {
            Some(value) => value.as_str(),
            None => None,
        }
    }

    /// The integer under a key of an object.
    pub fn get_i64(&self, key: &str) -> (result: Option<i64>)
        ensures
            result == self@.integer_member(key@),
    {
        match self.get(key) {
            Some(value) => value.as_i64(),
            None => None,
        }
    }

    /// The elements of the array under a key of an object.
    pub fn get_array(&self, key: &str) -> (result: Option<&Vec<Json>>)
        ensures
            match result {
                Some(items) => self@.array_member(key@) == Some(items@.map_values(|item: Json| item@)),
                None => self@.array_member(key@) is None,
            },
    {
        match self.get(key) {
            Some(value) => value.as_array(),
            None => None,
        }
    }

    /// The members of the object under a key of an object, whose keys ascend.
    pub fn get_object(&self, key: &str) -> (result: Option<&JsonObject>)
        ensures
            match result {
                Some(object) => self@.object_member(key@) == Some(object@) && keys_ascend(object@),
                None => self@.object_member(key@) is None,
            },
    {
        match self.get(key) {
            Some(value) => value.as_object(),
            None => None,
        }
    }
}

impl Clone for Json {
    fn clone(&self) -> (copy: Json)
        ensures
            copy@ == self@,
        decreases self,
    {
        match self {
            Json::Null => Json::Null,
            Json::Bool(b) => Json::Bool(*b),
            Json::Number(number) => Json::Number(clone_number(number)),
            Json::Text(text) => Json::Text(text.clone()),
            Json::Array(items) => {
                let mut copies: Vec<Json> = Vec::new();
                for i in 0..items.len()
                    invariant
                        *self == Json::Array(*items),
                        copies@.len() == i,
                        forall|j: int| 0 <= j < i ==> (#[trigger] copies@[j])@ == items@[j]@,
                {
                    assert(decreases_to!(self => (*self)->Array_0));
                    assert(decreases_to!(self => items@[i as int]));
                    copies.push(items[i].clone());
                }
                let copy = Json::Array(copies);
                assert(copy@->Array_0 =~= self@->Array_0);
                copy
            },
            Json::Object(object) => Json::Object(object.clone()),
        }
    }
}

impl Clone for JsonObject {
    fn clone(&self) -> (copy: JsonObject)
        ensures
            copy@ == self@,
        decreases self,
    {
        proof {
            use_type_invariant(self);
        }
        let mut copies: Vec<Member> = Vec::new();
        for i in 0..self.members.len()
            invariant
                copies@.len() == i,
                forall|j: int|
                    0 <= j < i ==> (#[trigger] copies@[j]).key@ == self.members@[j].key@ && copies@[j].value@
                        == self.members@[j].value@,
        {
            copies.push(Member { key: self.members[i].key.clone(), value: self.members[i].value.clone() });
        }
        assert forall|i: int, j: int| 0 <= i < j < copies@.len() implies crate::text::text_before(
            (#[trigger] copies@[i]).key@,
            (#[trigger] copies@[j]).key@,
        ) by {
            assert(crate::text::text_before(self.members@[i].key@, self.members@[j].key@));
        }
        let copy = JsonObject { members: copies };
        assert(copy@ =~= self@);
        copy
    }
}

/// A member is found by its key: what stands under a key is what a member with that key holds,
/// wherever among the members it stands, and nothing where there is none.
pub proof fn member_is_found_by_key(
    members: Seq<(Seq<char>, JsonTree)>,
    key: Seq<char>,
    value: JsonTree,
)
    requires
        keys_ascend(members),
    ensures
        member_of(members, key) == Some(value) <==> members.contains((key, value)),
        JsonTree::Object(members).member(key) == Some(value) <==> members.contains((key, value)),
        has_key(members, key) <==> exists|i: int|
            0 <= i < members.len() && (#[trigger] members[i]).0 == key,
        member_of(members, key) is None <==> forall|i: int|
            0 <= i < members.len() ==> (#[trigger] members[i]).0 != key,
{
    rank_parts_members(members, key);
    if members.contains((key, value)) {
        let i = choose|i: int| 0 <= i < members.len() && members[i] == (key, value);
        assert(members[i].0 == key);
        keys_are_unique(members, i, rank(members, key));
    }
    if member_of(members, key) == Some(value) {
        assert(members[rank(members, key)] == (key, value));
    }
}

/// What is found under a key as a string, an integer, an array or an object is a member of that
/// kind, and every such member is found so.
pub proof fn typed_member_is_found_by_key(members: Seq<(Seq<char>, JsonTree)>, key: Seq<char>)
    requires
        keys_ascend(members),
    ensures
        forall|text: Seq<char>|
            JsonTree::Object(members).text_member(key) == Some(text) <==> #[trigger] members.contains(
                (key, JsonTree::Text(text)),
            ),
        forall|n: i64|
            JsonTree::Object(members).integer_member(key) == Some(n) <==> #[trigger] members.contains(
                (key, JsonTree::Number(crate::text::decimal(n as int))),
            ),
        forall|items: Seq<JsonTree>|
            JsonTree::Object(members).array_member(key) == Some(items) <==> #[trigger] members.contains(
                (key, JsonTree::Array(items)),
            ),
        forall|inner: Seq<(Seq<char>, JsonTree)>|
            JsonTree::Object(members).object_member(key) == Some(inner) <==> #[trigger] members.contains(
                (key, JsonTree::Object(inner)),
            ),
{
    assert forall|text: Seq<char>|
        JsonTree::Object(members).text_member(key) == Some(text) <==> #[trigger] members.contains(
            (key, JsonTree::Text(text)),
        ) by {
        member_is_found_by_key(members, key, JsonTree::Text(text));
    }
    assert forall|n: i64|
        JsonTree::Object(members).integer_member(key) == Some(n) <==> #[trigger] members.contains(
            (key, JsonTree::Number(crate::text::decimal(n as int))),
        ) by {
        member_is_found_by_key(members, key, JsonTree::Number(crate::text::decimal(n as int)));
        integer_is_number_in_decimal(JsonTree::Number(crate::text::decimal(n as int)), n);
        if let Some(value) = member_of(members, key) {
            integer_is_number_in_decimal(value, n);
        }
    }
    assert forall|items: Seq<JsonTree>|
        JsonTree::Object(members).array_member(key) == Some(items) <==> #[trigger] members.contains(
            (key, JsonTree::Array(items)),
        ) by {
        member_is_found_by_key(members, key, JsonTree::Array(items));
    }
    assert forall|inner: Seq<(Seq<char>, JsonTree)>|
        JsonTree::Object(members).object_member(key) == Some(inner) <==> #[trigger] members.contains(
            (key, JsonTree::Object(inner)),
        ) by {
        member_is_found_by_key(members, key, JsonTree::Object(inner));
    }
}

/// What is no object has no members.
pub proof fn only_objects_have_members(tree: JsonTree, key: Seq<char>)
    requires
        !(tree is Object),
    ensures
        tree.member(key) is None,
        tree.text_member(key) is None,
        tree.integer_member(key) is None,
        tree.array_member(key) is None,
        tree.object_member(key) is None,
{
}

/// A document is an integer where it is the number written as that integer is in decimal.
pub proof fn integer_is_number_in_decimal(tree: JsonTree, n: i64)
    ensures
        tree.integer() == Some(n) <==> tree == JsonTree::Number(crate::text::decimal(n as int)),
{
    if let JsonTree::Number(text) = tree {
        if text == crate::text::decimal(n as int) {
            let found = choose|m: i64| text == #[trigger] crate::text::decimal(m as int);
            crate::text::decimal_is_injective(found as int, n as int);
        }
    }
}

/// A document is a text where it is the string with that text.
pub proof fn text_is_string(tree: JsonTree, text: Seq<char>)
    ensures
        tree.text() == Some(text) <==> tree == JsonTree::Text(text),
{
}

/// Storing a value under a key leaves exactly the members with other keys, and adds that one.
pub proof fn stored_members_are_the_others_and_it(
    members: Seq<(Seq<char>, JsonTree)>,
    key: Seq<char>,
    value: JsonTree,
    other: (Seq<char>, JsonTree),
)
    requires
        keys_ascend(members),
    ensures
        with_member(members, key, value).contains(other) <==> if other.0 == key {
            other.1 == value
        } else {
            members.contains(other)
        },
{
    stored_member_is_found(members, key, value);
    let stored = with_member(members, key, value);
    member_is_found_by_key(stored, other.0, other.1);
    member_is_found_by_key(members, other.0, other.1);
    assert((other.0, other.1) == other);
    if other.0 != key {
        assert(member_of(stored, other.0) == member_of(members, other.0));
    }
}

/// What a document holds is all of it: the text, the number, every element and every member.
pub proof fn documents_are_seen_whole(json: Json)
    ensures
        match json {
            Json::Null => json@ == JsonTree::Null,
            Json::Bool(b) => json@ == JsonTree::Bool(b),
            Json::Number(number) => json@ == JsonTree::Number(crate::document::number_text(number)),
            Json::Text(text) => json@ == JsonTree::Text(text@),
            Json::Array(items) => json@ matches JsonTree::Array(trees) && trees.len() == items@.len()
                && forall|i: int| 0 <= i < trees.len() ==> #[trigger] trees[i] == items@[i]@,
            Json::Object(object) => json@ == JsonTree::Object(object@),
        },
{
}

} // verus!
