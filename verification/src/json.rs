//! JSON documents as node configurations and packet payloads carry them.
use crate::ieee::{nearest64, Real64, SIGN64};
use crate::text::{parse_u64, parsed_u64, same_text};
use vstd::prelude::*;

verus! {

/// A JSON document. Numbers keep the form they were written in: a non-negative integer, a negative
/// integer, or a binary64 value.
#[derive(Debug)]
pub enum JsonValue {
    Null,
    Bool(bool),
    Uint(u64),
    Int(i64),
    Real(Real64),
    Text(String),
    Array(Vec<JsonValue>),
    Object(Vec<JsonMember>),
}

/// One member of a JSON object.
#[derive(Debug)]
pub struct JsonMember {
    pub name: String,
    pub value: JsonValue,
}

/// A JSON document as a mathematical tree.
pub enum JsonTree {
    Null,
    Bool(bool),
    Uint(u64),
    Int(i64),
    Real(Real64),
    Text(Seq<char>),
    Array(Seq<JsonTree>),
    Object(Seq<(Seq<char>, JsonTree)>),
}

impl JsonValue {
    /// The document as a mathematical tree.
    pub open spec fn tree(self) -> JsonTree
        decreases self,
    {
        match self {
            JsonValue::Null => JsonTree::Null,
            JsonValue::Bool(b) => JsonTree::Bool(b),
            JsonValue::Uint(n) => JsonTree::Uint(n),
            JsonValue::Int(n) => JsonTree::Int(n),
            JsonValue::Real(x) => JsonTree::Real(x),
            JsonValue::Text(s) => JsonTree::Text(s@),
            JsonValue::Array(items) => JsonTree::Array(
                Seq::new(
                    items@.len(),
                    |i: int|
                        if 0 <= i < items@.len() {
                            items@[i].tree()
                        } else {
                            JsonTree::Null
                        },
                ),
            ),
            JsonValue::Object(members) => JsonTree::Object(
                Seq::new(
                    members@.len(),
                    |i: int|
                        if 0 <= i < members@.len() {
                            (members@[i].name@, members@[i].value.tree())
                        } else {
                            (Seq::<char>::empty(), JsonTree::Null)
                        },
                ),
            ),
        }
    }
}

impl View for JsonValue {
    type V = JsonTree;

    open spec fn view(&self) -> JsonTree {
        self.tree()
    }
}

/// The value of the first member called `key`.
pub open spec fn find_member(members: Seq<(Seq<char>, JsonTree)>, key: Seq<char>) -> Option<JsonTree>
    decreases members.len(),
{
    if members.len() == 0 {
        None
    } else if members[0].0 == key {
        Some(members[0].1)
    } else {
        find_member(members.drop_first(), key)
    }
}

impl JsonTree {
    /// The member `key` of an object; nothing when the document is not an object or has none.
    pub open spec fn member(self, key: Seq<char>) -> Option<JsonTree> {
        match self {
            JsonTree::Object(members) => find_member(members, key),
            _ => None,
        }
    }

    /// The value of a non-negative integer.
    pub open spec fn uint(self) -> Option<u64> {
        match self {
            JsonTree::Uint(n) => Some(n),
            _ => None,
        }
    }

    /// The characters of a string.
    pub open spec fn text(self) -> Option<Seq<char>> {
        match self {
            JsonTree::Text(s) => Some(s),
            _ => None,
        }
    }

    /// The value of a boolean.
    pub open spec fn boolean(self) -> Option<bool> {
        match self {
            JsonTree::Bool(b) => Some(b),
            _ => None,
        }
    }

    /// The binary64 value of a number, an integer being rounded to the nearest.
    pub open spec fn number(self) -> Option<Real64> {
        match self {
            JsonTree::Real(x) => Some(x),
            JsonTree::Uint(n) => Some(nearest64(n as int)),
            JsonTree::Int(n) => Some(
                if n >= 0 {
                    nearest64(n as int)
                } else {
                    Real64 { bits: (nearest64(-(n as int)).bits + SIGN64) as u64 }
                },
            ),
            _ => None,
        }
    }

    /// The items of an array.
    pub open spec fn items(self) -> Option<Seq<JsonTree>> {
        match self {
            JsonTree::Array(items) => Some(items),
            _ => None,
        }
    }

    /// The member `key` as a non-negative integer.
    pub open spec fn member_uint(self, key: Seq<char>) -> Option<u64> {
        match self.member(key) {
            Some(value) => value.uint(),
            None => None,
        }
    }

    /// The member `key` as a string.
    pub open spec fn member_text(self, key: Seq<char>) -> Option<Seq<char>> {
        match self.member(key) {
            Some(value) => value.text(),
            None => None,
        }
    }

    /// The member `key` as a boolean.
    pub open spec fn member_boolean(self, key: Seq<char>) -> Option<bool> {
        match self.member(key) {
            Some(value) => value.boolean(),
            None => None,
        }
    }

    /// The member `key` as a binary64 value.
    pub open spec fn member_number(self, key: Seq<char>) -> Option<Real64> {
        match self.member(key) {
            Some(value) => value.number(),
            None => None,
        }
    }

    /// The member `key` as a non-negative integer, written as a number or as a numeral in a string.
    pub open spec fn member_uint_or_numeral(self, key: Seq<char>) -> Option<u64> {
        match self.member(key) {
            Some(value) => match value.uint() {
                Some(n) => Some(n),
                None => match value.text() {
                    Some(s) => parsed_u64(s),
                    None => None,
                },
            },
            None => None,
        }
    }
}

impl JsonMember {
    pub fn new(name: &str, value: JsonValue) -> (r: JsonMember)
        ensures
            r.name@ == name@,
            r.value == value,
    {
        JsonMember { name: name.to_owned(), value }
    }
}

impl JsonValue {
    /// A JSON string.
    pub fn string(s: &str) -> (r: JsonValue)
        ensures
            r@ == JsonTree::Text(s@),
    {
        JsonValue::Text(s.to_owned())
    }

    /// An unsigned integer, or null.
    pub fn optional_uint(n: Option<u64>) -> (r: JsonValue)
        ensures
            r@ == (match n {
                Some(n) => JsonTree::Uint(n),
                None => JsonTree::Null,
            }),
    {
        match n {
            Some(n) => JsonValue::Uint(n),
            None => JsonValue::Null,
        }
    }

    /// The member `key` of an object.
    pub fn get(&self, key: &str) -> (r: Option<&JsonValue>)
        ensures
            match r {
                Some(value) => self@.member(key@) == Some(value@),
                None => self@.member(key@) is None,
            },
    {
        match self {
            JsonValue::Object(members) => {
                let ghost all = member_trees(members@);
                let mut i: usize = 0;
                proof {
                    lemma_object_tree(*members);
                    assert(all.skip(0) =~= all);
                }
                while i < members.len()
                    invariant
                        i <= members@.len() == all.len(),
                        forall|j: int|
                            0 <= j < all.len() ==> all[j] == (
                                members@[j].name@,
                                (#[trigger] members@[j]).value@,
                            ),
                        self@.member(key@) == find_member(all, key@),
                        find_member(all, key@) == find_member(all.skip(i as int), key@),
                    decreases members@.len() - i,
                {
                    proof {
                        assert(all.skip(i as int)[0] == all[i as int]);
                        assert(all.skip(i as int).drop_first() =~= all.skip(i + 1));
                        assert(all[i as int] == (members@[i as int].name@, members@[i as int].value@));
                    }
                    if same_text(members[i].name.as_str(), key) {
                        return Some(&members[i].value);
                    }
                    i = i + 1;
                }
                None
            },
            _ => None,
        }
    }

    pub fn as_u64(&self) -> (r: Option<u64>)
        ensures
            r == self@.uint(),
    {
        match self {
            JsonValue::Uint(n) => Some(*n),
            _ => None,
        }
    }

    pub fn as_bool(&self) -> (r: Option<bool>)
        ensures
            r == self@.boolean(),
    {
        match self {
            JsonValue::Bool(b) => Some(*b),
            _ => None,
        }
    }

    pub fn as_str(&self) -> (r: Option<&str>)
        ensures
            match r {
                Some(s) => self@.text() == Some(s@),
                None => self@.text() is None,
            },
    {
        match self {
            JsonValue::Text(s) => Some(s.as_str()),
            _ => None,
        }
    }

    /// The binary64 value of a number.
    pub fn as_real(&self) -> (r: Option<Real64>)
        ensures
            r == self@.number(),
    {
        match self {
            JsonValue::Real(x) => Some(*x),
            JsonValue::Uint(n) => Some(Real64::from_u64(*n)),
            JsonValue::Int(n) => {
                if *n >= 0 {
                    Some(Real64::from_u64(*n as u64))
                } else {
                    let magnitude: u64 = (-(*n as i128)) as u64;
                    let positive: Real64 = Real64::from_u64(magnitude);
                    Some(Real64 { bits: positive.bits + SIGN64 })
                }
            },
            _ => None,
        }
    }

    pub fn as_array(&self) -> (r: Option<&Vec<JsonValue>>)
        ensures
            match r {
                Some(items) => self@.items() == Some(trees(items@)),
                None => self@.items() is None,
            },
    {
        match self {
            JsonValue::Array(items) => {
                proof {
                    lemma_array_tree(*items);
                }
                Some(items)
            },
            _ => None,
        }
    }

    pub fn is_object(&self) -> (r: bool)
        ensures
            r == (self@ is Object),
    {
        match self {
            JsonValue::Object(_) => true,
            _ => false,
        }
    }

    /// The member `key` as a non-negative integer.
    pub fn get_u64(&self, key: &str) -> (r: Option<u64>)
        ensures
            r == self@.member_uint(key@),
    {
        match self.get(key) {
            Some(value) => value.as_u64(),
            None => None,
        }
    }

    /// The member `key` as a string.
    pub fn get_str(&self, key: &str) -> (r: Option<&str>)
        ensures
            match r {
                Some(s) => self@.member_text(key@) == Some(s@),
                None => self@.member_text(key@) is None,
            },
    {
        match self.get(key) {
            Some(value) => value.as_str(),
            None => None,
        }
    }

    /// The member `key` as a boolean.
    pub fn get_bool(&self, key: &str) -> (r: Option<bool>)
        ensures
            r == self@.member_boolean(key@),
    {
        match self.get(key) {
            Some(value) => value.as_bool(),
            None => None,
        }
    }

    /// The member `key` as a binary64 value.
    pub fn get_real(&self, key: &str) -> (r: Option<Real64>)
        ensures
            r == self@.member_number(key@),
    {
        match self.get(key) {
            Some(value) => value.as_real(),
            None => None,
        }
    }

    /// The member `key` as a non-negative integer, written as a number or as a numeral in a string.
    pub fn get_u64_or_numeral(&self, key: &str) -> (r: Option<u64>)
        ensures
            r == self@.member_uint_or_numeral(key@),
    {
        match self.get(key) {
            Some(value) => match value.as_u64() {
                Some(n) => Some(n),
                None => match value.as_str() {
                    Some(s) => parse_u64(s),
                    None => None,
                },
            },
            None => None,
        }
    }
}

/// A copy of the document.
pub fn copy_json(value: &JsonValue) -> (r: JsonValue)
    ensures
        r@ == value@,
    decreases value,
{
    match value {
        JsonValue::Null => JsonValue::Null,
        JsonValue::Bool(b) => JsonValue::Bool(*b),
        JsonValue::Uint(n) => JsonValue::Uint(*n),
        JsonValue::Int(n) => JsonValue::Int(*n),
        JsonValue::Real(x) => JsonValue::Real(*x),
        JsonValue::Text(s) => JsonValue::Text(s.clone()),
        JsonValue::Array(items) => {
            let mut copies: Vec<JsonValue> = Vec::new();
            let mut i: usize = 0;
            while i < items.len()
                invariant
                    i <= items@.len(),
                    copies@.len() == i,
                    *value == JsonValue::Array(*items),
                    forall|j: int| 0 <= j < i ==> (#[trigger] copies@[j])@ == items@[j]@,
                decreases items@.len() - i,
            {
                proof {
                    assert(decreases_to!(*value => value->Array_0));
                    assert(decreases_to!(*items => items@));
                    assert(decreases_to!(items@ => items@[i as int]));
                }
                let copy: JsonValue = copy_json(&items[i]);
                copies.push(copy);
                i = i + 1;
            }
            proof {
                lemma_array_tree(*items);
                lemma_array_tree(copies);
                assert(trees(copies@) =~= trees(items@));
            }
            JsonValue::Array(copies)
        },
        JsonValue::Object(members) => {
            let mut copies: Vec<JsonMember> = Vec::new();
            let mut i: usize = 0;
            while i < members.len()
                invariant
                    i <= members@.len(),
                    copies@.len() == i,
                    *value == JsonValue::Object(*members),
                    forall|j: int|
                        0 <= j < i ==> (#[trigger] copies@[j]).name@ == members@[j].name@
                            && copies@[j].value@ == members@[j].value@,
                decreases members@.len() - i,
            {
                proof {
                    assert(decreases_to!(*value => value->Object_0));
                    assert(decreases_to!(*members => members@));
                    assert(decreases_to!(members@ => members@[i as int]));
                    assert(decreases_to!(members@[i as int] => members@[i as int].value));
                }
                let copy: JsonValue = copy_json(&members[i].value);
                copies.push(JsonMember { name: members[i].name.clone(), value: copy });
                i = i + 1;
            }
            proof {
                lemma_object_tree(*members);
                lemma_object_tree(copies);
                assert(member_trees(copies@) =~= member_trees(members@));
            }
            JsonValue::Object(copies)
        },
    }
}

/// The trees of a sequence of documents.
pub open spec fn trees(items: Seq<JsonValue>) -> Seq<JsonTree> {
    items.map_values(|item: JsonValue| item@)
}

/// The members of an object as names and trees.
pub open spec fn member_trees(members: Seq<JsonMember>) -> Seq<(Seq<char>, JsonTree)> {
    members.map_values(|member: JsonMember| (member.name@, member.value@))
}

/// An object's tree lists its members in order.
pub proof fn lemma_object_tree(members: Vec<JsonMember>)
    ensures
        JsonValue::Object(members)@ == JsonTree::Object(member_trees(members@)),
{
    let direct = JsonValue::Object(members).tree()->Object_0;
    assert forall|i: int| 0 <= i < members@.len() implies direct[i] == member_trees(members@)[i] by {
        reveal_with_fuel(JsonValue::tree, 2);
    }
    assert(direct =~= member_trees(members@));
}

/// An array's tree lists its items in order.
pub proof fn lemma_array_tree(items: Vec<JsonValue>)
    ensures
        JsonValue::Array(items)@ == JsonTree::Array(trees(items@)),
{
    let direct = JsonValue::Array(items).tree()->Array_0;
    assert forall|i: int| 0 <= i < items@.len() implies direct[i] == trees(items@)[i] by {
        reveal_with_fuel(JsonValue::tree, 2);
    }
    assert(direct =~= trees(items@));
}


} // verus!
