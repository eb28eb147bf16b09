//! JSON values: the type that the library computes on, and its mathematical
//! model.

use vstd::prelude::*;

verus! {

/// A JSON number.
#[derive(Debug, Clone, Copy, PartialEq, Eq, Structural)]
pub enum JsonNumber {
    /// A non-negative integer.
    PosInt(u64),
    /// A negative integer.
    NegInt(i64),
    /// A number with a fraction or an exponent, by the bits of its IEEE 754
    /// double.
    Float(u64),
}

/// A JSON value.
#[derive(Debug)]
pub enum JsonValue {
    Null,
    Bool(bool),
    Number(JsonNumber),
    String(String),
    Array(Vec<JsonValue>),
    Object(JsonMap),
}

/// The members of a JSON object: each name occurs once.
#[derive(Debug)]
pub struct JsonMap {
    entries: Vec<(String, JsonValue)>,
}

/// What a JSON value is, whatever holds it: an object is a map from names to
/// values, without an order.
pub enum JsonView {
    Null,
    Bool(bool),
    Number(JsonNumber),
    String(Seq<char>),
    Array(Seq<JsonView>),
    Object(Map<Seq<char>, JsonView>),
}

impl JsonView {
    /// The member of that name, if the value is an object that has one.
    pub open spec fn get(self, name: Seq<char>) -> Option<JsonView> {
        match self {
            JsonView::Object(members) => if members.contains_key(name) {
                Some(members[name])
            } else {
                None
            },
            _ => None,
        }
    }

    /// The member of that name, or null.
    pub open spec fn member(self, name: Seq<char>) -> JsonView {
        match self.get(name) {
            Some(value) => value,
            None => JsonView::Null,
        }
    }

    /// The item at that place, if the value is an array that reaches so far.
    pub open spec fn get_item(self, index: int) -> Option<JsonView> {
        match self {
            JsonView::Array(items) => if 0 <= index < items.len() {
                Some(items[index])
            } else {
                None
            },
            _ => None,
        }
    }

    /// The item at that place, or null.
    pub open spec fn item(self, index: int) -> JsonView {
        match self.get_item(index) {
            Some(value) => value,
            None => JsonView::Null,
        }
    }

    /// Whether the value is an integer that a signed 64 bit integer can hold.
    pub open spec fn is_i64(self) -> bool {
        match self {
            JsonView::Number(JsonNumber::PosInt(n)) => n <= i64::MAX,
            JsonView::Number(JsonNumber::NegInt(_)) => true,
            _ => false,
        }
    }

    /// Whether the value is a number with a fraction or an exponent.
    pub open spec fn is_f64(self) -> bool {
        self matches JsonView::Number(JsonNumber::Float(_))
    }
}

/// The model of a JSON value.
pub open spec fn value_view(v: JsonValue) -> JsonView
    decreases v,
{
    match v {
        JsonValue::Null => JsonView::Null,
        JsonValue::Bool(b) => JsonView::Bool(b),
        JsonValue::Number(n) => JsonView::Number(n),
        JsonValue::String(s) => JsonView::String(s@),
        JsonValue::Array(items) => JsonView::Array(items_view(items@)),
        JsonValue::Object(map) => JsonView::Object(members_view(map)),
    }
}

/// The models of a list of JSON values.
pub open spec fn items_view(items: Seq<JsonValue>) -> Seq<JsonView>
    decreases items,
{
    Seq::new(
        items.len(),
        |i: int|
            if 0 <= i < items.len() {
                value_view(items[i])
            } else {
                JsonView::Null
            },
    )
}

/// The model of the members of a JSON object.
pub closed spec fn members_view(map: JsonMap) -> Map<Seq<char>, JsonView>
    decreases map,
{
    entries_view(map.entries@)
}

/// The map that a list of members stands for.
closed spec fn entries_view(entries: Seq<(String, JsonValue)>) -> Map<Seq<char>, JsonView>
    decreases entries,
{
    if entries.len() == 0 {
        Map::empty()
    } else {
        entries_view(entries.drop_last()).insert(
            entries.last().0@,
            value_view(entries.last().1),
        )
    }
}

impl View for JsonValue {
    type V = JsonView;

    open spec fn view(&self) -> JsonView {
        value_view(*self)
    }
}

impl View for JsonMap {
    type V = Map<Seq<char>, JsonView>;

    open spec fn view(&self) -> Map<Seq<char>, JsonView> {
        members_view(*self)
    }
}

impl JsonValue {
    /// The member of that name, if the value is an object that has one.
    pub fn get(&self, name: &str) -> (value: Option<&JsonValue>)
        ensures
            value is Some <==> self@.get(name@) is Some,
            value matches Some(v) ==> self@.get(name@) == Some(v@),
    {
        match self {
            JsonValue::Object(map) => map.get(name),
            _ => None,
        }
    }

    /// The item at that place, if the value is an array that reaches so far.
    pub fn get_item(&self, index: usize) -> (value: Option<&JsonValue>)
        ensures
            value is Some <==> self@.get_item(index as int) is Some,
            value matches Some(v) ==> self@.get_item(index as int) == Some(v@),
    {
        match self {
            JsonValue::Array(items) => if index < items.len() {
                Some(&items[index])
            } else {
                None
            },
            _ => None,
        }
    }

    /// The member of that name, or null.
    pub fn member(&self, name: &str) -> (value: &JsonValue)
        ensures
            value@ == self@.member(name@),
    {
        match self.get(name) {
            Some(value) => value,
            None => &JsonValue::Null,
        }
    }

    /// The item at that place, or null.
    pub fn item(&self, index: usize) -> (value: &JsonValue)
        ensures
            value@ == self@.item(index as int),
    {
        match self.get_item(index) {
            Some(value) => value,
            None => &JsonValue::Null,
        }
    }

    /// Whether the value is `true` or `false`.
    pub fn is_boolean(&self) -> (answer: bool)
        ensures
            answer == (self@ is Bool),
    {
        match self {
            JsonValue::Bool(_) => true,
            _ => false,
        }
    }

    /// Whether the value is a string.
    pub fn is_string(&self) -> (answer: bool)
        ensures
            answer == (self@ is String),
    {
        match self {
            JsonValue::String(_) => true,
            _ => false,
        }
    }

    /// Whether the value is an integer that a signed 64 bit integer can hold.
    pub fn is_i64(&self) -> (answer: bool)
        ensures
            answer == self@.is_i64(),
    {
        match self {
            JsonValue::Number(JsonNumber::PosInt(n)) => *n <= 0x7fff_ffff_ffff_ffff,
            JsonValue::Number(JsonNumber::NegInt(_)) => true,
            _ => false,
        }
    }

    /// Whether the value is a number with a fraction or an exponent.
    pub fn is_f64(&self) -> (answer: bool)
        ensures
            answer == self@.is_f64(),
    {
        match self {
            JsonValue::Number(JsonNumber::Float(_)) => true,
            _ => false,
        }
    }
}

impl Clone for JsonValue {
    fn clone(&self) -> (copy: JsonValue)
        ensures
            copy@ == self@,
        decreases self,
    {
        match self {
            JsonValue::Null => JsonValue::Null,
            JsonValue::Bool(b) => JsonValue::Bool(*b),
            JsonValue::Number(n) => JsonValue::Number(*n),
            JsonValue::String(s) => JsonValue::String(s.clone()),
            JsonValue::Array(items) => JsonValue::Array(clone_items(items)),
            JsonValue::Object(map) => JsonValue::Object(map.clone()),
        }
    }
}

/// A copy of a list of JSON values.
fn clone_items(items: &Vec<JsonValue>) -> (copies: Vec<JsonValue>)
    ensures
        items_view(copies@) == items_view(items@),
    decreases items,
{
    let mut copies: Vec<JsonValue> = Vec::new();
    let mut i: usize = 0;
    while i < items.len()
        invariant
            i <= items.len(),
            copies.len() == i,
            forall|j: int| 0 <= j < i ==> value_view(#[trigger] copies@[j]) == items@[j]@,
        decreases items.len() - i,
    {
        let copy = items[i].clone();
        copies.push(copy);
        i += 1;
    }
    assert(items_view(copies@) =~= items_view(items@));
    copies
}

impl Clone for JsonMap {
    fn clone(&self) -> (copy: JsonMap)
        ensures
            copy@ == self@,
            copy.names() == self.names(),
        decreases self,
    {
        proof {
            use_type_invariant(&*self);
        }
        let mut entries: Vec<(String, JsonValue)> = Vec::new();
        let mut i: usize = 0;
        assert(self.entries@.take(0) =~= entries@);
        while i < self.entries.len()
            invariant
                i <= self.entries.len(),
                entries.len() == i,
                distinct_names(self.entries@),
                forall|j: int| 0 <= j < i ==> #[trigger] entries[j].0@ == self.entries[j].0@,
                entries_view(entries@) == entries_view(self.entries@.take(i as int)),
            decreases self.entries.len() - i,
        {
            let ghost before = entries@;
            let name = self.entries[i].0.clone();
            let value = self.entries[i].1.clone();
            entries.push((name, value));
            assert(entries@.drop_last() == before);
            assert(self.entries@.take(i + 1).drop_last() == self.entries@.take(i as int));
            i += 1;
        }
        assert(self.entries@.take(i as int) == self.entries@);
        JsonMap { entries }
    }
}

impl JsonMap {
    #[verifier::type_invariant]
    spec fn names_are_distinct(self) -> bool {
        distinct_names(self.entries@)
    }

    /// The names of the members, in the order in which they stand.
    pub closed spec fn names(self) -> Seq<Seq<char>> {
        Seq::new(self.entries@.len(), |i: int| self.entries@[i].0@)
    }

    /// An object without members.
    pub fn new() -> (map: JsonMap)
        ensures
            map@ == Map::<Seq<char>, JsonView>::empty(),
            map.names() == Seq::<Seq<char>>::empty(),
    {
        JsonMap { entries: Vec::new() }
    }

    /// The member of that name.
    pub fn get(&self, name: &str) -> (value: Option<&JsonValue>)
        ensures
            value is Some <==> self@.contains_key(name@),
            value matches Some(v) ==> v@ == self@[name@],
    {
        proof {
            use_type_invariant(&*self);
            lemma_entries(self.entries@);
        }
        let wanted: String = name.to_owned();
        let mut i: usize = 0;
        while i < self.entries.len()
            invariant
                i <= self.entries.len(),
                wanted@ == name@,
                forall|j: int| 0 <= j < i ==> #[trigger] self.entries@[j].0@ != name@,
                forall|j: int|
                    0 <= j < self.entries.len() ==> self@.contains_pair(
                        #[trigger] self.entries@[j].0@,
                        self.entries@[j].1@,
                    ),
                self@.contains_key(name@) ==> exists|j: int|
                    0 <= j < self.entries.len() && #[trigger] self.entries@[j].0@ == name@,
            decreases self.entries.len() - i,
        {
            if self.entries[i].0 == wanted {
                assert(self.entries@[i as int].0@ == name@);
                return Some(&self.entries[i].1);
            }
            i += 1;
        }
        None
    }

    /// How many members there are.
    pub fn len(&self) -> (n: usize)
        ensures
            n == self.names().len(),
            self.names().no_duplicates(),
            forall|name: Seq<char>|
                self@.contains_key(name) <==> #[trigger] self.names().contains(name),
    {
        proof {
            use_type_invariant(&*self);
            lemma_entries(self.entries@);
            assert forall|name: Seq<char>|
                self@.contains_key(name) <==> #[trigger] self.names().contains(name) by {
                if self@.contains_key(name) {
                    let i = choose|i: int|
                        0 <= i < self.entries@.len() && #[trigger] self.entries@[i].0@ == name;
                    assert(self.names()[i] == name);
                }
                if self.names().contains(name) {
                    let i = choose|i: int| 0 <= i < self.names().len() && self.names()[i] == name;
                    assert(self.entries@[i].0@ == name);
                }
            }
        }
        self.entries.len()
    }

    /// The member at that place in the order of the members.
    pub fn entry(&self, index: usize) -> (entry: (&String, &JsonValue))
        requires
            index < self.names().len(),
        ensures
            entry.0@ == self.names()[index as int],
            self@.contains_key(entry.0@),
            entry.1@ == self@[entry.0@],
    {
        proof {
            use_type_invariant(&*self);
            lemma_entries(self.entries@);
        }
        let name = &self.entries[index].0;
        let value = &self.entries[index].1;
        assert(self@.contains_pair(self.entries@[index as int].0@, self.entries@[index as int].1@));
        (name, value)
    }

    /// Sets the member of that name, in place of the one that had it, or
    /// behind all others.
    pub fn insert(&mut self, name: String, value: JsonValue)
        ensures
            final(self)@ == old(self)@.insert(name@, value@),
            final(self).names() == (if old(self)@.contains_key(name@) {
                old(self).names()
            } else {
                old(self).names().push(name@)
            }),
    {
        proof {
            use_type_invariant(&*self);
        }
        let mut entries: Vec<(String, JsonValue)> = Vec::new();
        std::mem::swap(&mut entries, &mut self.entries);
        let ghost before = entries@;
        proof {
            lemma_entries(before);
        }
        let mut i: usize = 0;
        while i < entries.len()
            invariant
                before == old(self).entries@,
                entries@ == before,
                i <= entries.len(),
                distinct_names(before),
                forall|j: int| 0 <= j < i ==> #[trigger] before[j].0@ != name@,
                forall|j: int|
                    0 <= j < before.len() ==> entries_view(before).contains_key(
                        #[trigger] before[j].0@,
                    ),
            decreases entries.len() - i,
        {
            if entries[i].0 == name {
                let ghost entry = (name, value);
                entries.set(i, (name, value));
                proof {
                    lemma_update_entry(before, i as int, entry);
                    assert(entries_view(before).contains_key(before[i as int].0@));
                }
                self.entries = entries;
                assert(self.names() =~= old(self).names());
                return;
            }
            i += 1;
        }
        entries.push((name, value));
        assert(entries@.drop_last() == before);
        self.entries = entries;
        assert(self.names() =~= old(self).names().push(name@));
    }
}

/// No name occurs twice among the members.
spec fn distinct_names(entries: Seq<(String, JsonValue)>) -> bool {
    forall|i: int, j: int|
        0 <= i < j < entries.len() ==> #[trigger] entries[i].0@ != #[trigger] entries[j].0@
}

/// Where no name occurs twice, the map holds the members and nothing else.
proof fn lemma_entries(entries: Seq<(String, JsonValue)>)
    requires
        distinct_names(entries),
    ensures
        forall|i: int|
            0 <= i < entries.len() ==> entries_view(entries).contains_pair(
                #[trigger] entries[i].0@,
                entries[i].1@,
            ),
        forall|name: Seq<char>|
            #[trigger] entries_view(entries).contains_key(name) ==> exists|i: int|
                0 <= i < entries.len() && #[trigger] entries[i].0@ == name,
    decreases entries.len(),
{
    if entries.len() > 0 {
        let rest = entries.drop_last();
        lemma_entries(rest);
        assert forall|i: int| 0 <= i < entries.len() implies entries_view(entries).contains_pair(
            #[trigger] entries[i].0@,
            entries[i].1@,
        ) by {
            if i < rest.len() {
                assert(rest[i] == entries[i]);
            }
        }
        assert forall|name: Seq<char>| #[trigger]
            entries_view(entries).contains_key(name) implies exists|i: int|
            0 <= i < entries.len() && #[trigger] entries[i].0@ == name by {
            if name != entries.last().0@ {
                assert(entries_view(rest).contains_key(name));
                let i = choose|i: int| 0 <= i < rest.len() && #[trigger] rest[i].0@ == name;
                assert(entries[i].0@ == name);
            }
        }
    }
}

/// Changing the value of one member changes the map at its name.
proof fn lemma_update_entry(entries: Seq<(String, JsonValue)>, i: int, entry: (String, JsonValue))
    requires
        distinct_names(entries),
        0 <= i < entries.len(),
        entries[i].0@ == entry.0@,
    ensures
        distinct_names(entries.update(i, entry)),
        entries_view(entries.update(i, entry)) == entries_view(entries).insert(
            entry.0@,
            value_view(entry.1),
        ),
    decreases entries.len(),
{
    let after = entries.update(i, entry);
    if i == entries.len() - 1 {
        assert(after.drop_last() == entries.drop_last());
        assert(entries_view(after) =~= entries_view(entries).insert(entry.0@, value_view(entry.1)));
    } else {
        lemma_update_entry(entries.drop_last(), i, entry);
        assert(after.drop_last() == entries.drop_last().update(i, entry));
        assert(entries_view(after) =~= entries_view(entries).insert(entry.0@, value_view(entry.1)));
    }
}

} // verus!
