//! JSON values that the library looks into.

use vstd::prelude::*;

use crate::common::{lemma_take_push, lemma_views_push, views, Duplicate};
use crate::text::same_text;

verus! {

broadcast use lemma_views_push;

/// A JSON value. An object is a list of entries, with a key of its own for each: what is parsed or
/// assembled here never repeats a key. In an object built with a repeated key, looking the key up
/// gives the first entry with it, while rendering and decoding, which go through the map of a
/// `serde_json::Value`, go by the last.
#[derive(Debug, PartialEq, Eq)]
pub enum Json {
    Null,
    Bool(bool),
    /// A non-negative integer.
    Unsigned(u64),
    /// A negative integer.
    Negative(i64),
    /// Any other number, as text.
    Float(String),
    Str(String),
    Array(Vec<Json>),
    Object(Vec<(String, Json)>),
}

/// The model of a [`Json`] value.
pub enum Tree {
    Null,
    Bool(bool),
    Unsigned(u64),
    Negative(i64),
    Float(Seq<char>),
    Str(Seq<char>),
    Array(Seq<Tree>),
    Object(Seq<(Seq<char>, Tree)>),
}

impl Json {
    /// The model of this value.
    pub open spec fn tree(self) -> Tree
        decreases self,
    {
        match self {
            Json::Null => Tree::Null,
            Json::Bool(b) => Tree::Bool(b),
            Json::Unsigned(n) => Tree::Unsigned(n),
            Json::Negative(n) => Tree::Negative(n),
            Json::Float(text) => Tree::Float(text@),
            Json::Str(text) => Tree::Str(text@),
            Json::Array(items) => Tree::Array(
                Seq::new(
                    items@.len(),
                    |i: int|
                        if 0 <= i < items@.len() {
                            items@[i].tree()
                        } else {
                            Tree::Null
                        },
                ),
            ),
            Json::Object(entries) => Tree::Object(
                Seq::new(
                    entries@.len(),
                    |i: int|
                        if 0 <= i < entries@.len() {
                            (entries@[i].0@, entries@[i].1.tree())
                        } else {
                            (seq![], Tree::Null)
                        },
                ),
            ),
        }
    }
}

impl View for Json {
    type V = Tree;

    open spec fn view(&self) -> Tree {
        self.tree()
    }
}

/// The model of an entry of an object.
pub open spec fn entry_view(entry: (String, Json)) -> (Seq<char>, Tree) {
    (entry.0@, entry.1@)
}

/// The models of the entries of an object.
pub open spec fn entry_views(entries: Seq<(String, Json)>) -> Seq<(Seq<char>, Tree)> {
    entries.map_values(|e: (String, Json)| entry_view(e))
}

/// An array's model, told by its items.
pub proof fn lemma_array(items: Vec<Json>)
    ensures
        Json::Array(items)@ == Tree::Array(views(items@)),
{
    assert(Json::Array(items)@->Array_0 =~= views(items@));
}

/// An object's model, told by its entries.
pub proof fn lemma_object(entries: Vec<(String, Json)>)
    ensures
        Json::Object(entries)@ == Tree::Object(entry_views(entries@)),
{
    assert(Json::Object(entries)@->Object_0 =~= entry_views(entries@));
}

/// The value under `key`: that of the first entry with the key, where an object repeats it.
pub open spec fn lookup(entries: Seq<(Seq<char>, Tree)>, key: Seq<char>) -> Option<Tree>
    decreases entries.len(),
{
    if entries.len() == 0 {
        None
    } else if entries[0].0 == key {
        Some(entries[0].1)
    } else {
        lookup(entries.drop_first(), key)
    }
}

/// `entries` with `value` under `key`: in the place of the first entry with the key, or at the
/// end.
pub open spec fn assigned(entries: Seq<(Seq<char>, Tree)>, key: Seq<char>, value: Tree) -> Seq<
    (Seq<char>, Tree),
>
    decreases entries.len(),
{
    if entries.len() == 0 {
        seq![(key, value)]
    } else if entries[0].0 == key {
        entries.update(0, (key, value))
    } else {
        seq![entries[0]] + assigned(entries.drop_first(), key, value)
    }
}

impl Tree {
    /// The value under `key`; null where there is none, or where this is no object.
    pub open spec fn field(self, key: Seq<char>) -> Tree {
        match self.get(key) {
            Some(value) => value,
            None => Tree::Null,
        }
    }

    /// The value under `key`, where this is an object that has one.
    pub open spec fn get(self, key: Seq<char>) -> Option<Tree> {
        match self {
            Tree::Object(entries) => lookup(entries, key),
            _ => None,
        }
    }

    /// The value under `key`, where there is one that is not null.
    pub open spec fn present(self, key: Seq<char>) -> Option<Tree> {
        match self.get(key) {
            Some(Tree::Null) => None,
            other => other,
        }
    }

    /// The text of a string.
    pub open spec fn as_text(self) -> Option<Seq<char>> {
        match self {
            Tree::Str(text) => Some(text),
            _ => None,
        }
    }

    /// The text of a string, and the empty text of anything else.
    pub open spec fn text_or_empty(self) -> Seq<char> {
        match self {
            Tree::Str(text) => text,
            _ => seq![],
        }
    }

    /// The value of a non-negative integer.
    pub open spec fn as_unsigned(self) -> Option<u64> {
        match self {
            Tree::Unsigned(n) => Some(n),
            _ => None,
        }
    }
}

/// What [`lookup`] finds.
pub proof fn lemma_lookup(entries: Seq<(Seq<char>, Tree)>, key: Seq<char>, k: int)
    requires
        0 <= k <= entries.len(),
        forall|i: int| 0 <= i < k ==> (#[trigger] entries[i]).0 != key,
        k < entries.len() ==> entries[k].0 == key,
    ensures
        lookup(entries, key) == if k < entries.len() {
            Some(entries[k].1)
        } else {
            None
        },
        forall|value: Tree| #[trigger]
            assigned(entries, key, value) == if k < entries.len() {
                entries.update(k, (key, value))
            } else {
                entries.push((key, value))
            },
    decreases k,
{
    if k == 0 {
        if entries.len() == 0 {
            assert forall|value: Tree| #[trigger]
                assigned(entries, key, value) == entries.push((key, value)) by {
                assert(seq![(key, value)] =~= entries.push((key, value)));
            }
        }
    } else {
        assert(entries[0].0 != key);
        let rest = entries.drop_first();
        assert forall|i: int| 0 <= i < k - 1 implies (#[trigger] rest[i]).0 != key by {
            assert(entries[i + 1].0 != key);
        }
        lemma_lookup(rest, key, k - 1);
        assert forall|value: Tree| #[trigger]
            assigned(entries, key, value) == if k < entries.len() {
                entries.update(k, (key, value))
            } else {
                entries.push((key, value))
            } by {
            let inner = assigned(rest, key, value);
            if k < entries.len() {
                assert(rest.len() > k - 1);
                assert(seq![entries[0]] + rest.update(k - 1, (key, value)) =~= entries.update(
                    k,
                    (key, value),
                ));
            } else {
                assert(seq![entries[0]] + rest.push((key, value)) =~= entries.push((key, value)));
            }
        }
    }
}

/// A read gives back what the last write under the key wrote, and nothing else changes.
pub proof fn assignment_is_read_back(
    entries: Seq<(Seq<char>, Tree)>,
    key: Seq<char>,
    value: Tree,
    other: Seq<char>,
)
    ensures
        lookup(assigned(entries, key, value), key) == Some(value),
        other != key ==> lookup(assigned(entries, key, value), other) == lookup(entries, other),
    decreases entries.len(),
{
    if entries.len() == 0 {
        let new = seq![(key, value)];
        assert(new.drop_first() =~= seq![]);
        assert(lookup(new.drop_first(), other) == lookup(entries, other));
    } else if entries[0].0 == key {
        let new = entries.update(0, (key, value));
        assert(new.drop_first() =~= entries.drop_first());
    } else {
        assignment_is_read_back(entries.drop_first(), key, value, other);
        let new = seq![entries[0]] + assigned(entries.drop_first(), key, value);
        assert(new.drop_first() =~= assigned(entries.drop_first(), key, value));
    }
}

// ---------------------------------------------------------------------------------------------
// Functions
// ---------------------------------------------------------------------------------------------

/// The position of the first entry with the key.
pub fn find_entry(entries: &Vec<(String, Json)>, key: &str) -> (r: Option<usize>)
    ensures
        match r {
            Some(k) => {
                &&& k < entries@.len()
                &&& lookup(entry_views(entries@), key@) == Some(entries@[k as int].1@)
                &&& forall|value: Tree| #[trigger]
                    assigned(entry_views(entries@), key@, value) == entry_views(entries@).update(
                        k as int,
                        (key@, value),
                    )
            },
            None => {
                &&& lookup(entry_views(entries@), key@) is None
                &&& forall|value: Tree| #[trigger]
                    assigned(entry_views(entries@), key@, value) == entry_views(entries@).push(
                        (key@, value),
                    )
            },
        },
{
    let ghost all = entry_views(entries@);
    let mut k: usize = 0;
    while k < entries.len()
        invariant
            k <= entries@.len(),
            all == entry_views(entries@),
            forall|i: int| 0 <= i < k ==> (#[trigger] all[i]).0 != key@,
        decreases entries@.len() - k,
    {
        if same_text(entries[k].0.as_str(), key) {
            proof {
                assert(all[k as int].0 == key@);
                lemma_lookup(all, key@, k as int);
            }
            return Some(k);
        }
        k += 1;
    }
    proof {
        lemma_lookup(all, key@, k as int);
    }
    None
}

/// Put `value` under `key`.
pub fn set_entry(entries: &mut Vec<(String, Json)>, key: &str, value: Json)
    ensures
        entry_views(final(entries)@) == assigned(entry_views(old(entries)@), key@, value@),
{
    match find_entry(entries, key) {
        Some(k) => {
            let ghost before = entry_views(entries@);
            entries.set(k, (key.to_owned(), value));
            assert(entry_views(entries@) =~= before.update(k as int, (key@, value@)));
        },
        None => {
            let ghost before = entry_views(entries@);
            entries.push((key.to_owned(), value));
            assert(entry_views(entries@) =~= before.push((key@, value@)));
        },
    }
}

/// The value under `key`.
pub fn get_entry<'a>(entries: &'a Vec<(String, Json)>, key: &str) -> (r: Option<&'a Json>)
    ensures
        match r {
            Some(value) => lookup(entry_views(entries@), key@) == Some(value@),
            None => lookup(entry_views(entries@), key@) is None,
        },
{
    match find_entry(entries, key) {
        Some(k) => Some(&entries[k].1),
        None => None,
    }
}

impl Duplicate for Json {
    fn duplicate(&self) -> (copy: Self)
        decreases self,
    {
        match self {
            Json::Null => Json::Null,
            Json::Bool(b) => Json::Bool(*b),
            Json::Unsigned(n) => Json::Unsigned(*n),
            Json::Negative(n) => Json::Negative(*n),
            Json::Float(text) => Json::Float(text.clone()),
            Json::Str(text) => Json::Str(text.clone()),
            Json::Array(items) => {
                let mut copy: Vec<Json> = Vec::new();
                let mut i: usize = 0;
                while i < items.len()
                    invariant
                        i <= items@.len(),
                        *self == Json::Array(*items),
                        views(copy@) == views(items@).take(i as int),
                    decreases items@.len() - i,
                {
                    let item = &items[i];
                    proof {
                        assert(decreases_to!(*self => self->Array_0));
                        assert(decreases_to!(self->Array_0 => self->Array_0@));
                        assert(decreases_to!(items@ => items@[i as int]));
                        lemma_take_push(views(items@), i as int);
                    }
                    copy.push(item.duplicate());
                    i += 1;
                }
                proof {
                    assert(views(items@).take(i as int) =~= views(items@));
                    lemma_array(copy);
                    lemma_array(*items);
                }
                Json::Array(copy)
            },
            Json::Object(entries) => {
                let mut copy: Vec<(String, Json)> = Vec::new();
                let mut i: usize = 0;
                assert(entry_views(copy@) =~= entry_views(entries@).take(0));
                while i < entries.len()
                    invariant
                        i <= entries@.len(),
                        *self == Json::Object(*entries),
                        entry_views(copy@) == entry_views(entries@).take(i as int),
                    decreases entries@.len() - i,
                {
                    let ghost before = entry_views(copy@);
                    proof {
                        assert(decreases_to!(*self => self->Object_0));
                        assert(decreases_to!(self->Object_0 => self->Object_0@));
                        assert(decreases_to!(entries@ => entries@[i as int]));
                        assert(decreases_to!(entries@[i as int] => entries@[i as int].1));
                    }
                    let value = entries[i].1.duplicate();
                    copy.push((entries[i].0.clone(), value));
                    proof {
                        lemma_take_push(entry_views(entries@), i as int);
                        assert(entry_views(copy@) =~= before.push(
                            entry_view(entries@[i as int]),
                        ));
                    }
                    i += 1;
                }
                proof {
                    assert(entry_views(entries@).take(i as int) =~= entry_views(entries@));
                    lemma_object(copy);
                    lemma_object(*entries);
                }
                Json::Object(copy)
            },
        }
    }
}

impl Clone for Json {
    fn clone(&self) -> (copy: Self)
        ensures
            copy@ == self@,
    {
        self.duplicate()
    }
}

impl Json {
    /// The value under `key`, where this is an object that has one.
    pub fn get(&self, key: &str) -> (r: Option<&Json>)
        ensures
            match r {
                Some(value) => self@.get(key@) == Some(value@),
                None => self@.get(key@) is None,
            },
    {
        match self {
            Json::Object(entries) => {
                proof {
                    lemma_object(*entries);
                }
                get_entry(entries, key)
            },
            _ => None,
        }
    }

    /// The value under `key`, where there is one that is not null.
    pub fn present(&self, key: &str) -> (r: Option<&Json>)
        ensures
            match r {
                Some(value) => self@.present(key@) == Some(value@),
                None => self@.present(key@) is None,
            },
    {
        match self.get(key) {
            Some(Json::Null) => None,
            other => other,
        }
    }

    /// The text under `key`.
    pub fn text_at(&self, key: &str) -> (r: Option<&String>)
        ensures
            match r {
                Some(text) => self@.field(key@) == Tree::Str(text@),
                None => self@.field(key@).as_text() is None,
            },
    {
        match self.get(key) {
            Some(Json::Str(text)) => Some(text),
            _ => None,
        }
    }

    /// The non-negative integer under `key`.
    pub fn unsigned_at(&self, key: &str) -> (r: Option<u64>)
        ensures
            r == self@.field(key@).as_unsigned(),
    {
        match self.get(key) {
            Some(Json::Unsigned(n)) => Some(*n),
            _ => None,
        }
    }

    /// Whether this is an object.
    pub fn is_object(&self) -> (b: bool)
        ensures
            b == (self@ is Object),
    {
        match self {
            Json::Object(_) => true,
            _ => false,
        }
    }
}

/// A copy of the entries of an object.
pub fn duplicate_entries(entries: &Vec<(String, Json)>) -> (copy: Vec<(String, Json)>)
    ensures
        entry_views(copy@) == entry_views(entries@),
{
    let mut copy: Vec<(String, Json)> = Vec::new();
    let mut i: usize = 0;
    assert(entry_views(copy@) =~= entry_views(entries@).take(0));
    while i < entries.len()
        invariant
            i <= entries@.len(),
            entry_views(copy@) == entry_views(entries@).take(i as int),
        decreases entries@.len() - i,
    {
        let ghost before = entry_views(copy@);
        copy.push((entries[i].0.clone(), entries[i].1.duplicate()));
        proof {
            lemma_take_push(entry_views(entries@), i as int);
            assert(entry_views(copy@) =~= before.push(entry_view(entries@[i as int])));
        }
        i += 1;
    }
    assert(entry_views(entries@).take(i as int) =~= entry_views(entries@));
    copy
}

// ---------------------------------------------------------------------------------------------
// Descriptions
// ---------------------------------------------------------------------------------------------

/// `text` in double quotes, with escapes, as Rust's debug output shows it.
pub uninterp spec fn debug_quoted(text: Seq<char>) -> Seq<char>;

/// `<str as std::fmt::Debug>::fmt`: `text` in double quotes, with escapes, a function of the text
/// alone.
#[verifier::external_body]
pub(crate) fn quoted(text: &str) -> (r: String)
    ensures
        r@ == debug_quoted(text@),
{
    format!("{text:?}")
}

} // verus!
