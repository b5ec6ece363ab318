//! Shared vocabulary: views of collections, copying, conversions to text, and capped sums.

use vstd::prelude::*;

verus! {

/// The views of the items of `s`.
pub open spec fn views<T: View>(s: Seq<T>) -> Seq<T::V> {
    s.map_values(|x: T| x@)
}

/// The view of an optional value.
pub open spec fn view_of<T: View>(o: Option<T>) -> Option<T::V> {
    match o {
        Some(x) => Some(x@),
        None => None,
    }
}

/// The view of a result, of its value or its error.
pub open spec fn outcome<T: View, E: View>(r: Result<T, E>) -> Result<T::V, E::V> {
    match r {
        Ok(x) => Ok(x@),
        Err(e) => Err(e@),
    }
}

/// `n`, or the largest `usize` where `n` is larger.
pub open spec fn capped(n: int) -> usize {
    if n <= usize::MAX {
        n as usize
    } else {
        usize::MAX
    }
}

/// The number of bytes that `s` takes in UTF-8.
pub open spec fn byte_len(s: Seq<char>) -> nat {
    vstd::utf8::encode_utf8(s).len()
}

/// The views of a list with one item more.
pub broadcast proof fn lemma_views_push<T: View>(s: Seq<T>, x: T)
    ensures
        #[trigger] views(s.push(x)) == views(s).push(x@),
{
    assert(views(s.push(x)) =~= views(s).push(x@));
}

/// A prefix with one item more.
pub proof fn lemma_take_push<T>(s: Seq<T>, i: int)
    requires
        0 <= i < s.len(),
    ensures
        s.take(i + 1) == s.take(i).push(s[i]),
{
    assert(s.take(i + 1) =~= s.take(i).push(s[i]));
}

/// Types whose values can be copied without changing what they stand for.
pub trait Duplicate: View + Sized {
    /// A copy of this value.
    fn duplicate(&self) -> (copy: Self)
        ensures
            copy@ == self@,
    ;
}

impl Duplicate for String {
    fn duplicate(&self) -> (copy: Self) {
        self.clone()
    }
}

/// A copy of a list.
pub fn duplicate_all<T: Duplicate>(items: &Vec<T>) -> (copy: Vec<T>)
    ensures
        views(copy@) == views(items@),
{
    let mut copy: Vec<T> = Vec::new();
    let mut i: usize = 0;
    while i < items.len()
        invariant
            i <= items@.len(),
            views(copy@) == views(items@).take(i as int),
        decreases items@.len() - i,
    {
        let item = items[i].duplicate();
        let ghost before = views(copy@);
        copy.push(item);
        assert(views(copy@) =~= before.push(item@));
        assert(views(items@).take(i + 1) =~= views(items@).take(i as int).push(items@[i as int]@));
        i += 1;
    }
    assert(views(copy@) =~= views(items@));
    copy
}

/// A copy of an optional value.
pub fn duplicate_option<T: Duplicate>(item: &Option<T>) -> (copy: Option<T>)
    ensures
        view_of(copy) == view_of(*item),
{
    match item {
        Some(x) => Some(x.duplicate()),
        None => None,
    }
}

/// Types that a text can be taken from.
pub trait TextSource: Sized {
    /// The text.
    spec fn text_view(&self) -> Seq<char>;

    /// Take the text.
    fn into_text(self) -> (text: String)
        ensures
            text@ == self.text_view(),
    ;
}

impl TextSource for &str {
    open spec fn text_view(&self) -> Seq<char> {
        (*self)@
    }

    fn into_text(self) -> (text: String) {
        self.to_owned()
    }
}

impl TextSource for String {
    open spec fn text_view(&self) -> Seq<char> {
        self@
    }

    fn into_text(self) -> (text: String) {
        self
    }
}

impl TextSource for &String {
    open spec fn text_view(&self) -> Seq<char> {
        (*self)@
    }

    fn into_text(self) -> (text: String) {
        self.clone()
    }
}

/// The sum of two sizes, capped.
pub fn add_capped(a: usize, b: usize) -> (sum: usize)
    ensures
        sum == capped(a + b),
{
    a.saturating_add(b)
}

/// The number of bytes of `text`.
pub fn bytes_of(text: &str) -> (n: usize)
    ensures
        n == byte_len(text@),
{
    text.as_bytes().len()
}

/// The number of characters of `text`.
pub fn chars_of(text: &str) -> (n: usize)
    ensures
        n == text@.len(),
{
    text.unicode_len()
}

} // verus!
