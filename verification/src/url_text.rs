//! URLs, kept as their canonical text.

use vstd::prelude::*;

use crate::common::{byte_len, bytes_of, outcome, views};
use crate::error::{Error, ErrorView};
use crate::text::to_chars;

verus! {

/// What the `url` crate makes of a text: the canonical text of the URL, or its message of why the
/// text is none.
pub uninterp spec fn parsed_url(text: Seq<char>) -> Result<Seq<char>, Seq<char>>;

/// What a reference stands for, read against a base URL.
pub uninterp spec fn joined_url(base: Seq<char>, reference: Seq<char>) -> Result<
    Seq<char>,
    Seq<char>,
>;

/// A URL without the empty segment at the end of its path, where there is one behind others; none
/// where the text is no URL or the URL has no path of segments.
pub uninterp spec fn popped_url(url: Seq<char>) -> Option<Seq<char>>;

/// A URL with segments behind its path; none where the text is no URL or the URL has no path of
/// segments.
pub uninterp spec fn extended_url(url: Seq<char>, segments: Seq<Seq<char>>) -> Option<Seq<char>>;

/// A URL up to the end of its path; none where the text is no URL.
pub uninterp spec fn url_to_path(url: Seq<char>) -> Option<Seq<char>>;

/// The scheme of a URL; none where the text is no URL.
pub uninterp spec fn scheme_of_url(url: Seq<char>) -> Option<Seq<char>>;

/// `url::Url::parse`, and the URL's text: a function of the text alone, as is the message of its
/// error.
#[verifier::external_body]
fn url_parse(text: &str) -> (r: Result<String, String>)
    ensures
        outcome(r) == parsed_url(text@),
{
    url::Url::parse(text).map(String::from).map_err(|error| error.to_string())
}

/// `url::Url::join` on a base URL: a function of both texts alone, as is the message of its error.
#[verifier::external_body]
fn url_join(base: &str, reference: &str) -> (r: Result<String, String>)
    ensures
        outcome(r) == joined_url(base@, reference@),
{
    url::Url::parse(base)
        .and_then(|url| url.join(reference))
        .map(String::from)
        .map_err(|error| error.to_string())
}

/// Whether a character stands in a path segment as it is, and is not percent-encoded.
pub open spec fn plain_in_segment(c: char) -> bool {
    &&& '!' <= c <= '~'
    &&& c != '"' && c != '#' && c != '%' && c != '/' && c != '<' && c != '>'
    &&& c != '?' && c != '\\' && c != '`' && c != '{' && c != '}'
}

/// The bytes that a character takes in a path segment at most: percent-encoding makes three of
/// each byte in UTF-8.
pub open spec fn encoded_width(c: char) -> int {
    if plain_in_segment(c) {
        1
    } else if (c as u32) < 0x80 {
        3
    } else if (c as u32) < 0x800 {
        6
    } else if (c as u32) < 0x10000 {
        9
    } else {
        12
    }
}

/// The bytes that a text takes as a path segment at most.
pub open spec fn encoded_len(segment: Seq<char>) -> int
    decreases segment.len(),
{
    if segment.len() == 0 {
        0
    } else {
        encoded_len(segment.drop_last()) + encoded_width(segment.last())
    }
}

/// The bytes that segments take in a path at most, with a slash before each.
pub open spec fn path_len(segments: Seq<Seq<char>>) -> int
    decreases segments.len(),
{
    if segments.len() == 0 {
        0
    } else {
        path_len(segments.drop_last()) + encoded_len(segments.last()) + 1
    }
}

/// Whether a URL with the segments behind its path is short enough for the `url` crate, which
/// counts positions as `u32`. What is no URL has no length.
pub open spec fn roomy(url: Seq<char>, segments: Seq<Seq<char>>) -> bool {
    parsed_url(url) matches Ok(whole) ==> byte_len(whole) + path_len(segments) <= u32::MAX
}

/// `url::PathSegmentsMut::pop_if_empty`, and the URL's text: a function of the URL alone. It panics
/// only where the URL's whole text outgrows `u32`.
#[verifier::external_body]
fn url_pop_if_empty(url: &str) -> (r: Option<String>)
    requires
        roomy(url@, seq![]),
    ensures
        crate::common::view_of(r) == popped_url(url@),
{
    let mut url = url::Url::parse(url).ok()?;
    url.path_segments_mut().ok()?.pop_if_empty();
    Some(String::from(url))
}

/// `url::PathSegmentsMut::extend`, and the URL's text: a function of the URL and the segments
/// alone. It panics only where the whole text outgrows `u32`: each segment goes behind a slash,
/// percent-encoded but for the characters that `plain_in_segment` tells.
#[verifier::external_body]
fn url_extend(url: &str, segments: &Vec<String>) -> (r: Option<String>)
    requires
        roomy(url@, views(segments@)),
    ensures
        crate::common::view_of(r) == extended_url(url@, views(segments@)),
{
    let mut url = url::Url::parse(url).ok()?;
    url.path_segments_mut().ok()?.extend(segments);
    Some(String::from(url))
}

/// `<url::Url as std::ops::Index>::index` up to `url::Position::AfterPath`, which leaves out the
/// query and the fragment: a function of the URL alone.
#[verifier::external_body]
fn url_before_query(url: &str) -> (r: Option<String>)
    ensures
        crate::common::view_of(r) == url_to_path(url@),
{
    url::Url::parse(url).ok().map(|url| url[..url::Position::AfterPath].to_owned())
}

/// `url::Url::scheme`: a function of the URL's text alone.
#[verifier::external_body]
fn url_scheme(url: &str) -> (r: Option<String>)
    ensures
        crate::common::view_of(r) == scheme_of_url(url@),
{
    url::Url::parse(url).ok().map(|url| url.scheme().to_owned())
}

/// The canonical text of a URL.
pub fn parse_url(text: &str) -> (r: Result<String, Error>)
    ensures
        match parsed_url(text@) {
            Ok(url) => r matches Ok(u) && u@ == url,
            Err(message) => r matches Err(e) && e@ == ErrorView::Url(message),
        },
{
    match url_parse(text) {
        Ok(url) => Ok(url),
        Err(message) => Err(Error::Url(message)),
    }
}

/// A reference, read against a base URL.
pub fn join_url(base: &str, reference: &str) -> (r: Result<String, Error>)
    ensures
        match joined_url(base@, reference@) {
            Ok(url) => r matches Ok(u) && u@ == url,
            Err(message) => r matches Err(e) && e@ == ErrorView::Url(message),
        },
{
    match url_join(base, reference) {
        Ok(url) => Ok(url),
        Err(message) => Err(Error::Url(message)),
    }
}

/// A URL with segments behind its path, which takes the place of an empty segment at its end; none
/// where the text is no URL, the URL has no path of segments, or the whole outgrows `u32`.
pub open spec fn extension(url: Seq<char>, segments: Seq<Seq<char>>) -> Option<Seq<char>> {
    if !roomy(url, seq![]) {
        None
    } else {
        match popped_url(url) {
            None => None,
            Some(popped) => if roomy(popped, segments) {
                extended_url(popped, segments)
            } else {
                None
            },
        }
    }
}

proof fn lemma_encoded_len_grows(segment: Seq<char>, k: int)
    requires
        0 <= k <= segment.len(),
    ensures
        0 <= encoded_len(segment.take(k)) <= encoded_len(segment),
    decreases segment.len(),
{
    if k == segment.len() {
        assert(segment.take(k) =~= segment);
        if k > 0 {
            lemma_encoded_len_grows(segment.drop_last(), 0);
            assert(segment.drop_last().take(0) =~= Seq::<char>::empty());
        }
    } else {
        assert(segment.drop_last().take(k) =~= segment.take(k));
        lemma_encoded_len_grows(segment.drop_last(), k);
    }
}

proof fn lemma_path_len_grows(segments: Seq<Seq<char>>, k: int)
    requires
        0 <= k <= segments.len(),
    ensures
        0 <= path_len(segments.take(k)) <= path_len(segments),
    decreases segments.len(),
{
    if segments.len() > 0 {
        lemma_encoded_len_grows(segments.last(), 0);
        assert(segments.last().take(0) =~= Seq::<char>::empty());
    }
    if k == segments.len() {
        assert(segments.take(k) =~= segments);
        if k > 0 {
            lemma_path_len_grows(segments.drop_last(), 0);
            assert(segments.drop_last().take(0) =~= Seq::<Seq<char>>::empty());
        }
    } else {
        assert(segments.drop_last().take(k) =~= segments.take(k));
        lemma_path_len_grows(segments.drop_last(), k);
    }
}

fn char_width(c: char) -> (width: u64)
    ensures
        width == encoded_width(c),
{
    let plain = '!' <= c && c <= '~' && c != '"' && c != '#' && c != '%' && c != '/' && c != '<'
        && c != '>' && c != '?' && c != '\\' && c != '`' && c != '{' && c != '}';
    if plain {
        1
    } else if (c as u32) < 0x80 {
        3
    } else if (c as u32) < 0x800 {
        6
    } else if (c as u32) < 0x10000 {
        9
    } else {
        12
    }
}

/// `start` and the bytes of a segment, where they fit into `u32`.
fn add_segment(start: u64, segment: &str) -> (r: Option<u64>)
    requires
        start <= u32::MAX,
    ensures
        match r {
            Some(total) => total == start + encoded_len(segment@) <= u32::MAX,
            None => start + encoded_len(segment@) > u32::MAX,
        },
{
    let chars = to_chars(segment);
    let ghost all = segment@;
    let mut total: u64 = start;
    let mut i: usize = 0;
    assert(all.take(0) =~= Seq::<char>::empty());
    while i < chars.len()
        invariant
            i <= chars@.len(),
            chars@ == all,
            all == segment@,
            total == start + encoded_len(all.take(i as int)),
            total <= u32::MAX,
        decreases chars@.len() - i,
    {
        proof {
            assert(all.take(i + 1).drop_last() =~= all.take(i as int));
            assert(all.take(i + 1).last() == chars@[i as int]);
            lemma_encoded_len_grows(all, i + 1);
        }
        total = total + char_width(chars[i]);
        if total > u32::MAX as u64 {
            return None;
        }
        i += 1;
    }
    assert(all.take(i as int) =~= all);
    Some(total)
}

fn has_room(url: &str, segments: &Vec<String>) -> (b: bool)
    ensures
        b == roomy(url@, views(segments@)),
{
    let whole = match url_parse(url) {
        Ok(whole) => whole,
        Err(_) => return true,
    };
    let ghost all = views(segments@);
    let mut total: u64 = bytes_of(whole.as_str()) as u64;
    let mut i: usize = 0;
    assert(all.take(0) =~= Seq::<Seq<char>>::empty());
    proof {
        lemma_path_len_grows(all, 0);
    }
    if total > u32::MAX as u64 {
        return false;
    }
    while i < segments.len()
        invariant
            i <= segments@.len(),
            all == views(segments@),
            parsed_url(url@) == Ok::<Seq<char>, Seq<char>>(whole@),
            total == byte_len(whole@) + path_len(all.take(i as int)),
            total <= u32::MAX,
        decreases segments@.len() - i,
    {
        proof {
            assert(all.take(i + 1).drop_last() =~= all.take(i as int));
            assert(all.take(i + 1).last() == segments@[i as int]@);
            lemma_path_len_grows(all, i + 1);
        }
        match add_segment(total, segments[i].as_str()) {
            Some(sum) if sum < u32::MAX as u64 => {
                total = sum + 1;
            },
            _ => return false,
        }
        i += 1;
    }
    assert(all.take(i as int) =~= all);
    true
}

/// A URL with segments behind its path.
pub fn extend_url(url: &str, segments: &Vec<String>) -> (r: Option<String>)
    ensures
        crate::common::view_of(r) == extension(url@, views(segments@)),
{
    let none: Vec<String> = Vec::new();
    assert(views(none@) =~= seq![]);
    if !has_room(url, &none) {
        return None;
    }
    let popped = match url_pop_if_empty(url) {
        Some(popped) => popped,
        None => return None,
    };
    if !has_room(popped.as_str(), segments) {
        return None;
    }
    url_extend(popped.as_str(), segments)
}

/// A URL below a base: the segments behind the path of the base, without its query and fragment.
/// The base has to be a URL that a path can be read against.
pub open spec fn below(base: Seq<char>, segments: Seq<Seq<char>>) -> Result<Seq<char>, ErrorView> {
    match parsed_url(base) {
        Err(message) => Err(ErrorView::Url(message)),
        Ok(base) => match joined_url(base, "/"@) {
            Err(message) => Err(ErrorView::Url(message)),
            Ok(_) => match url_to_path(base) {
                None => Err(ErrorView::Url("base URL cannot be extended"@)),
                Some(base) => match extension(base, segments) {
                    None => Err(ErrorView::Url("base URL cannot be extended"@)),
                    Some(url) => Ok(url),
                },
            },
        },
    }
}

/// A URL below a base.
pub fn url_below(base: &str, segments: &Vec<String>) -> (r: Result<String, Error>)
    ensures
        match below(base@, views(segments@)) {
            Ok(url) => r matches Ok(u) && u@ == url,
            Err(error) => r matches Err(e) && e@ == error,
        },
{
    let base = match parse_url(base) {
        Ok(base) => base,
        Err(error) => return Err(error),
    };
    if let Err(error) = join_url(base.as_str(), "/") {
        return Err(error);
    }
    let base = match url_before_query(base.as_str()) {
        Some(base) => base,
        None => return Err(Error::Url("base URL cannot be extended".to_owned())),
    };
    match extend_url(base.as_str(), segments) {
        Some(url) => Ok(url),
        None => Err(Error::Url("base URL cannot be extended".to_owned())),
    }
}

/// The scheme of a URL.
pub fn scheme(url: &str) -> (r: Option<String>)
    ensures
        crate::common::view_of(r) == scheme_of_url(url@),
{
    url_scheme(url)
}

} // verus!
