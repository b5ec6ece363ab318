//! Merging of partial objects: fragments are joined, other fields replaced.

use vstd::prelude::*;

use crate::common::views;
use crate::error::{stream_error, Error, ErrorView};
use crate::text::{concat3, contains_string, same_text};
use crate::value::{assigned, entry_views, get_entry, lemma_object, lookup, set_entry, Json, Tree};

verus! {

/// The entries of an object while a delta is merged into it, and why the merge stopped, where it
/// did.
pub struct Merged {
    pub entries: Seq<(Seq<char>, Tree)>,
    pub error: Option<Seq<char>>,
}

/// What one field of a delta does: the index and null fields nothing; a fragment is joined to the
/// text so far; any other field replaces the earlier value.
pub open spec fn merge_field(
    entries: Seq<(Seq<char>, Tree)>,
    key: Seq<char>,
    value: Tree,
    fragments: Seq<Seq<char>>,
) -> Merged {
    if key == "index"@ || value is Null {
        Merged { entries, error: None }
    } else if !fragments.contains(key) {
        Merged { entries: assigned(entries, key, value), error: None }
    } else {
        match (value, lookup(entries, key)) {
            (Tree::Str(text), None) => Merged {
                entries: assigned(entries, key, Tree::Str(text)),
                error: None,
            },
            (Tree::Str(text), Some(Tree::Str(earlier))) => Merged {
                entries: assigned(entries, key, Tree::Str(earlier + text)),
                error: None,
            },
            (Tree::Str(_), Some(_)) => Merged {
                entries,
                error: Some("mixed "@ + key + " delta types"@),
            },
            _ => Merged { entries, error: Some("invalid "@ + key + " delta"@) },
        }
    }
}

/// What the fields of a delta do, in order, up to the first that cannot be merged.
pub open spec fn merge_fields(
    entries: Seq<(Seq<char>, Tree)>,
    fields: Seq<(Seq<char>, Tree)>,
    fragments: Seq<Seq<char>>,
) -> Merged
    decreases fields.len(),
{
    if fields.len() == 0 {
        Merged { entries, error: None }
    } else {
        let before = merge_fields(entries, fields.drop_last(), fragments);
        if before.error is Some {
            before
        } else {
            merge_field(before.entries, fields.last().0, fields.last().1, fragments)
        }
    }
}

/// What a delta does: it has to be an object.
pub open spec fn merged(
    entries: Seq<(Seq<char>, Tree)>,
    delta: Tree,
    fragments: Seq<Seq<char>>,
) -> Merged {
    match delta {
        Tree::Object(fields) => merge_fields(entries, fields, fragments),
        _ => Merged { entries, error: Some("expected an object delta"@) },
    }
}

proof fn lemma_merge_stops(
    entries: Seq<(Seq<char>, Tree)>,
    fields: Seq<(Seq<char>, Tree)>,
    fragments: Seq<Seq<char>>,
    k: int,
)
    requires
        0 <= k <= fields.len(),
        merge_fields(entries, fields.take(k), fragments).error is Some,
    ensures
        merge_fields(entries, fields, fragments) == merge_fields(
            entries,
            fields.take(k),
            fragments,
        ),
    decreases fields.len(),
{
    if k == fields.len() {
        assert(fields.take(k) =~= fields);
    } else {
        assert(fields.drop_last().take(k) =~= fields.take(k));
        lemma_merge_stops(entries, fields.drop_last(), fragments, k);
    }
}

fn merge_one(
    entries: &mut Vec<(String, Json)>,
    key: &str,
    value: &Json,
    fragments: &Vec<String>,
) -> (r: Result<(), Error>)
    ensures
        ({
            let m = merge_field(entry_views(old(entries)@), key@, value@, views(fragments@));
            &&& entry_views(final(entries)@) == m.entries
            &&& match m.error {
                Some(message) => r matches Err(e) && e@ == ErrorView::Stream(message),
                None => r is Ok,
            }
        }),
{
    if same_text(key, "index") {
        return Ok(());
    }
    if let Json::Null = value {
        return Ok(());
    }
    if !contains_string(fragments, key) {
        set_entry(entries, key, crate::common::Duplicate::duplicate(value));
        return Ok(());
    }
    let text = match value {
        Json::Str(text) => text,
        _ => return Err(Error::Stream(concat3("invalid ", key, " delta"))),
    };
    let combined = match get_entry(entries, key) {
        None => text.clone(),
        Some(Json::Str(earlier)) => {
            let mut combined = earlier.clone();
            combined.append(text.as_str());
            combined
        },
        Some(_) => return Err(Error::Stream(concat3("mixed ", key, " delta types"))),
    };
    set_entry(entries, key, Json::Str(combined));
    Ok(())
}

/// Merge a delta into the entries of an object.
pub fn merge_object(
    entries: &mut Vec<(String, Json)>,
    delta: &Json,
    fragments: &Vec<String>,
) -> (r: Result<(), Error>)
    ensures
        ({
            let m = merged(entry_views(old(entries)@), delta@, views(fragments@));
            &&& entry_views(final(entries)@) == m.entries
            &&& match m.error {
                Some(message) => r matches Err(e) && e@ == ErrorView::Stream(message),
                None => r is Ok,
            }
        }),
{
    let fields = match delta {
        Json::Object(fields) => fields,
        _ => return Err(stream_error("expected an object delta")),
    };
    let ghost start = entry_views(entries@);
    let ghost all = entry_views(fields@);
    let ghost joined = views(fragments@);
    proof {
        lemma_object(*fields);
    }
    let mut i: usize = 0;
    while i < fields.len()
        invariant
            i <= fields@.len(),
            start == entry_views(old(entries)@),
            all == entry_views(fields@),
            delta@ == Tree::Object(all),
            joined == views(fragments@),
            merge_fields(start, all.take(i as int), joined) == (Merged {
                entries: entry_views(entries@),
                error: None,
            }),
        decreases fields@.len() - i,
    {
        proof {
            assert(all.take(i + 1).drop_last() =~= all.take(i as int));
            assert(all.take(i + 1).last() == (fields@[i as int].0@, fields@[i as int].1@));
        }
        match merge_one(entries, fields[i].0.as_str(), &fields[i].1, fragments) {
            Ok(()) => {},
            Err(error) => {
                proof {
                    lemma_merge_stops(start, all, joined, i + 1);
                }
                return Err(error);
            },
        }
        i += 1;
    }
    assert(all.take(i as int) =~= all);
    Ok(())
}

/// Two fragments of one field arrive joined.
pub proof fn fragments_are_joined(
    entries: Seq<(Seq<char>, Tree)>,
    key: Seq<char>,
    first: Seq<char>,
    second: Seq<char>,
    fragments: Seq<Seq<char>>,
)
    requires
        key != "index"@,
        fragments.contains(key),
        lookup(entries, key) is None || lookup(entries, key)->0 is Str,
    ensures
        ({
            let once = merge_field(entries, key, Tree::Str(first), fragments);
            let twice = merge_field(once.entries, key, Tree::Str(second), fragments);
            &&& once.error is None
            &&& twice.error is None
            &&& lookup(twice.entries, key) == Some(
                Tree::Str(
                    (match lookup(entries, key) {
                        Some(earlier) => earlier.text_or_empty(),
                        None => seq![],
                    }) + first + second,
                ),
            )
        }),
{
    let once = merge_field(entries, key, Tree::Str(first), fragments);
    let joined = match lookup(entries, key) {
        Some(earlier) => earlier.text_or_empty() + first,
        None => first,
    };
    crate::value::assignment_is_read_back(entries, key, Tree::Str(joined), key);
    crate::value::assignment_is_read_back(once.entries, key, Tree::Str(joined + second), key);
    assert(Seq::<char>::empty() + first =~= first);
}

} // verus!
