//! What holds of providers: the headers and requests that they are sent, what they are asked about
//! a model, and what is made of their answers.

use vstd::prelude::*;

use vstd::utf8::valid_utf8;

use crate::chat::{MessageView, RequestView};
use crate::common::byte_len;
use crate::content::PartView;
use crate::error::ErrorView;
use crate::provider::body::{error_text, kept, longest_valid, shown_prefix, valid_end};
use crate::provider::capabilities::{capabilities_for, lookup_for, texts_of};
use crate::provider::capabilities::{AnswerView, LookupView};
use crate::provider::{extra_headers, header_name_of, header_value_ok, headers_for};
use crate::provider::{key_debug, key_from_store, request_for, wire_part, with_header};
use crate::provider::{CapabilitiesView, ConfigView, KeyView, ProviderKind, WirePartView};
use crate::text::{ascii_lower, lemma_first_position_unique};
use crate::tools::DefinitionView;
use crate::url_text::{below, encoded_len, extended_url, extension, joined_url, parsed_url};
use crate::url_text::{path_len, popped_url, url_to_path};
use crate::utf8::lossy_text;
use crate::value::{debug_quoted, Tree};

verus! {

// ---------------------------------------------------------------------------------------------
// Headers
// ---------------------------------------------------------------------------------------------

/// The value of a header, where it is sent.
pub open spec fn sent(headers: Seq<(Seq<char>, Seq<char>)>, name: Seq<char>) -> Option<Seq<char>>
    decreases headers.len(),
{
    if headers.len() == 0 {
        None
    } else if headers[0].0 == name {
        Some(headers[0].1)
    } else {
        sent(headers.drop_first(), name)
    }
}

/// Whether a text may be sent as a header's value.
pub open spec fn sendable(value: Seq<char>) -> bool {
    forall|i: int|
        0 <= i < value.len() ==> (#[trigger] value[i]) == '\t' || (value[i] as u32 >= 0x20
            && value[i] as u32 != 0x7f)
}

/// Whether a text is a header's name: letters, digits and the marks of a token.
pub open spec fn nameable(name: Seq<char>) -> bool {
    &&& 0 < name.len() <= 65535
    &&& forall|i: int|
        0 <= i < name.len() ==> {
            ||| 'a' <= (#[trigger] name[i]) <= 'z'
            ||| 'A' <= name[i] <= 'Z'
            ||| '0' <= name[i] <= '9'
            ||| seq![
                '!',
                '#',
                '$',
                '%',
                '&',
                '\'',
                '*',
                '+',
                '-',
                '.',
                '^',
                '_',
                '`',
                '|',
                '~',
            ].contains(name[i])
        }
}

proof fn lemma_nameable(name: Seq<char>)
    ensures
        nameable(name) <==> header_name_of(name) is Some,
        header_name_of(name) matches Some(lower) ==> lower == name.map_values(
            |c: char| ascii_lower(c),
        ),
{
    let marks = seq!['!', '#', '$', '%', '&', '\'', '*', '+', '-', '.', '^', '_', '`', '|', '~'];
    assert forall|c: char| marks.contains(c) <==> (c == '!' || c == '#' || c == '$' || c == '%' || c
        == '&' || c == '\'' || c == '*' || c == '+' || c == '-' || c == '.' || c == '^' || c == '_'
        || c == '`' || c == '|' || c == '~') by {
        assert(marks[0] == '!' && marks[1] == '#' && marks[2] == '$' && marks[3] == '%' && marks[4]
            == '&' && marks[5] == '\'' && marks[6] == '*' && marks[7] == '+' && marks[8] == '-'
            && marks[9] == '.' && marks[10] == '^' && marks[11] == '_' && marks[12] == '`'
            && marks[13] == '|' && marks[14] == '~');
    }
    if header_name_of(name) is Some {
        assert(nameable(name));
    }
    if nameable(name) {
        assert forall|i: int| 0 <= i < name.len() implies crate::provider::token_char(
            #[trigger] name[i],
        ) by {
            assert(marks.contains(name[i]) || 'a' <= name[i] <= 'z' || 'A' <= name[i] <= 'Z' || '0'
                <= name[i] <= '9');
        }
    }
}

proof fn lemma_with_header(
    headers: Seq<(Seq<char>, Seq<char>)>,
    name: Seq<char>,
    value: Seq<char>,
    other: Seq<char>,
)
    ensures
        sent(with_header(headers, name, value), name) == Some(value),
        other != name ==> sent(with_header(headers, name, value), other) == sent(headers, other),
    decreases headers.len(),
{
    let after = with_header(headers, name, value);
    if headers.len() == 0 {
        assert(after.drop_first() =~= seq![]);
        assert(sent(after.drop_first(), other) is None);
    } else if headers[0].0 == name {
        assert(after.drop_first() =~= headers.drop_first());
    } else {
        lemma_with_header(headers.drop_first(), name, value, other);
        assert(after.drop_first() =~= with_header(headers.drop_first(), name, value));
    }
}

/// The last value that is given under a name, in whatever case the name is written, or else
/// `before`.
pub open spec fn last_given(
    extra: Seq<(Seq<char>, Seq<char>)>,
    name: Seq<char>,
    before: Option<Seq<char>>,
) -> Option<Seq<char>>
    decreases extra.len(),
{
    if extra.len() == 0 {
        before
    } else if extra.last().0.map_values(|c: char| ascii_lower(c)) == name {
        Some(extra.last().1)
    } else {
        last_given(extra.drop_last(), name, before)
    }
}

proof fn lemma_extra(
    headers: Seq<(Seq<char>, Seq<char>)>,
    extra: Seq<(Seq<char>, Seq<char>)>,
    name: Seq<char>,
)
    ensures
        extra_headers(headers, extra) is Ok <==> forall|i: int|
            0 <= i < extra.len() ==> nameable((#[trigger] extra[i]).0) && sendable(extra[i].1),
        extra_headers(headers, extra) matches Ok(all) ==> sent(all, name) == last_given(
            extra,
            name,
            sent(headers, name),
        ),
    decreases extra.len(),
{
    if extra.len() > 0 {
        let front = extra.drop_last();
        lemma_extra(headers, front, name);
        lemma_nameable(extra.last().0);
        assert(header_value_ok(extra.last().1) == sendable(extra.last().1));
        if extra_headers(headers, extra) is Ok {
            assert forall|i: int| 0 <= i < extra.len() implies nameable((#[trigger] extra[i]).0)
                && sendable(extra[i].1) by {
                if i < front.len() {
                    assert(nameable(front[i].0) && sendable(front[i].1));
                }
            }
        }
        if forall|i: int|
            0 <= i < extra.len() ==> nameable((#[trigger] extra[i]).0) && sendable(extra[i].1) {
            assert(nameable(extra[extra.len() - 1].0) && sendable(extra[extra.len() - 1].1));
            assert forall|i: int| 0 <= i < front.len() implies nameable((#[trigger] front[i]).0)
                && sendable(front[i].1) by {
                assert(nameable(extra[i].0));
            }
        }
        if let Ok(before) = extra_headers(headers, front) {
            if let Some(lower) = header_name_of(extra.last().0) {
                lemma_with_header(before, lower, extra.last().1, name);
            }
        }
    }
}

/// A request is sent as JSON, with the key as a bearer token where there is one. The provider's own
/// headers come on top, a later one in place of an earlier one, whatever the case of its name. It
/// is refused only for a key, a name or a value that no header may hold.
pub proof fn headers_are_sent(config: ConfigView, api_key: Option<Seq<char>>, name: Seq<char>)
    ensures
        headers_for(config, api_key) is Ok <==> (api_key matches Some(key) ==> sendable(
            "Bearer "@ + key,
        )) && forall|i: int|
            0 <= i < config.headers.len() ==> nameable((#[trigger] config.headers[i]).0)
                && sendable(config.headers[i].1),
        headers_for(config, api_key) matches Ok(all) ==> sent(all, name) == last_given(
            config.headers,
            name,
            if name == "content-type"@ {
                Some("application/json"@)
            } else if name == "authorization"@ {
                match api_key {
                    Some(key) => Some("Bearer "@ + key),
                    None => None,
                }
            } else {
                None
            },
        ),
{
    reveal_strlit("content-type");
    reveal_strlit("authorization");
    assert("content-type"@.len() == 12 && "authorization"@.len() == 13);
    let first = seq![("content-type"@, "application/json"@)];
    assert(first.drop_first() =~= seq![]);
    assert(sent(first.drop_first(), name) is None);
    lemma_extra(first, config.headers, name);
    if let Some(key) = api_key {
        let both = first.push(("authorization"@, "Bearer "@ + key));
        let rest = seq![("authorization"@, "Bearer "@ + key)];
        assert(both.drop_first() =~= rest);
        assert(rest.drop_first() =~= seq![]);
        assert(sent(rest.drop_first(), name) is None);
        assert(sent(both, name) == if name == "content-type"@ {
            Some("application/json"@)
        } else {
            sent(rest, name)
        });
        lemma_extra(both, config.headers, name);
        assert(header_value_ok("Bearer "@ + key) == sendable("Bearer "@ + key));
    }
}

/// A key that is looked up is the one that is stored; where none is stored, that is told, and a
/// store that fails is told as it failed.
pub proof fn stored_keys_are_found(
    id: Seq<char>,
    key: Seq<char>,
    error: ErrorView,
)
    ensures
        key_from_store(id, Ok(Some(key))) == Ok::<Option<Seq<char>>, ErrorView>(Some(key)),
        key_from_store(id, Ok(None)) == Err::<Option<Seq<char>>, ErrorView>(
            ErrorView::MissingApiKey(id),
        ),
        key_from_store(id, Err(error)) == Err::<Option<Seq<char>>, ErrorView>(error),
{
}

/// A key is shown by where it is kept, and never itself.
pub proof fn keys_are_shown_by_their_place(key: Seq<char>)
    ensures
        key_debug(KeyView::NoKey) == "None"@,
        key_debug(KeyView::Literal(key)) == "Literal(\"[REDACTED]\")"@,
        key_debug(KeyView::Keyring(key)) == "Keyring("@ + debug_quoted(key) + ")"@,
{
}

/// A request holds the provider's model and reasoning, the messages and the tools, and nothing
/// else.
pub proof fn requests_hold_what_they_are_given(
    config: ConfigView,
    messages: Seq<MessageView>,
    tools: Seq<DefinitionView>,
)
    ensures
        request_for(config, messages, tools) == (RequestView {
            model: config.model,
            messages,
            tools,
            tool_choice: None,
            temperature_bits: None,
            max_tokens: None,
            reasoning: config.reasoning,
            response_format: None,
        }),
{
}

/// Only llama.cpp is sent videos in a form of its own.
pub proof fn videos_are_sent_to_llama_in_its_form(kind: ProviderKind, part: PartView)
    ensures
        wire_part(kind, part) == (if kind == ProviderKind::LlamaCpp && part is Video {
            WirePartView::InputVideo { url: part->Video_url }
        } else {
            WirePartView::Plain(part)
        }),
{
}

// ---------------------------------------------------------------------------------------------
// Capabilities
// ---------------------------------------------------------------------------------------------

/// OpenRouter is asked about a model by its author and its name, beside the chat endpoint; about
/// its automatic model, or one that is not named by two plain parts, it is not asked.
pub proof fn models_are_looked_up_by_author_and_name(
    config: ConfigView,
    author: Seq<char>,
    name: Seq<char>,
)
    requires
        config.kind == ProviderKind::OpenRouter,
        config.model == author.push('/') + name,
        !author.contains('/'),
    ensures
        ({
            let plain = |part: Seq<char>|
                part.len() > 0 && part != "."@ && part != ".."@ && !part.contains('/');
            let asked = config.model != "openrouter/auto"@ && plain(author) && plain(name);
            &&& !asked ==> lookup_for(config) == Ok::<LookupView, ErrorView>(
                LookupView::Unavailable,
            )
            &&& asked ==> match joined_url(config.url, "../model/"@) {
                Err(message) => lookup_for(config) == Err::<LookupView, ErrorView>(
                    ErrorView::Url(message),
                ),
                Ok(base) => match extension(base, seq![author, name]) {
                    None => lookup_for(config) == Err::<LookupView, ErrorView>(
                        ErrorView::Tool("provider URL cannot contain model paths"@),
                    ),
                    Some(url) => lookup_for(config) == Ok::<LookupView, ErrorView>(
                        LookupView::Fetch { url, model_query: None },
                    ),
                },
            }
        }),
{
    let model = config.model;
    assert(model[author.len() as int] == '/');
    assert forall|i: int| 0 <= i < author.len() implies model[i] != '/' by {
        assert(model[i] == author[i]);
        assert(author.contains(author[i]));
    }
    lemma_first_position_unique(model, '/', author.len() as int);
    assert(model.take(author.len() as int) =~= author);
    assert(model.skip(author.len() as int + 1) =~= name);
}

/// A model that names no author is not asked about; llama.cpp is asked for its properties, with
/// the model as a query; other providers are not asked.
pub proof fn other_lookups(config: ConfigView)
    ensures
        config.kind == ProviderKind::OpenAiCompatible ==> lookup_for(config) == Ok::<
            LookupView,
            ErrorView,
        >(LookupView::Unavailable),
        config.kind == ProviderKind::LlamaCpp ==> lookup_for(config) == (match joined_url(
            config.url,
            "../../props"@,
        ) {
            Ok(url) => Ok::<LookupView, ErrorView>(
                LookupView::Fetch { url, model_query: Some(config.model) },
            ),
            Err(message) => Err(ErrorView::Url(message)),
        }),
        config.kind == ProviderKind::OpenRouter && !config.model.contains('/') ==> lookup_for(
            config,
        ) == Ok::<LookupView, ErrorView>(LookupView::Unavailable),
{
    if !config.model.contains('/') {
        assert forall|i: int| 0 <= i < config.model.len() implies config.model[i] != '/' by {
            assert(config.model.contains(config.model[i]));
        }
        lemma_first_position_unique(config.model, '/', config.model.len() as int);
    }
}

/// llama.cpp's flags are told as modalities: text always, and behind it image, audio and video,
/// each where its own flag is true.
pub proof fn flags_are_told_as_modalities(config: ConfigView, body: Tree, name: Seq<char>)
    requires
        config.kind == ProviderKind::LlamaCpp,
        body.field("modalities"@) is Object,
    ensures
        ({
            let flags = body.field("modalities"@);
            let set = |key: Seq<char>| flags.get(key) == Some(Tree::Bool(true));
            let fine = |key: Seq<char>| flags.get(key) is None || flags.get(key)->0 is Bool;
            let one = |on: bool, text: Seq<char>|
                if on {
                    seq![text]
                } else {
                    seq![]
                };
            let answer = capabilities_for(config, AnswerView::Body(body));
            &&& answer is Ok <==> fine("vision"@) && fine("audio"@) && fine("video"@)
            &&& answer matches Ok(found) ==> found == Some(
                CapabilitiesView {
                    model: config.model,
                    modalities: seq!["text"@] + one(set("vision"@), "image"@) + one(
                        set("audio"@),
                        "audio"@,
                    ) + one(set("video"@), "video"@),
                },
            )
        }),
{
}

proof fn lemma_texts_of(items: Seq<Tree>)
    ensures
        texts_of(items) is Ok <==> forall|i: int| 0 <= i < items.len() ==> (#[trigger] items[i]) is Str,
        texts_of(items) matches Ok(texts) ==> texts.len() == items.len() && forall|i: int|
            0 <= i < items.len() ==> #[trigger] items[i] == Tree::Str(texts[i]),
    decreases items.len(),
{
    if items.len() > 0 {
        let front = items.drop_last();
        lemma_texts_of(front);
        if texts_of(items) is Ok {
            assert forall|i: int| 0 <= i < items.len() implies (#[trigger] items[i]) is Str by {
                if i < front.len() {
                    assert(front[i] is Str);
                }
            }
            let texts = texts_of(items)->Ok_0;
            assert forall|i: int| 0 <= i < items.len() implies #[trigger] items[i] == Tree::Str(
                texts[i],
            ) by {
                if i < front.len() {
                    assert(front[i] == Tree::Str(texts_of(front)->Ok_0[i]));
                }
            }
        }
        if forall|i: int| 0 <= i < items.len() ==> (#[trigger] items[i]) is Str {
            assert(items[items.len() - 1] is Str);
            assert forall|i: int| 0 <= i < front.len() implies (#[trigger] front[i]) is Str by {
                assert(items[i] is Str);
            }
        }
    }
}

/// OpenRouter's modalities are told as it lists them, all of them and in order; a list that holds
/// anything but strings is refused, and metadata without a list tells nothing.
pub proof fn listed_modalities_are_told(config: ConfigView, body: Tree)
    requires
        config.kind == ProviderKind::OpenRouter,
    ensures
        ({
            let list = body.field("data"@).field("architecture"@).field("input_modalities"@);
            let answer = capabilities_for(config, AnswerView::Body(body));
            &&& list is Null ==> answer == Ok::<Option<CapabilitiesView>, ErrorView>(None)
            &&& !(list is Null) && !(list is Array) ==> answer is Err
            &&& list matches Tree::Array(items) ==> {
                &&& answer is Ok <==> forall|i: int|
                    0 <= i < items.len() ==> (#[trigger] items[i]) is Str
                &&& answer matches Ok(found) ==> (found matches Some(capabilities) && {
                    &&& capabilities.model == config.model
                    &&& capabilities.modalities.len() == items.len()
                    &&& forall|i: int|
                        0 <= i < items.len() ==> #[trigger] items[i] == Tree::Str(
                            capabilities.modalities[i],
                        )
                })
            }
        }),
{
    let list = body.field("data"@).field("architecture"@).field("input_modalities"@);
    if let Tree::Array(items) = list {
        lemma_texts_of(items);
    }
}

/// Where there is no metadata, nothing is told; a compatible provider has none.
pub proof fn missing_metadata_tells_nothing(config: ConfigView, body: Tree)
    ensures
        capabilities_for(config, AnswerView::NotFound) == Ok::<Option<CapabilitiesView>, ErrorView>(
            None,
        ),
        config.kind == ProviderKind::OpenAiCompatible ==> capabilities_for(
            config,
            AnswerView::Body(body),
        ) == Ok::<Option<CapabilitiesView>, ErrorView>(None),
        config.kind == ProviderKind::LlamaCpp && body.field("modalities"@) is Null
            ==> capabilities_for(config, AnswerView::Body(body)) == Ok::<
            Option<CapabilitiesView>,
            ErrorView,
        >(None),
{
}

// ---------------------------------------------------------------------------------------------
// Bodies
// ---------------------------------------------------------------------------------------------

proof fn lemma_longest_valid(bytes: Seq<u8>, most: int) -> (n: int)
    requires
        0 <= most <= bytes.len(),
        forall|m: int| most < m <= bytes.len() ==> !#[trigger] valid_utf8(bytes.take(m)),
    ensures
        longest_valid(bytes, n),
    decreases most,
{
    if most == 0 {
        assert(bytes.take(0) =~= seq![]);
        assert(valid_utf8(Seq::<u8>::empty()));
        0
    } else if valid_utf8(bytes.take(most)) {
        most
    } else {
        lemma_longest_valid(bytes, most - 1)
    }
}

/// The body of an error is told whole up to sixteen kibibytes. Of a longer one, its beginning is
/// told, all of it within the limit but for a character that the limit cuts, and that it was cut.
pub proof fn error_bodies_are_cut_at_the_limit(body: Seq<u8>)
    ensures
        body.len() <= 16384 ==> kept(body) == body && error_text(body) == lossy_text(body),
        body.len() > 16384 ==> ({
            let shown = shown_prefix(body);
            &&& error_text(body) == lossy_text(shown)
                + "\n[Provider error body truncated at 16 KiB]"@
            &&& shown.len() <= 16384
            &&& shown == body.take(shown.len() as int)
            &&& valid_utf8(body.take(16384)) ==> shown.len() == 16384
            &&& valid_utf8(body) ==> valid_utf8(shown) && forall|m: int|
                shown.len() < m <= 16384 ==> !#[trigger] valid_utf8(body.take(m))
        }),
        body.len() > 16385 ==> kept(body) == body.take(16385),
        error_text(kept(body)) == error_text(body),
{
    if body.len() > 16384 {
        let prefix = body.take(16384);
        assert(kept(body).take(16384) =~= prefix);
        let n = lemma_longest_valid(prefix, 16384);
        assert(longest_valid(prefix, n));
        let end = valid_end(prefix);
        assert(longest_valid(prefix, end));
        assert(prefix.take(end) =~= body.take(end));
        if valid_utf8(body) {
            assert(body =~= prefix + body.skip(16384));
            assert(valid_utf8(prefix + body.skip(16384)));
            assert(crate::provider::body::extensible(prefix));
            let shown = shown_prefix(body);
            assert forall|m: int| shown.len() < m <= 16384 implies !#[trigger] valid_utf8(
                body.take(m),
            ) by {
                assert(prefix.take(m) =~= body.take(m));
            }
        }
    }
}

// ---------------------------------------------------------------------------------------------
// URLs
// ---------------------------------------------------------------------------------------------

/// A URL below a base is the base, read as a URL and cut to its path, with the segments behind it.
/// Where the base cannot be read, or nothing can stand below it, that is told.
pub proof fn urls_stand_below_their_base(base: Seq<char>, segments: Seq<Seq<char>>)
    ensures
        match parsed_url(base) {
            Err(message) => below(base, segments) == Err::<Seq<char>, ErrorView>(
                ErrorView::Url(message),
            ),
            Ok(url) => match (joined_url(url, "/"@), url_to_path(url)) {
                (Err(message), _) => below(base, segments) == Err::<Seq<char>, ErrorView>(
                    ErrorView::Url(message),
                ),
                (Ok(_), Some(path)) if extension(path, segments) is Some => below(base, segments)
                    == Ok::<Seq<char>, ErrorView>(extension(path, segments)->0),
                _ => below(base, segments) == Err::<Seq<char>, ErrorView>(
                    ErrorView::Url("base URL cannot be extended"@),
                ),
            },
        },
{
}

/// Segments go behind the path of a URL, in place of an empty last one, where the whole is short
/// enough; each of their characters takes one byte there, or three for each of its own.
pub proof fn segments_go_behind_the_path(url: Seq<char>, segments: Seq<Seq<char>>, text: Seq<char>)
    ensures
        ({
            let fits = |url: Seq<char>, more: int|
                parsed_url(url) matches Ok(whole) ==> byte_len(whole) + more <= u32::MAX;
            &&& !fits(url, 0) ==> extension(url, segments) is None
            &&& fits(url, 0) ==> (match popped_url(url) {
                None => extension(url, segments) is None,
                Some(base) => if fits(base, path_len(segments)) {
                    extension(url, segments) == extended_url(base, segments)
                } else {
                    extension(url, segments) is None
                },
            })
        }),
        path_len(segments.push(text)) == path_len(segments) + encoded_len(text) + 1,
        path_len(seq![]) == 0,
{
    assert(segments.push(text).drop_last() =~= segments);
    assert(path_len(Seq::<Seq<char>>::empty()) == 0);
}

} // verus!
