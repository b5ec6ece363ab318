//! Bounded reading of response bodies.

use vstd::prelude::*;

use vstd::utf8::{decode_utf8, valid_utf8};

use crate::error::{Error, ErrorView};
use crate::json_value::{parse_value, parsed_value};
use crate::utf8::{from_utf8_lossy, lossy_text};
use crate::value::Json;

verus! {

/// Limit on a successful response.
pub const MAX_RESPONSE_BYTES: usize = 10 * 1024 * 1024;

/// Limit on the body of an error response.
pub const MAX_ERROR_BODY_BYTES: usize = 16 * 1024;

// ---------------------------------------------------------------------------------------------
// UTF-8
// ---------------------------------------------------------------------------------------------

/// Whether the first `n` bytes are the longest valid prefix.
pub open spec fn longest_valid(bytes: Seq<u8>, n: int) -> bool {
    &&& 0 <= n <= bytes.len()
    &&& valid_utf8(bytes.take(n))
    &&& forall|m: int| n < m <= bytes.len() ==> !#[trigger] valid_utf8(bytes.take(m))
}

/// Whether bytes are the beginning of valid UTF-8.
pub open spec fn extensible(bytes: Seq<u8>) -> bool {
    exists|more: Seq<u8>| #[trigger] valid_utf8(bytes + more)
}

/// `std::str::from_utf8`'s error: none for valid bytes; else `valid_up_to`, the end of the longest
/// valid prefix, and whether `error_len` is `None`, that is, whether the input ended unexpectedly:
/// whether more bytes could make it valid.
#[verifier::external_body]
fn utf8_error(bytes: &[u8]) -> (r: Option<(usize, bool)>)
    ensures
        match r {
            None => valid_utf8(bytes@),
            Some((valid_up_to, cut)) => {
                &&& !valid_utf8(bytes@)
                &&& longest_valid(bytes@, valid_up_to as int)
                &&& cut == extensible(bytes@)
            },
        },
{
    std::str::from_utf8(bytes).err().map(|error| (error.valid_up_to(), error.error_len().is_none()))
}

// ---------------------------------------------------------------------------------------------
// Error bodies
// ---------------------------------------------------------------------------------------------

/// The bounded prefix of an error response's body. One byte beyond the limit tells a full body
/// from a truncated one.
pub struct ErrorBody {
    bytes: Vec<u8>,
}

impl View for ErrorBody {
    type V = Seq<u8>;

    closed spec fn view(&self) -> Seq<u8> {
        self.bytes@
    }
}

/// The part of a body that is kept.
pub open spec fn kept(body: Seq<u8>) -> Seq<u8> {
    if body.len() > MAX_ERROR_BODY_BYTES + 1 {
        body.take(MAX_ERROR_BODY_BYTES + 1)
    } else {
        body
    }
}

/// The bytes of a truncated body that are shown: those within the limit, without a character that
/// the limit cuts.
pub open spec fn shown_prefix(body: Seq<u8>) -> Seq<u8> {
    let prefix = body.take(MAX_ERROR_BODY_BYTES as int);
    if !valid_utf8(prefix) && extensible(prefix) {
        prefix.take(valid_end(prefix))
    } else {
        prefix
    }
}

/// The end of the longest valid prefix.
pub open spec fn valid_end(bytes: Seq<u8>) -> int {
    choose|n: int| longest_valid(bytes, n)
}

/// The whole characters of a body that lie within the limit.
pub open spec fn whole_prefix(body: Seq<u8>) -> Seq<u8> {
    let prefix = body.take(MAX_ERROR_BODY_BYTES as int);
    prefix.take(valid_end(prefix))
}

/// The text of an error response's body.
pub open spec fn error_text(body: Seq<u8>) -> Seq<char> {
    if body.len() > MAX_ERROR_BODY_BYTES {
        lossy_text(shown_prefix(body)) + "\n[Provider error body truncated at 16 KiB]"@
    } else {
        lossy_text(body)
    }
}

proof fn lemma_longest_valid_unique(bytes: Seq<u8>, m: int, n: int)
    requires
        longest_valid(bytes, m),
        longest_valid(bytes, n),
    ensures
        m == n,
{
    if m < n {
        assert(!valid_utf8(bytes.take(n)));
    } else if n < m {
        assert(!valid_utf8(bytes.take(m)));
    }
}

impl ErrorBody {
    /// Before the first chunk.
    pub fn new() -> (body: Self)
        ensures
            body@ == Seq::<u8>::empty(),
    {
        ErrorBody { bytes: Vec::new() }
    }

    /// Take the next chunk, and return whether more is needed.
    pub fn take(&mut self, chunk: &[u8]) -> (more: bool)
        requires
            old(self)@.len() <= MAX_ERROR_BODY_BYTES + 1,
        ensures
            final(self)@ == kept(old(self)@ + chunk@),
            more == (final(self)@.len() <= MAX_ERROR_BODY_BYTES),
            final(self)@.len() <= MAX_ERROR_BODY_BYTES + 1,
    {
        let ghost before = self.bytes@;
        let mut i: usize = 0;
        while i < chunk.len() && self.bytes.len() <= MAX_ERROR_BODY_BYTES
            invariant
                i <= chunk@.len(),
                before.len() <= MAX_ERROR_BODY_BYTES + 1,
                self.bytes@ == before + chunk@.take(i as int),
                self.bytes@.len() <= MAX_ERROR_BODY_BYTES + 1,
            decreases chunk@.len() - i,
        {
            self.bytes.push(chunk[i]);
            assert(before + chunk@.take(i + 1) =~= (before + chunk@.take(i as int)).push(
                chunk@[i as int],
            ));
            i += 1;
        }
        proof {
            if i == chunk@.len() {
                assert(chunk@.take(i as int) =~= chunk@);
                if (before + chunk@).len() > MAX_ERROR_BODY_BYTES + 1 {
                    assert(false);
                }
            } else {
                assert(self.bytes@ =~= (before + chunk@).take(MAX_ERROR_BODY_BYTES + 1));
                if (before + chunk@).len() == MAX_ERROR_BODY_BYTES + 1 {
                    assert(self.bytes@ =~= before + chunk@);
                }
            }
        }
        self.bytes.len() <= MAX_ERROR_BODY_BYTES
    }

    /// The error of a response with the status, and this body.
    pub fn into_error(self, status: u16) -> (error: Error)
        requires
            self@.len() <= MAX_ERROR_BODY_BYTES + 1,
        ensures
            error@ == (ErrorView::Provider { status, body: error_text(self@) }),
            // a valid body within the limit is kept as it is
            self@.len() <= MAX_ERROR_BODY_BYTES && valid_utf8(self@) ==> error@->Provider_body
                == decode_utf8(self@),
            // a valid body beyond it is cut between two characters
            self@.len() > MAX_ERROR_BODY_BYTES && extensible(
                self@.take(MAX_ERROR_BODY_BYTES as int),
            ) ==> error@->Provider_body == decode_utf8(whole_prefix(self@))
                + "\n[Provider error body truncated at 16 KiB]"@,
    {
        let mut bytes = self.bytes;
        let ghost all = bytes@;
        if bytes.len() <= MAX_ERROR_BODY_BYTES {
            let body = from_utf8_lossy(bytes.as_slice());
            proof {
                vstd::utf8::encode_utf8_decode_utf8(body@);
            }
            return Error::Provider { status, body };
        }
        bytes.truncate(MAX_ERROR_BODY_BYTES);
        assert(bytes@ =~= all.take(MAX_ERROR_BODY_BYTES as int));
        let failure = utf8_error(bytes.as_slice());
        proof {
            if failure is None {
                let prefix = bytes@;
                assert(prefix.take(prefix.len() as int) =~= prefix);
                assert(longest_valid(prefix, prefix.len() as int));
                lemma_longest_valid_unique(prefix, prefix.len() as int, valid_end(prefix));
            }
        }
        if let Some((valid_up_to, cut)) = failure {
            if cut {
                let ghost prefix = bytes@;
                proof {
                    lemma_longest_valid_unique(prefix, valid_up_to as int, valid_end(prefix));
                }
                bytes.truncate(valid_up_to);
                assert(bytes@ =~= prefix.take(valid_up_to as int));
            }
        }
        let mut body = from_utf8_lossy(bytes.as_slice());
        proof {
            vstd::utf8::encode_utf8_decode_utf8(body@);
        }
        body.append("\n[Provider error body truncated at 16 KiB]");
        Error::Provider { status, body }
    }
}

// ---------------------------------------------------------------------------------------------
// Successful bodies
// ---------------------------------------------------------------------------------------------

/// The body of a successful response.
pub struct ResponseBody {
    bytes: Vec<u8>,
}

impl View for ResponseBody {
    type V = Seq<u8>;

    closed spec fn view(&self) -> Seq<u8> {
        self.bytes@
    }
}

/// The error of a response that is too large.
pub open spec fn too_large() -> ErrorView {
    ErrorView::ProviderResponseTooLarge { limit: MAX_RESPONSE_BYTES }
}

impl ResponseBody {
    /// Before the first chunk, for a response that announces the given length, where it does.
    pub fn new(announced: Option<u64>) -> (r: Result<Self, Error>)
        ensures
            match r {
                Ok(body) => body@ == Seq::<u8>::empty() && !(announced matches Some(n) && n
                    > MAX_RESPONSE_BYTES),
                Err(e) => e@ == too_large() && (announced matches Some(n) && n
                    > MAX_RESPONSE_BYTES),
            },
    {
        match announced {
            Some(n) => if n > MAX_RESPONSE_BYTES as u64 {
                return Err(Error::ProviderResponseTooLarge { limit: MAX_RESPONSE_BYTES });
            },
            None => {},
        }
        Ok(ResponseBody { bytes: Vec::new() })
    }

    /// Take the next chunk.
    pub fn take(&mut self, chunk: &[u8]) -> (r: Result<(), Error>)
        requires
            old(self)@.len() <= MAX_RESPONSE_BYTES,
        ensures
            final(self)@.len() <= MAX_RESPONSE_BYTES,
            match r {
                Ok(()) => final(self)@ == old(self)@ + chunk@,
                Err(e) => e@ == too_large() && old(self)@.len() + chunk@.len() > MAX_RESPONSE_BYTES
                    && final(self)@ == old(self)@,
            },
    {
        if chunk.len() > MAX_RESPONSE_BYTES - self.bytes.len() {
            return Err(Error::ProviderResponseTooLarge { limit: MAX_RESPONSE_BYTES });
        }
        let ghost before = self.bytes@;
        self.bytes.extend_from_slice(chunk);
        assert(self.bytes@ =~= before + chunk@);
        Ok(())
    }

    /// The value that the whole body holds.
    pub fn into_json(self) -> (r: Result<Json, Error>)
        ensures
            match parsed_value(self@) {
                Ok(tree) => r matches Ok(json) && json@ == tree,
                Err(message) => r matches Err(e) && e@ == ErrorView::Json(message),
            },
    {
        parse_value(self.bytes.as_slice())
    }
}

// ---------------------------------------------------------------------------------------------
// Laws
// ---------------------------------------------------------------------------------------------

/// However a body is cut into chunks, what is kept of it is the same.
pub proof fn chunks_of_an_error_body_do_not_matter(a: Seq<u8>, b: Seq<u8>, c: Seq<u8>)
    ensures
        kept(kept(a + b) + c) == kept(a + (b + c)),
{
    assert((a + b) + c =~= a + (b + c));
    if (a + b).len() > MAX_ERROR_BODY_BYTES + 1 {
        assert((kept(a + b) + c).take(MAX_ERROR_BODY_BYTES + 1) =~= (a + (b + c)).take(
            MAX_ERROR_BODY_BYTES + 1,
        ));
        if c.len() == 0 {
            assert(kept(a + b) + c =~= kept(a + b));
            assert(kept(a + b).take(MAX_ERROR_BODY_BYTES + 1) =~= kept(a + b));
        }
    }
}

} // verus!
