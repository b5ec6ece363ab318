//! Reading the chunks of a streamed response up to its end mark.

use vstd::prelude::*;

use crate::common::{lemma_views_push, views};
use crate::error::{Error, ErrorView};
use crate::streaming::sse::{FeedView, SseDecoder, SseView};
use crate::streaming::sse::sse_feed;
use crate::text::{first_position, lemma_first_position, lemma_first_position_unique, same_text};

verus! {

broadcast use lemma_views_push;

/// What ends a streamed response.
pub const END_MARK: &'static str = "[DONE]";

/// Reads the chunks of a streamed response.
pub struct ChunkReader {
    decoder: SseDecoder,
    done: bool,
}

/// The model of a [`ChunkReader`].
pub struct ReaderView {
    pub decoder: SseView,
    pub done: bool,
}

impl View for ChunkReader {
    type V = ReaderView;

    closed spec fn view(&self) -> ReaderView {
        ReaderView { decoder: self.decoder@, done: self.done }
    }
}

/// The events before the end mark.
pub open spec fn before_mark(events: Seq<Seq<char>>) -> Seq<Seq<char>> {
    events.take(first_position(events, END_MARK@))
}

impl ReaderView {
    /// The decoder is well-formed.
    pub open spec fn wf(self) -> bool {
        self.decoder.wf()
    }
}

impl Default for ChunkReader {
    fn default() -> (reader: Self)
        ensures
            reader@.wf(),
            reader@ == (ReaderView { decoder: SseView::initial(), done: false }),
    {
        ChunkReader { decoder: SseDecoder::default(), done: false }
    }
}

impl ChunkReader {
    /// Take the next bytes of a response, and return the texts of the chunks that they complete.
    /// What follows the end mark is passed over.
    pub fn feed(&mut self, bytes: &[u8]) -> (r: Result<Vec<String>, Error>)
        requires
            old(self)@.wf(),
        ensures
            final(self)@.wf(),
            if old(self)@.done {
                (r matches Ok(chunks) && chunks@.len() == 0) && final(self)@ == old(self)@
            } else {
                match sse_feed(old(self)@.decoder, bytes@) {
                    FeedView::Done(decoder, events) => {
                        &&& r matches Ok(chunks) && views(chunks@) == before_mark(events)
                        &&& final(self)@ == (ReaderView {
                            decoder,
                            done: events.contains(END_MARK@),
                        })
                    },
                    FeedView::Failed(decoder, message) => {
                        &&& r matches Err(e) && e@ == ErrorView::Stream(message)
                        &&& final(self)@ == (ReaderView { decoder, done: false })
                    },
                }
            },
    {
        if self.done {
            return Ok(Vec::new());
        }
        let events = match self.decoder.feed(bytes) {
            Ok(events) => events,
            Err(e) => {
                return Err(e);
            },
        };
        let ghost all = views(events@);
        let mut chunks: Vec<String> = Vec::new();
        let mut i: usize = 0;
        while i < events.len() && !same_text(events[i].as_str(), END_MARK)
            invariant
                i <= events@.len(),
                all == views(events@),
                views(chunks@) =~= all.take(i as int),
                forall|j: int| 0 <= j < i ==> all[j] != END_MARK@,
            decreases events@.len() - i,
        {
            assert(all[i as int] == events@[i as int]@);
            chunks.push(events[i].clone());
            i += 1;
        }
        self.done = i < events.len();
        proof {
            if i < events.len() {
                assert(all[i as int] == events@[i as int]@);
            }
            lemma_first_position_unique(all, END_MARK@, i as int);
        }
        Ok(chunks)
    }

    /// Whether the end mark was read.
    pub fn is_done(&self) -> (b: bool)
        ensures
            b == self@.done,
    {
        self.done
    }
}

/// Nothing behind the end mark is ever read.
pub proof fn the_end_mark_is_the_end(events: Seq<Seq<char>>, more: Seq<Seq<char>>)
    requires
        events.contains(END_MARK@),
    ensures
        before_mark(events + more) == before_mark(events),
        !before_mark(events).contains(END_MARK@),
{
    let n = first_position(events, END_MARK@);
    lemma_first_position(events, END_MARK@);
    assert(n < events.len()) by {
        let i = choose|i: int| 0 <= i < events.len() && events[i] == END_MARK@;
        assert(events[i] == END_MARK@);
    }
    assert forall|i: int| 0 <= i < n implies (events + more)[i] != END_MARK@ by {
        assert((events + more)[i] == events[i]);
    }
    lemma_first_position_unique(events + more, END_MARK@, n);
    assert((events + more).take(n) =~= events.take(n));
}

} // verus!
