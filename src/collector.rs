//! Reassembles a frame from chunks that an operator hands over one at a time.
//!
//! The operator's side (reading a line, scanning an image, asking whether to
//! go on) stays outside: it hands each result to `Collector::step` as an
//! `Event`, and the collector decides what follows. Chunks carry no index, so
//! their order is the operator's to keep.

use vstd::prelude::*;
use vstd::utf8::encode_utf8;
use crate::transport::base64_decode;
use crate::transport::unbase64_of;
use crate::frame::chunk_at;
use crate::frame::chunk_count;
use crate::frame::chunks_of;
use crate::frame::concat_all;
use crate::frame::lemma_chunks_rejoin;

verus! {

/// The ASCII lower case of a byte; other bytes stay as they are.
pub open spec fn ascii_lower(b: u8) -> u8 {
    if 65 <= b && b <= 90 {
        (b + 32) as u8
    } else {
        b
    }
}

/// `text` equals the lower-case ASCII `word`, ignoring ASCII case.
pub open spec fn equals_ignoring_case(text: Seq<u8>, word: Seq<u8>) -> bool {
    &&& text.len() == word.len()
    &&& forall|i: int| 0 <= i < text.len() ==> ascii_lower(#[trigger] text[i]) == word[i]
}

/// The bytes of `done`, which ends a collection.
pub open spec fn done_word() -> Seq<u8> {
    seq![100u8, 111u8, 110u8, 101u8]
}

/// The bytes of `n`, the answer that declines.
pub open spec fn no_word() -> Seq<u8> {
    seq![110u8]
}

fn ascii_lower_byte(b: u8) -> (r: u8)
    ensures
        r == ascii_lower(b),
{
    if 65 <= b && b <= 90 {
        b + 32
    } else {
        b
    }
}

fn matches_ignoring_case(text: &str, word: &[u8]) -> (r: bool)
    ensures
        r == equals_ignoring_case(encode_utf8(text@), word@),
{
    let bytes = text.as_bytes();
    if bytes.len() != word.len() {
        return false;
    }
    let mut i: usize = 0;
    while i < bytes.len()
        invariant
            i <= bytes@.len(),
            bytes@.len() == word@.len(),
            bytes@ == encode_utf8(text@),
            forall|k: int| 0 <= k < i ==> ascii_lower(#[trigger] bytes@[k]) == word@[k],
        decreases bytes@.len() - i,
    {
        if ascii_lower_byte(bytes[i]) != word[i] {
            return false;
        }
        i = i + 1;
    }
    true
}

/// Whether `text` is the word that ends a collection, `done` in any case.
pub fn is_sentinel(text: &str) -> (r: bool)
    ensures
        r == equals_ignoring_case(encode_utf8(text@), done_word()),
{
    let word: [u8; 4] = [100u8, 111u8, 110u8, 101u8];
    assert(word@ =~= done_word());
    matches_ignoring_case(text, word.as_slice())
}

/// Whether an answer to "continue with the next chunk?" stops the
/// collection: `n` or `done`, in any case.
pub fn wants_stop(answer: &str) -> (r: bool)
    ensures
        r == (equals_ignoring_case(encode_utf8(answer@), no_word())
            || equals_ignoring_case(encode_utf8(answer@), done_word())),
{
    let no: [u8; 1] = [110u8];
    assert(no@ =~= no_word());
    matches_ignoring_case(answer, no.as_slice()) || is_sentinel(answer)
}

/// Whether an answer to "try again?" gives up: `n`, in any case.
pub fn declines_retry(answer: &str) -> (r: bool)
    ensures
        r == equals_ignoring_case(encode_utf8(answer@), no_word()),
{
    let no: [u8; 1] = [110u8];
    assert(no@ =~= no_word());
    matches_ignoring_case(answer, no.as_slice())
}

/// Where the collection stands.
#[derive(Debug, Clone, Copy, PartialEq, Eq, Structural)]
pub enum Phase {
    /// Waiting for the next chunk's text.
    AwaitingInput,
    /// A chunk was appended; waiting for the answer to "go on?".
    AwaitingContinue,
    /// No text could be acquired; waiting for the answer to "try again?".
    AwaitingRetry,
    /// The collection is over.
    Done,
}

/// What the operator's side hands to the collector.
#[derive(Debug, Clone)]
pub enum Event {
    /// The text of a chunk (pasted, or read from an image), or the sentinel.
    Acquired(String),
    /// No text could be acquired (no QR symbol found, image not readable).
    NotAcquired,
    /// The operator's answer to the question asked last.
    Answer(String),
}

/// What the collector did with an event, for the operator to be told.
#[derive(Debug, Clone, Copy, PartialEq, Eq, Structural)]
pub enum Report {
    /// The collection is over.
    Finished,
    /// A chunk of this many bytes was appended.
    Appended(usize),
    /// The text was not valid base64; nothing was appended.
    InvalidEncoding,
    /// Nothing was acquired; ask whether to try again.
    AskRetry,
    /// Go on with the next chunk.
    Resume,
    /// The event does not fit the phase; nothing changed.
    Ignored,
}

/// Chunks decoded so far, in the order received, and the phase.
pub struct Collector {
    buffer: Vec<u8>,
    phase: Phase,
    confirm: bool,
}

impl Collector {
    /// The bytes collected so far.
    pub closed spec fn collected(&self) -> Seq<u8> {
        self.buffer@
    }

    /// Where the collection stands.
    pub closed spec fn phase_of(&self) -> Phase {
        self.phase
    }

    /// Whether each appended chunk is followed by the question "go on?".
    pub closed spec fn confirms(&self) -> bool {
        self.confirm
    }

    /// An empty collection awaiting its first chunk.
    pub fn new(confirm_each: bool) -> (r: Collector)
        ensures
            r.collected() == Seq::<u8>::empty(),
            r.phase_of() == Phase::AwaitingInput,
            r.confirms() == confirm_each,
    {
        Collector { buffer: Vec::new(), phase: Phase::AwaitingInput, confirm: confirm_each }
    }

    /// The bytes collected so far.
    pub fn bytes(&self) -> (r: &Vec<u8>)
        ensures
            r@ == self.collected(),
    {
        &self.buffer
    }

    /// Gives up the collected bytes.
    pub fn into_bytes(self) -> (r: Vec<u8>)
        ensures
            r@ == self.collected(),
    {
        self.buffer
    }

    /// Where the collection stands.
    pub fn phase(&self) -> (r: Phase)
        ensures
            r == self.phase_of(),
    {
        self.phase
    }

    /// Takes one event and moves to the next phase. Text that is not valid
    /// base64 leaves the bytes as they were.
    pub fn step(&mut self, event: &Event) -> (r: Report)
        ensures
            final(self).confirms() == old(self).confirms(),
            match (old(self).phase_of(), event) {
                (Phase::AwaitingInput, Event::Acquired(text)) => {
                    if equals_ignoring_case(encode_utf8(text@), done_word()) {
                        &&& r == Report::Finished
                        &&& final(self).phase_of() == Phase::Done
                        &&& final(self).collected() == old(self).collected()
                    } else {
                        match unbase64_of(text@) {
                            Some(b) => {
                                &&& r == Report::Appended(b.len() as usize)
                                &&& final(self).collected() == old(self).collected() + b
                                &&& final(self).phase_of() == if old(self).confirms() {
                                    Phase::AwaitingContinue
                                } else {
                                    Phase::AwaitingInput
                                }
                            },
                            None => {
                                &&& r == Report::InvalidEncoding
                                &&& final(self).phase_of() == Phase::AwaitingInput
                                &&& final(self).collected() == old(self).collected()
                            },
                        }
                    }
                },
                (Phase::AwaitingInput, Event::NotAcquired) => {
                    &&& r == Report::AskRetry
                    &&& final(self).phase_of() == Phase::AwaitingRetry
                    &&& final(self).collected() == old(self).collected()
                },
                (Phase::AwaitingContinue, Event::Answer(answer)) => {
                    let stop = equals_ignoring_case(encode_utf8(answer@), no_word())
                        || equals_ignoring_case(encode_utf8(answer@), done_word());
                    &&& r == if stop { Report::Finished } else { Report::Resume }
                    &&& final(self).phase_of() == if stop { Phase::Done } else { Phase::AwaitingInput }
                    &&& final(self).collected() == old(self).collected()
                },
                (Phase::AwaitingRetry, Event::Answer(answer)) => {
                    let stop = equals_ignoring_case(encode_utf8(answer@), no_word());
                    &&& r == if stop { Report::Finished } else { Report::Resume }
                    &&& final(self).phase_of() == if stop { Phase::Done } else { Phase::AwaitingInput }
                    &&& final(self).collected() == old(self).collected()
                },
                _ => {
                    &&& r == Report::Ignored
                    &&& final(self).phase_of() == old(self).phase_of()
                    &&& final(self).collected() == old(self).collected()
                },
            },
    {
        match (self.phase, event) {
            (Phase::AwaitingInput, Event::Acquired(text)) => {
                if is_sentinel(text.as_str()) {
                    self.phase = Phase::Done;
                    return Report::Finished;
                }
                match base64_decode(text.as_str()) {
                    Some(bytes) => {
                        let n = bytes.len();
                        self.buffer.extend_from_slice(bytes.as_slice());
                        self.phase = if self.confirm {
                            Phase::AwaitingContinue
                        } else {
                            Phase::AwaitingInput
                        };
                        Report::Appended(n)
                    },
                    None => Report::InvalidEncoding,
                }
            },
            (Phase::AwaitingInput, Event::NotAcquired) => {
                self.phase = Phase::AwaitingRetry;
                Report::AskRetry
            },
            (Phase::AwaitingContinue, Event::Answer(answer)) => {
                if wants_stop(answer.as_str()) {
                    self.phase = Phase::Done;
                    Report::Finished
                } else {
                    self.phase = Phase::AwaitingInput;
                    Report::Resume
                }
            },
            (Phase::AwaitingRetry, Event::Answer(answer)) => {
                if declines_retry(answer.as_str()) {
                    self.phase = Phase::Done;
                    Report::Finished
                } else {
                    self.phase = Phase::AwaitingInput;
                    Report::Resume
                }
            },
            _ => Report::Ignored,
        }
    }
}

/// Whether a text is the sentinel that ends a collection.
pub open spec fn is_done_text(text: Seq<char>) -> bool {
    equals_ignoring_case(encode_utf8(text), done_word())
}

/// What a collection without confirmations gathers from texts handed over in
/// order: the decoded bytes of each, skipping text that is not base64, up to
/// the first sentinel.
pub open spec fn collected_from(texts: Seq<Seq<char>>) -> Seq<u8>
    decreases texts.len(),
{
    if texts.len() == 0 || is_done_text(texts[0]) {
        Seq::empty()
    } else {
        match unbase64_of(texts[0]) {
            Some(b) => b + collected_from(texts.drop_first()),
            None => collected_from(texts.drop_first()),
        }
    }
}

/// The characters of each text.
pub open spec fn texts_view(texts: Seq<String>) -> Seq<Seq<char>> {
    texts.map_values(|t: String| t@)
}

/// Runs a collection without confirmations over texts handed over in order,
/// as if the operator pasted each one, and gives the bytes collected.
pub fn collect_texts(texts: &Vec<String>) -> (r: Vec<u8>)
    ensures
        r@ == collected_from(texts_view(texts@)),
{
    let ghost views = texts_view(texts@);
    let mut collector = Collector::new(false);
    let mut i: usize = 0;
    assert(views.skip(0) =~= views);
    assert(Seq::<u8>::empty() + collected_from(views) =~= collected_from(views));
    while i < texts.len() && collector.phase() != Phase::Done
        invariant
            i <= texts@.len(),
            views == texts_view(texts@),
            !collector.confirms(),
            collector.phase_of() == Phase::AwaitingInput || collector.phase_of() == Phase::Done,
            collector.phase_of() == Phase::AwaitingInput
                ==> collector.collected() + collected_from(views.skip(i as int)) == collected_from(views),
            collector.phase_of() == Phase::Done ==> collector.collected() == collected_from(views),
        decreases texts@.len() - i,
    {
        let text = texts[i].clone();
        proof {
            let rest = views.skip(i as int);
            assert(rest[0] == text@);
            assert(rest.drop_first() =~= views.skip(i + 1));
        }
        collector.step(&Event::Acquired(text));
        proof {
            if collector.phase_of() == Phase::AwaitingInput {
                assert(collector.collected() + collected_from(views.skip(i + 1))
                    =~= collected_from(views));
            }
        }
        i = i + 1;
    }
    proof {
        if collector.phase_of() == Phase::AwaitingInput {
            assert(views.skip(i as int).len() == 0);
            assert(collector.collected() + Seq::<u8>::empty() =~= collector.collected());
        }
    }
    collector.into_bytes()
}

proof fn lemma_concat_prepend(first: Seq<u8>, rest: Seq<Seq<u8>>)
    ensures
        concat_all(seq![first] + rest) == first + concat_all(rest),
    decreases rest.len(),
{
    if rest.len() == 0 {
        assert(seq![first] + rest =~= seq![first]);
        assert(seq![first].drop_last() =~= Seq::<Seq<u8>>::empty());
        assert(concat_all(Seq::<Seq<u8>>::empty()) == Seq::<u8>::empty());
        assert(concat_all(seq![first]) == concat_all(seq![first].drop_last()) + seq![first].last());
        assert(Seq::<u8>::empty() + first =~= first);
        assert(first + Seq::<u8>::empty() =~= first);
    } else {
        lemma_concat_prepend(first, rest.drop_last());
        let whole = seq![first] + rest;
        assert(whole.drop_last() =~= seq![first] + rest.drop_last());
        assert(whole.last() == rest.last());
        assert(concat_all(whole) == concat_all(whole.drop_last()) + whole.last());
        assert(first + concat_all(rest.drop_last()) + rest.last()
            =~= first + (concat_all(rest.drop_last()) + rest.last()));
    }
}

proof fn lemma_collected_all_decode(texts: Seq<Seq<char>>)
    requires
        forall|i: int| 0 <= i < texts.len() ==> (#[trigger] unbase64_of(texts[i])) is Some,
        forall|i: int| 0 <= i < texts.len() ==> !is_done_text(#[trigger] texts[i]),
    ensures
        collected_from(texts) == concat_all(texts.map_values(|t: Seq<char>| unbase64_of(t)->0)),
    decreases texts.len(),
{
    let parts = texts.map_values(|t: Seq<char>| unbase64_of(t)->0);
    if texts.len() == 0 {
        assert(parts.len() == 0);
    } else {
        let rest = texts.drop_first();
        assert forall|i: int| 0 <= i < rest.len() implies (#[trigger] unbase64_of(rest[i])) is Some by {
            assert(rest[i] == texts[i + 1]);
        }
        assert forall|i: int| 0 <= i < rest.len() implies !is_done_text(#[trigger] rest[i]) by {
            assert(rest[i] == texts[i + 1]);
        }
        lemma_collected_all_decode(rest);
        assert(unbase64_of(texts[0]) is Some);
        assert(!is_done_text(texts[0]));
        assert(parts =~= seq![parts[0]] + rest.map_values(|t: Seq<char>| unbase64_of(t)->0));
        lemma_concat_prepend(parts[0], rest.map_values(|t: Seq<char>| unbase64_of(t)->0));
    }
}

/// Handing over, in order, the texts of every chunk that `emit_chunks` gives
/// for `frame` collects `frame` exactly, provided no chunk's text is itself
/// the sentinel (a chunk of three bytes can encode as `done`).
pub proof fn lemma_relayed_chunks_rejoin(frame: Seq<u8>, chunk_size: nat, texts: Seq<Seq<char>>)
    requires
        chunk_size >= 1,
        texts.len() == chunk_count(frame.len(), chunk_size),
        forall|i: int| 0 <= i < texts.len() ==> unbase64_of(#[trigger] texts[i]) == Some(chunk_at(frame, chunk_size, i)),
        forall|i: int| 0 <= i < texts.len() ==> !is_done_text(#[trigger] texts[i]),
    ensures
        collected_from(texts) == frame,
{
    assert forall|i: int| 0 <= i < texts.len() implies (#[trigger] unbase64_of(texts[i])) is Some by {
        assert(unbase64_of(texts[i]) == Some(chunk_at(frame, chunk_size, i)));
    }
    lemma_collected_all_decode(texts);
    lemma_chunks_rejoin(frame, chunk_size);
    assert(texts.map_values(|t: Seq<char>| unbase64_of(t)->0) =~= chunks_of(frame, chunk_size));
}

} // verus!
