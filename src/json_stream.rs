use vstd::prelude::*;
use vstd::string::StringExecFns;

use crate::encoding::ContentEncoding;
use crate::error::JsonStreamError;
use crate::inflate::{decide, InflateFeed, InflateStep};
use crate::partial_json::{elements, json_accepts, PartialJson};
use crate::util::{text_of, utf8_text};

verus! {

/// The status of a response whose body is the JSON array.
pub const STATUS_OK: u16 = 200;

/// The status of a response with no content: an empty sequence.
pub const STATUS_NO_CONTENT: u16 = 204;

/// The most bytes reserved up front for the body of an error response.
pub const ERROR_BODY_RESERVE: usize = 4096;

/// Where a stream stands.
pub enum State {
    /// Waiting for the response.
    Connecting,
    /// Reading the body of a successful response; `feed` is present when the
    /// body is compressed and goes through the inflate engine.
    Collecting { json: PartialJson, feed: Option<InflateFeed> },
    /// Reading the body of an error response with this status.
    CollectingError { status: u16, body: Vec<u8> },
    /// An error to report on the next poll, after which the stream is done.
    Failing(JsonStreamError),
    /// Exhausted, for good.
    Done,
}

/// What a poll of the stream gives.
pub enum Output {
    /// The next element.
    Item(serde_json::Value),
    /// The error that ends the stream.
    Error(JsonStreamError),
    /// The stream is exhausted; every later poll says so too.
    Exhausted,
    /// The response must arrive first: hand it to `on_response`, or its failure
    /// to `on_transport_error`.
    AwaitResponse,
    /// The next body chunk must arrive first: hand it to `on_chunk` (or, for a
    /// compressed body, to the inflate engine and its steps to
    /// `on_inflate_step`), the end of the body to `on_body_end`, or a read
    /// failure to `on_transport_error`.
    AwaitChunk,
}

/// The decisions of a stream that decodes the elements of a JSON array from an
/// HTTP response, one poll at a time. The transport and the inflate engine are
/// driven by the caller, who reports what they did through the event methods.
pub struct JsonStream {
    state: State,
    capacity: usize,
    level: u32,
    received: Ghost<Seq<u8>>,
}

impl JsonStream {
    pub closed spec fn state(&self) -> State {
        self.state
    }

    /// The nesting level at which elements are taken.
    pub closed spec fn level(&self) -> nat {
        self.level as nat
    }

    /// The body bytes handed to `on_chunk` since the response arrived.
    pub closed spec fn received(&self) -> Seq<u8> {
        self.received@
    }

    pub closed spec fn wf(&self) -> bool {
        match self.state {
            State::Collecting { json, feed } => {
                &&& json.wf()
                &&& json.level() == self.level as nat
                &&& feed is None ==> json.stream() == self.received@
            },
            State::CollectingError { status: _, body } => body@ == self.received@,
            _ => true,
        }
    }

    pub open spec fn is_done(&self) -> bool {
        self.state() is Done
    }

    /// A stream that waits for its response. Elements are taken at nesting
    /// depth `level`; `capacity` is the initial size of the body buffer.
    pub fn new(level: u32, capacity: usize) -> (r: JsonStream)
        ensures
            r.wf(),
            r.state() is Connecting,
            r.level() == level as nat,
            r.received() == Seq::<u8>::empty(),
    {
        JsonStream { state: State::Connecting, capacity, level, received: Ghost(Seq::empty()) }
    }

    /// Whether the stream is exhausted for good.
    pub fn is_terminated(&self) -> (r: bool)
        ensures
            r == self.is_done(),
    {
        match self.state {
            State::Done => true,
            _ => false,
        }
    }

    /// Whether the body goes through the inflate engine.
    pub fn is_compressed(&self) -> (r: bool)
        ensures
            r == (self.state() matches State::Collecting { feed, .. } && feed is Some),
    {
        match &self.state {
            State::Collecting { json: _, feed: Some(_) } => true,
            _ => false,
        }
    }

    /// Where the input of the next inflate step starts in the current chunk.
    pub fn inflate_input_start(&self) -> (r: usize)
        ensures
            self.state() matches State::Collecting { feed: Some(f), .. } ==> r == f.fed(),
    {
        match &self.state {
            State::Collecting { json: _, feed: Some(f) } => f.input_start(),
            _ => 0,
        }
    }
}

impl JsonStream {
    /// Advances as far as it can without outside work and says what the caller
    /// gets: the next element, the error that ends the stream, exhaustion, or
    /// what must arrive before it can go on. Once done, it stays done and every
    /// poll says `Exhausted`: nothing is given twice.
    pub fn poll_output(&mut self) -> (r: Output)
        requires
            old(self).wf(),
        ensures
            final(self).wf(),
            final(self).level() == old(self).level(),
            final(self).received() == old(self).received(),
            match old(self).state() {
                State::Connecting => r is AwaitResponse && final(self).state() == old(self).state(),
                State::CollectingError { .. } => r is AwaitChunk && final(self).state() == old(self).state(),
                State::Failing(e) => r == Output::Error(e) && final(self).is_done(),
                State::Done => r is Exhausted && final(self).is_done(),
                State::Collecting { json, feed } => {
                    let all = elements(json.stream(), json.level());
                    let k = json.produced().len();
                    if k < all.len() {
                        if json_accepts(all[k as int]) {
                            &&& r is Item
                            &&& final(self).state() matches State::Collecting { json: j, feed: f }
                            &&& j.stream() == json.stream()
                            &&& j.produced() == json.produced().push(all[k as int])
                            &&& f == feed
                        } else {
                            &&& r matches Output::Error(JsonStreamError::JsonError(_))
                            &&& final(self).is_done()
                        }
                    } else {
                        &&& r is AwaitChunk
                        &&& final(self).state() matches State::Collecting { json: j, feed: f }
                        &&& j.stream() == json.stream()
                        &&& j.produced() == json.produced()
                        &&& f == feed
                    }
                },
            },
    {
        let mut st = State::Done;
        core::mem::swap(&mut st, &mut self.state);
        match st {
            State::Connecting => {
                self.state = State::Connecting;
                Output::AwaitResponse
            },
            State::CollectingError { status, body } => {
                self.state = State::CollectingError { status, body };
                Output::AwaitChunk
            },
            State::Failing(e) => Output::Error(e),
            State::Done => Output::Exhausted,
            State::Collecting { mut json, feed } => {
                match json.next() {
                    Ok(Some(v)) => {
                        self.state = State::Collecting { json, feed };
                        Output::Item(v)
                    },
                    Ok(None) => {
                        self.state = State::Collecting { json, feed };
                        Output::AwaitChunk
                    },
                    Err(e) => Output::Error(e),
                }
            },
        }
    }

    /// The response arrived with this status and these header values. A 200
    /// starts collecting elements, through the inflate engine when the body is
    /// gzip-encoded (the result is then `true`: the caller must set up the
    /// engine, and report a failure to do so with `on_engine_failure`). A 204
    /// ends the stream with no element. Any other status collects the body as
    /// the error's text, reserving at most 4096 bytes up front. Outside
    /// `Connecting` nothing changes.
    pub fn on_response(&mut self, status: u16, encoding: ContentEncoding, content_length: usize) -> (r:
        bool)
        requires
            old(self).wf(),
        ensures
            final(self).wf(),
            final(self).level() == old(self).level(),
            r == (old(self).state() is Connecting && status == STATUS_OK && encoding
                == ContentEncoding::Gzip),
            !(old(self).state() is Connecting) ==> final(self).state() == old(self).state()
                && final(self).received() == old(self).received(),
            old(self).state() is Connecting ==> final(self).received() == Seq::<u8>::empty(),
            old(self).state() is Connecting && status == STATUS_OK ==> (final(self).state() matches State::Collecting { json, feed }
                && json.stream() == Seq::<u8>::empty() && json.produced() == Seq::<Seq<u8>>::empty()
                && (feed is Some <==> encoding == ContentEncoding::Gzip) && (feed matches Some(f) ==> f.fed() == 0)),
            old(self).state() is Connecting && status == STATUS_NO_CONTENT ==> final(self).is_done(),
            old(self).state() is Connecting && status != STATUS_OK && status != STATUS_NO_CONTENT
                ==> (final(self).state() matches State::CollectingError { status: s, .. } && s == status),
    {
        match self.state {
            State::Connecting => {},
            _ => return false,
        }
        self.received = Ghost(Seq::empty());
        if status == STATUS_OK {
            let json = PartialJson::new(self.capacity, self.level);
            let gz = match encoding {
                ContentEncoding::Gzip => true,
                ContentEncoding::Identity => false,
            };
            let feed = if gz {
                Some(InflateFeed::new())
            } else {
                None
            };
            self.state = State::Collecting { json, feed };
            gz
        } else if status == STATUS_NO_CONTENT {
            self.state = State::Done;
            false
        } else {
            let size = if content_length < ERROR_BODY_RESERVE {
                content_length
            } else {
                ERROR_BODY_RESERVE
            };
            self.state = State::CollectingError { status, body: Vec::with_capacity(size) };
            false
        }
    }

    /// The inflate engine could not be set up for a compressed body: the
    /// stream fails with an encoding error. Elsewhere nothing changes.
    pub fn on_engine_failure(&mut self)
        requires
            old(self).wf(),
        ensures
            final(self).wf(),
            final(self).level() == old(self).level(),
            final(self).received() == old(self).received(),
            (old(self).state() matches State::Collecting { feed: Some(_), .. }) ==> (final(self).state() matches State::Failing(JsonStreamError::EncodingError(_))),
            !(old(self).state() matches State::Collecting { feed: Some(_), .. }) ==> final(self).state() == old(self).state(),
    {
        if self.is_compressed() {
            self.state = State::Failing(
                JsonStreamError::EncodingError(
                    String::from_str("the inflate engine could not be initialised"),
                ),
            );
        }
    }

    /// The transport failed, before the response or while reading its body:
    /// the stream ends with that error. A stream that already has an error to
    /// report, or is done, keeps what it has.
    pub fn on_transport_error(&mut self, e: JsonStreamError)
        requires
            old(self).wf(),
        ensures
            final(self).wf(),
            final(self).level() == old(self).level(),
            final(self).received() == old(self).received(),
            old(self).state() is Failing || old(self).state() is Done ==> final(self).state()
                == old(self).state(),
            !(old(self).state() is Failing || old(self).state() is Done) ==> final(self).state()
                == State::Failing(e),
    {
        match self.state {
            State::Failing(_) => {},
            State::Done => {},
            _ => {
                self.state = State::Failing(e);
            },
        }
    }

    /// A chunk of an uncompressed body arrived. While collecting elements it
    /// joins the extractor's bytes; while collecting an error response it joins
    /// the error text. Elsewhere, and for a compressed body, nothing changes.
    pub fn on_chunk(&mut self, bytes: &[u8])
        requires
            old(self).wf(),
        ensures
            final(self).wf(),
            final(self).level() == old(self).level(),
            match old(self).state() {
                State::Collecting { json, feed: None } => {
                    &&& final(self).received() == old(self).received() + bytes@
                    &&& final(self).state() matches State::Collecting { json: j, feed: None }
                    &&& j.stream() == json.stream() + bytes@
                    &&& j.produced() == json.produced()
                },
                State::CollectingError { status, .. } => {
                    &&& final(self).received() == old(self).received() + bytes@
                    &&& final(self).state() matches State::CollectingError { status: s, .. }
                    &&& s == status
                },
                _ => final(self).state() == old(self).state() && final(self).received() == old(
                    self).received(),
            },
    {
        match &mut self.state {
            State::Collecting { json, feed: None } => {
                json.push(bytes);
                self.received = Ghost(self.received@ + bytes@);
            },
            State::CollectingError { status: _, body } => {
                let ghost b0 = body@;
                let mut k: usize = 0;
                while k < bytes.len()
                    invariant
                        k <= bytes@.len(),
                        body@ == b0 + bytes@.take(k as int),
                    decreases bytes@.len() - k,
                {
                    body.push(bytes[k]);
                    k = k + 1;
                    assert(bytes@.take(k as int) =~= bytes@.take(k - 1).push(bytes@[k - 1]));
                }
                assert(bytes@.take(k as int) =~= bytes@);
                self.received = Ghost(self.received@ + bytes@);
            },
            _ => {},
        }
    }

    /// One step of the inflate engine on the current chunk of a compressed
    /// body: it reported `status`, consumed `consumed` of the input offered from
    /// `inflate_input_start()` on, and produced `produced` in an output window
    /// of `window` bytes. Unless the step fails, the output joins the
    /// extractor's bytes. A failed step ends the stream with an encoding error.
    /// Outside a compressed body the answer is `Failed` and nothing changes.
    pub fn on_inflate_step(
        &mut self,
        chunk_len: usize,
        status: i32,
        consumed: usize,
        produced: &[u8],
        window: usize,
    ) -> (r: InflateStep)
        requires
            old(self).wf(),
        ensures
            final(self).wf(),
            final(self).level() == old(self).level(),
            final(self).received() == old(self).received(),
            match old(self).state() {
                State::Collecting { json, feed: Some(f) } => {
                    let (d, fed) = decide(
                        f.fed(),
                        chunk_len as nat,
                        status,
                        consumed as nat,
                        produced@.len(),
                        window as nat,
                    );
                    &&& r == d
                    &&& d == InflateStep::Failed ==> (final(self).state() matches State::Failing(
                        JsonStreamError::EncodingError(_),
                    ))
                    &&& d != InflateStep::Failed ==> (final(self).state() matches State::Collecting {
                        json: j,
                        feed: Some(g),
                    } && j.stream() == json.stream() + produced@ && j.produced() == json.produced()
                        && g.fed() == fed)
                },
                _ => r == InflateStep::Failed && final(self).state() == old(self).state(),
            },
    {
        let mut st = State::Done;
        core::mem::swap(&mut st, &mut self.state);
        match st {
            State::Collecting { mut json, feed: Some(mut f) } => {
                let d = f.record(chunk_len, status, consumed, produced.len(), window);
                match d {
                    InflateStep::Failed => {
                        self.state = State::Failing(
                            JsonStreamError::EncodingError(
                                String::from_str("the compressed body could not be inflated"),
                            ),
                        );
                    },
                    _ => {
                        json.push(produced);
                        self.state = State::Collecting { json, feed: Some(f) };
                    },
                }
                d
            },
            other => {
                self.state = other;
                InflateStep::Failed
            },
        }
    }

    /// The body ended. Collecting elements, the stream is done: a trailing
    /// element that was never completed is not given. Collecting an error
    /// response, the whole body is read as UTF-8 text and reported as an API
    /// error with the response's status, or as malformed when it is not valid
    /// text. Elsewhere nothing changes.
    pub fn on_body_end(&mut self)
        requires
            old(self).wf(),
        ensures
            final(self).wf(),
            final(self).level() == old(self).level(),
            final(self).received() == old(self).received(),
            match old(self).state() {
                State::Collecting { .. } => final(self).is_done(),
                State::CollectingError { status, .. } => match utf8_text(old(self).received()) {
                    Some(t) => final(self).state() matches State::Failing(
                        JsonStreamError::ApiError(s, m),
                    ) && s == status && m@ == t,
                    None => final(self).state() matches State::Failing(
                        JsonStreamError::MalformedJson(_),
                    ),
                },
                _ => final(self).state() == old(self).state(),
            },
    {
        let mut st = State::Done;
        core::mem::swap(&mut st, &mut self.state);
        match st {
            State::Collecting { .. } => {},
            State::CollectingError { status, body } => {
                self.state = match text_of(body) {
                    Ok(t) => State::Failing(JsonStreamError::ApiError(status, t)),
                    Err(m) => State::Failing(JsonStreamError::MalformedJson(m)),
                };
            },
            other => {
                self.state = other;
            },
        }
    }

    /// The caller gives the stream up, for instance after an element that it
    /// could not use: the stream is done, and every later poll says so.
    pub fn close(&mut self)
        requires
            old(self).wf(),
        ensures
            final(self).wf(),
            final(self).is_done(),
            final(self).level() == old(self).level(),
            final(self).received() == old(self).received(),
    {
        self.state = State::Done;
    }
}

} // verus!
