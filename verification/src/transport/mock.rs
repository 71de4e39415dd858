//! An in-memory transport for tests: it answers with canned replies, in the
//! order in which they were queued, and records the requests.
use vstd::prelude::*;
use vstd::utf8::*;

use crate::error::{new_error, Error, ErrorKind, ErrorView};
use crate::headers::{headers_view, HeadersView};
use crate::json::{json_parse_bytes, json_text, Json, JsonView};
use crate::model::{opt, views};
use crate::text::{cat, cat3, is_prefix, lower, starts_with};
use crate::transport::event_stream::{
    encode_message, encoded_headers, encoded_message, header_views, HeaderView,
};
use crate::transport::exchange::{
    bytes_of_text, lemma_plain_value, one_header, single_header, HttpRequest, HttpRequestView,
    HttpResponse, HttpResponseView,
};

verus! {

broadcast use {crate::model::group_views, crate::json::array_view};

enum CannedReply {
    Buffered(HttpResponse),
    Stream(CannedStream),
}

struct CannedStream {
    status: u16,
    headers: http::HeaderMap<http::HeaderValue>,
    chunks: Vec<Vec<u8>>,
    /// When set, the stream yields this transport error after the chunks.
    error_after: Option<ErrorKind>,
}

/// A canned reply.
#[verifier::ext_equal]
pub enum ReplyView {
    Buffered(HttpResponseView),
    Stream {
        status: u16,
        headers: HeadersView,
        chunks: Seq<Seq<u8>>,
        error_after: Option<ErrorKind>,
    },
}

impl View for CannedReply {
    type V = ReplyView;

    closed spec fn view(&self) -> ReplyView {
        match self {
            CannedReply::Buffered(response) => ReplyView::Buffered(response@),
            CannedReply::Stream(s) => ReplyView::Stream {
                status: s.status,
                headers: headers_view(s.headers),
                chunks: views(s.chunks@),
                error_after: s.error_after,
            },
        }
    }
}

/// A streaming response: its chunks, and the failure that follows them, if any.
pub struct MockStream {
    pub status: u16,
    pub headers: http::HeaderMap<http::HeaderValue>,
    pub chunks: Vec<Vec<u8>>,
    pub error: Option<Error>,
}

/// A streaming response: its chunks, and the failure that follows them, if any.
#[verifier::ext_equal]
pub struct MockStreamView {
    pub status: u16,
    pub headers: HeadersView,
    pub chunks: Seq<Seq<u8>>,
    pub error: Option<ErrorView>,
}

impl View for MockStream {
    type V = MockStreamView;

    open spec fn view(&self) -> MockStreamView {
        MockStreamView {
            status: self.status,
            headers: headers_view(self.headers),
            chunks: views(self.chunks@),
            error: opt(self.error),
        }
    }
}

/// An in-memory transport.
pub struct MockTransport {
    replies: Vec<CannedReply>,
    requests: Vec<HttpRequest>,
}

/// An in-memory transport: the replies that are left, and the requests so far.
#[verifier::ext_equal]
pub struct MockView {
    pub replies: Seq<ReplyView>,
    pub requests: Seq<HttpRequestView>,
}

impl View for MockTransport {
    type V = MockView;

    closed spec fn view(&self) -> MockView {
        MockView { replies: views(self.replies@), requests: views(self.requests@) }
    }
}

/// The failure where no reply is queued.
pub open spec fn unqueued() -> ErrorView {
    new_error(
        ErrorKind::Transport,
        "MockTransport: no canned reply queued for this request"@,
    )
}

/// All chunks in one.
pub open spec fn joined(chunks: Seq<Seq<u8>>) -> Seq<u8>
    decreases chunks.len(),
{
    if chunks.len() == 0 {
        Seq::empty()
    } else {
        joined(chunks.drop_last()) + chunks.last()
    }
}

/// What a buffered request gets of a reply.
pub open spec fn buffered_reply(reply: ReplyView) -> Result<HttpResponseView, ErrorView> {
    match reply {
        ReplyView::Buffered(response) => Ok(response),
        ReplyView::Stream { status, headers, chunks, error_after } => match error_after {
            Some(kind) => Err(new_error(kind, "MockTransport: injected transport error"@)),
            None => Ok(HttpResponseView { status, headers, body: joined(chunks) }),
        },
    }
}

/// What a streaming request gets of a reply.
pub open spec fn streamed_reply(reply: ReplyView) -> MockStreamView {
    match reply {
        ReplyView::Buffered(response) => MockStreamView {
            status: response.status,
            headers: response.headers,
            chunks: seq![response.body],
            error: None,
        },
        ReplyView::Stream { status, headers, chunks, error_after } => MockStreamView {
            status,
            headers,
            chunks,
            error: match error_after {
                Some(kind) => Some(new_error(kind, "MockTransport: injected stream error"@)),
                None => None,
            },
        },
    }
}

/// The body chunk of a Server-Sent Events frame: what neither names an event nor
/// is a comment is its data.
pub open spec fn sse_chunk(frame: Seq<char>) -> Seq<char> {
    if is_prefix("event:"@, frame) || is_prefix(":"@, frame) {
        frame + "\n\n"@
    } else {
        "data: "@ + frame + "\n\n"@
    }
}

/// The headers of an event message.
pub open spec fn event_headers(event_type: Seq<char>) -> Seq<HeaderView> {
    seq![
        (":event-type"@, event_type),
        (":content-type"@, "application/json"@),
        (":message-type"@, "event"@),
    ]
}

/// The headers of an exception message.
pub open spec fn exception_headers(exception_type: Seq<char>) -> Seq<HeaderView> {
    seq![
        (":exception-type"@, exception_type),
        (":content-type"@, "application/json"@),
        (":message-type"@, "exception"@),
    ]
}

/// The headers of an error message.
pub open spec fn error_headers(code: Seq<char>, message: Seq<char>) -> Seq<HeaderView> {
    seq![
        (":error-code"@, code),
        (":error-message"@, message),
        (":message-type"@, "error"@),
    ]
}

/// Whether memory can hold a message.
pub open spec fn can_encode(headers: Seq<HeaderView>, payload: Seq<u8>) -> bool {
    16 + encoded_headers(headers).len() + payload.len() <= usize::MAX
}

/// The type and payload of events.
pub open spec fn event_views(events: Seq<(&str, &[u8])>) -> Seq<(Seq<char>, Seq<u8>)> {
    Seq::new(events.len(), |i: int| (events[i].0@, events[i].1@))
}

/// The messages of events, one for each.
pub open spec fn event_messages(events: Seq<(Seq<char>, Seq<u8>)>) -> Seq<Seq<u8>> {
    Seq::new(events.len(), |i: int| encoded_message(event_headers(events[i].0), events[i].1))
}

/// Whether memory can hold the message of each event.
pub open spec fn can_encode_all(events: Seq<(Seq<char>, Seq<u8>)>) -> bool {
    forall|i: int|
        0 <= i < events.len() ==> can_encode(
            event_headers((#[trigger] events[i]).0),
            events[i].1,
        )
}

/// The reply of an AWS event stream.
pub open spec fn event_stream_reply(chunks: Seq<Seq<u8>>) -> ReplyView {
    ReplyView::Stream {
        status: 200,
        headers: one_header("content-type"@, "application/vnd.amazon.eventstream"@),
        chunks,
        error_after: None,
    }
}

fn content_type(value: &str) -> (r: http::HeaderMap<http::HeaderValue>)
    requires
        value@ == "application/json"@ || value@ == "text/event-stream"@ || value@
            == "application/vnd.amazon.eventstream"@,
    ensures
        headers_view(r) == one_header("content-type"@, value@),
{
    proof {
        reveal_strlit("content-type");
        reveal_strlit("application/json");
        reveal_strlit("text/event-stream");
        reveal_strlit("application/vnd.amazon.eventstream");
        assert(lower("content-type"@) =~= "content-type"@);
        lemma_plain_value(value@);
    }
    single_header("content-type", value)
}

fn event_chunks(events: &[(&str, &[u8])]) -> (r: Vec<Vec<u8>>)
    requires
        can_encode_all(event_views(events@)),
    ensures
        views(r@) == event_messages(event_views(events@)),
{
    let ghost all = event_views(events@);
    let mut chunks: Vec<Vec<u8>> = Vec::new();
    let mut i: usize = 0;
    while i < events.len()
        invariant
            i <= events@.len(),
            all == event_views(events@),
            can_encode_all(all),
            chunks@.len() == i,
            forall|k: int| 0 <= k < i ==> (#[trigger] chunks@[k])@ == event_messages(all)[k],
        decreases events@.len() - i,
    {
        let event_type: &str = events[i].0;
        let headers: [(&str, &str); 3] = [
            (":event-type", event_type),
            (":content-type", "application/json"),
            (":message-type", "event"),
        ];
        assert(header_views(headers@) =~= event_headers(all[i as int].0));
        chunks.push(encode_message(headers.as_slice(), events[i].1));
        i += 1;
    }
    assert(views(chunks@) =~= event_messages(all));
    chunks
}

impl MockTransport {
    /// No replies and no requests.
    pub fn new() -> (r: MockTransport)
        ensures
            r@ == (MockView { replies: Seq::empty(), requests: Seq::empty() }),
    {
        let r: MockTransport = MockTransport { replies: Vec::new(), requests: Vec::new() };
        assert(r@.replies =~= Seq::empty());
        assert(r@.requests =~= Seq::empty());
        r
    }

    fn push_reply(&mut self, reply: CannedReply)
        ensures
            final(self)@ == (MockView { replies: old(self)@.replies.push(reply@), ..old(self)@ }),
    {
        self.replies.push(reply);
        assert(self@.replies =~= old(self)@.replies.push(reply@));
    }

    /// Queue a JSON response.
    pub fn push_json(&mut self, status: u16, body: &Json)
        ensures
            final(self)@ == (MockView {
                replies: old(self)@.replies.push(
                    ReplyView::Buffered(
                        HttpResponseView {
                            status,
                            headers: one_header("content-type"@, "application/json"@),
                            body: encode_utf8(json_text(body@)),
                        },
                    ),
                ),
                ..old(self)@
            }),
    {
        let response: HttpResponse = HttpResponse {
            status,
            headers: content_type("application/json"),
            body: bytes_of_text(body.to_text().as_str()),
        };
        self.push_reply(CannedReply::Buffered(response));
    }

    /// Queue a raw-body response with headers.
    pub fn push_response(
        &mut self,
        status: u16,
        headers: http::HeaderMap<http::HeaderValue>,
        body: Vec<u8>,
    )
        ensures
            final(self)@ == (MockView {
                replies: old(self)@.replies.push(
                    ReplyView::Buffered(
                        HttpResponseView { status, headers: headers_view(headers), body: body@ },
                    ),
                ),
                ..old(self)@
            }),
    {
        self.push_reply(CannedReply::Buffered(HttpResponse { status, headers, body }));
    }

    /// Queue an SSE stream delivered as one chunk per `data:` frame.
    ///
    /// Each entry becomes `data: <entry>\n\n`. Prefix an entry with
    /// `"event: name\n"` yourself for named events, or use
    /// [`MockTransport::push_stream_chunks`] for full control.
    pub fn push_sse(&mut self, frames: &[&str])
        ensures
            final(self)@ == (MockView {
                replies: old(self)@.replies.push(
                    ReplyView::Stream {
                        status: 200,
                        headers: one_header("content-type"@, "text/event-stream"@),
                        chunks: Seq::new(
                            frames@.len(),
                            |i: int| encode_utf8(sse_chunk(frames@[i]@)),
                        ),
                        error_after: None,
                    },
                ),
                ..old(self)@
            }),
    {
        let mut chunks: Vec<Vec<u8>> = Vec::new();
        let mut i: usize = 0;
        while i < frames.len()
            invariant
                i <= frames@.len(),
                chunks@.len() == i,
                forall|k: int|
                    0 <= k < i ==> (#[trigger] chunks@[k])@ == encode_utf8(sse_chunk(frames@[k]@)),
            decreases frames@.len() - i,
        {
            let frame: &str = frames[i];
            let chunk: String = if starts_with(frame, "event:") || starts_with(frame, ":") {
                cat(frame, "\n\n")
            } else {
                cat3("data: ", frame, "\n\n")
            };
            chunks.push(bytes_of_text(chunk.as_str()));
            i += 1;
        }
        assert(views(chunks@) =~= Seq::new(
            frames@.len(),
            |i: int| encode_utf8(sse_chunk(frames@[i]@)),
        ));
        self.push_stream_chunks(200, content_type("text/event-stream"), chunks);
    }

    /// Queue an AWS event stream, one `(event type, payload)` message per
    /// entry and one message per chunk. Bedrock wraps each model event as
    /// `{"bytes": base64}` under the `chunk` event type.
    pub fn push_event_stream(&mut self, events: &[(&str, &[u8])])
        requires
            can_encode_all(event_views(events@)),
        ensures
            final(self)@ == (MockView {
                replies: old(self)@.replies.push(
                    event_stream_reply(event_messages(event_views(events@))),
                ),
                ..old(self)@
            }),
    {
        let chunks: Vec<Vec<u8>> = event_chunks(events);
        self.push_stream_chunks(200, content_type("application/vnd.amazon.eventstream"), chunks);
    }

    /// Queue an AWS event stream that ends with an exception message.
    pub fn push_event_stream_then_exception(
        &mut self,
        events: &[(&str, &[u8])],
        exception_type: &str,
        payload: &[u8],
    )
        requires
            can_encode_all(event_views(events@)),
            can_encode(exception_headers(exception_type@), payload@),
        ensures
            final(self)@ == (MockView {
                replies: old(self)@.replies.push(
                    event_stream_reply(
                        event_messages(event_views(events@)).push(
                            encoded_message(exception_headers(exception_type@), payload@),
                        ),
                    ),
                ),
                ..old(self)@
            }),
    {
        let mut chunks: Vec<Vec<u8>> = event_chunks(events);
        let ghost before = views(chunks@);
        let headers: [(&str, &str); 3] = [
            (":exception-type", exception_type),
            (":content-type", "application/json"),
            (":message-type", "exception"),
        ];
        assert(header_views(headers@) =~= exception_headers(exception_type@));
        let last: Vec<u8> = encode_message(headers.as_slice(), payload);
        let ghost end = last@;
        chunks.push(last);
        assert(views(chunks@) =~= before.push(end));
        self.push_stream_chunks(200, content_type("application/vnd.amazon.eventstream"), chunks);
    }

    /// Queue an AWS event stream that ends with an `error` message.
    ///
    /// Unlike an exception, an error carries no payload: its cause is the
    /// `:error-message` header, as plain text rather than JSON.
    pub fn push_event_stream_then_error(
        &mut self,
        events: &[(&str, &[u8])],
        error_code: &str,
        error_message: &str,
    )
        requires
            can_encode_all(event_views(events@)),
            can_encode(error_headers(error_code@, error_message@), Seq::empty()),
        ensures
            final(self)@ == (MockView {
                replies: old(self)@.replies.push(
                    event_stream_reply(
                        event_messages(event_views(events@)).push(
                            encoded_message(
                                error_headers(error_code@, error_message@),
                                Seq::empty(),
                            ),
                        ),
                    ),
                ),
                ..old(self)@
            }),
    {
        let mut chunks: Vec<Vec<u8>> = event_chunks(events);
        let ghost before = views(chunks@);
        let headers: [(&str, &str); 3] = [
            (":error-code", error_code),
            (":error-message", error_message),
            (":message-type", "error"),
        ];
        assert(header_views(headers@) =~= error_headers(error_code@, error_message@));
        let empty: Vec<u8> = Vec::new();
        assert(empty@ =~= Seq::empty());
        let last: Vec<u8> = encode_message(headers.as_slice(), empty.as_slice());
        let ghost end = last@;
        chunks.push(last);
        assert(views(chunks@) =~= before.push(end));
        self.push_stream_chunks(200, content_type("application/vnd.amazon.eventstream"), chunks);
    }

    /// Queue a streaming response with exact byte chunks.
    pub fn push_stream_chunks(
        &mut self,
        status: u16,
        headers: http::HeaderMap<http::HeaderValue>,
        chunks: Vec<Vec<u8>>,
    )
        ensures
            final(self)@ == (MockView {
                replies: old(self)@.replies.push(
                    ReplyView::Stream {
                        status,
                        headers: headers_view(headers),
                        chunks: views(chunks@),
                        error_after: None,
                    },
                ),
                ..old(self)@
            }),
    {
        self.push_reply(
            CannedReply::Stream(CannedStream { status, headers, chunks, error_after: None }),
        );
    }

    /// Queue a stream that fails with a transport error after delivering
    /// `chunks`. A buffered `execute` of this reply fails outright.
    pub fn push_stream_then_error(&mut self, chunks: Vec<Vec<u8>>, error: ErrorKind)
        ensures
            final(self)@ == (MockView {
                replies: old(self)@.replies.push(
                    ReplyView::Stream {
                        status: 200,
                        headers: one_header("content-type"@, "text/event-stream"@),
                        chunks: views(chunks@),
                        error_after: Some(error),
                    },
                ),
                ..old(self)@
            }),
    {
        self.push_reply(
            CannedReply::Stream(
                CannedStream {
                    status: 200,
                    headers: content_type("text/event-stream"),
                    chunks,
                    error_after: Some(error),
                },
            ),
        );
    }

    /// Every request executed so far, in order.
    pub fn requests(&self) -> (r: &Vec<HttpRequest>)
        ensures
            views(r@) == self@.requests,
    {
        &self.requests
    }

    /// The JSON body of the `index`-th recorded request; `None` when there is
    /// no such request, it has no body, or the body is not valid JSON.
    pub fn request_json(&self, index: usize) -> (r: Option<Json>)
        ensures
            opt(r) == if index < self@.requests.len() {
                match self@.requests[index as int].body {
                    Some(bytes) => match json_parse_bytes(bytes) {
                        Ok(v) => Some(v),
                        Err(_) => None,
                    },
                    None => None,
                }
            } else {
                None::<JsonView>
            },
    {
        assert(views(self.requests@).len() == self.requests@.len());
        if index >= self.requests.len() {
            return None;
        }
        assert(self@.requests[index as int] == self.requests@[index as int]@);
        match &self.requests[index].body {
            Some(bytes) => match Json::parse_bytes(bytes.as_slice()) {
                Ok(v) => Some(v),
                Err(_) => None,
            },
            None => None,
        }
    }

    fn next_reply(&mut self) -> (r: Result<CannedReply, Error>)
        ensures
            match r {
                Ok(reply) => old(self)@.replies.len() > 0 && reply@ == old(self)@.replies[0]
                    && final(self)@ == (MockView {
                    replies: old(self)@.replies.skip(1),
                    ..old(self)@
                }),
                Err(e) => old(self)@.replies.len() == 0 && e@ == unqueued() && final(self)@ == old(self)@,
            },
    {
        assert(views(self.replies@).len() == self.replies@.len());
        if self.replies.len() == 0 {
            return Err(
                Error::new(
                    ErrorKind::Transport,
                    "MockTransport: no canned reply queued for this request",
                ),
            );
        }
        let ghost all = self.replies@;
        let reply: CannedReply = self.replies.remove(0);
        assert(self@.replies =~= old(self)@.replies.skip(1));
        Ok(reply)
    }

    fn record(&mut self, request: HttpRequest)
        ensures
            final(self)@ == (MockView {
                requests: old(self)@.requests.push(request@),
                ..old(self)@
            }),
    {
        self.requests.push(request);
        assert(self@.requests =~= old(self)@.requests.push(request@));
    }

    /// Records a request and answers it with the next reply, in one buffer.
    pub fn execute(&mut self, request: HttpRequest) -> (r: Result<HttpResponse, Error>)
        ensures
            final(self)@.requests == old(self)@.requests.push(request@),
            old(self)@.replies.len() == 0 ==> final(self)@.replies.len() == 0 && (r matches Err(e) && e@ == unqueued()),
            old(self)@.replies.len() > 0 ==> final(self)@.replies == old(self)@.replies.skip(1)
                && match buffered_reply(old(self)@.replies[0]) {
                Ok(response) => r matches Ok(got) && got@ == response,
                Err(error) => r matches Err(e) && e@ == error,
            },
    {
        self.record(request);
        match self.next_reply() {
            Ok(CannedReply::Buffered(response)) => Ok(response),
            Ok(CannedReply::Stream(s)) => match s.error_after {
                Some(kind) => Err(Error::new(kind, "MockTransport: injected transport error")),
                None => {
                    let body: Vec<u8> = join_chunks(&s.chunks);
                    Ok(HttpResponse { status: s.status, headers: s.headers, body })
                },
            },
            Err(e) => Err(e),
        }
    }

    /// Records a request and answers it with the next reply, chunk by chunk.
    pub fn stream(&mut self, request: HttpRequest) -> (r: Result<MockStream, Error>)
        ensures
            final(self)@.requests == old(self)@.requests.push(request@),
            old(self)@.replies.len() == 0 ==> final(self)@.replies.len() == 0 && (r matches Err(e) && e@ == unqueued()),
            old(self)@.replies.len() > 0 ==> final(self)@.replies == old(self)@.replies.skip(1)
                && (r matches Ok(got) && got@ == streamed_reply(old(self)@.replies[0])),
    {
        self.record(request);
        match self.next_reply() {
            Ok(CannedReply::Buffered(response)) => {
                let mut chunks: Vec<Vec<u8>> = Vec::new();
                let ghost body = response.body@;
                chunks.push(response.body);
                assert(views(chunks@) =~= seq![body]);
                Ok(
                    MockStream {
                        status: response.status,
                        headers: response.headers,
                        chunks,
                        error: None,
                    },
                )
            },
            Ok(CannedReply::Stream(s)) => {
                let error: Option<Error> = match s.error_after {
                    Some(kind) => Some(Error::new(kind, "MockTransport: injected stream error")),
                    None => None,
                };
                Ok(MockStream { status: s.status, headers: s.headers, chunks: s.chunks, error })
            },
            Err(e) => Err(e),
        }
    }
}

fn join_chunks(chunks: &Vec<Vec<u8>>) -> (r: Vec<u8>)
    ensures
        r@ == joined(views(chunks@)),
{
    let ghost all = views(chunks@);
    let mut body: Vec<u8> = Vec::new();
    let mut i: usize = 0;
    assert(all.take(0) =~= Seq::empty());
    while i < chunks.len()
        invariant
            i <= chunks@.len(),
            all == views(chunks@),
            all.len() == chunks@.len(),
            body@ == joined(all.take(i as int)),
        decreases chunks@.len() - i,
    {
        let ghost before = body@;
        assert(all[i as int] == chunks@[i as int]@);
        body.extend_from_slice(chunks[i].as_slice());
        assert(body@ =~= before + all[i as int]);
        assert(all.take(i + 1).drop_last() =~= all.take(i as int));
        i += 1;
    }
    assert(all.take(i as int) =~= all);
    body
}

impl Default for MockTransport {
    fn default() -> (r: MockTransport)
        ensures
            r@ == (MockView { replies: Seq::empty(), requests: Seq::empty() }),
    {
        MockTransport::new()
    }
}

} // verus!
