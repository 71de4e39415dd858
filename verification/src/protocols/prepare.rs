//! Preparing requests.
use vstd::prelude::*;
use vstd::utf8::*;

use crate::address::{join_url, joined_url, url_host};
use crate::capabilities::{CapabilitiesView, ModelCapabilities};
use crate::error::{Error, ErrorView};
use crate::headers::{
    applied_upto, can_be_value, count_names, headers_view, insert_value, is_name,
    lists, name_from, new_headers, no_headers, try_apply_headers, value_from, HeadersView, MAX_HEADERS,
};
use crate::ids::{is_hex, is_hyphenated_uuid, some_hyphenated_uuid};
use crate::json::{json_text, Json};
use crate::model::{opt, views};
use crate::protocols::handler::{can_lower, lower_request, lowered};
use crate::protocols::lower::{LoweredRequest, LoweredView};
use crate::protocols::restrict::{restrict_request, restricted, restriction_warnings};
use crate::protocols::validate::{
    attributed, bad_option, failure, options_verdict, request_failure, validate,
};
use crate::protocols::ApiProfile;
use crate::request::{Request, RequestView};
use crate::response::Warning;
use crate::text::lower;
use crate::transport::exchange::{
    bytes_of_text, lemma_plain_value, HttpRequest, HttpRequestView, Method,
};

verus! {

broadcast use crate::model::group_views;

// ---------------------------------------------------------------------------
// Context of errors
// ---------------------------------------------------------------------------

/// An error with where it came from, unless it says so itself.
pub open spec fn placed(e: ErrorView, profile: ApiProfile) -> ErrorView {
    if e.origin is None {
        e.with_origin(profile.text())
    } else {
        e
    }
}

/// An error with where it came from and the model it is about, unless it says
/// so itself.
pub open spec fn annotated(e: ErrorView, profile: ApiProfile, model: Seq<char>) -> ErrorView {
    let p = placed(e, profile);
    if p.model is None {
        p.with_model(model)
    } else {
        p
    }
}

/// Fill in the origin without overwriting that of the decoder.
pub fn annotate_origin(error: Error, profile: ApiProfile) -> (r: Error)
    ensures
        r@ == placed(error@, profile),
{
    if error.origin().is_none() {
        error.with_origin(profile.as_str())
    } else {
        error
    }
}

/// Fill in origin and model context without overwriting decoder context.
pub fn annotate(error: Error, profile: ApiProfile, model: &str) -> (r: Error)
    ensures
        r@ == annotated(error@, profile, model@),
{
    let error: Error = annotate_origin(error, profile);
    if error.model().is_none() {
        error.with_model(model)
    } else {
        error
    }
}

/// Annotating leaves an error with an origin and a model, changes nothing else
/// about it, and keeps what the error says itself.
pub proof fn annotating_fills_gaps_only(e: ErrorView, profile: ApiProfile, model: Seq<char>)
    ensures
        annotated(e, profile, model).origin is Some,
        annotated(e, profile, model).model is Some,
        e.origin is Some ==> annotated(e, profile, model).origin == e.origin,
        e.model is Some ==> annotated(e, profile, model).model == e.model,
        annotated(e, profile, model) == (ErrorView {
            origin: annotated(e, profile, model).origin,
            model: annotated(e, profile, model).model,
            ..e
        }),
        annotated(annotated(e, profile, model), profile, model) == annotated(e, profile, model),
{
}

// ---------------------------------------------------------------------------
// Headers
// ---------------------------------------------------------------------------

/// Whether some headers of a protocol can be sent.
pub open spec fn can_send(list: Seq<(Seq<char>, Seq<char>)>) -> bool {
    list.len() <= 8 && forall|i: int|
        0 <= i < list.len() ==> is_name((#[trigger] list[i]).0) && can_be_value(list[i].1)
}

/// The headers that every JSON request has, and the first `n` of some headers
/// of its protocol.
pub open spec fn protocol_headers(list: Seq<(Seq<char>, Seq<char>)>, n: int) -> HeadersView
    decreases n,
{
    if n <= 0 {
        no_headers().insert("content-type"@, seq![encode_utf8("application/json"@)])
    } else {
        protocol_headers(list, n - 1).insert(
            lower(list[n - 1].0),
            seq![encode_utf8(list[n - 1].1)],
        )
    }
}

/// Whether the headers of a request come of those of its protocol, then those
/// of the provider, then those of the request itself.
pub open spec fn assembled(
    h: HeadersView,
    list: Seq<(Seq<char>, Seq<char>)>,
    defaults: HeadersView,
    extra: HeadersView,
) -> bool {
    exists|d: Seq<(Seq<char>, Seq<u8>)>, e: Seq<(Seq<char>, Seq<u8>)>| #[trigger]
        lists(d, defaults) && #[trigger] lists(e, extra) && h == applied_upto(
            applied_upto(protocol_headers(list, list.len() as int), d, d.len() as int),
            e,
            e.len() as int,
        )
}

/// Whether the headers of the provider and the request fit besides those of
/// the protocol.
pub open spec fn headers_fit(defaults: HeadersView, extra: HeadersView) -> bool {
    &&& defaults.dom().finite()
    &&& extra.dom().finite()
    &&& defaults.dom().len() + extra.dom().len() + 16 < MAX_HEADERS
}

proof fn lemma_json_type()
    ensures
        is_name("content-type"@),
        lower("content-type"@) == "content-type"@,
        can_be_value("application/json"@),
{
    reveal_strlit("content-type");
    reveal_strlit("application/json");
    lemma_plain_value("application/json"@);
    assert(lower("content-type"@) =~= "content-type"@);
}

proof fn lemma_protocol_count(list: Seq<(Seq<char>, Seq<char>)>, n: int)
    requires
        0 <= n,
    ensures
        protocol_headers(list, n).dom().finite(),
        protocol_headers(list, n).dom().len() <= n + 1,
    decreases n,
{
    if n > 0 {
        lemma_protocol_count(list, n - 1);
    }
}

fn start_headers(list: &Vec<(String, String)>) -> (r: http::HeaderMap<http::HeaderValue>)
    requires
        can_send(views(list@)),
    ensures
        headers_view(r) == protocol_headers(views(list@), list@.len() as int),
{
    let ghost all = views(list@);
    let mut headers: http::HeaderMap<http::HeaderValue> = new_headers();
    proof {
        lemma_json_type();
    }
    if let Some(name) = name_from("content-type") {
        if let Some(value) = value_from("application/json") {
            insert_value(&mut headers, name, value);
        }
    }
    let mut i: usize = 0;
    while i < list.len()
        invariant
            i <= list@.len(),
            all == views(list@),
            all.len() == list@.len(),
            can_send(all),
            headers_view(headers) == protocol_headers(all, i as int),
        decreases list@.len() - i,
    {
        assert(all[i as int] == (list@[i as int].0@, list@[i as int].1@));
        proof {
            lemma_protocol_count(all, i as int);
        }
        if let Some(name) = name_from(list[i].0.as_str()) {
            if let Some(value) = value_from(list[i].1.as_str()) {
                insert_value(&mut headers, name, value);
            }
        }
        i += 1;
    }
    headers
}

/// The headers of a request: those of its protocol, then those of the provider,
/// then those of the request itself. Later values replace earlier ones, except
/// that the flags of `anthropic-beta` are merged. There are none where they are
/// more than headers can hold.
pub fn assemble_headers(
    list: &Vec<(String, String)>,
    defaults: &http::HeaderMap<http::HeaderValue>,
    extra: &http::HeaderMap<http::HeaderValue>,
) -> (r: Option<http::HeaderMap<http::HeaderValue>>)
    requires
        can_send(views(list@)),
    ensures
        match r {
            Some(h) => assembled(
                headers_view(h),
                views(list@),
                headers_view(*defaults),
                headers_view(*extra),
            ),
            None => !headers_fit(headers_view(*defaults), headers_view(*extra)),
        },
{
    let mut headers: http::HeaderMap<http::HeaderValue> = start_headers(list);
    let ghost start = headers_view(headers);
    assert(views(list@).len() == list@.len());
    proof {
        lemma_protocol_count(views(list@), list@.len() as int);
    }
    if !try_apply_headers(&mut headers, defaults) {
        return None;
    }
    let ghost d = choose|entries: Seq<(Seq<char>, Seq<u8>)>| #[trigger]
        lists(entries, headers_view(*defaults)) && headers_view(headers) == applied_upto(
            start,
            entries,
            entries.len() as int,
        );
    let ghost mid = headers_view(headers);
    proof {
        if headers_fit(headers_view(*defaults), headers_view(*extra)) {
            crate::headers::lemma_applied_names(
                start,
                headers_view(*defaults),
                d,
                d.len() as int,
            );
        }
    }
    if !try_apply_headers(&mut headers, extra) {
        return None;
    }
    let ghost e = choose|entries: Seq<(Seq<char>, Seq<u8>)>| #[trigger]
        lists(entries, headers_view(*extra)) && headers_view(headers) == applied_upto(
            mid,
            entries,
            entries.len() as int,
        );
    assert(lists(d, headers_view(*defaults)) && lists(e, headers_view(*extra)));
    Some(headers)
}

/// The headers that every protocol sets can be sent.
pub proof fn lowered_headers_can_be_sent(
    profile: ApiProfile,
    r: RequestView,
    model: Seq<char>,
    c: CapabilitiesView,
    host: Option<Seq<char>>,
    session_id: Seq<char>,
    streaming: bool,
)
    requires
        is_hyphenated_uuid(session_id),
        lowered(profile, r, model, c.reasoning, host, session_id, streaming) is Ok,
    ensures
        can_send(
            lowered(profile, r, model, c.reasoning, host, session_id, streaming)->Ok_0.headers,
        ),
{
    reveal_strlit("accept");
    reveal_strlit("originator");
    reveal_strlit("user-agent");
    reveal_strlit("session_id");
    reveal_strlit("anthropic-version");
    reveal_strlit("anthropic-beta");
    reveal_strlit("text/event-stream");
    reveal_strlit("caido-ai");
    reveal_strlit("caido-ai/0.1.0");
    reveal_strlit("2023-06-01");
    reveal_strlit("compact-2026-01-12");
    reveal_strlit("application/json");
    lemma_plain_value("text/event-stream"@);
    lemma_plain_value("caido-ai"@);
    lemma_plain_value("caido-ai/0.1.0"@);
    lemma_plain_value("2023-06-01"@);
    lemma_plain_value("compact-2026-01-12"@);
    lemma_plain_value("application/json"@);
    assert forall|i: int| 0 <= i < session_id.len() implies ' ' <= #[trigger] session_id[i]
        <= '~' by {
        assert(session_id[i] == '-' || is_hex(session_id[i]));
    }
    lemma_plain_value(session_id);
    let list = lowered(profile, r, model, c.reasoning, host, session_id, streaming)->Ok_0.headers;
    assert(list.len() <= 8);
}

// ---------------------------------------------------------------------------
// The whole
// ---------------------------------------------------------------------------

/// A request that is ready to be sent, apart from its credentials.
pub struct Prepared {
    /// The path below the base URL.
    pub path: String,
    /// The query, by name and value.
    pub query: Vec<(String, String)>,
    pub headers: http::HeaderMap<http::HeaderValue>,
    pub body: Json,
    pub warnings: Vec<Warning>,
    /// The request after restriction, without the settings the model cannot
    /// accept.
    pub request: Request,
}

impl Prepared {
    /// The request below a base URL: there is none where the base is no URL.
    pub fn into_request(self, base_url: &str) -> (r: Option<HttpRequest>)
        ensures
            opt(r) == match joined_url(base_url@, self.path@, views(self.query@)) {
                Some(url) => Some(
                    HttpRequestView {
                        method: Method::Post,
                        url,
                        headers: headers_view(self.headers),
                        body: Some(encode_utf8(json_text(self.body@))),
                    },
                ),
                None => None,
            },
    {
        let url: String = join_url(base_url, self.path.as_str(), &self.query)?;
        Some(
            HttpRequest {
                method: Method::Post,
                url,
                headers: self.headers,
                body: Some(bytes_of_text(self.body.to_text().as_str())),
            },
        )
    }
}

/// Whether a request passes, given the verdict about its provider options.
pub open spec fn passes(
    r: RequestView,
    model: Seq<char>,
    profile: ApiProfile,
    c: CapabilitiesView,
    options: Option<ErrorView>,
) -> bool {
    options_verdict(r.provider_options, options) && request_failure(
        r,
        model,
        profile,
        c,
        options,
    ) is None
}

/// What lowering makes of a request without the settings that the model cannot
/// accept.
pub open spec fn lowered_restricted(
    profile: ApiProfile,
    r: RequestView,
    model: Seq<char>,
    c: CapabilitiesView,
    base_url: Seq<char>,
    session_id: Seq<char>,
    streaming: bool,
) -> Result<LoweredView, ErrorView> {
    lowered(
        profile,
        restricted(r, c),
        model,
        c.reasoning,
        url_host(base_url),
        session_id,
        streaming,
    )
}

/// Whether a prepared request is what preparation may come to: the request
/// passes, and is sent in the wire format of its profile.
pub open spec fn is_prepared(
    p: Prepared,
    r: RequestView,
    model: Seq<char>,
    profile: ApiProfile,
    c: CapabilitiesView,
    l: LoweredView,
    defaults: HeadersView,
) -> bool {
    &&& p.path@ == l.path
    &&& views(p.query@) == l.query
    &&& p.body@ == l.body
    &&& views(p.warnings@) == restriction_warnings(r, c, profile) + l.warnings
    &&& p.request@ == restricted(r, c)
    &&& assembled(headers_view(p.headers), l.headers, defaults, restricted(r, c).extra_headers)
}

proof fn lemma_accepted_options(
    r: RequestView,
    model: Seq<char>,
    profile: ApiProfile,
    c: CapabilitiesView,
    options: Option<ErrorView>,
)
    requires
        passes(r, model, profile, c, options),
    ensures
        can_lower(profile, restricted(r, c)),
{
    assert(options is None);
    assert(!bad_option(r.provider_options, "openai"@));
}

/// Whether a result is what the preparation of a request may come to: a request
/// that passes and can be lowered is prepared; another gives the first error.
pub open spec fn preparation(
    r: Result<Prepared, Error>,
    profile: ApiProfile,
    model: Seq<char>,
    c: CapabilitiesView,
    request: RequestView,
    base_url: Seq<char>,
    defaults: HeadersView,
    streaming: bool,
) -> bool {
    match r {
        Ok(p) => exists|options: Option<ErrorView>, session_id: Seq<char>| #[trigger]
            passes(request, model, profile, c, options) && #[trigger]
            is_hyphenated_uuid(session_id) && (lowered_restricted(
                profile,
                request,
                model,
                c,
                base_url,
                session_id,
                streaming,
            ) matches Ok(l) && is_prepared(
                p,
                request,
                model,
                profile,
                c,
                l,
                defaults,
            )),
        Err(e) => exists|options: Option<ErrorView>, session_id: Seq<char>| #[trigger]
            options_verdict(request.provider_options, options) && #[trigger]
            is_hyphenated_uuid(session_id) && Some(e@) == match request_failure(
                request,
                model,
                profile,
                c,
                options,
            ) {
                Some(failed) => attributed(Some(failed), profile, model),
                None => match lowered_restricted(
                    profile,
                    request,
                    model,
                    c,
                    base_url,
                    session_id,
                    streaming,
                ) {
                    Ok(_) => None,
                    Err(failed) => Some(annotated(failed, profile, model)),
                },
            },
    }
}

/// Prepares a request: what the model cannot accept is dropped with a warning,
/// and the rest is lowered to the wire format of the profile. There is no such
/// request where its headers and those of the provider are more than headers can
/// hold.
pub fn prepare_within_limits(
    profile: ApiProfile,
    model: &str,
    capabilities: &ModelCapabilities,
    request: &Request,
    base_url: &str,
    defaults: &http::HeaderMap<http::HeaderValue>,
    streaming: bool,
) -> (r: Option<Result<Prepared, Error>>)
    ensures
        match r {
            Some(p) => preparation(
                p,
                profile,
                model@,
                capabilities@,
                request@,
                base_url@,
                headers_view(*defaults),
                streaming,
            ),
            None => !headers_fit(headers_view(*defaults), request@.extra_headers),
        },
{
    let checked: Result<(), Error> = validate(request, model, profile, capabilities);
    let ghost options = choose|options: Option<ErrorView>| #[trigger]
        options_verdict(request@.provider_options, options) && failure(checked) == attributed(
            request_failure(request@, model@, profile, capabilities@, options),
            profile,
            model@,
        );
    if let Err(e) = checked {
        let ghost id = some_hyphenated_uuid();
        assert(options_verdict(request@.provider_options, options) && is_hyphenated_uuid(id));
        return Some(Err(e));
    }
    assert(passes(request@, model@, profile, capabilities@, options));
    let (limited, mut warnings) = restrict_request(request, capabilities, profile);
    proof {
        lemma_accepted_options(request@, model@, profile, capabilities@, options);
    }
    let lowering: Result<LoweredRequest, Error> = lower_request(
        profile,
        &limited,
        model,
        capabilities,
        base_url,
        streaming,
    );
    let ghost session_id = choose|session_id: Seq<char>| #[trigger]
        is_hyphenated_uuid(session_id) && match lowering {
            Ok(l) => lowered_restricted(
                profile,
                request@,
                model@,
                capabilities@,
                base_url@,
                session_id,
                streaming,
            ) == Ok::<LoweredView, ErrorView>(l@),
            Err(e) => lowered_restricted(
                profile,
                request@,
                model@,
                capabilities@,
                base_url@,
                session_id,
                streaming,
            ) == Err::<LoweredView, ErrorView>(e@),
        };
    let lowered: LoweredRequest = match lowering {
        Ok(lowered) => lowered,
        Err(e) => {
            assert(options_verdict(request@.provider_options, options) && is_hyphenated_uuid(
                session_id,
            ));
            return Some(Err(annotate(e, profile, model)));
        },
    };
    proof {
        lowered_headers_can_be_sent(
            profile,
            limited@,
            model@,
            capabilities@,
            url_host(base_url@),
            session_id,
            streaming,
        );
    }
    let headers: http::HeaderMap<http::HeaderValue> = assemble_headers(
        &lowered.headers,
        defaults,
        &limited.extra_headers,
    )?;
    let mut more: Vec<Warning> = lowered.warnings;
    warnings.append(&mut more);
    let p: Prepared = Prepared {
        path: lowered.path,
        query: lowered.query,
        headers,
        body: lowered.body,
        warnings,
        request: limited,
    };
    assert(passes(request@, model@, profile, capabilities@, options) && is_hyphenated_uuid(
        session_id,
    ));
    Some(Ok(p))
}

/// Prepares a request whose headers fit.
pub fn prepare(
    profile: ApiProfile,
    model: &str,
    capabilities: &ModelCapabilities,
    request: &Request,
    base_url: &str,
    defaults: &http::HeaderMap<http::HeaderValue>,
    streaming: bool,
) -> (r: Result<Prepared, Error>)
    requires
        headers_fit(headers_view(*defaults), request@.extra_headers),
    ensures
        preparation(
            r,
            profile,
            model@,
            capabilities@,
            request@,
            base_url@,
            headers_view(*defaults),
            streaming,
        ),
{
    prepare_within_limits(
        profile,
        model,
        capabilities,
        request,
        base_url,
        defaults,
        streaming,
    ).unwrap()
}

/// Whether the headers of the provider and the request fit besides those of
/// the protocol.
pub fn room_for_headers(
    defaults: &http::HeaderMap<http::HeaderValue>,
    extra: &http::HeaderMap<http::HeaderValue>,
) -> (r: bool)
    ensures
        r == headers_fit(headers_view(*defaults), headers_view(*extra)),
{
    let a: usize = count_names(defaults);
    let b: usize = count_names(extra);
    a < MAX_HEADERS && b < MAX_HEADERS && a + b + 16 < MAX_HEADERS
}

} // verus!
