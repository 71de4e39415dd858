//! What is sent to Gemini.
use vstd::prelude::*;

use crate::json::{json_text, JsonView};
use crate::message::{ToolResultContentView, ToolResultPartView};
use crate::protocols::gemini::request::{result_json, CallIndex};

verus! {

/// How the outcome of a tool is told: a failure under `error`, an object as it
/// is, and any other success as text under `result`.
pub open spec fn tells_outcome(
    response: JsonView,
    content: ToolResultContentView,
    is_error: bool,
) -> bool {
    match (is_error, content) {
        (true, ToolResultContentView::Text { text }) => response == JsonView::Object(
            map!["error"@ => JsonView::String(text)],
        ),
        (true, ToolResultContentView::Json { value }) => response == JsonView::Object(
            map!["error"@ => value],
        ),
        (false, ToolResultContentView::Json { value: JsonView::Object(m) }) => response
            == JsonView::Object(m),
        (false, ToolResultContentView::Json { value }) => response == JsonView::Object(
            map!["result"@ => JsonView::String(json_text(value))],
        ),
        (false, ToolResultContentView::Text { text }) => response == JsonView::Object(
            map!["result"@ => JsonView::String(text)],
        ),
    }
}

/// The answer in a tool result that is sent.
pub open spec fn answer_of(sent: JsonView) -> JsonView {
    sent->Object_0["functionResponse"@]
}

/// A tool result is sent under the name of its function, with one of three
/// answers: a failure has exactly one member, `error`; an object is sent as it
/// is; and any other success has exactly one member, `result`, with its text.
pub proof fn results_tell_success_from_failure(
    result: ToolResultPartView,
    calls: CallIndex,
)
    ensures
        ({
            let known = calls.contains_key(result.call_id);
            let name = match result.name {
                Some(name) => name,
                None => if known {
                    calls[result.call_id].name
                } else {
                    Seq::empty()
                },
            };
            match result_json(result, calls) {
                Ok(sent) => {
                    &&& name.len() > 0
                    &&& sent is Object && sent->Object_0.dom() == set!["functionResponse"@]
                    &&& answer_of(sent) is Object
                    &&& super::says(answer_of(sent), "name"@, name)
                    &&& answer_of(sent)->Object_0.contains_key("response"@)
                    &&& tells_outcome(
                        answer_of(sent)->Object_0["response"@],
                        result.content,
                        result.is_error,
                    )
                    &&& super::carries(
                        answer_of(sent)->Object_0,
                        "id"@,
                        if known && calls[result.call_id].item_id is Some {
                            Some(JsonView::String(calls[result.call_id].item_id->0))
                        } else {
                            match result.item_id {
                                Some(id) => Some(JsonView::String(id)),
                                None => None,
                            }
                        },
                    )
                },
                Err(e) => name.len() == 0 && e.kind is InvalidRequest,
            }
        }),
{
    reveal_strlit("name");
    reveal_strlit("response");
    reveal_strlit("id");
    assert("name"@.len() == 4 && "response"@.len() == 8 && "id"@.len() == 2);
    if let Ok(sent) = result_json(result, calls) {
        assert(sent->Object_0.dom() =~= set!["functionResponse"@]);
        let response = answer_of(sent)->Object_0["response"@];
        match (result.is_error, result.content) {
            (true, ToolResultContentView::Text { text }) => assert(response->Object_0
                =~= map!["error"@ => JsonView::String(text)]),
            (true, ToolResultContentView::Json { value }) => assert(response->Object_0
                =~= map!["error"@ => value]),
            (false, ToolResultContentView::Json { value: JsonView::Object(m) }) => {},
            (false, ToolResultContentView::Json { value }) => assert(response->Object_0
                =~= map!["result"@ => JsonView::String(json_text(value))]),
            (false, ToolResultContentView::Text { text }) => assert(response->Object_0
                =~= map!["result"@ => JsonView::String(text)]),
        }
    }
}

/// A success and a failure with the same text are never sent alike.
pub proof fn success_is_not_sent_as_failure(
    result: ToolResultPartView,
    calls: CallIndex,
    text: Seq<char>,
)
    requires
        result.content == (ToolResultContentView::Text { text }),
    ensures
        ({
            let success = ToolResultPartView { is_error: false, ..result };
            let failure = ToolResultPartView { is_error: true, ..result };
            result_json(success, calls) is Ok ==> result_json(success, calls) != result_json(
                failure,
                calls,
            )
        }),
{
    let success = ToolResultPartView { is_error: false, ..result };
    let failure = ToolResultPartView { is_error: true, ..result };
    results_tell_success_from_failure(success, calls);
    results_tell_success_from_failure(failure, calls);
    reveal_strlit("error");
    reveal_strlit("result");
    assert("error"@.len() == 5 && "result"@.len() == 6);
    let m = map!["result"@ => JsonView::String(text)];
    let n = map!["error"@ => JsonView::String(text)];
    assert(m.contains_key("result"@) && !n.contains_key("result"@));
}

} // verus!
