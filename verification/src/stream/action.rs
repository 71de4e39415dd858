//! What decoders do to a stream, as values.
//!
//! A decoder translates a provider frame into actions, and performing them on
//! the normalizer yields the events.
use vstd::prelude::*;

use super::contract::{act, run, Action};
use super::event::{Citation, StreamEvent, StreamEventView};
use super::normalizer::{NormalizerView, Step, StreamNormalizer};
use crate::error::{Error, ErrorView};
use crate::message::{CompactionPart, ProviderToolPart, ReasoningPart};
use crate::metadata::ProviderMetadata;
use crate::model::{opt, views};
use crate::response::{Finish, GenerateResult, ResponseMetadata};
use crate::usage::Usage;

verus! {

broadcast use crate::model::group_views;

/// One operation of a decoder on the stream.
#[allow(inconsistent_fields)]
pub enum StreamAction {
    Metadata(ResponseMetadata),
    StartText { id: String, metadata: ProviderMetadata },
    TextDelta { id: String, delta: String },
    TextMetadata { id: String, metadata: ProviderMetadata },
    EndText { id: String },
    StartReasoning { id: String },
    ReasoningDelta { id: String, delta: String },
    EndReasoning { id: String, part: Option<ReasoningPart> },
    StartTool {
        call_id: String,
        name: String,
        item_id: Option<String>,
        provider_call_id: Option<String>,
    },
    ToolDelta { call_id: String, delta: String },
    ToolMetadata { call_id: String, metadata: ProviderMetadata },
    CompleteTool { call_id: String, arguments: Option<String> },
    CompactionStart,
    CompactionDelta { delta: String },
    CompactionAbort,
    Compaction(CompactionPart),
    ProviderToolStart { id: String, kind: String },
    ProviderToolUpdate { id: String, status: String },
    ProviderToolEnd { id: String, part: ProviderToolPart },
    Citation { text_id: Option<String>, citation: Citation },
    ProviderMetadata(ProviderMetadata),
    RawFrame(String),
    Replay(GenerateResult),
    MergeUsage(Usage),
    Error(Error),
    Fail(Error),
    Finish(Finish),
}

impl View for StreamAction {
    type V = Action;

    open spec fn view(&self) -> Action {
        match *self {
            StreamAction::Metadata(m) => Action::Metadata(m@),
            StreamAction::StartText { id, metadata } => Action::StartText {
                id: id@,
                metadata: metadata@,
            },
            StreamAction::TextDelta { id, delta } => Action::TextDelta { id: id@, delta: delta@ },
            StreamAction::TextMetadata { id, metadata } => Action::TextMetadata {
                id: id@,
                metadata: metadata@,
            },
            StreamAction::EndText { id } => Action::EndText { id: id@ },
            StreamAction::StartReasoning { id } => Action::StartReasoning { id: id@ },
            StreamAction::ReasoningDelta { id, delta } => Action::ReasoningDelta {
                id: id@,
                delta: delta@,
            },
            StreamAction::EndReasoning { id, part } => Action::EndReasoning {
                id: id@,
                part: opt(part),
            },
            StreamAction::StartTool { call_id, name, item_id, provider_call_id } => Action::StartTool {
                call_id: call_id@,
                name: name@,
                item_id: opt(item_id),
                provider_call_id: opt(provider_call_id),
            },
            StreamAction::ToolDelta { call_id, delta } => Action::ToolDelta {
                call_id: call_id@,
                delta: delta@,
            },
            StreamAction::ToolMetadata { call_id, metadata } => Action::ToolMetadata {
                call_id: call_id@,
                metadata: metadata@,
            },
            StreamAction::CompleteTool { call_id, arguments } => Action::CompleteTool {
                call_id: call_id@,
                arguments: opt(arguments),
            },
            StreamAction::CompactionStart => Action::CompactionStart,
            StreamAction::CompactionDelta { delta } => Action::CompactionDelta { delta: delta@ },
            StreamAction::CompactionAbort => Action::CompactionAbort,
            StreamAction::Compaction(part) => Action::Compaction(part@),
            StreamAction::ProviderToolStart { id, kind } => Action::ProviderToolStart {
                id: id@,
                kind: kind@,
            },
            StreamAction::ProviderToolUpdate { id, status } => Action::ProviderToolUpdate {
                id: id@,
                status: status@,
            },
            StreamAction::ProviderToolEnd { id, part } => Action::ProviderToolEnd {
                id: id@,
                part: part@,
            },
            StreamAction::Citation { text_id, citation } => Action::Citation {
                text_id: opt(text_id),
                citation: citation@,
            },
            StreamAction::ProviderMetadata(m) => Action::ProviderMetadata(m@),
            StreamAction::RawFrame(data) => Action::RawFrame(data@),
            StreamAction::Replay(result) => Action::Replay(result@),
            StreamAction::MergeUsage(usage) => Action::MergeUsage(usage),
            StreamAction::Error(error) => Action::Error(error@),
            StreamAction::Fail(error) => Action::Fail(error@),
            StreamAction::Finish(finish) => Action::Finish(finish@),
        }
    }
}

/// What some actions do, one after the other.
pub open spec fn play(n: NormalizerView, actions: Seq<Action>) -> Step
    decreases actions.len(),
{
    if actions.len() == 0 {
        n.idle()
    } else {
        let s = play(n, actions.drop_last());
        let t = act(s.state, actions.last());
        Step { state: t.state, events: s.events + t.events }
    }
}

/// Whether an action ends a stream.
pub open spec fn ends(action: Action) -> bool {
    action is Finish || action is Fail || action is Replay || action is Eof
}

/// Whether nothing follows an action that ends the stream.
pub open spec fn ends_last(actions: Seq<Action>) -> bool {
    forall|i: int| 0 <= i < actions.len() - 1 ==> !ends(#[trigger] actions[i])
}

/// Whether no action ends the stream.
pub open spec fn quiet(actions: Seq<Action>) -> bool {
    forall|i: int| 0 <= i < actions.len() ==> !ends(#[trigger] actions[i])
}

/// What follows actions that do not end the stream decides how it ends.
pub proof fn lemma_quiet_parts(a: Seq<Action>, b: Seq<Action>)
    requires
        quiet(a),
    ensures
        quiet(b) ==> quiet(a + b),
        ends_last(b) ==> ends_last(a + b),
{
    assert forall|i: int| 0 <= i < (a + b).len() implies (a + b)[i] == if i < a.len() {
        a[i]
    } else {
        b[i - a.len()]
    } by {}
}

/// An action that does not end the stream leaves it open.
proof fn lemma_open_end(n: NormalizerView, action: Action)
    requires
        !n.finished,
        !ends(action),
    ensures
        !act(n, action).state.finished,
{
    reveal(act);
}

/// Actions of which only the last one may end the stream leave it open up to
/// there.
proof fn lemma_play_open(n: NormalizerView, actions: Seq<Action>)
    requires
        !n.finished,
        forall|i: int| 0 <= i < actions.len() ==> !ends(#[trigger] actions[i]),
    ensures
        !play(n, actions).state.finished,
    decreases actions.len(),
{
    if actions.len() > 0 {
        let rest = actions.drop_last();
        assert forall|i: int| 0 <= i < rest.len() implies !ends(#[trigger] rest[i]) by {
            assert(!ends(actions[i]));
        }
        lemma_play_open(n, rest);
        lemma_open_end(play(n, rest).state, actions.last());
    }
}

/// Actions that end a stream at most with the last one keep the terminal
/// contract: performing them is what the contract is proved of.
pub proof fn performing_is_running(n: NormalizerView, actions: Seq<Action>)
    requires
        !n.finished,
        ends_last(actions),
    ensures
        play(n, actions) == run(n, actions),
    decreases actions.len(),
{
    if actions.len() > 0 {
        let rest = actions.drop_last();
        assert forall|i: int| 0 <= i < rest.len() implies !ends(#[trigger] rest[i]) by {
            assert(!ends(actions[i]));
        }
        performing_is_running(n, rest);
        lemma_play_open(n, rest);
    }
}

/// Performing some actions and then some more is performing all of them.
pub proof fn performing_in_parts(n: NormalizerView, a: Seq<Action>, b: Seq<Action>)
    ensures
        play(n, a + b).state == play(play(n, a).state, b).state,
        play(n, a + b).events == play(n, a).events + play(play(n, a).state, b).events,
    decreases b.len(),
{
    if b.len() == 0 {
        assert(a + b =~= a);
        assert(play(n, a).events + Seq::<StreamEventView>::empty() =~= play(n, a).events);
    } else {
        performing_in_parts(n, a, b.drop_last());
        assert((a + b).drop_last() =~= a + b.drop_last());
        assert((a + b).last() == b.last());
        let t = act(play(play(n, a).state, b.drop_last()).state, b.last());
        assert(play(n, a).events + play(play(n, a).state, b.drop_last()).events + t.events
            =~= play(n, a).events + (play(play(n, a).state, b.drop_last()).events + t.events));
    }
}

/// Performs one action.
fn perform_one(normalizer: &mut StreamNormalizer, out: &mut Vec<StreamEvent>, action: StreamAction)
    ensures
        final(normalizer)@ == act(old(normalizer)@, action@).state,
        views(final(out)@) == views(old(out)@) + act(old(normalizer)@, action@).events,
{
    let ghost before = views(out@);
    proof {
        reveal(act);
    }
    match action {
        StreamAction::Metadata(m) => normalizer.metadata(out, m),
        StreamAction::StartText { id, metadata } => normalizer.start_text_with_metadata(
            out,
            id,
            metadata,
        ),
        StreamAction::TextDelta { id, delta } => normalizer.text_delta(out, id, delta),
        StreamAction::TextMetadata { id, metadata } => normalizer.text_metadata(
            id.as_str(),
            metadata,
        ),
        StreamAction::EndText { id } => normalizer.end_text(out, id.as_str()),
        StreamAction::StartReasoning { id } => normalizer.start_reasoning(out, id),
        StreamAction::ReasoningDelta { id, delta } => normalizer.reasoning_delta(out, id, delta),
        StreamAction::EndReasoning { id, part } => normalizer.end_reasoning(
            out,
            id.as_str(),
            part,
        ),
        StreamAction::StartTool { call_id, name, item_id, provider_call_id } => {
            normalizer.start_tool_call(out, call_id, name, item_id, provider_call_id)
        },
        StreamAction::ToolDelta { call_id, delta } => normalizer.tool_delta(
            out,
            call_id.as_str(),
            delta,
        ),
        StreamAction::ToolMetadata { call_id, metadata } => normalizer.tool_metadata(
            call_id.as_str(),
            metadata,
        ),
        StreamAction::CompleteTool { call_id, arguments } => normalizer.complete_tool(
            call_id.as_str(),
            arguments,
        ),
        StreamAction::CompactionStart => normalizer.compaction_start(out),
        StreamAction::CompactionDelta { delta } => normalizer.compaction_delta(out, delta),
        StreamAction::CompactionAbort => normalizer.compaction_abort(out),
        StreamAction::Compaction(part) => normalizer.compaction(out, part),
        StreamAction::ProviderToolStart { id, kind } => normalizer.provider_tool_start(
            out,
            id,
            kind,
        ),
        StreamAction::ProviderToolUpdate { id, status } => normalizer.provider_tool_update(
            out,
            id,
            status,
        ),
        StreamAction::ProviderToolEnd { id, part } => normalizer.provider_tool_end(
            out,
            id.as_str(),
            part,
        ),
        StreamAction::Citation { text_id, citation } => normalizer.citation(
            out,
            text_id,
            citation,
        ),
        StreamAction::ProviderMetadata(m) => normalizer.provider_metadata(out, m),
        StreamAction::RawFrame(data) => normalizer.raw_frame(out, data.as_str()),
        StreamAction::Replay(result) => normalizer.replay(out, result),
        StreamAction::MergeUsage(usage) => normalizer.merge_usage(&usage),
        StreamAction::Error(error) => normalizer.error(out, error),
        StreamAction::Fail(error) => normalizer.fail(out, error),
        StreamAction::Finish(finish) => normalizer.finish(out, finish),
    }
    assert(views(out@) =~= before + act(old(normalizer)@, action@).events);
}

/// Performs some actions, one after the other.
pub fn perform(
    normalizer: &mut StreamNormalizer,
    out: &mut Vec<StreamEvent>,
    actions: Vec<StreamAction>,
)
    ensures
        final(normalizer)@ == play(old(normalizer)@, views(actions@)).state,
        views(final(out)@) == views(old(out)@) + play(old(normalizer)@, views(actions@)).events,
{
    let ghost start = normalizer@;
    let ghost before = views(out@);
    let ghost all = views(actions@);
    let ghost list = actions@;
    assert(all.take(0) =~= Seq::empty());
    assert(before + Seq::empty() =~= before);
    for action in it: actions.into_iter()
        invariant
            it.seq() == list,
            all == views(list),
            normalizer@ == play(start, all.take(it.index() as int)).state,
            views(out@) == before + play(start, all.take(it.index() as int)).events,
    {
        let ghost n = it.index() as int;
        assert(action@ == all[n]);
        assert(all.take(n + 1).drop_last() =~= all.take(n));
        let ghost so_far = play(start, all.take(n)).events;
        perform_one(normalizer, out, action);
        assert(before + so_far + act(play(start, all.take(n)).state, all[n]).events =~= before + (
        so_far + act(play(start, all.take(n)).state, all[n]).events));
    }
    assert(all.take(all.len() as int) =~= all);
}

/// What a decoder makes of a frame: what it does to the stream, and the
/// failure that ends it, if any.
pub struct Decoded {
    pub actions: Vec<StreamAction>,
    pub error: Option<Error>,
}

/// What a decoder makes of a frame.
#[verifier::ext_equal]
pub struct DecodedView {
    pub actions: Seq<Action>,
    pub error: Option<ErrorView>,
}

impl View for Decoded {
    type V = DecodedView;

    open spec fn view(&self) -> DecodedView {
        DecodedView { actions: views(self.actions@), error: opt(self.error) }
    }
}

/// Some actions and no failure.
pub open spec fn does(actions: Seq<Action>) -> DecodedView {
    DecodedView { actions, error: None }
}

/// A failure without any action.
pub open spec fn fails(error: ErrorView) -> DecodedView {
    DecodedView { actions: Seq::empty(), error: Some(error) }
}

impl Decoded {
    /// One action.
    pub fn one(action: StreamAction) -> (r: Decoded)
        ensures
            r@ == does(seq![action@]),
    {
        let mut actions: Vec<StreamAction> = Vec::new();
        actions.push(action);
        assert(views(actions@) =~= seq![action@]);
        Decoded { actions, error: None }
    }

    /// No action.
    pub fn nothing() -> (r: Decoded)
        ensures
            r@ == does(Seq::empty()),
    {
        Decoded { actions: Vec::new(), error: None }
    }

    pub fn done(actions: Vec<StreamAction>) -> (r: Decoded)
        ensures
            r@ == does(views(actions@)),
    {
        Decoded { actions, error: None }
    }

    pub fn failed(error: Error) -> (r: Decoded)
        ensures
            r@ == fails(error@),
    {
        Decoded { actions: Vec::new(), error: Some(error) }
    }
}

/// What a decoded frame does to a stream: its actions, and then its failure.
pub open spec fn settled(n: NormalizerView, d: DecodedView) -> Step {
    let played = play(n, d.actions);
    match d.error {
        Some(error) => {
            let failed = played.state.fail(error);
            Step { state: failed.state, events: played.events + failed.events }
        },
        None => played,
    }
}

/// Performs what a frame decodes to.
pub fn settle(normalizer: &mut StreamNormalizer, out: &mut Vec<StreamEvent>, decoded: Decoded)
    ensures
        final(normalizer)@ == settled(old(normalizer)@, decoded@).state,
        views(final(out)@) == views(old(out)@) + settled(old(normalizer)@, decoded@).events,
{
    let ghost start = normalizer@;
    let ghost before = views(out@);
    let ghost d = decoded@;
    perform(normalizer, out, decoded.actions);
    if let Some(error) = decoded.error {
        let ghost played = play(start, d.actions);
        normalizer.fail(out, error);
        assert(before + played.events + played.state.fail(error@).events =~= before + (
        played.events + played.state.fail(error@).events));
    }
}

/// What a frame does to a stream, a failure among it.
pub open spec fn all_actions(d: DecodedView) -> Seq<Action> {
    match d.error {
        Some(error) => d.actions.push(Action::Fail(error)),
        None => d.actions,
    }
}

/// Settling a frame that ends the stream at most once keeps the terminal
/// contract: it is what the contract is proved of.
pub proof fn settling_is_running(n: NormalizerView, d: DecodedView)
    requires
        !n.finished,
        ends_last(d.actions),
        d.error is Some ==> quiet(d.actions),
    ensures
        settled(n, d) == run(n, all_actions(d)),
{
    let all = all_actions(d);
    if let Some(error) = d.error {
        let m = play(n, d.actions).state;
        assert(act(m, Action::Fail(error)) == m.fail(error)) by {
            reveal(act);
        }
        assert(all.drop_last() =~= d.actions);
        assert forall|i: int| 0 <= i < all.len() - 1 implies !ends(#[trigger] all[i]) by {
            assert(all[i] == d.actions[i]);
        }
    }
    performing_is_running(n, all);
}

/// A failure ends the stream.
pub proof fn failures_end_the_stream(n: NormalizerView, d: DecodedView)
    requires
        d.error is Some,
    ensures
        settled(n, d).state.finished,
{
}

} // verus!
