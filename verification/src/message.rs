//! Conversation messages and their parts.
use vstd::prelude::*;

use crate::json::{json_parse, json_text, Json, JsonView};
use crate::metadata::{MetadataView, ProviderMetadata};
use crate::model::{opt, views};
use crate::text::{blank, is_blank};

verus! {

broadcast use crate::model::group_views;

/// A part of a user message.
#[derive(Debug, PartialEq)]
#[non_exhaustive]
pub enum UserPart {
    Text { text: String },
}

/// One piece of a model's reasoning.
#[derive(Debug, PartialEq)]
#[non_exhaustive]
pub enum ReasoningContent {
    /// Visible reasoning, with the provider's signature of it.
    Text { text: String, signature: Option<String> },
    /// A visible summary.
    Summary { text: String },
    /// Opaque reasoning for replay.
    Encrypted { data: String },
    /// Reasoning that the provider hides.
    Redacted { data: String },
}

/// A model's reasoning.
#[derive(Debug, PartialEq)]
pub struct ReasoningPart {
    pub id: Option<String>,
    pub content: Vec<ReasoningContent>,
    pub provider_metadata: ProviderMetadata,
}

/// A request of the model to call a tool.
#[derive(Debug, PartialEq)]
pub struct ToolCall {
    /// Ties the call to its result.
    pub call_id: String,
    /// The provider's id of the output item.
    pub item_id: Option<String>,
    /// The id the provider knows the call by, where it differs.
    pub provider_call_id: Option<String>,
    pub name: String,
    /// The arguments, as JSON text.
    pub arguments: String,
    pub provider_metadata: ProviderMetadata,
}

/// What a tool returned.
#[derive(Debug, PartialEq)]
#[non_exhaustive]
pub enum ToolResultContent {
    Text { text: String },
    Json { value: Json },
}

/// The result of a tool call.
#[derive(Debug, PartialEq)]
pub struct ToolResultPart {
    pub call_id: String,
    pub item_id: Option<String>,
    pub provider_call_id: Option<String>,
    pub name: Option<String>,
    pub content: ToolResultContent,
    pub is_error: bool,
}

/// A provider's compaction of the context.
#[derive(Debug, PartialEq)]
pub struct CompactionPart {
    pub id: Option<String>,
    /// Readable summary.
    pub content: Option<String>,
    /// Opaque compaction.
    pub encrypted_content: Option<String>,
}

/// An item of a tool that the provider ran.
#[derive(Debug, PartialEq)]
pub struct ProviderToolPart {
    pub id: Option<String>,
    /// The item or block type.
    pub kind: String,
    /// The namespace of the provider that can replay it.
    pub namespace: String,
    /// The item, exactly as the provider reported it.
    pub payload: Json,
}

/// A part of an assistant message.
#[derive(Debug, PartialEq)]
#[non_exhaustive]
pub enum AssistantPart {
    Text { text: String, provider_metadata: ProviderMetadata },
    Reasoning(ReasoningPart),
    ToolCall(ToolCall),
    Compaction(CompactionPart),
    ProviderTool { provider_tool: ProviderToolPart },
}

/// A message of a conversation.
#[derive(Debug, PartialEq)]
#[non_exhaustive]
#[allow(inconsistent_fields)]
pub enum Message {
    User { content: Vec<UserPart> },
    Assistant { content: Vec<AssistantPart>, provider_metadata: ProviderMetadata },
    Tool { content: Vec<ToolResultPart> },
}

#[verifier::ext_equal]
pub enum UserPartView {
    Text { text: Seq<char> },
}

#[verifier::ext_equal]
pub enum ReasoningContentView {
    Text { text: Seq<char>, signature: Option<Seq<char>> },
    Summary { text: Seq<char> },
    Encrypted { data: Seq<char> },
    Redacted { data: Seq<char> },
}

#[verifier::ext_equal]
pub struct ReasoningPartView {
    pub id: Option<Seq<char>>,
    pub content: Seq<ReasoningContentView>,
    pub provider_metadata: MetadataView,
}

#[verifier::ext_equal]
pub struct ToolCallView {
    pub call_id: Seq<char>,
    pub item_id: Option<Seq<char>>,
    pub provider_call_id: Option<Seq<char>>,
    pub name: Seq<char>,
    pub arguments: Seq<char>,
    pub provider_metadata: MetadataView,
}

#[verifier::ext_equal]
pub enum ToolResultContentView {
    Text { text: Seq<char> },
    Json { value: JsonView },
}

#[verifier::ext_equal]
pub struct ToolResultPartView {
    pub call_id: Seq<char>,
    pub item_id: Option<Seq<char>>,
    pub provider_call_id: Option<Seq<char>>,
    pub name: Option<Seq<char>>,
    pub content: ToolResultContentView,
    pub is_error: bool,
}

#[verifier::ext_equal]
pub struct CompactionPartView {
    pub id: Option<Seq<char>>,
    pub content: Option<Seq<char>>,
    pub encrypted_content: Option<Seq<char>>,
}

#[verifier::ext_equal]
pub struct ProviderToolPartView {
    pub id: Option<Seq<char>>,
    pub kind: Seq<char>,
    pub namespace: Seq<char>,
    pub payload: JsonView,
}

#[verifier::ext_equal]
pub enum AssistantPartView {
    Text { text: Seq<char>, provider_metadata: MetadataView },
    Reasoning(ReasoningPartView),
    ToolCall(ToolCallView),
    Compaction(CompactionPartView),
    ProviderTool { provider_tool: ProviderToolPartView },
}

#[verifier::ext_equal]
#[allow(inconsistent_fields)]
pub enum MessageView {
    User { content: Seq<UserPartView> },
    Assistant { content: Seq<AssistantPartView>, provider_metadata: MetadataView },
    Tool { content: Seq<ToolResultPartView> },
}

impl View for UserPart {
    type V = UserPartView;

    open spec fn view(&self) -> UserPartView {
        match *self {
            UserPart::Text { text } => UserPartView::Text { text: text@ },
        }
    }
}

impl View for ReasoningContent {
    type V = ReasoningContentView;

    open spec fn view(&self) -> ReasoningContentView {
        match *self {
            ReasoningContent::Text { text, signature } => ReasoningContentView::Text {
                text: text@,
                signature: opt(signature),
            },
            ReasoningContent::Summary { text } => ReasoningContentView::Summary { text: text@ },
            ReasoningContent::Encrypted { data } => ReasoningContentView::Encrypted { data: data@ },
            ReasoningContent::Redacted { data } => ReasoningContentView::Redacted { data: data@ },
        }
    }
}

impl View for ReasoningPart {
    type V = ReasoningPartView;

    open spec fn view(&self) -> ReasoningPartView {
        ReasoningPartView {
            id: opt(self.id),
            content: views(self.content@),
            provider_metadata: self.provider_metadata@,
        }
    }
}

impl View for ToolCall {
    type V = ToolCallView;

    open spec fn view(&self) -> ToolCallView {
        ToolCallView {
            call_id: self.call_id@,
            item_id: opt(self.item_id),
            provider_call_id: opt(self.provider_call_id),
            name: self.name@,
            arguments: self.arguments@,
            provider_metadata: self.provider_metadata@,
        }
    }
}

impl View for ToolResultContent {
    type V = ToolResultContentView;

    open spec fn view(&self) -> ToolResultContentView {
        match *self {
            ToolResultContent::Text { text } => ToolResultContentView::Text { text: text@ },
            ToolResultContent::Json { value } => ToolResultContentView::Json { value: value@ },
        }
    }
}

impl View for ToolResultPart {
    type V = ToolResultPartView;

    open spec fn view(&self) -> ToolResultPartView {
        ToolResultPartView {
            call_id: self.call_id@,
            item_id: opt(self.item_id),
            provider_call_id: opt(self.provider_call_id),
            name: opt(self.name),
            content: self.content@,
            is_error: self.is_error,
        }
    }
}

impl View for CompactionPart {
    type V = CompactionPartView;

    open spec fn view(&self) -> CompactionPartView {
        CompactionPartView {
            id: opt(self.id),
            content: opt(self.content),
            encrypted_content: opt(self.encrypted_content),
        }
    }
}

impl View for ProviderToolPart {
    type V = ProviderToolPartView;

    open spec fn view(&self) -> ProviderToolPartView {
        ProviderToolPartView {
            id: opt(self.id),
            kind: self.kind@,
            namespace: self.namespace@,
            payload: self.payload@,
        }
    }
}

impl View for AssistantPart {
    type V = AssistantPartView;

    open spec fn view(&self) -> AssistantPartView {
        match *self {
            AssistantPart::Text { text, provider_metadata } => AssistantPartView::Text {
                text: text@,
                provider_metadata: provider_metadata@,
            },
            AssistantPart::Reasoning(part) => AssistantPartView::Reasoning(part@),
            AssistantPart::ToolCall(call) => AssistantPartView::ToolCall(call@),
            AssistantPart::Compaction(part) => AssistantPartView::Compaction(part@),
            AssistantPart::ProviderTool { provider_tool } => AssistantPartView::ProviderTool {
                provider_tool: provider_tool@,
            },
        }
    }
}

impl View for Message {
    type V = MessageView;

    open spec fn view(&self) -> MessageView {
        match *self {
            Message::User { content } => MessageView::User { content: views(content@) },
            Message::Assistant { content, provider_metadata } => MessageView::Assistant {
                content: views(content@),
                provider_metadata: provider_metadata@,
            },
            Message::Tool { content } => MessageView::Tool { content: views(content@) },
        }
    }
}

/// The visible text of one piece of reasoning.
pub open spec fn visible_piece(content: ReasoningContentView) -> Seq<char> {
    match content {
        ReasoningContentView::Text { text, .. } => text,
        ReasoningContentView::Summary { text } => text,
        _ => Seq::empty(),
    }
}

/// The visible text of the first `n` pieces of reasoning, joined.
pub open spec fn visible_upto(content: Seq<ReasoningContentView>, n: int) -> Seq<char>
    decreases n,
{
    if n <= 0 {
        Seq::empty()
    } else {
        visible_upto(content, n - 1) + visible_piece(content[n - 1])
    }
}

impl ReasoningPartView {
    /// All visible text, joined in order.
    pub open spec fn visible_text(self) -> Seq<char> {
        visible_upto(self.content, self.content.len() as int)
    }
}

impl ReasoningPart {
    /// All visible text, joined in order: opaque and hidden reasoning has none.
    pub fn visible_text(&self) -> (r: String)
        ensures
            r@ == self@.visible_text(),
    {
        let mut out: String = String::new();
        let mut i: usize = 0;
        while i < self.content.len()
            invariant
                i <= self.content@.len(),
                out@ == visible_upto(views(self.content@), i as int),
            decreases self.content@.len() - i,
        {
            match &self.content[i] {
                ReasoningContent::Text { text, .. } => out.append(text.as_str()),
                ReasoningContent::Summary { text } => out.append(text.as_str()),
                _ => {},
            }
            assert(out@ =~= visible_upto(views(self.content@), i + 1));
            i += 1;
        }
        out
    }
}

/// The arguments of a call, where blank ones stand for an empty object.
pub open spec fn normal_arguments(arguments: Seq<char>) -> Seq<char> {
    if is_blank(arguments) {
        "{}"@
    } else {
        arguments
    }
}

impl ToolCall {
    /// Blank arguments become an empty object.
    pub fn normalize_blank_arguments(&mut self)
        ensures
            final(self)@ == (ToolCallView {
                arguments: normal_arguments(old(self)@.arguments),
                ..old(self)@
            }),
    {
        if blank(self.arguments.as_str()) {
            self.arguments = "{}".to_owned();
        }
    }

    /// The arguments as a JSON value.
    pub fn arguments_value(&self) -> (r: Result<Json, String>)
        ensures
            match r {
                Ok(v) => json_parse(self@.arguments) == Ok::<JsonView, Seq<char>>(v@),
                Err(e) => json_parse(self@.arguments) == Err::<JsonView, Seq<char>>(e@),
            },
    {
        Json::parse(self.arguments.as_str())
    }
}

/// A tool result as text.
pub open spec fn result_text(content: ToolResultContentView) -> Seq<char> {
    match content {
        ToolResultContentView::Text { text } => text,
        ToolResultContentView::Json { value } => json_text(value),
    }
}

impl ToolResultContent {
    /// The result as text: a JSON value as compact JSON.
    pub fn to_text(&self) -> (r: String)
        ensures
            r@ == result_text(self@),
    {
        match self {
            ToolResultContent::Text { text } => text.clone(),
            ToolResultContent::Json { value } => value.to_text(),
        }
    }
}

/// The successful result of a call.
pub open spec fn result_for(call: ToolCallView, text: Seq<char>) -> ToolResultPartView {
    ToolResultPartView {
        call_id: call.call_id,
        item_id: call.item_id,
        provider_call_id: call.provider_call_id,
        name: Some(call.name),
        content: ToolResultContentView::Text { text },
        is_error: false,
    }
}

impl ToolResultPart {
    /// The successful result of a call, tied to it by all its ids.
    pub fn for_call(call: &ToolCall, text: &str) -> (r: ToolResultPart)
        ensures
            r@ == result_for(call@, text@),
    {
        ToolResultPart {
            call_id: call.call_id.clone(),
            item_id: call.item_id.clone(),
            provider_call_id: call.provider_call_id.clone(),
            name: Some(call.name.clone()),
            content: ToolResultContent::Text { text: text.to_owned() },
            is_error: false,
        }
    }
}

impl Message {
    /// A user message of one text.
    pub fn user(text: &str) -> (r: Message)
        ensures
            r@ == (MessageView::User { content: seq![UserPartView::Text { text: text@ }] }),
    {
        let mut content: Vec<UserPart> = Vec::new();
        content.push(UserPart::Text { text: text.to_owned() });
        assert(views(content@) =~= seq![UserPartView::Text { text: text@ }]);
        Message::User { content }
    }

    /// A message with one tool result.
    pub fn tool_result(result: ToolResultPart) -> (r: Message)
        ensures
            r@ == (MessageView::Tool { content: seq![result@] }),
    {
        let mut content: Vec<ToolResultPart> = Vec::new();
        content.push(result);
        assert(views(content@) =~= seq![result@]);
        Message::Tool { content }
    }
}

impl Clone for UserPart {
    fn clone(&self) -> (r: UserPart)
        ensures
            r@ == self@,
    {
        match self {
            UserPart::Text { text } => UserPart::Text { text: text.clone() },
        }
    }
}

impl Clone for ReasoningContent {
    fn clone(&self) -> (r: ReasoningContent)
        ensures
            r@ == self@,
    {
        match self {
            ReasoningContent::Text { text, signature } => ReasoningContent::Text {
                text: text.clone(),
                signature: signature.clone(),
            },
            ReasoningContent::Summary { text } => ReasoningContent::Summary { text: text.clone() },
            ReasoningContent::Encrypted { data } => ReasoningContent::Encrypted {
                data: data.clone(),
            },
            ReasoningContent::Redacted { data } => ReasoningContent::Redacted {
                data: data.clone(),
            },
        }
    }
}

impl Clone for ReasoningPart {
    fn clone(&self) -> (r: ReasoningPart)
        ensures
            r@ == self@,
    {
        let r = ReasoningPart {
            id: self.id.clone(),
            content: self.content.clone(),
            provider_metadata: self.provider_metadata.clone(),
        };
        assert(views(r.content@) =~= views(self.content@));
        r
    }
}

impl Clone for ToolCall {
    fn clone(&self) -> (r: ToolCall)
        ensures
            r@ == self@,
    {
        ToolCall {
            call_id: self.call_id.clone(),
            item_id: self.item_id.clone(),
            provider_call_id: self.provider_call_id.clone(),
            name: self.name.clone(),
            arguments: self.arguments.clone(),
            provider_metadata: self.provider_metadata.clone(),
        }
    }
}

impl Clone for ToolResultContent {
    fn clone(&self) -> (r: ToolResultContent)
        ensures
            r@ == self@,
    {
        match self {
            ToolResultContent::Text { text } => ToolResultContent::Text { text: text.clone() },
            ToolResultContent::Json { value } => ToolResultContent::Json { value: value.clone() },
        }
    }
}

impl Clone for ToolResultPart {
    fn clone(&self) -> (r: ToolResultPart)
        ensures
            r@ == self@,
    {
        ToolResultPart {
            call_id: self.call_id.clone(),
            item_id: self.item_id.clone(),
            provider_call_id: self.provider_call_id.clone(),
            name: self.name.clone(),
            content: self.content.clone(),
            is_error: self.is_error,
        }
    }
}

impl Clone for CompactionPart {
    fn clone(&self) -> (r: CompactionPart)
        ensures
            r@ == self@,
    {
        CompactionPart {
            id: self.id.clone(),
            content: self.content.clone(),
            encrypted_content: self.encrypted_content.clone(),
        }
    }
}

impl Clone for ProviderToolPart {
    fn clone(&self) -> (r: ProviderToolPart)
        ensures
            r@ == self@,
    {
        ProviderToolPart {
            id: self.id.clone(),
            kind: self.kind.clone(),
            namespace: self.namespace.clone(),
            payload: self.payload.clone(),
        }
    }
}

impl Clone for AssistantPart {
    fn clone(&self) -> (r: AssistantPart)
        ensures
            r@ == self@,
    {
        match self {
            AssistantPart::Text { text, provider_metadata } => AssistantPart::Text {
                text: text.clone(),
                provider_metadata: provider_metadata.clone(),
            },
            AssistantPart::Reasoning(part) => AssistantPart::Reasoning(part.clone()),
            AssistantPart::ToolCall(call) => AssistantPart::ToolCall(call.clone()),
            AssistantPart::Compaction(part) => AssistantPart::Compaction(part.clone()),
            AssistantPart::ProviderTool { provider_tool } => AssistantPart::ProviderTool {
                provider_tool: provider_tool.clone(),
            },
        }
    }
}

impl Clone for Message {
    fn clone(&self) -> (r: Message)
        ensures
            r@ == self@,
    {
        match self {
            Message::User { content } => {
                let copy: Vec<UserPart> = content.clone();
                assert(views(copy@) =~= views(content@));
                Message::User { content: copy }
            },
            Message::Assistant { content, provider_metadata } => {
                let copy: Vec<AssistantPart> = content.clone();
                assert(views(copy@) =~= views(content@));
                Message::Assistant { content: copy, provider_metadata: provider_metadata.clone() }
            },
            Message::Tool { content } => {
                let copy: Vec<ToolResultPart> = content.clone();
                assert(views(copy@) =~= views(content@));
                Message::Tool { content: copy }
            },
        }
    }
}

} // verus!
