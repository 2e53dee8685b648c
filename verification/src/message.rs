//! Conversation messages, and the pairing of tool calls with their results.

use std::sync::Arc;
use vstd::prelude::*;

use crate::text::{lists, texts};

verus! {

/// A piece of text inside a message.
#[derive(Debug, PartialEq, Eq)]
pub struct TextPart {
    pub id: String,
    pub text: String,
}

/// A file that a user message refers to.
#[derive(Debug, PartialEq, Eq)]
pub struct FileReference {
    pub original_name: String,
    pub readable_path: String,
}

/// The files that one part of a user message refers to.
#[derive(Debug, PartialEq, Eq)]
pub struct FileReferencesPart {
    pub id: String,
    pub files: Vec<FileReference>,
}

/// A part of a user message.
#[derive(Debug, PartialEq, Eq)]
pub enum UserPart {
    Text(TextPart),
    FileReferences(FileReferencesPart),
    Injected(TextPart),
    InternalContext(TextPart),
}

/// Who wrote a user message.
#[derive(Clone, Copy, Debug, PartialEq, Eq, Structural)]
pub enum UserMessageOrigin {
    User,
    Runtime,
}

/// Whether a message is shown in the transcript.
#[derive(Clone, Copy, Debug, PartialEq, Eq, Structural)]
pub enum TranscriptVisibility {
    Visible,
    Hidden,
}

/// A message that opens a turn.
#[derive(Debug, PartialEq, Eq)]
pub struct UserMessage {
    pub id: String,
    pub origin: UserMessageOrigin,
    pub transcript_visibility: TranscriptVisibility,
    pub parts: Vec<UserPart>,
}

/// The model that produced a message.
#[derive(Debug, PartialEq, Eq)]
pub struct ModelIdentity {
    pub provider: String,
    pub model: String,
}

/// What one model request consumed.
#[derive(Clone, Copy, Debug, PartialEq, Eq, Structural)]
pub struct TokenUsage {
    pub input_tokens: u64,
    pub output_tokens: u64,
    pub total_tokens: u64,
    pub cached_input_tokens: Option<u64>,
    pub reasoning_tokens: Option<u64>,
}

/// A call of a tool, with its arguments as JSON text.
#[derive(Debug, PartialEq, Eq)]
pub struct ToolCall {
    pub id: String,
    pub name: String,
    pub arguments: String,
}

/// A part of an assistant message.
#[derive(Debug, PartialEq, Eq)]
pub enum AssistantPart {
    Text(TextPart),
    Reasoning(TextPart),
    ToolCall(ToolCall),
    ProviderState(Vec<u8>),
}

/// Why the model stopped.
#[derive(Clone, Copy, Debug, PartialEq, Eq, Structural)]
pub enum FinishReason {
    Stop,
    Length,
    ToolCalls,
    Other,
}

/// A message of the model.
#[derive(Debug, PartialEq, Eq)]
pub struct AssistantMessage {
    pub id: String,
    pub model: ModelIdentity,
    pub parts: Vec<AssistantPart>,
    pub finish_reason: FinishReason,
    pub usage: Option<TokenUsage>,
}

/// A JSON document, as far as the engine writes one itself.
#[derive(Debug, PartialEq, Eq)]
pub enum JsonValue {
    Null,
    Text(String),
    Object(Vec<JsonField>),
}

/// A named member of a JSON object.
#[derive(Debug, PartialEq, Eq)]
pub struct JsonField {
    pub name: String,
    pub value: JsonValue,
}

/// The image formats that tools store.
#[derive(Clone, Copy, Debug, PartialEq, Eq, Structural)]
pub enum ImageMediaType {
    Jpeg,
    Png,
    WebP,
    Gif,
}

/// An image that a tool stored in its session.
#[derive(Debug, PartialEq, Eq)]
pub struct ToolImageReference {
    pub file_name: String,
    pub media_type: ImageMediaType,
}

/// A part of a tool result.
#[derive(Debug, PartialEq, Eq)]
pub enum ToolResultPart {
    Text(String),
    Image(ToolImageReference),
}

/// What a tool handed back.
#[derive(Debug, PartialEq, Eq)]
pub enum ToolResultContent {
    Text(String),
    Json(JsonValue),
    Parts(Vec<ToolResultPart>),
}

/// Whether a tool succeeded.
#[derive(Clone, Copy, Debug, PartialEq, Eq, Structural)]
pub enum ToolResultStatus {
    Success,
    Error,
}

/// The outcome of one tool call.
#[derive(Debug, PartialEq, Eq)]
pub struct ToolResult {
    pub call_id: String,
    pub status: ToolResultStatus,
    pub content: ToolResultContent,
}

/// A message that carries a tool's result.
#[derive(Debug, PartialEq, Eq)]
pub struct ToolMessage {
    pub id: String,
    pub result: ToolResult,
}

/// A message that stands for a compacted stretch of history.
#[derive(Debug, PartialEq, Eq)]
pub struct ContextSummaryMessage {
    pub id: String,
    pub model: Option<ModelIdentity>,
    pub text: String,
    pub usage: Option<TokenUsage>,
    pub compacted_usage: Option<TokenUsage>,
}

/// One record of a conversation.
#[derive(Debug, PartialEq, Eq)]
pub enum ConversationMessage {
    User(UserMessage),
    Assistant(AssistantMessage),
    Tool(ToolMessage),
    ContextSummary(ContextSummaryMessage),
}

/// Messages in order. They never change once recorded, so they are shared.
pub type Messages = Vec<Arc<ConversationMessage>>;

/// The value that a handle shares.
pub open spec fn held<T>(handle: Arc<T>) -> T {
    *handle
}

/// Another handle on a shared value, by [`Arc::clone`]: the same value.
#[verifier::external_body]
pub(crate) fn share<T>(value: &Arc<T>) -> (shared: Arc<T>)
    ensures
        shared == *value,
{
    Arc::clone(value)
}

/// The identifier of a message.
pub open spec fn key_of(message: ConversationMessage) -> String {
    match message {
        ConversationMessage::User(message) => message.id,
        ConversationMessage::Assistant(message) => message.id,
        ConversationMessage::Tool(message) => message.id,
        ConversationMessage::ContextSummary(message) => message.id,
    }
}

/// The identifier of a message.
pub fn message_id(message: &ConversationMessage) -> (id: &String)
    ensures
        *id == key_of(*message),
{
    match message {
        ConversationMessage::User(message) => &message.id,
        ConversationMessage::Assistant(message) => &message.id,
        ConversationMessage::Tool(message) => &message.id,
        ConversationMessage::ContextSummary(message) => &message.id,
    }
}

/// No two messages share an identifier.
pub open spec fn distinct_messages(messages: Seq<Arc<ConversationMessage>>) -> bool {
    forall|i: int, j: int|
        0 <= i < j < messages.len() ==> key_of(*#[trigger] messages[i])@ != key_of(
            *#[trigger] messages[j],
        )@
}

/// Whether no two messages share an identifier.
pub fn messages_are_distinct(messages: &Messages) -> (result: bool)
    ensures
        result == distinct_messages(messages@),
{
    let mut i: usize = 0;
    while i < messages.len()
        invariant
            i <= messages@.len(),
            distinct_messages(messages@.take(i as int)),
        decreases messages@.len() - i,
    {
        let mut j: usize = 0;
        while j < i
            invariant
                j <= i < messages@.len(),
                forall|k: int|
                    0 <= k < j ==> key_of(*#[trigger] messages@[k])@ != key_of(
                        *messages@[i as int],
                    )@,
            decreases i - j,
        {
            if *message_id(&messages[j]) == *message_id(&messages[i]) {
                return false;
            }
            j += 1;
        }
        proof {
            let longer = messages@.take(i + 1);
            assert forall|a: int, b: int| 0 <= a < b < longer.len() implies key_of(
                *#[trigger] longer[a],
            )@ != key_of(*#[trigger] longer[b])@ by {
                if b < i {
                    assert(messages@.take(i as int)[a] == longer[a]);
                    assert(messages@.take(i as int)[b] == longer[b]);
                } else {
                    assert(messages@[a] == longer[a]);
                }
            }
        }
        i += 1;
    }
    proof {
        assert(messages@.take(messages@.len() as int) =~= messages@);
    }
    true
}

/// The tool calls among the parts of an assistant message, in order.
pub open spec fn tool_calls(parts: Seq<AssistantPart>) -> Seq<ToolCall>
    decreases parts.len(),
{
    if parts.len() == 0 {
        Seq::empty()
    } else {
        let earlier = tool_calls(parts.drop_last());
        match parts.last() {
            AssistantPart::ToolCall(call) => earlier.push(call),
            _ => earlier,
        }
    }
}

/// The identifiers of the tool calls of an assistant message, in order.
pub open spec fn call_ids(message: AssistantMessage) -> Seq<Seq<char>> {
    tool_calls(message.parts@).map_values(|call: ToolCall| call.id@)
}

/// The identifiers of the tool calls of an assistant message.
pub fn tool_call_ids(message: &AssistantMessage) -> (ids: Vec<String>)
    ensures
        texts(ids@) == call_ids(*message),
{
    let mut ids: Vec<String> = Vec::new();
    let mut i: usize = 0;
    while i < message.parts.len()
        invariant
            i <= message.parts@.len(),
            texts(ids@) =~= tool_calls(message.parts@.take(i as int)).map_values(
                |call: ToolCall| call.id@,
            ),
        decreases message.parts@.len() - i,
    {
        proof {
            let longer = message.parts@.take(i + 1);
            assert(longer.drop_last() =~= message.parts@.take(i as int));
            assert(longer.last() == message.parts@[i as int]);
        }
        match &message.parts[i] {
            AssistantPart::ToolCall(call) => {
                let ghost earlier = tool_calls(message.parts@.take(i as int));
                let ghost before = ids@;
                ids.push(call.id.clone());
                proof {
                    assert(texts(ids@) =~= texts(before).push(call.id@));
                    assert(earlier.push(*call).map_values(|call: ToolCall| call.id@)
                        =~= earlier.map_values(|call: ToolCall| call.id@).push(call.id@));
                }
            },
            _ => {},
        }
        i += 1;
    }
    proof {
        assert(message.parts@.take(message.parts@.len() as int) =~= message.parts@);
    }
    ids
}

/// No text occurs twice.
pub open spec fn distinct(list: Seq<Seq<char>>) -> bool {
    forall|i: int, j: int| 0 <= i < j < list.len() ==> #[trigger] list[i] != #[trigger] list[j]
}

/// Whether no text occurs twice.
pub fn texts_are_distinct(list: &Vec<String>) -> (result: bool)
    ensures
        result == distinct(texts(list@)),
{
    let mut i: usize = 0;
    while i < list.len()
        invariant
            i <= list@.len(),
            forall|a: int, b: int|
                0 <= a < b < i ==> #[trigger] texts(list@)[a] != #[trigger] texts(list@)[b],
        decreases list@.len() - i,
    {
        let mut j: usize = 0;
        while j < i
            invariant
                j <= i < list@.len(),
                forall|k: int|
                    0 <= k < j ==> #[trigger] texts(list@)[k] != texts(list@)[i as int],
            decreases i - j,
        {
            if list[j] == list[i] {
                assert(texts(list@)[j as int] == texts(list@)[i as int]);
                return false;
            }
            assert(texts(list@)[j as int] != texts(list@)[i as int]);
            j += 1;
        }
        i += 1;
    }
    true
}

/// The calls still without a result after `message`, given those before it; `None` where the
/// message cannot stand there.
pub open spec fn open_after(
    open: Seq<Seq<char>>,
    message: ConversationMessage,
) -> Option<Seq<Seq<char>>> {
    match message {
        ConversationMessage::Tool(tool) => if open.contains(tool.result.call_id@) {
            Some(open.remove(open.index_of_first(tool.result.call_id@)->0))
        } else {
            None
        },
        ConversationMessage::Assistant(assistant) => if open.len() == 0 && distinct(
            call_ids(assistant),
        ) {
            Some(call_ids(assistant))
        } else {
            None
        },
        _ => if open.len() == 0 {
            Some(Seq::empty())
        } else {
            None
        },
    }
}

/// The calls still without a result after all messages; `None` where some message is misplaced.
pub open spec fn open_calls(messages: Seq<Arc<ConversationMessage>>) -> Option<Seq<Seq<char>>>
    decreases messages.len(),
{
    if messages.len() == 0 {
        Some(Seq::empty())
    } else {
        match open_calls(messages.drop_last()) {
            None => None,
            Some(open) => open_after(open, *messages.last()),
        }
    }
}

/// Every assistant message with tool calls is followed by exactly one result for each of them,
/// and results stand nowhere else.
pub open spec fn calls_are_paired(messages: Seq<Arc<ConversationMessage>>) -> bool {
    open_calls(messages) == Some(Seq::<Seq<char>>::empty())
}

fn position_of(list: &Vec<String>, text: &String) -> (position: Option<usize>)
    ensures
        match position {
            Some(i) => i < list@.len() && texts(list@).index_of_first(text@) == Some(i as int),
            None => !texts(list@).contains(text@),
        },
        lists(list@, text@) == texts(list@).contains(text@),
{
    let mut i: usize = 0;
    while i < list.len()
        invariant
            i <= list@.len(),
            forall|j: int| 0 <= j < i ==> #[trigger] texts(list@)[j] != text@,
        decreases list@.len() - i,
    {
        if list[i] == *text {
            proof {
                assert(texts(list@)[i as int] == text@);
                texts(list@).index_of_first_ensures(text@);
                let first = texts(list@).index_of_first(text@)->0;
                if first < i {
                    assert(texts(list@)[first] != text@);
                }
                if first > i {
                    assert(texts(list@).take(first).contains(text@)) by {
                        assert(texts(list@).take(first)[i as int] == text@);
                    }
                }
            }
            return Some(i);
        }
        assert(texts(list@)[i as int] != text@);
        i += 1;
    }
    proof {
        if lists(list@, text@) {
            let k = choose|k: int| 0 <= k < list@.len() && (#[trigger] list@[k])@ == text@;
            assert(texts(list@)[k] == text@);
        }
    }
    None
}

/// Whether every tool call has exactly one result, right after the message that made it.
pub fn tool_exchanges_are_paired(messages: &Messages) -> (result: bool)
    ensures
        result == calls_are_paired(messages@),
{
    let mut open: Vec<String> = Vec::new();
    let mut i: usize = 0;
    proof {
        assert(texts(open@) =~= Seq::empty());
        assert(messages@.take(0) =~= Seq::empty());
    }
    while i < messages.len()
        invariant
            i <= messages@.len(),
            open_calls(messages@.take(i as int)) == Some(texts(open@)),
        decreases messages@.len() - i,
    {
        proof {
            let longer = messages@.take(i + 1);
            assert(longer.drop_last() =~= messages@.take(i as int));
            assert(longer.last() == messages@[i as int]);
            if open_calls(longer) is None {
                broken_pairs_stay_broken(messages@, i + 1);
            }
        }
        match &*messages[i] {
            ConversationMessage::Tool(tool) => {
                match position_of(&open, &tool.result.call_id) {
                    None => {
                        return false;
                    },
                    Some(place) => {
                        let ghost before = open@;
                        open.remove(place);
                        proof {
                            assert(texts(open@) =~= texts(before).remove(place as int));
                            assert(texts(before).contains(tool.result.call_id@)) by {
                                texts(before).index_of_first_ensures(tool.result.call_id@);
                            }
                        }
                    },
                }
            },
            ConversationMessage::Assistant(assistant) => {
                if open.len() != 0 {
                    return false;
                }
                let ids = tool_call_ids(assistant);
                if !texts_are_distinct(&ids) {
                    return false;
                }
                open = ids;
            },
            _ => {
                if open.len() != 0 {
                    return false;
                }
                proof {
                    assert(texts(open@) =~= Seq::empty());
                }
            },
        }
        i += 1;
    }
    proof {
        assert(messages@.take(messages@.len() as int) =~= messages@);
        if open@.len() == 0 {
            assert(texts(open@) =~= Seq::empty());
        }
    }
    open.len() == 0
}

/// Once a message is misplaced, no continuation mends the conversation.
pub proof fn broken_pairs_stay_broken(messages: Seq<Arc<ConversationMessage>>, n: int)
    requires
        0 <= n <= messages.len(),
        open_calls(messages.take(n)) is None,
    ensures
        open_calls(messages) is None,
    decreases messages.len() - n,
{
    if n < messages.len() {
        assert(messages.take(n + 1).drop_last() =~= messages.take(n));
        broken_pairs_stay_broken(messages, n + 1);
    } else {
        assert(messages.take(n) =~= messages);
    }
}

/// A paired conversation followed by a batch is paired exactly when the batch is paired by itself.
pub proof fn paired_batches_compose(
    head: Seq<Arc<ConversationMessage>>,
    batch: Seq<Arc<ConversationMessage>>,
)
    requires
        calls_are_paired(head),
    ensures
        open_calls(head + batch) == open_calls(batch),
        calls_are_paired(head + batch) == calls_are_paired(batch),
    decreases batch.len(),
{
    if batch.len() == 0 {
        assert(head + batch =~= head);
    } else {
        paired_batches_compose(head, batch.drop_last());
        assert((head + batch).drop_last() =~= head + batch.drop_last());
        assert((head + batch).last() == batch.last());
    }
}

} // verus!
