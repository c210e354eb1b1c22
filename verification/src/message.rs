//! The chat messages exchanged with the model, the tool calls it asks for and
//! the token usage it reports, with a view of each over character sequences.

use vstd::prelude::*;

verus! {

/// Who a chat line or a message comes from.
#[derive(Clone, Copy, Debug, PartialEq, Eq, Structural)]
pub enum Role {
    System,
    User,
    Assistant,
    Tool,
    Info,
}

/// Token counts that the model reports for one completion.
#[derive(Clone, Copy, Debug, PartialEq, Eq, Structural)]
pub struct Usage {
    pub prompt_tokens: u64,
    pub completion_tokens: u64,
    pub total_tokens: u64,
}

impl Default for Usage {
    fn default() -> (r: Usage)
        ensures
            r == (Usage { prompt_tokens: 0, completion_tokens: 0, total_tokens: 0 }),
    {
        Usage { prompt_tokens: 0, completion_tokens: 0, total_tokens: 0 }
    }
}

pub open spec fn opt_view(o: Option<String>) -> Option<Seq<char>> {
    match o {
        Some(s) => Some(s@),
        None => None,
    }
}

/// A copy of an optional string.
pub fn copy_opt(o: &Option<String>) -> (r: Option<String>)
    ensures
        opt_view(r) == opt_view(*o),
{
    match o {
        Some(s) => Some(s.clone()),
        None => None,
    }
}

/// The function part of a tool call: its name and its JSON arguments.
#[derive(Clone, Debug)]
pub struct ToolCallFunction {
    pub name: Option<String>,
    pub arguments: Option<String>,
}

/// A call of a tool that the model asks for.
#[derive(Clone, Debug)]
pub struct ToolCall {
    pub index: Option<u32>,
    pub id: Option<String>,
    pub call_type: Option<String>,
    pub function: ToolCallFunction,
}

pub struct ToolCallView {
    pub index: Option<u32>,
    pub id: Option<Seq<char>>,
    pub call_type: Option<Seq<char>>,
    pub name: Option<Seq<char>>,
    pub arguments: Option<Seq<char>>,
}

impl View for ToolCall {
    type V = ToolCallView;

    open spec fn view(&self) -> ToolCallView {
        ToolCallView {
            index: self.index,
            id: opt_view(self.id),
            call_type: opt_view(self.call_type),
            name: opt_view(self.function.name),
            arguments: opt_view(self.function.arguments),
        }
    }
}

pub open spec fn calls_view(calls: Seq<ToolCall>) -> Seq<ToolCallView> {
    calls.map_values(|c: ToolCall| c@)
}

impl ToolCall {
    pub fn duplicate(&self) -> (r: ToolCall)
        ensures
            r@ == self@,
    {
        ToolCall {
            index: self.index,
            id: copy_opt(&self.id),
            call_type: copy_opt(&self.call_type),
            function: ToolCallFunction {
                name: copy_opt(&self.function.name),
                arguments: copy_opt(&self.function.arguments),
            },
        }
    }
}

/// A copy of a list of tool calls.
pub fn copy_calls(calls: &Vec<ToolCall>) -> (r: Vec<ToolCall>)
    ensures
        calls_view(r@) == calls_view(calls@),
{
    let mut r: Vec<ToolCall> = Vec::new();
    let mut i: usize = 0;
    while i < calls.len()
        invariant
            i <= calls.len(),
            r.len() == i,
            forall|k: int| 0 <= k < i ==> (#[trigger] r@[k])@ == calls@[k]@,
        decreases calls.len() - i,
    {
        r.push(calls[i].duplicate());
        i = i + 1;
    }
    assert(calls_view(r@) =~= calls_view(calls@));
    r
}

/// An image given to the model: a data URL or a public URL.
#[derive(Clone, Debug)]
pub struct ImageUrlPayload {
    pub url: String,
    pub detail: Option<String>,
}

/// One part of a multi-part user message.
#[derive(Clone, Debug)]
pub enum ContentBlock {
    Text { text: String },
    ImageUrl { image_url: ImageUrlPayload },
}

/// The content of a user message: plain text or a list of parts.
#[derive(Clone, Debug)]
pub enum Content {
    Text(String),
    Blocks(Vec<ContentBlock>),
}

/// A chat message, tagged by the role of its author.
#[derive(Clone, Debug)]
pub enum Message {
    System { content: String, name: Option<String> },
    User { content: Content, name: Option<String> },
    Assistant {
        content: Option<String>,
        reasoning: Option<String>,
        name: Option<String>,
        tool_calls: Option<Vec<ToolCall>>,
    },
    Tool { content: String, tool_call_id: String },
}

pub enum BlockView {
    Text(Seq<char>),
    Image { url: Seq<char>, detail: Option<Seq<char>> },
}

pub enum ContentView {
    Text(Seq<char>),
    Blocks(Seq<BlockView>),
}

pub enum MessageView {
    System { content: Seq<char>, name: Option<Seq<char>> },
    User { content: ContentView, name: Option<Seq<char>> },
    Assistant {
        content: Option<Seq<char>>,
        reasoning: Option<Seq<char>>,
        name: Option<Seq<char>>,
        tool_calls: Option<Seq<ToolCallView>>,
    },
    Tool { content: Seq<char>, tool_call_id: Seq<char> },
}

impl View for ContentBlock {
    type V = BlockView;

    open spec fn view(&self) -> BlockView {
        match self {
            ContentBlock::Text { text } => BlockView::Text(text@),
            ContentBlock::ImageUrl { image_url } => BlockView::Image {
                url: image_url.url@,
                detail: opt_view(image_url.detail),
            },
        }
    }
}

pub open spec fn blocks_view(blocks: Seq<ContentBlock>) -> Seq<BlockView> {
    blocks.map_values(|b: ContentBlock| b@)
}

impl View for Content {
    type V = ContentView;

    open spec fn view(&self) -> ContentView {
        match self {
            Content::Text(t) => ContentView::Text(t@),
            Content::Blocks(b) => ContentView::Blocks(blocks_view(b@)),
        }
    }
}

impl View for Message {
    type V = MessageView;

    open spec fn view(&self) -> MessageView {
        match self {
            Message::System { content, name } => MessageView::System {
                content: content@,
                name: opt_view(*name),
            },
            Message::User { content, name } => MessageView::User {
                content: content@,
                name: opt_view(*name),
            },
            Message::Assistant { content, reasoning, name, tool_calls } => MessageView::Assistant {
                content: opt_view(*content),
                reasoning: opt_view(*reasoning),
                name: opt_view(*name),
                tool_calls: match tool_calls {
                    Some(c) => Some(calls_view(c@)),
                    None => None,
                },
            },
            Message::Tool { content, tool_call_id } => MessageView::Tool {
                content: content@,
                tool_call_id: tool_call_id@,
            },
        }
    }
}

pub open spec fn history_view(h: Seq<Message>) -> Seq<MessageView> {
    h.map_values(|m: Message| m@)
}

/// Pushing a message onto a history extends its view by that message's view.
pub proof fn lemma_history_push(h: Seq<Message>, m: Message)
    ensures
        history_view(h.push(m)) == history_view(h).push(m@),
{
    assert(history_view(h.push(m)) =~= history_view(h).push(m@));
}

} // verus!
