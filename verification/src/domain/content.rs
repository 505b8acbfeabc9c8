//! Content blocks and conversation messages.

use vstd::prelude::*;
use crate::text::clone_opt_string;

verus! {

/// One block of message content.
#[derive(Debug, PartialEq, Eq)]
pub enum ContentBlock {
    Text { text: String },
    Image { mime_type: String, data_base64: String },
    FileContent { file_name: Option<String>, media_type: Option<String>, text: String },
}

impl Clone for ContentBlock {
    fn clone(&self) -> (r: Self)
        ensures
            r == *self,
    {
        match self {
            ContentBlock::Text { text } => ContentBlock::Text { text: text.clone() },
            ContentBlock::Image { mime_type, data_base64 } => ContentBlock::Image {
                mime_type: mime_type.clone(),
                data_base64: data_base64.clone(),
            },
            ContentBlock::FileContent { file_name, media_type, text } => ContentBlock::FileContent {
                file_name: clone_opt_string(file_name),
                media_type: clone_opt_string(media_type),
                text: text.clone(),
            },
        }
    }
}

/// The optional string seen as optional text.
pub open spec fn opt_text(o: Option<String>) -> Option<Seq<char>> {
    match o {
        Some(s) => Some(s@),
        None => None,
    }
}

/// The mathematical model of a content block: its strings as character sequences.
pub enum BlockView {
    Text { text: Seq<char> },
    Image { mime_type: Seq<char>, data_base64: Seq<char> },
    FileContent { file_name: Option<Seq<char>>, media_type: Option<Seq<char>>, text: Seq<char> },
}

impl View for ContentBlock {
    type V = BlockView;

    open spec fn view(&self) -> BlockView {
        match self {
            ContentBlock::Text { text } => BlockView::Text { text: text@ },
            ContentBlock::Image { mime_type, data_base64 } => BlockView::Image {
                mime_type: mime_type@,
                data_base64: data_base64@,
            },
            ContentBlock::FileContent { file_name, media_type, text } => BlockView::FileContent {
                file_name: opt_text(*file_name),
                media_type: opt_text(*media_type),
                text: text@,
            },
        }
    }
}

/// The views of a sequence of blocks.
pub open spec fn blocks_view(v: Seq<ContentBlock>) -> Seq<BlockView> {
    v.map_values(|b: ContentBlock| b@)
}

/// The text that a block carries, if any: the text of a text block or of a file block.
pub open spec fn block_text(b: ContentBlock) -> Option<Seq<char>> {
    match b {
        ContentBlock::Text { text } => Some(text@),
        ContentBlock::FileContent { text, .. } => Some(text@),
        ContentBlock::Image { .. } => None,
    }
}

/// The text of a block only when it is a text block typed by the user.
pub open spec fn block_explicit_text(b: ContentBlock) -> Option<Seq<char>> {
    match b {
        ContentBlock::Text { text } => Some(text@),
        _ => None,
    }
}

impl ContentBlock {
    /// A text block holding `text`.
    pub fn text(text: &str) -> (r: Self)
        ensures
            r@ == (BlockView::Text { text: text@ }),
    {
        ContentBlock::Text { text: text.to_owned() }
    }

    /// The text of a text block or of a file block; `None` for an image.
    pub fn as_text(&self) -> (r: Option<&str>)
        ensures
            match r {
                Some(t) => block_text(*self) == Some(t@),
                None => block_text(*self) is None,
            },
    {
        match self {
            ContentBlock::Text { text } => Some(text.as_str()),
            ContentBlock::FileContent { text, .. } => Some(text.as_str()),
            ContentBlock::Image { .. } => None,
        }
    }

    /// The text of a text block only; `None` for images and file contents.
    pub fn explicit_text(&self) -> (r: Option<&str>)
        ensures
            match r {
                Some(t) => block_explicit_text(*self) == Some(t@),
                None => block_explicit_text(*self) is None,
            },
    {
        match self {
            ContentBlock::Text { text } => Some(text.as_str()),
            _ => None,
        }
    }

    /// Whether the block is an image.
    pub fn is_image(&self) -> (r: bool)
        ensures
            r == (*self is Image),
    {
        match self {
            ContentBlock::Image { .. } => true,
            _ => false,
        }
    }
}

/// A copy of a sequence of content blocks.
pub fn clone_blocks(v: &Vec<ContentBlock>) -> (r: Vec<ContentBlock>)
    ensures
        r@ == v@,
{
    let mut r: Vec<ContentBlock> = Vec::new();
    let mut i: usize = 0;
    while i < v.len()
        invariant
            i <= v.len(),
            r@ == v@.take(i as int),
        decreases v.len() - i,
    {
        r.push(v[i].clone());
        assert(v@.take(i + 1) =~= v@.take(i as int).push(v@[i as int]));
        i += 1;
    }
    assert(v@.take(i as int) =~= v@);
    r
}

/// Who wrote a message.
#[derive(Debug, Clone, Copy, PartialEq, Eq, Structural)]
pub enum MessageRole {
    System,
    User,
    Assistant,
    Tool,
}

/// A conversation message.
#[derive(Debug, PartialEq, Eq)]
pub struct Message {
    pub role: MessageRole,
    pub content: Vec<ContentBlock>,
    pub tool_call_id: Option<String>,
}

/// The mathematical model of a message: its content as a sequence of blocks.
pub struct MessageView {
    pub role: MessageRole,
    pub content: Seq<BlockView>,
    pub tool_call_id: Option<Seq<char>>,
}

impl View for Message {
    type V = MessageView;

    open spec fn view(&self) -> MessageView {
        MessageView { role: self.role, content: blocks_view(self.content@), tool_call_id: opt_text(self.tool_call_id) }
    }
}

impl Clone for Message {
    fn clone(&self) -> (r: Self)
        ensures
            r@ == self@,
    {
        Message {
            role: self.role,
            content: clone_blocks(&self.content),
            tool_call_id: clone_opt_string(&self.tool_call_id),
        }
    }
}

/// A copy of a sequence of messages.
pub fn clone_messages(v: &Vec<Message>) -> (r: Vec<Message>)
    ensures
        r.len() == v.len(),
        forall|i: int| 0 <= i < v.len() ==> #[trigger] r@[i]@ == v@[i]@,
{
    let mut r: Vec<Message> = Vec::new();
    let mut i: usize = 0;
    while i < v.len()
        invariant
            i <= v.len(),
            r.len() == i,
            forall|j: int| 0 <= j < i ==> #[trigger] r@[j]@ == v@[j]@,
        decreases v.len() - i,
    {
        r.push(v[i].clone());
        i += 1;
    }
    r
}

/// The view of a system message whose content is one text block holding `text`.
pub open spec fn system_text_view(text: Seq<char>) -> MessageView {
    MessageView { role: MessageRole::System, content: seq![BlockView::Text { text }], tool_call_id: None }
}

impl Message {
    /// A system message holding one text block.
    pub fn system_text(text: &str) -> (r: Self)
        ensures
            r@ == system_text_view(text@),
    {
        let mut content = Vec::new();
        content.push(ContentBlock::text(text));
        let r = Message { role: MessageRole::System, content, tool_call_id: None };
        assert(r@.content =~= seq![BlockView::Text { text: text@ }]);
        r
    }

    /// A user message with the given content.
    pub fn user(content: Vec<ContentBlock>) -> (r: Self)
        ensures
            r@ == (MessageView { role: MessageRole::User, content: blocks_view(content@), tool_call_id: None }),
    {
        Message { role: MessageRole::User, content, tool_call_id: None }
    }

    /// An assistant message with the given content.
    pub fn assistant(content: Vec<ContentBlock>) -> (r: Self)
        ensures
            r@ == (MessageView { role: MessageRole::Assistant, content: blocks_view(content@), tool_call_id: None }),
    {
        Message { role: MessageRole::Assistant, content, tool_call_id: None }
    }

    /// A tool message answering the call `call_id`.
    pub fn tool(call_id: &str, content: Vec<ContentBlock>) -> (r: Self)
        ensures
            r@ == (MessageView { role: MessageRole::Tool, content: blocks_view(content@), tool_call_id: Some(call_id@) }),
    {
        Message { role: MessageRole::Tool, content, tool_call_id: Some(call_id.to_owned()) }
    }
}

} // verus!
