//! Request messages and model replies.

use vstd::prelude::*;
use crate::text;

verus! {

/// Who speaks in a request message.
#[derive(Clone, Copy, Debug, PartialEq, Eq, Structural)]
pub enum ChatRoleTag {
    Assistant,
    System,
    User,
}

/// The content of a request message.
#[derive(Debug, PartialEq)]
pub enum TransportContent {
    Text(String),
}

/// One message of a request.
#[derive(Debug, PartialEq)]
pub struct TransportRequestMessage {
    pub content: Option<TransportContent>,
    pub name: Option<String>,
    pub role: ChatRoleTag,
    pub tool_call_id: Option<String>,
    pub tool_calls: Option<Vec<String>>,
}

/// A message that is a plain text: its role and the text.
pub open spec fn is_text_message(
    m: TransportRequestMessage,
    role: ChatRoleTag,
    body: Seq<char>,
) -> bool {
    &&& m.role == role
    &&& m.content matches Some(TransportContent::Text(t)) && t@ == body
    &&& m.name is None
    &&& m.tool_call_id is None
    &&& m.tool_calls is None
}

/// A plain text message.
pub fn text_message(role: ChatRoleTag, body: &str) -> (r: TransportRequestMessage)
    ensures
        is_text_message(r, role, body@),
{
    TransportRequestMessage {
        content: Some(TransportContent::Text(body.to_string())),
        name: None,
        role,
        tool_call_id: None,
        tool_calls: None,
    }
}

/// The content of a model reply: a text, a list of parts (each with its text,
/// where it has one), or anything else.
#[derive(Debug, PartialEq)]
pub enum ReplyContent {
    Text(String),
    Parts(Vec<Option<String>>),
    Other,
}

/// One reply message.
#[derive(Debug, PartialEq)]
pub struct ResponseMessage {
    pub content: Option<ReplyContent>,
}

/// One of a reply's choices.
#[derive(Debug, PartialEq)]
pub struct ResponseChoice {
    pub message: Option<ResponseMessage>,
}

/// What a model call returns.
#[derive(Debug, PartialEq)]
pub struct OpenAICompatibleResponse {
    pub choices: Option<Vec<ResponseChoice>>,
}

/// The texts of the parts that have one, one after the other.
pub open spec fn parts_text(parts: Seq<Option<String>>) -> Seq<char>
    decreases parts.len(),
{
    if parts.len() == 0 {
        Seq::empty()
    } else {
        match parts.last() {
            Some(t) => parts_text(parts.drop_last()) + t@,
            None => parts_text(parts.drop_last()),
        }
    }
}

/// The text of a content, where it is a text or a list of parts.
pub open spec fn content_text(content: ReplyContent) -> Option<Seq<char>> {
    match content {
        ReplyContent::Text(t) => Some(t@),
        ReplyContent::Parts(parts) => Some(parts_text(parts@)),
        ReplyContent::Other => None,
    }
}

impl OpenAICompatibleResponse {
    /// The text of the first choice's message.
    pub open spec fn reply_text(self) -> Option<Seq<char>> {
        match self.choices {
            Some(choices) => if choices@.len() == 0 {
                None
            } else {
                match choices@[0].message {
                    Some(message) => match message.content {
                        Some(content) => content_text(content),
                        None => None,
                    },
                    None => None,
                }
            },
            None => None,
        }
    }

    /// The text of the first choice's message.
    pub fn first_text(&self) -> (r: Option<String>)
        ensures
            text::opt_text(r) == self.reply_text(),
    {
        match &self.choices {
            Some(choices) => {
                if choices.len() == 0 {
                    return None;
                }
                match &choices[0].message {
                    Some(message) => match &message.content {
                        Some(content) => text_of_content(content),
                        None => None,
                    },
                    None => None,
                }
            },
            None => None,
        }
    }
}

fn text_of_content(content: &ReplyContent) -> (r: Option<String>)
    ensures
        text::opt_text(r) == content_text(*content),
{
    match content {
        ReplyContent::Text(t) => Some(t.clone()),
        ReplyContent::Parts(parts) => {
            let mut out = String::new();
            let mut i: usize = 0;
            assert(parts@.take(0) =~= Seq::empty());
            while i < parts.len()
                invariant
                    i <= parts.len(),
                    out@ == parts_text(parts@.take(i as int)),
                decreases parts.len() - i,
            {
                assert(parts@.take(i + 1).drop_last() =~= parts@.take(i as int));
                if let Some(t) = &parts[i] {
                    out.append(t.as_str());
                }
                i = i + 1;
            }
            assert(parts@.take(i as int) =~= parts@);
            Some(out)
        },
        ReplyContent::Other => None,
    }
}

/// The text of a reply is that of its first choice: a plain text as it is, a
/// list of parts as the texts of those that have one, in order. Anything else
/// has none.
pub proof fn law_a_reply_is_the_text_of_its_first_choice(
    response: OpenAICompatibleResponse,
    parts: Seq<Option<String>>,
    t: String,
)
    ensures
        response.choices is None ==> response.reply_text() is None,
        response.choices matches Some(choices) ==> {
            &&& choices@.len() == 0 ==> response.reply_text() is None
            &&& choices@.len() > 0 && choices@[0].message is None ==> response.reply_text() is None
            &&& choices@.len() > 0 && choices@[0].message is Some
                && choices@[0].message->0.content is None ==> response.reply_text() is None
            &&& choices@.len() > 0 && choices@[0].message is Some
                && choices@[0].message->0.content is Some ==> response.reply_text()
                == content_text(choices@[0].message->0.content->0)
        },
        content_text(ReplyContent::Text(t)) == Some(t@),
        content_text(ReplyContent::Other) is None,
        parts_text(parts.push(Some(t))) == parts_text(parts) + t@,
        parts_text(parts.push(None)) == parts_text(parts),
        parts_text(Seq::empty()) == Seq::<char>::empty(),
{
    assert(parts.push(Some(t)).drop_last() =~= parts);
    assert(parts.push(None).drop_last() =~= parts);
}

} // verus!
