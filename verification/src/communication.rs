use vstd::prelude::*;
use vstd::string::StringExecFns;

verus! {

/// Who speaks a line of a conversation.
#[derive(Clone, Copy, Debug, PartialEq, Eq, Hash, Structural)]
pub enum MessageRole {
    System,
    User,
    Assistant,
}

/// One line of a conversation.
#[derive(Debug)]
pub struct ChatMessage {
    role: MessageRole,
    content: String,
}

/// A `ChatMessage` as plain mathematical values.
pub struct ChatMessageView {
    pub role: MessageRole,
    pub content: Seq<char>,
}

impl View for ChatMessage {
    type V = ChatMessageView;

    closed spec fn view(&self) -> ChatMessageView {
        ChatMessageView { role: self.role, content: self.content@ }
    }
}

impl Clone for ChatMessage {
    fn clone(&self) -> (copy: ChatMessage)
        ensures
            copy == *self,
    {
        ChatMessage { role: self.role, content: self.content.clone() }
    }
}

impl ChatMessage {
    pub fn new(role: MessageRole, content: String) -> (message: ChatMessage)
        ensures
            message@ == (ChatMessageView { role, content: content@ }),
    {
        ChatMessage { role, content }
    }

    pub fn get_role(&self) -> (role: MessageRole)
        ensures
            role == self@.role,
    {
        self.role
    }

    pub fn get_content(&self) -> (content: String)
        ensures
            content@ == self@.content,
    {
        self.content.clone()
    }
}

/// The views of a sequence of messages, in order.
pub open spec fn messages_view(messages: Seq<ChatMessage>) -> Seq<ChatMessageView> {
    Seq::new(messages.len(), |i: int| messages[i]@)
}

/// The model that every request names.
pub open spec fn model_name() -> Seq<char> {
    "game-llm"@
}

/// What the backend answers: one message.
#[derive(Debug)]
pub struct ChatResponse {
    message: ChatMessage,
}

impl ChatResponse {
    pub closed spec fn message(&self) -> ChatMessageView {
        self.message@
    }

    pub fn new(message: ChatMessage) -> (response: ChatResponse)
        ensures
            response.message() == message@,
    {
        ChatResponse { message }
    }

    pub fn get_message(&self) -> (message: ChatMessage)
        ensures
            message@ == self.message(),
    {
        self.message.clone()
    }
}

/// What is posted to the backend: the model's name, the whole history, and
/// a flag that asks for one reply in one piece.
#[derive(Debug)]
pub struct ChatRequest {
    model: String,
    messages: Vec<ChatMessage>,
    stream: bool,
}

impl ChatRequest {
    pub closed spec fn model(&self) -> Seq<char> {
        self.model@
    }

    pub closed spec fn messages(&self) -> Seq<ChatMessageView> {
        messages_view(self.messages@)
    }

    pub closed spec fn stream(&self) -> bool {
        self.stream
    }

    pub fn new(messages: Vec<ChatMessage>) -> (request: ChatRequest)
        ensures
            request.model() == model_name(),
            request.messages() == messages_view(messages@),
            request.stream() == false,
    {
        ChatRequest { model: String::from_str("game-llm"), messages, stream: false }
    }

    pub fn get_model(&self) -> (model: &String)
        ensures
            model@ == self.model(),
    {
        &self.model
    }

    pub fn get_messages(&self) -> (messages: &Vec<ChatMessage>)
        ensures
            messages_view(messages@) == self.messages(),
    {
        &self.messages
    }

    pub fn get_stream(&self) -> (stream: bool)
        ensures
            stream == self.stream(),
    {
        self.stream
    }
}

/// One who can be talked to through the backend. A turn has two halves,
/// with the exchange itself between them: `begin_talk` records what is said
/// and gives the request to post, `finish_talk` records the answer.
pub trait Communicator {
    /// Everything said so far, in order.
    spec fn spoken(&self) -> Seq<ChatMessageView>;

    /// Records `message` and gives the request that carries the whole
    /// conversation, `message` last.
    fn begin_talk(&mut self, message: ChatMessage) -> (request: ChatRequest)
        ensures
            final(self).spoken() == old(self).spoken().push(message@),
            request.messages() == final(self).spoken(),
            request.model() == model_name(),
            request.stream() == false,
    ;

    /// Records the answer and gives its text.
    fn finish_talk(&mut self, response: &ChatResponse) -> (content: String)
        ensures
            final(self).spoken() == old(self).spoken().push(response.message()),
            content@ == response.message().content,
    ;
}

} // verus!
