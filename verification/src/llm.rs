use crate::communication::{
    messages_view, ChatMessage, ChatMessageView, ChatRequest, ChatResponse, MessageRole,
};
use crate::json::{
    find_member, items_view, json_leading_value, json_text, lemma_array_view, lemma_object_view,
    member, members_view, parse_leading, render, view_of, JsonTree, JsonValue,
};
use crate::text::text_of;
use vstd::prelude::*;
use vstd::string::StringExecFns;

verus! {

/// Where the backend listens.
pub const LLM_API_URL: &'static str = "http://localhost:11434/api";

/// The path of the chat endpoint below `LLM_API_URL`.
pub const CHAT_PATH: &'static str = "/chat";

/// The address that chat requests are posted to.
pub fn chat_endpoint() -> (url: String)
    ensures
        url@ == LLM_API_URL@ + CHAT_PATH@,
{
    String::from_str(LLM_API_URL).concat(CHAT_PATH)
}

/// Why an exchange with the backend gave no message.
#[derive(Clone, Copy, Debug, PartialEq, Eq, Structural)]
pub enum GatewayError {
    /// The backend could not be reached or its answer could not be read.
    Unavailable,
}

/// The name that a role goes by on the wire.
pub open spec fn role_name(role: MessageRole) -> Seq<char> {
    match role {
        MessageRole::System => "system"@,
        MessageRole::User => "user"@,
        MessageRole::Assistant => "assistant"@,
    }
}

/// The role that goes by `name` on the wire.
pub open spec fn role_of_name(name: Seq<char>) -> Option<MessageRole> {
    if name == "system"@ {
        Some(MessageRole::System)
    } else if name == "user"@ {
        Some(MessageRole::User)
    } else if name == "assistant"@ {
        Some(MessageRole::Assistant)
    } else {
        None
    }
}

/// The JSON object that stands for a message.
pub open spec fn tree_of_message(message: ChatMessageView) -> JsonTree {
    JsonTree::Object(
        seq![
            ("role"@, JsonTree::Text(role_name(message.role))),
            ("content"@, JsonTree::Text(message.content)),
        ],
    )
}

/// The JSON object that is posted for a request: the model's name, the
/// messages in order, and the streaming flag.
pub open spec fn tree_of_request(
    model: Seq<char>,
    messages: Seq<ChatMessageView>,
    stream: bool,
) -> JsonTree {
    JsonTree::Object(
        seq![
            ("model"@, JsonTree::Text(model)),
            (
                "messages"@,
                JsonTree::Array(Seq::new(messages.len(), |k: int| tree_of_message(messages[k]))),
            ),
            ("stream"@, JsonTree::Bool(stream)),
        ],
    )
}

/// The message that a JSON value stands for: an object with a text member
/// `role` that names a role and a text member `content`.
pub open spec fn message_of_tree(tree: JsonTree) -> Option<ChatMessageView> {
    match tree {
        JsonTree::Object(members) => match (member(members, "role"@), member(members, "content"@)) {
            (Some(JsonTree::Text(name)), Some(JsonTree::Text(content))) => match role_of_name(name) {
                Some(role) => Some(ChatMessageView { role, content }),
                None => None,
            },
            _ => None,
        },
        _ => None,
    }
}

/// The message of the answer that a parsed body stands for: the body is an
/// object whose member `message` stands for a message.
pub open spec fn reply_of_document(document: Option<JsonTree>) -> Result<
    ChatMessageView,
    GatewayError,
> {
    match document {
        Some(JsonTree::Object(members)) => match member(members, "message"@) {
            Some(tree) => match message_of_tree(tree) {
                Some(message) => Ok(message),
                None => Err(GatewayError::Unavailable),
            },
            None => Err(GatewayError::Unavailable),
        },
        _ => Err(GatewayError::Unavailable),
    }
}

/// What an exchange yields, given the body that came back, if one did: the
/// message of the answer, and `Unavailable` where no body came back or the
/// body is no answer.
pub open spec fn exchange_result(body: Option<Seq<char>>) -> Result<ChatMessageView, GatewayError> {
    match body {
        Some(text) => reply_of_document(json_leading_value(text)),
        None => Err(GatewayError::Unavailable),
    }
}

/// The names of the roles are pairwise different, so a role is read back
/// from its name, and a message from the JSON object that stands for it.
pub proof fn law_message_round_trip(message: ChatMessageView)
    ensures
        role_of_name(role_name(message.role)) == Some(message.role),
        message_of_tree(tree_of_message(message)) == Some(message),
{
    reveal_strlit("system");
    reveal_strlit("user");
    reveal_strlit("assistant");
    reveal_strlit("role");
    reveal_strlit("content");
    assert("system"@.len() == 6);
    assert("user"@.len() == 4);
    assert("assistant"@.len() == 9);
    assert("role"@.len() == 4);
    assert("content"@.len() == 7);
    let members = seq![
        ("role"@, JsonTree::Text(role_name(message.role))),
        ("content"@, JsonTree::Text(message.content)),
    ];
    let rest = members.drop_first();
    assert(rest[0] == members[1]);
    assert(member(rest, "content"@) == Some(JsonTree::Text(message.content)));
    assert(member(members, "content"@) == Some(JsonTree::Text(message.content)));
    assert(member(members, "role"@) == Some(JsonTree::Text(role_name(message.role))));
}

/// The view of the outcome of an exchange.
pub open spec fn outcome_view(outcome: Result<ChatMessage, GatewayError>) -> Result<
    ChatMessageView,
    GatewayError,
> {
    match outcome {
        Ok(message) => Ok(message@),
        Err(e) => Err(e),
    }
}

/// The name that `role` goes by on the wire.
pub fn name_of_role(role: MessageRole) -> (name: String)
    ensures
        name@ == role_name(role),
{
    match role {
        MessageRole::System => String::from_str("system"),
        MessageRole::User => String::from_str("user"),
        MessageRole::Assistant => String::from_str("assistant"),
    }
}

/// The role that goes by `name` on the wire, if it names one.
pub fn role_from_name(name: &String) -> (role: Option<MessageRole>)
    ensures
        role == role_of_name(name@),
{
    if *name == String::from_str("system") {
        Some(MessageRole::System)
    } else if *name == String::from_str("user") {
        Some(MessageRole::User)
    } else if *name == String::from_str("assistant") {
        Some(MessageRole::Assistant)
    } else {
        None
    }
}

/// The JSON value that stands for `message`.
pub fn message_to_json(message: &ChatMessage) -> (value: JsonValue)
    ensures
        value@ == tree_of_message(message@),
{
    let mut members: Vec<(String, JsonValue)> = Vec::new();
    members.push((String::from_str("role"), JsonValue::Text(name_of_role(message.get_role()))));
    members.push((String::from_str("content"), JsonValue::Text(message.get_content())));
    let value = JsonValue::Object(members);
    proof {
        lemma_object_view(value);
        assert(members_view(members@) =~= seq![
            ("role"@, JsonTree::Text(role_name(message@.role))),
            ("content"@, JsonTree::Text(message@.content)),
        ]);
    }
    value
}

/// The message that `value` stands for, if it stands for one.
pub fn message_from_json(value: &JsonValue) -> (message: Option<ChatMessage>)
    ensures
        match message {
            Some(m) => message_of_tree(value@) == Some(m@),
            None => message_of_tree(value@) is None,
        },
{
    match value {
        JsonValue::Object(members) => {
            proof {
                lemma_object_view(*value);
            }
            let role = match find_member(members, "role") {
                Some(JsonValue::Text(name)) => match role_from_name(name) {
                    Some(role) => role,
                    None => {
                        return None;
                    },
                },
                _ => {
                    return None;
                },
            };
            match find_member(members, "content") {
                Some(JsonValue::Text(content)) => Some(ChatMessage::new(role, content.clone())),
                _ => None,
            }
        },
        _ => None,
    }
}

/// The body that is posted for `request`; `None` where the JSON writer refuses.
pub fn request_body(request: &ChatRequest) -> (body: Option<String>)
    ensures
        text_of(body) == json_text(
            tree_of_request(request.model(), request.messages(), request.stream()),
        ),
{
    let messages = request.get_messages();
    let ghost wanted = Seq::new(
        request.messages().len(),
        |k: int| tree_of_message(request.messages()[k]),
    );
    let mut items: Vec<JsonValue> = Vec::new();
    let mut k: usize = 0;
    while k < messages.len()
        invariant
            k <= messages.len(),
            items@.len() == k,
            messages_view(messages@) == request.messages(),
            forall|j: int| 0 <= j < k ==> (#[trigger] items@[j])@ == tree_of_message(messages@[j]@),
        decreases messages.len() - k,
    {
        items.push(message_to_json(&messages[k]));
        k += 1;
    }
    let array = JsonValue::Array(items);
    proof {
        lemma_array_view(array);
        assert(items_view(items@) =~= wanted);
    }
    let mut members: Vec<(String, JsonValue)> = Vec::new();
    members.push((String::from_str("model"), JsonValue::Text(request.get_model().clone())));
    members.push((String::from_str("messages"), array));
    members.push((String::from_str("stream"), JsonValue::Bool(request.get_stream())));
    let value = JsonValue::Object(members);
    proof {
        lemma_object_view(value);
        assert(members_view(members@) =~= seq![
            ("model"@, JsonTree::Text(request.model())),
            ("messages"@, JsonTree::Array(wanted)),
            ("stream"@, JsonTree::Bool(request.stream())),
        ]);
    }
    render(&value)
}

/// The message of the answer that the parsed body `document` stands for.
pub fn reply_from_document(document: &Option<JsonValue>) -> (outcome: Result<
    ChatMessage,
    GatewayError,
>)
    ensures
        outcome_view(outcome) == reply_of_document(view_of(*document)),
{
    match document {
        Some(JsonValue::Object(members)) => {
            proof {
                lemma_object_view(document->Some_0);
            }
            match find_member(members, "message") {
                Some(value) => match message_from_json(value) {
                    Some(message) => Ok(message),
                    None => Err(GatewayError::Unavailable),
                },
                None => Err(GatewayError::Unavailable),
            }
        },
        _ => Err(GatewayError::Unavailable),
    }
}

/// Turns what the transport brought back into the outcome of the exchange.
/// `body` is the text of the answer, or `None` where the transport failed.
/// Both a failed transport and a body that is no answer give `Unavailable`.
pub fn complete_exchange(body: Option<String>) -> (outcome: Result<ChatMessage, GatewayError>)
    ensures
        outcome_view(outcome) == exchange_result(text_of(body)),
{
    match body {
        Some(text) => {
            let document = parse_leading(text.as_str());
            reply_from_document(&document)
        },
        None => Err(GatewayError::Unavailable),
    }
}

} // verus!
