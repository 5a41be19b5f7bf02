use crate::character::{CharacterTrait, Npc};
use crate::codec::{decode_json, encode, encoded, interaction_or_fallback};
use crate::communication::{
    model_name, ChatMessage, ChatMessageView, ChatRequest, MessageRole,
};
use crate::interaction::{fallback_view, Interaction, InteractionView};
use crate::json::json_leading_value;
use crate::llm::{outcome_view, GatewayError};
use vstd::prelude::*;
use vstd::string::StringExecFns;

verus! {

/// What a player says to a character, before the model has answered: the
/// player as sender, the character as receiver, the text, and no actions.
pub open spec fn outgoing_view(player: Seq<char>, npc: Seq<char>, message: Seq<char>) -> InteractionView {
    InteractionView { sender_id: player, receiver_id: npc, message, actions: Seq::empty() }
}

/// The interaction that carries `message` from the player to the character.
pub fn outgoing_interaction(player: &str, npc: &str, message: &str) -> (interaction: Interaction)
    ensures
        interaction@ == outgoing_view(player@, npc@, message@),
{
    let interaction = Interaction {
        sender_id: String::from_str(player),
        receiver_id: String::from_str(npc),
        message: String::from_str(message),
        actions: Vec::new(),
    };
    assert(interaction@.actions =~= Seq::empty());
    interaction
}

/// A turn of the user with the given text.
pub open spec fn user_turn(text: Seq<char>) -> ChatMessageView {
    ChatMessageView { role: MessageRole::User, content: text }
}

/// A turn of the assistant with the given text.
pub open spec fn assistant_turn(text: Seq<char>) -> ChatMessageView {
    ChatMessageView { role: MessageRole::Assistant, content: text }
}

/// Opens an exchange: what `player` said is recorded in the character's
/// conversation as a turn of the user, and the request to post is built. The
/// request carries the conversation and, last, the encoded payload: the
/// outgoing interaction followed by the character's holdings. `None` where
/// the payload cannot be encoded; the turn is recorded all the same.
pub fn open_exchange(npc: &mut Npc, player: &str, message: &str) -> (request: Option<ChatRequest>)
    requires
        old(npc).wf(),
    ensures
        final(npc).wf(),
        final(npc).message_history@ == old(npc).message_history@.push(user_turn(message@)),
        final(npc).holdings() == old(npc).holdings(),
        final(npc).name_text() == old(npc).name_text(),
        match encoded(
            outgoing_view(player@, old(npc).name_text(), message@),
            old(npc).items.listing(),
        ) {
            Some(payload) => {
                &&& request matches Some(r)
                &&& r.messages() == final(npc).message_history@.push(user_turn(payload))
                &&& r.model() == model_name()
                &&& r.stream() == false
            },
            None => request is None,
        },
{
    npc.message_history.append(ChatMessage::new(MessageRole::User, String::from_str(message)));
    let interaction = outgoing_interaction(player, npc.name.as_str(), message);
    match encode(&interaction, &npc.items) {
        Some(payload) => {
            let mut history = npc.message_history.snapshot();
            let ghost before = crate::communication::messages_view(history@);
            history.push(ChatMessage::new(MessageRole::User, payload));
            assert(crate::communication::messages_view(history@) =~= before.push(
                user_turn(payload@),
            ));
            Some(ChatRequest::new(history))
        },
        None => None,
    }
}

/// What an exchange comes to: the interaction that the answer's text
/// decodes to, and the stand-in where the exchange failed.
pub open spec fn exchange_interaction(outcome: Result<ChatMessageView, GatewayError>) -> InteractionView {
    match outcome {
        Ok(message) => interaction_or_fallback(json_leading_value(message.content)),
        Err(_) => fallback_view(),
    }
}

/// Turns the outcome of an exchange into the interaction that is handed
/// on. A failed exchange gives the stand-in, as a reply that cannot be
/// decoded does.
pub fn close_exchange(outcome: Result<ChatMessage, GatewayError>) -> (interaction: Interaction)
    ensures
        interaction@ == exchange_interaction(outcome_view(outcome)),
{
    match outcome {
        Ok(message) => {
            let content = message.get_content();
            decode_json(content.as_str())
        },
        Err(_) => Interaction::fallback(),
    }
}

/// Records a reply in the conversation of the character that sent it: where
/// `reply` names the character as its sender, the reply's message is
/// appended as a turn of the assistant. Returns whether it was.
pub fn observe_reply(npc: &mut Npc, reply: &Interaction) -> (recorded: bool)
    requires
        old(npc).wf(),
    ensures
        final(npc).wf(),
        recorded == (reply@.sender_id == old(npc).name_text()),
        final(npc).message_history@ == if recorded {
            old(npc).message_history@.push(assistant_turn(reply@.message))
        } else {
            old(npc).message_history@
        },
        final(npc).holdings() == old(npc).holdings(),
        final(npc).name_text() == old(npc).name_text(),
{
    if npc.name == reply.sender_id {
        npc.message_history.append(
            ChatMessage::new(MessageRole::Assistant, reply.message.clone()),
        );
        true
    } else {
        false
    }
}

} // verus!
