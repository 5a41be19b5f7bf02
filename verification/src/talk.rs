use crate::communication::{messages_view, ChatMessage, ChatMessageView, MessageRole};
use vstd::prelude::*;
use vstd::string::StringExecFns;

verus! {

/// What the priming message says before the character's name.
pub const PERSONA_NAME_LEAD: &'static str = "You are a NPC in a RPG game. Your name is ";

/// What it says between the name and the occupation.
pub const PERSONA_OCCUPATION_LEAD: &'static str = " and you are a ";

/// What it says between the occupation and the backstory.
pub const PERSONA_BACKSTORY_LEAD: &'static str = ". This is your backstory: ";

/// The reply format that every persona is told to keep to.
pub const PROTOCOL_INSTRUCTIONS: &'static str = ".\
    \nThe communication between you as a npc and the player will be done using json objects. This is generally how one would look: \
    \n\
    \n        {\
    \n            \"sender_id\": \"Bob\",\
    \n            \"receiver_id\": \"Hank\",\
    \n            \"message\": \"Deal! 50 Gold Coins for a Steel Sword sounds good to me.\",\
    \n            \"actions\": [\
    \n                {\
    \n                    \"Give\":\
    \n                    {\
    \n                        \"item\": \"Gold Coin\",\
    \n                        \"amount\": 50\
    \n                    }\
    \n                }\
    \n            ]\
    \n        }\
    \n        {\
    \n            npc_inventory\": [\
    \n                {\
    \n                    \"item\": \"Steel Sword\",\
    \n                    \"amount\": 5\
    \n                },\
    \n                {\
    \n                    \"item\": \"Gold Coin\",\
    \n                    \"amount\": 30\
    \n                }\
    \n            ]\
    \n        }\
    \n        , \
    \n\
    \n         The first object is the request that the user sends you.\
    \n         You have to replace the values for these keys with the appropriate values. For example in the example above a player agrees to buy a Steel Sword from you for 50 Gold Coins.\
    \nIn the message he lets this know and in the list of actions he triggers the Give action with the parameters specifying which item he sends to you and the amount of items.\
    \n         The second object is passed to you by the game and lets you know what items you as the NPC currently have. You can only give items that you have (enough of).\
    \n         You would respond to this with a message to your liking and a Give action as well. For example:\
    \n        \
    \n\
    \n        {\
    \n        \"sender_id\": \"Hank\",\
    \n        \"receiver_id\": \"Bob\",\
    \n        \"message\": \"It was a pleasure doing business with you!\",\
    \n        \"actions\": [\
    \n            {\
    \n                \"Give\":\
    \n                {\
    \n                    \"item\": \"Steel Sword\",\
    \n                    \"amount\": 1\
    \n                }\
    \n            }\
    \n        ]\
    \n        }\
    \n        \
    \nAs you can see you don't send the second object (your inventory). The game will update your inventory for you. Only communicate with one json object and never put any more text before or after the object or it will fail! Also don't add ```json before and ``` after the object. Just send the object only. So the first character will always be { and the last character you send will always be }\
    \n\
    \n        ";

/// The text of the message that primes a conversation: the persona, then
/// the protocol instructions.
pub open spec fn priming_text(name: Seq<char>, occupation: Seq<char>, backstory: Seq<char>) -> Seq<
    char,
> {
    PERSONA_NAME_LEAD@ + name + PERSONA_OCCUPATION_LEAD@ + occupation + PERSONA_BACKSTORY_LEAD@
        + backstory + PROTOCOL_INSTRUCTIONS@
}

/// An actor's conversation so far: an append-only history whose first
/// message is the system message that primes it.
pub struct Context {
    history: Vec<ChatMessage>,
}

impl View for Context {
    type V = Seq<ChatMessageView>;

    closed spec fn view(&self) -> Seq<ChatMessageView> {
        messages_view(self.history@)
    }
}

impl Context {
    /// The context's invariant: it is never empty and starts with a system message.
    pub open spec fn wf(&self) -> bool {
        self@.len() >= 1 && self@[0].role == MessageRole::System
    }

    pub fn new(name: &str, occupation: &str, backstory: &str) -> (context: Context)
        ensures
            context.wf(),
            context@ == seq![
                ChatMessageView {
                    role: MessageRole::System,
                    content: priming_text(name@, occupation@, backstory@),
                },
            ],
    {
        let mut text = String::from_str(PERSONA_NAME_LEAD);
        text.append(name);
        text.append(PERSONA_OCCUPATION_LEAD);
        text.append(occupation);
        text.append(PERSONA_BACKSTORY_LEAD);
        text.append(backstory);
        text.append(PROTOCOL_INSTRUCTIONS);
        let mut history: Vec<ChatMessage> = Vec::new();
        history.push(ChatMessage::new(MessageRole::System, text));
        let context = Context { history };
        assert(context@ =~= seq![
            ChatMessageView {
                role: MessageRole::System,
                content: priming_text(name@, occupation@, backstory@),
            },
        ]);
        context
    }

    /// Adds `message` at the end; nothing that was there changes.
    pub fn append(&mut self, message: ChatMessage)
        ensures
            final(self)@ == old(self)@.push(message@),
            old(self).wf() ==> final(self).wf(),
    {
        self.history.push(message);
        assert(self@ =~= old(self)@.push(message@));
    }

    /// The whole history in order, as it is handed to the backend.
    pub fn history(&self) -> (history: &Vec<ChatMessage>)
        ensures
            messages_view(history@) == self@,
    {
        &self.history
    }

    /// A copy of the whole history.
    pub fn snapshot(&self) -> (copy: Vec<ChatMessage>)
        ensures
            messages_view(copy@) == self@,
    {
        let mut copy: Vec<ChatMessage> = Vec::new();
        let mut i: usize = 0;
        while i < self.history.len()
            invariant
                i <= self.history.len(),
                copy@ == self.history@.take(i as int),
            decreases self.history.len() - i,
        {
            copy.push(self.history[i].clone());
            assert(copy@ =~= self.history@.take(i + 1));
            i += 1;
        }
        assert(copy@ =~= self.history@);
        copy
    }
}

} // verus!
