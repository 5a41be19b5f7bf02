use crate::communication::{
    ChatMessage, ChatMessageView, ChatRequest, ChatResponse, Communicator, MessageRole,
};
use crate::item::Item;
use crate::ledger::{can_remove, quantity_in, stock_after_add, stock_after_remove, Ledger, Stock};
use crate::talk::{priming_text, Context};
use vstd::prelude::*;
use vstd::string::StringExecFns;

verus! {

/// What every actor can do: it has a name and holdings that can be read,
/// replaced, added to and taken from; one that keeps a conversation also
/// records what is said to it.
pub trait CharacterTrait {
    /// The actor's invariant.
    spec fn wf(&self) -> bool;

    /// The actor's name.
    spec fn name_text(&self) -> Seq<char>;

    /// What the actor holds.
    spec fn holdings(&self) -> Stock;

    /// The conversation so far, for an actor that keeps one.
    spec fn conversation(&self) -> Option<Seq<ChatMessageView>>;

    /// The actor's name.
    fn get_name(&self) -> (name: &String)
        ensures
            name@ == self.name_text(),
    ;

    /// Replaces the holdings by `new_items`.
    fn set_items(&mut self, new_items: Ledger)
        requires
            old(self).wf(),
            new_items.wf(),
        ensures
            final(self).wf(),
            final(self).holdings() == new_items@,
            final(self).name_text() == old(self).name_text(),
            final(self).conversation() == old(self).conversation(),
    ;

    /// Adds `amount` of `item` to the holdings, as `Ledger::add` does.
    fn add_item(&mut self, item: Item, amount: i32)
        requires
            old(self).wf(),
            amount > 0 ==> quantity_in(old(self).holdings(), item.name@) + amount <= i32::MAX,
        ensures
            final(self).wf(),
            final(self).holdings() == stock_after_add(
                old(self).holdings(),
                item.name@,
                amount as int,
            ),
            final(self).name_text() == old(self).name_text(),
            final(self).conversation() == old(self).conversation(),
    ;

    /// Takes `amount` of `item` out of the holdings, as `Ledger::remove`
    /// does, and says whether it did.
    fn remove_item(&mut self, item: Item, amount: i32) -> (done: bool)
        requires
            old(self).wf(),
        ensures
            final(self).wf(),
            done == can_remove(old(self).holdings(), item.name@, amount as int),
            final(self).holdings() == stock_after_remove(
                old(self).holdings(),
                item.name@,
                amount as int,
            ),
            final(self).name_text() == old(self).name_text(),
            final(self).conversation() == old(self).conversation(),
    ;

    /// The holdings, for reading.
    fn get_items(&self) -> (items: &Ledger)
        ensures
            items@ == self.holdings(),
            self.wf() ==> items.wf(),
    ;

    /// Whether the actor keeps a conversation.
    fn has_conversation(&self) -> (keeps: bool)
        ensures
            keeps == (self.conversation() is Some),
    ;

    /// Records `message` at the end of the conversation, where the actor
    /// keeps one; an actor that keeps none is left as it is.
    fn record(&mut self, message: ChatMessage)
        requires
            old(self).wf(),
        ensures
            final(self).wf(),
            final(self).conversation() == match old(self).conversation() {
                Some(history) => Some(history.push(message@)),
                None => None,
            },
            final(self).holdings() == old(self).holdings(),
            final(self).name_text() == old(self).name_text(),
    ;
}

/// The actor that a person steers.
pub struct Player {
    pub name: String,
    pub items: Ledger,
}

impl Player {
    /// A player with no holdings.
    pub fn new(name: &str) -> (player: Player)
        ensures
            player.wf(),
            player.name_text() == name@,
            player.holdings() == Map::<Seq<char>, int>::empty(),
    {
        Player { name: String::from_str(name), items: Ledger::new() }
    }
}

impl CharacterTrait for Player {
    open spec fn wf(&self) -> bool {
        self.items.wf()
    }

    open spec fn name_text(&self) -> Seq<char> {
        self.name@
    }

    open spec fn holdings(&self) -> Stock {
        self.items@
    }

    open spec fn conversation(&self) -> Option<Seq<ChatMessageView>> {
        None
    }

    fn get_name(&self) -> (name: &String) {
        &self.name
    }

    fn set_items(&mut self, new_items: Ledger) {
        self.items = new_items;
    }

    fn add_item(&mut self, item: Item, amount: i32) {
        self.items.add(item, amount);
    }

    fn remove_item(&mut self, item: Item, amount: i32) -> (done: bool) {
        self.items.remove(&item, amount)
    }

    fn get_items(&self) -> (items: &Ledger) {
        &self.items
    }

    fn has_conversation(&self) -> (keeps: bool) {
        false
    }

    fn record(&mut self, message: ChatMessage) {
    }
}

/// The actor that the model speaks for.
pub struct Npc {
    pub name: String,
    pub occupation: String,
    pub backstory: String,
    pub items: Ledger,
    pub message_history: Context,
}

impl Npc {
    /// A character with no holdings whose conversation holds the system
    /// message that primes it.
    pub fn new(name: &str, occupation: &str, backstory: &str) -> (npc: Npc)
        ensures
            npc.wf(),
            npc.name_text() == name@,
            npc.occupation@ == occupation@,
            npc.backstory@ == backstory@,
            npc.holdings() == Map::<Seq<char>, int>::empty(),
            npc.message_history@ == seq![
                ChatMessageView {
                    role: MessageRole::System,
                    content: priming_text(name@, occupation@, backstory@),
                },
            ],
    {
        Npc {
            message_history: Context::new(name, occupation, backstory),
            name: String::from_str(name),
            occupation: String::from_str(occupation),
            backstory: String::from_str(backstory),
            items: Ledger::new(),
        }
    }
}

impl CharacterTrait for Npc {
    open spec fn wf(&self) -> bool {
        self.items.wf() && self.message_history.wf()
    }

    open spec fn name_text(&self) -> Seq<char> {
        self.name@
    }

    open spec fn holdings(&self) -> Stock {
        self.items@
    }

    open spec fn conversation(&self) -> Option<Seq<ChatMessageView>> {
        Some(self.message_history@)
    }

    fn get_name(&self) -> (name: &String) {
        &self.name
    }

    fn set_items(&mut self, new_items: Ledger) {
        self.items = new_items;
    }

    fn add_item(&mut self, item: Item, amount: i32) {
        self.items.add(item, amount);
    }

    fn remove_item(&mut self, item: Item, amount: i32) -> (done: bool) {
        self.items.remove(&item, amount)
    }

    fn get_items(&self) -> (items: &Ledger) {
        &self.items
    }

    fn has_conversation(&self) -> (keeps: bool) {
        true
    }

    fn record(&mut self, message: ChatMessage) {
        self.message_history.append(message);
    }
}

impl Communicator for Npc {
    open spec fn spoken(&self) -> Seq<ChatMessageView> {
        self.message_history@
    }

    fn begin_talk(&mut self, message: ChatMessage) -> (request: ChatRequest) {
        self.message_history.append(message);
        ChatRequest::new(self.message_history.snapshot())
    }

    fn finish_talk(&mut self, response: &ChatResponse) -> (content: String) {
        let message = response.get_message();
        let content = message.get_content();
        self.message_history.append(message);
        content
    }
}

} // verus!
