use crate::character::CharacterTrait;
use crate::communication::{ChatMessage, ChatMessageView, MessageRole};
use crate::interaction::{actions_view, Action, ActionView, Interaction, InteractionView};
use crate::item::{known_in, Catalog, Item};
use crate::ledger::{
    can_remove, quantity_in, stock_after_add, stock_after_remove, stock_valid, Stock,
};
use vstd::prelude::*;

verus! {

/// How one action of an interaction ended.
#[derive(Clone, Copy, Debug, PartialEq, Eq, Structural)]
pub enum ActionOutcome {
    /// The amount left the sender's holdings and reached the receiver's.
    Transferred,
    /// The catalog knows no item of that name.
    UnknownItem,
    /// The amount is not positive.
    InvalidAmount,
    /// The sender does not hold the item, or holds less than the amount.
    InsufficientStock,
    /// The receiver's quantity would no longer fit the machine integer.
    ReceiverFull,
    /// The actors at hand are not the ones that the interaction names.
    UnknownActor,
}

/// What applying an interaction did: one outcome per action, in order, and
/// whether the message was recorded in a conversation of the receiver.
#[derive(Debug)]
pub struct ExecutionReport {
    pub outcomes: Vec<ActionOutcome>,
    pub recorded: bool,
}

/// How a transfer of `amount` of `item` ends. `known` says whether the
/// catalog knows the item.
pub open spec fn transfer_outcome(
    sender: Stock,
    receiver: Stock,
    known: bool,
    item: Seq<char>,
    amount: int,
) -> ActionOutcome {
    if !known {
        ActionOutcome::UnknownItem
    } else if amount <= 0 {
        ActionOutcome::InvalidAmount
    } else if !can_remove(sender, item, amount) {
        ActionOutcome::InsufficientStock
    } else if quantity_in(receiver, item) + amount > i32::MAX {
        ActionOutcome::ReceiverFull
    } else {
        ActionOutcome::Transferred
    }
}

/// The holdings of sender and receiver after an attempted transfer: both as
/// they were unless the transfer went through.
pub open spec fn stocks_after_transfer(
    sender: Stock,
    receiver: Stock,
    known: bool,
    item: Seq<char>,
    amount: int,
) -> (Stock, Stock) {
    if transfer_outcome(sender, receiver, known, item, amount) == ActionOutcome::Transferred {
        (stock_after_remove(sender, item, amount), stock_after_add(receiver, item, amount))
    } else {
        (sender, receiver)
    }
}

/// The holdings of sender and receiver after the actions were applied one
/// after the other, each to what the one before it left.
pub open spec fn stocks_after_actions(
    actions: Seq<ActionView>,
    sender: Stock,
    receiver: Stock,
    items: Seq<Item>,
) -> (Stock, Stock)
    decreases actions.len(),
{
    if actions.len() == 0 {
        (sender, receiver)
    } else {
        let before = stocks_after_actions(actions.drop_last(), sender, receiver, items);
        match actions.last() {
            ActionView::Give { item, amount } => stocks_after_transfer(
                before.0,
                before.1,
                known_in(items, item),
                item,
                amount,
            ),
        }
    }
}

/// The outcome of the action at position `k`: that of its transfer on the
/// holdings that the actions before it left.
pub open spec fn outcome_at(
    actions: Seq<ActionView>,
    sender: Stock,
    receiver: Stock,
    items: Seq<Item>,
    k: int,
) -> ActionOutcome {
    let before = stocks_after_actions(actions.take(k), sender, receiver, items);
    match actions[k] {
        ActionView::Give { item, amount } => transfer_outcome(
            before.0,
            before.1,
            known_in(items, item),
            item,
            amount,
        ),
    }
}

/// A transfer for an item that the catalog does not know is reported as
/// such and leaves both holdings as they were.
pub proof fn law_unknown_item_changes_nothing(
    sender: Stock,
    receiver: Stock,
    item: Seq<char>,
    amount: int,
)
    ensures
        transfer_outcome(sender, receiver, false, item, amount) == ActionOutcome::UnknownItem,
        stocks_after_transfer(sender, receiver, false, item, amount) == (sender, receiver),
{
}

/// A transfer moves the amount or moves nothing: where it goes through,
/// the sender holds that much less and the receiver that much more; where
/// it does not, both hold what they held. Either way the two hold as much
/// of the item between them as before.
pub proof fn law_transfer_is_whole(
    sender: Stock,
    receiver: Stock,
    known: bool,
    item: Seq<char>,
    amount: int,
)
    requires
        stock_valid(sender),
        stock_valid(receiver),
    ensures
        ({
            let after = stocks_after_transfer(sender, receiver, known, item, amount);
            let moved = transfer_outcome(sender, receiver, known, item, amount)
                == ActionOutcome::Transferred;
            &&& moved ==> quantity_in(after.0, item) == quantity_in(sender, item) - amount
            &&& moved ==> quantity_in(after.1, item) == quantity_in(receiver, item) + amount
            &&& !moved ==> after == (sender, receiver)
            &&& quantity_in(after.0, item) + quantity_in(after.1, item) == quantity_in(sender, item)
                + quantity_in(receiver, item)
            &&& stock_valid(after.0)
            &&& stock_valid(after.1)
        }),
{
}

/// Applying a list of actions moves goods and makes none: of every good,
/// sender and receiver hold as much between them afterwards as before, and
/// both holdings stay valid.
pub proof fn law_actions_conserve(
    actions: Seq<ActionView>,
    sender: Stock,
    receiver: Stock,
    items: Seq<Item>,
    name: Seq<char>,
)
    requires
        stock_valid(sender),
        stock_valid(receiver),
    ensures
        ({
            let after = stocks_after_actions(actions, sender, receiver, items);
            &&& quantity_in(after.0, name) + quantity_in(after.1, name) == quantity_in(sender, name)
                + quantity_in(receiver, name)
            &&& stock_valid(after.0)
            &&& stock_valid(after.1)
        }),
    decreases actions.len(),
{
    if actions.len() > 0 {
        law_actions_conserve(actions.drop_last(), sender, receiver, items, name);
        let before = stocks_after_actions(actions.drop_last(), sender, receiver, items);
        match actions.last() {
            ActionView::Give { item, amount } => {
                law_transfer_is_whole(before.0, before.1, known_in(items, item), item, amount);
            },
        }
    }
}

/// Moves `amount` of the item named `item` from `sender` to `receiver`, or
/// moves nothing and says why. The item is looked up in the catalog first;
/// the amount leaves the sender before it reaches the receiver, and only
/// when both steps are known to succeed.
pub fn transfer<S: CharacterTrait, R: CharacterTrait>(
    sender: &mut S,
    receiver: &mut R,
    catalog: &Catalog,
    item: &String,
    amount: i32,
) -> (outcome: ActionOutcome)
    requires
        old(sender).wf(),
        old(receiver).wf(),
    ensures
        final(sender).wf(),
        final(receiver).wf(),
        outcome == transfer_outcome(
            old(sender).holdings(),
            old(receiver).holdings(),
            known_in(catalog.items@, item@),
            item@,
            amount as int,
        ),
        (final(sender).holdings(), final(receiver).holdings()) == stocks_after_transfer(
            old(sender).holdings(),
            old(receiver).holdings(),
            known_in(catalog.items@, item@),
            item@,
            amount as int,
        ),
        final(sender).name_text() == old(sender).name_text(),
        final(receiver).name_text() == old(receiver).name_text(),
        final(sender).conversation() == old(sender).conversation(),
        final(receiver).conversation() == old(receiver).conversation(),
{
    let good = match catalog.find(item) {
        Some(good) => good,
        None => {
            return ActionOutcome::UnknownItem;
        },
    };
    if amount <= 0 {
        return ActionOutcome::InvalidAmount;
    }
    let held = sender.get_items().quantity_of(item);
    if held < amount {
        return ActionOutcome::InsufficientStock;
    }
    if !receiver.get_items().can_add(good, amount) {
        return ActionOutcome::ReceiverFull;
    }
    let done = sender.remove_item(good.clone(), amount);
    assert(done);
    receiver.add_item(good.clone(), amount);
    ActionOutcome::Transferred
}

/// The message that is recorded for an interaction: its text, as a turn of
/// the assistant.
pub open spec fn recorded_turn(interaction: InteractionView) -> ChatMessageView {
    ChatMessageView { role: MessageRole::Assistant, content: interaction.message }
}

/// Whether the two actors at hand are the ones that the interaction names.
pub open spec fn actors_match(interaction: InteractionView, sender: Seq<char>, receiver: Seq<char>) -> bool {
    interaction.sender_id == sender && interaction.receiver_id == receiver
}

/// Applies an interaction to its sender and its receiver.
///
/// Where the actors at hand are not the ones that the interaction names,
/// nothing changes and every action is reported as `UnknownActor`.
/// Otherwise the actions are applied in order, each one on its own: one that
/// fails is reported and the next is tried. After the actions, the
/// interaction's message is recorded as a turn of the assistant in the
/// receiver's conversation, where the receiver keeps one.
pub fn apply<S: CharacterTrait, R: CharacterTrait>(
    interaction: &Interaction,
    sender: &mut S,
    receiver: &mut R,
    catalog: &Catalog,
) -> (report: ExecutionReport)
    requires
        old(sender).wf(),
        old(receiver).wf(),
    ensures
        final(sender).wf(),
        final(receiver).wf(),
        final(sender).name_text() == old(sender).name_text(),
        final(receiver).name_text() == old(receiver).name_text(),
        final(sender).conversation() == old(sender).conversation(),
        report.outcomes@.len() == interaction@.actions.len(),
        !actors_match(interaction@, old(sender).name_text(), old(receiver).name_text()) ==> {
            &&& final(sender).holdings() == old(sender).holdings()
            &&& final(receiver).holdings() == old(receiver).holdings()
            &&& final(receiver).conversation() == old(receiver).conversation()
            &&& !report.recorded
            &&& forall|k: int|
                0 <= k < report.outcomes@.len() ==> report.outcomes@[k]
                    == ActionOutcome::UnknownActor
        },
        actors_match(interaction@, old(sender).name_text(), old(receiver).name_text()) ==> {
            &&& (final(sender).holdings(), final(receiver).holdings()) == stocks_after_actions(
                interaction@.actions,
                old(sender).holdings(),
                old(receiver).holdings(),
                catalog.items@,
            )
            &&& forall|k: int|
                0 <= k < report.outcomes@.len() ==> report.outcomes@[k] == outcome_at(
                    interaction@.actions,
                    old(sender).holdings(),
                    old(receiver).holdings(),
                    catalog.items@,
                    k,
                )
            &&& final(receiver).conversation() == match old(receiver).conversation() {
                Some(history) => Some(history.push(recorded_turn(interaction@))),
                None => None,
            }
            &&& report.recorded == (old(receiver).conversation() is Some)
        },
{
    let mut outcomes: Vec<ActionOutcome> = Vec::new();
    let ghost actions = interaction@.actions;
    let ghost sender_before = sender.holdings();
    let ghost receiver_before = receiver.holdings();
    let named = *sender.get_name() == interaction.sender_id && *receiver.get_name()
        == interaction.receiver_id;
    if !named {
        let mut k: usize = 0;
        while k < interaction.actions.len()
            invariant
                k <= interaction.actions.len(),
                outcomes@.len() == k,
                forall|j: int| 0 <= j < k ==> outcomes@[j] == ActionOutcome::UnknownActor,
            decreases interaction.actions.len() - k,
        {
            outcomes.push(ActionOutcome::UnknownActor);
            k += 1;
        }
        return ExecutionReport { outcomes, recorded: false };
    }
    let mut k: usize = 0;
    assert(actions.take(0) =~= Seq::<ActionView>::empty());
    while k < interaction.actions.len()
        invariant
            k <= interaction.actions.len(),
            actions == actions_view(interaction.actions@),
            sender.wf(),
            receiver.wf(),
            sender.name_text() == old(sender).name_text(),
            receiver.name_text() == old(receiver).name_text(),
            sender.conversation() == old(sender).conversation(),
            receiver.conversation() == old(receiver).conversation(),
            outcomes@.len() == k,
            (sender.holdings(), receiver.holdings()) == stocks_after_actions(
                actions.take(k as int),
                sender_before,
                receiver_before,
                catalog.items@,
            ),
            forall|j: int|
                0 <= j < k ==> outcomes@[j] == outcome_at(
                    actions,
                    sender_before,
                    receiver_before,
                    catalog.items@,
                    j,
                ),
        decreases interaction.actions.len() - k,
    {
        assert(actions.take(k + 1).drop_last() =~= actions.take(k as int));
        assert(actions.take(k + 1).last() == actions[k as int]);
        match &interaction.actions[k] {
            Action::Give { item, amount } => {
                let outcome = transfer(sender, receiver, catalog, item, *amount);
                outcomes.push(outcome);
            },
        }
        k += 1;
    }
    assert(actions.take(k as int) =~= actions);
    let turn = ChatMessage::new(MessageRole::Assistant, interaction.message.clone());
    receiver.record(turn);
    let recorded = receiver.has_conversation();
    ExecutionReport { outcomes, recorded }
}

} // verus!
