use crate::json::{find_member, items_view, lemma_array_view, lemma_object_view, member, members_view, JsonTree, JsonValue};
use vstd::prelude::*;
use vstd::string::StringExecFns;

verus! {

/// What an actor does besides speaking.
#[derive(Debug)]
pub enum Action {
    /// Hands `amount` of the item named `item` to the receiver.
    Give { item: String, amount: i32 },
}

/// An `Action` as plain mathematical values.
pub enum ActionView {
    Give { item: Seq<char>, amount: int },
}

impl View for Action {
    type V = ActionView;

    open spec fn view(&self) -> ActionView {
        match self {
            Action::Give { item, amount } => ActionView::Give { item: item@, amount: *amount as int },
        }
    }
}

impl Clone for Action {
    fn clone(&self) -> (copy: Action)
        ensures
            copy == *self,
    {
        match self {
            Action::Give { item, amount } => Action::Give { item: item.clone(), amount: *amount },
        }
    }
}

/// The unit of dialogue and actions that actor and model exchange.
#[derive(Debug)]
pub struct Interaction {
    pub sender_id: String,
    pub receiver_id: String,
    pub message: String,
    pub actions: Vec<Action>,
}

/// An `Interaction` as plain mathematical values.
pub struct InteractionView {
    pub sender_id: Seq<char>,
    pub receiver_id: Seq<char>,
    pub message: Seq<char>,
    pub actions: Seq<ActionView>,
}

/// The views of a sequence of actions, in order.
pub open spec fn actions_view(actions: Seq<Action>) -> Seq<ActionView> {
    Seq::new(actions.len(), |i: int| actions[i]@)
}

impl View for Interaction {
    type V = InteractionView;

    open spec fn view(&self) -> InteractionView {
        InteractionView {
            sender_id: self.sender_id@,
            receiver_id: self.receiver_id@,
            message: self.message@,
            actions: actions_view(self.actions@),
        }
    }
}

/// The view of an optional interaction.
pub open spec fn interaction_view_of(i: Option<Interaction>) -> Option<InteractionView> {
    match i {
        Some(i) => Some(i@),
        None => None,
    }
}

/// The identifier that both ends of the stand-in interaction carry.
pub open spec fn fallback_id() -> Seq<char> {
    "error"@
}

/// The message of the stand-in interaction.
pub open spec fn fallback_message() -> Seq<char> {
    "There has been an error converting the AI response"@
}

/// The interaction that stands in for a reply that could not be decoded.
pub open spec fn fallback_view() -> InteractionView {
    InteractionView {
        sender_id: fallback_id(),
        receiver_id: fallback_id(),
        message: fallback_message(),
        actions: Seq::empty(),
    }
}

/// The JSON object that stands for an action: one member, named after the
/// variant, that holds the variant's fields.
pub open spec fn tree_of_action(action: ActionView) -> JsonTree {
    match action {
        ActionView::Give { item, amount } => JsonTree::Object(
            seq![
                (
                    "Give"@,
                    JsonTree::Object(
                        seq![
                            ("item"@, JsonTree::Text(item)),
                            ("amount"@, JsonTree::Number(Some(amount))),
                        ],
                    ),
                ),
            ],
        ),
    }
}

/// The JSON object that stands for an interaction, members in this order:
/// sender_id, receiver_id, message, actions.
pub open spec fn tree_of_interaction(i: InteractionView) -> JsonTree {
    JsonTree::Object(
        seq![
            ("sender_id"@, JsonTree::Text(i.sender_id)),
            ("receiver_id"@, JsonTree::Text(i.receiver_id)),
            ("message"@, JsonTree::Text(i.message)),
            (
                "actions"@,
                JsonTree::Array(Seq::new(i.actions.len(), |k: int| tree_of_action(i.actions[k]))),
            ),
        ],
    )
}

/// The action that a JSON value stands for: an object with the one member
/// `Give`, itself an object with a text member `item` and a member `amount`
/// that is an integer of 32 signed bits. Other members of the inner object
/// are passed over.
pub open spec fn action_of_tree(tree: JsonTree) -> Option<ActionView> {
    match tree {
        JsonTree::Object(members) => if members.len() == 1 && members[0].0 == "Give"@ {
            match members[0].1 {
                JsonTree::Object(fields) => match (member(fields, "item"@), member(fields, "amount"@)) {
                    (Some(JsonTree::Text(item)), Some(JsonTree::Number(Some(amount)))) => if i32::MIN
                        <= amount <= i32::MAX {
                        Some(ActionView::Give { item, amount })
                    } else {
                        None
                    },
                    _ => None,
                },
                _ => None,
            }
        } else {
            None
        },
        _ => None,
    }
}

/// The actions that the items of a JSON array stand for, where every item
/// stands for one.
pub open spec fn actions_of_trees(items: Seq<JsonTree>) -> Option<Seq<ActionView>> {
    if forall|k: int| 0 <= k < items.len() ==> (#[trigger] action_of_tree(items[k])) is Some {
        Some(Seq::new(items.len(), |k: int| action_of_tree(items[k])->Some_0))
    } else {
        None
    }
}

/// The interaction that a JSON value stands for: an object with text members
/// `sender_id`, `receiver_id` and `message` and an array member `actions`
/// whose items all stand for actions. Other members are passed over.
pub open spec fn interaction_of_tree(tree: JsonTree) -> Option<InteractionView> {
    match tree {
        JsonTree::Object(members) => match (
            member(members, "sender_id"@),
            member(members, "receiver_id"@),
            member(members, "message"@),
            member(members, "actions"@),
        ) {
            (
                Some(JsonTree::Text(sender_id)),
                Some(JsonTree::Text(receiver_id)),
                Some(JsonTree::Text(message)),
                Some(JsonTree::Array(items)),
            ) => match actions_of_trees(items) {
                Some(actions) => Some(InteractionView { sender_id, receiver_id, message, actions }),
                None => None,
            },
            _ => None,
        },
        _ => None,
    }
}

/// The member names of the wire format are pairwise different.
pub proof fn lemma_member_names_differ()
    ensures
        "sender_id"@ != "receiver_id"@,
        "sender_id"@ != "message"@,
        "sender_id"@ != "actions"@,
        "receiver_id"@ != "message"@,
        "receiver_id"@ != "actions"@,
        "message"@ != "actions"@,
        "item"@ != "amount"@,
{
    reveal_strlit("sender_id");
    reveal_strlit("receiver_id");
    reveal_strlit("message");
    reveal_strlit("actions");
    reveal_strlit("item");
    reveal_strlit("amount");
    assert("sender_id"@.len() == 9);
    assert("receiver_id"@.len() == 11);
    assert("message"@.len() == 7);
    assert("actions"@.len() == 7);
    assert("item"@.len() == 4);
    assert("amount"@.len() == 6);
    assert("message"@[0] == 'm');
    assert("actions"@[0] == 'a');
}

/// An action's JSON object stands for that action again.
pub proof fn lemma_action_round_trip(action: Action)
    ensures
        action_of_tree(tree_of_action(action@)) == Some(action@),
{
    lemma_member_names_differ();
    match action@ {
        ActionView::Give { item, amount } => {
            let fields = seq![
                ("item"@, JsonTree::Text(item)),
                ("amount"@, JsonTree::Number(Some(amount))),
            ];
            assert(member(fields, "item"@) == Some(JsonTree::Text(item)));
            let rest = fields.drop_first();
            assert(rest[0] == fields[1]);
            assert(member(rest, "amount"@) == Some(JsonTree::Number(Some(amount))));
            assert(member(fields, "amount"@) == Some(JsonTree::Number(Some(amount))));
        },
    }
}

/// Encoding then decoding, on the level of JSON trees: the JSON object of
/// an interaction stands for an equal interaction (sender, receiver,
/// message, and the actions in their order).
pub proof fn law_tree_round_trip(i: Interaction)
    ensures
        interaction_of_tree(tree_of_interaction(i@)) == Some(i@),
{
    lemma_member_names_differ();
    let v = i@;
    let items = Seq::new(v.actions.len(), |k: int| tree_of_action(v.actions[k]));
    let members = seq![
        ("sender_id"@, JsonTree::Text(v.sender_id)),
        ("receiver_id"@, JsonTree::Text(v.receiver_id)),
        ("message"@, JsonTree::Text(v.message)),
        ("actions"@, JsonTree::Array(items)),
    ];
    let m1 = members.drop_first();
    let m2 = m1.drop_first();
    let m3 = m2.drop_first();
    assert(m1[0] == members[1]);
    assert(m2[0] == members[2]);
    assert(m3[0] == members[3]);
    assert(member(m3, "actions"@) == Some(JsonTree::Array(items)));
    assert(member(m2, "actions"@) == Some(JsonTree::Array(items)));
    assert(member(m1, "actions"@) == Some(JsonTree::Array(items)));
    assert(member(members, "actions"@) == Some(JsonTree::Array(items)));
    assert(member(m2, "message"@) == Some(JsonTree::Text(v.message)));
    assert(member(m1, "message"@) == Some(JsonTree::Text(v.message)));
    assert(member(members, "message"@) == Some(JsonTree::Text(v.message)));
    assert(member(m1, "receiver_id"@) == Some(JsonTree::Text(v.receiver_id)));
    assert(member(members, "receiver_id"@) == Some(JsonTree::Text(v.receiver_id)));
    assert(member(members, "sender_id"@) == Some(JsonTree::Text(v.sender_id)));
    assert forall|k: int| 0 <= k < items.len() implies (#[trigger] action_of_tree(items[k]))
        == Some(v.actions[k]) by {
        lemma_action_round_trip(i.actions@[k]);
    }
    assert(actions_of_trees(items)->Some_0 =~= v.actions);
}

impl Action {
    /// The JSON value that stands for this action.
    pub fn to_json(&self) -> (value: JsonValue)
        ensures
            value@ == tree_of_action(self@),
    {
        match self {
            Action::Give { item, amount } => {
                let mut fields: Vec<(String, JsonValue)> = Vec::new();
                fields.push((String::from_str("item"), JsonValue::Text(item.clone())));
                fields.push((String::from_str("amount"), JsonValue::Number(Some(*amount as i64))));
                let inner = JsonValue::Object(fields);
                proof {
                    lemma_object_view(inner);
                    assert(members_view(fields@) =~= seq![
                        ("item"@, JsonTree::Text(item@)),
                        ("amount"@, JsonTree::Number(Some(*amount as int))),
                    ]);
                }
                let mut members: Vec<(String, JsonValue)> = Vec::new();
                members.push((String::from_str("Give"), inner));
                let value = JsonValue::Object(members);
                proof {
                    lemma_object_view(value);
                    assert(members_view(members@) =~= seq![("Give"@, inner@)]);
                }
                value
            },
        }
    }

    /// The action that `value` stands for, if it stands for one.
    pub fn from_json(value: &JsonValue) -> (action: Option<Action>)
        ensures
            match action {
                Some(a) => action_of_tree(value@) == Some(a@),
                None => action_of_tree(value@) is None,
            },
    {
        match value {
            JsonValue::Object(members) => {
                proof {
                    lemma_object_view(*value);
                }
                if members.len() != 1 {
                    return None;
                }
                let tag = String::from_str("Give");
                if !(members[0].0 == tag) {
                    return None;
                }
                match &members[0].1 {
                    JsonValue::Object(fields) => {
                        proof {
                            lemma_object_view(members@[0].1);
                        }
                        let item = match find_member(fields, "item") {
                            Some(JsonValue::Text(item)) => item.clone(),
                            _ => {
                                return None;
                            },
                        };
                        let amount: i64 = match find_member(fields, "amount") {
                            Some(JsonValue::Number(Some(n))) => *n,
                            _ => {
                                return None;
                            },
                        };
                        if amount < -2147483648 || amount > 2147483647 {
                            return None;
                        }
                        Some(Action::Give { item, amount: amount as i32 })
                    },
                    _ => None,
                }
            },
            _ => None,
        }
    }
}

/// The actions that the items of a JSON array stand for, in order, if
/// every item stands for one.
pub fn actions_from_json(items: &Vec<JsonValue>) -> (actions: Option<Vec<Action>>)
    ensures
        match actions {
            Some(list) => actions_of_trees(items_view(items@)) == Some(actions_view(list@)),
            None => actions_of_trees(items_view(items@)) is None,
        },
{
    let ghost trees = items_view(items@);
    let mut actions: Vec<Action> = Vec::new();
    let mut k: usize = 0;
    while k < items.len()
        invariant
            k <= items.len(),
            trees == items_view(items@),
            actions@.len() == k,
            forall|j: int|
                0 <= j < k ==> (#[trigger] action_of_tree(trees[j])) == Some(actions@[j]@),
        decreases items.len() - k,
    {
        match Action::from_json(&items[k]) {
            Some(action) => {
                actions.push(action);
            },
            None => {
                assert(action_of_tree(trees[k as int]) is None);
                return None;
            },
        }
        k += 1;
    }
    assert(actions_of_trees(trees)->Some_0 =~= actions_view(actions@));
    Some(actions)
}

impl Interaction {
    /// The stand-in for a reply that could not be decoded: both identifiers
    /// are `error`, the message says what happened, and there are no actions.
    pub fn fallback() -> (i: Interaction)
        ensures
            i@ == fallback_view(),
    {
        let i = Interaction {
            sender_id: String::from_str("error"),
            receiver_id: String::from_str("error"),
            message: String::from_str("There has been an error converting the AI response"),
            actions: Vec::new(),
        };
        assert(i@.actions =~= Seq::empty());
        i
    }

    /// The JSON value that stands for this interaction.
    pub fn to_json(&self) -> (value: JsonValue)
        ensures
            value@ == tree_of_interaction(self@),
    {
        let ghost wanted = Seq::new(
            self@.actions.len(),
            |k: int| tree_of_action(self@.actions[k]),
        );
        let mut items: Vec<JsonValue> = Vec::new();
        let mut k: usize = 0;
        while k < self.actions.len()
            invariant
                k <= self.actions.len(),
                items@.len() == k,
                forall|j: int| 0 <= j < k ==> (#[trigger] items@[j])@ == tree_of_action(self.actions@[j]@),
            decreases self.actions.len() - k,
        {
            items.push(self.actions[k].to_json());
            k += 1;
        }
        let array = JsonValue::Array(items);
        proof {
            lemma_array_view(array);
            assert(items_view(items@) =~= wanted);
        }
        let mut members: Vec<(String, JsonValue)> = Vec::new();
        members.push((String::from_str("sender_id"), JsonValue::Text(self.sender_id.clone())));
        members.push((String::from_str("receiver_id"), JsonValue::Text(self.receiver_id.clone())));
        members.push((String::from_str("message"), JsonValue::Text(self.message.clone())));
        members.push((String::from_str("actions"), array));
        let value = JsonValue::Object(members);
        proof {
            lemma_object_view(value);
            assert(members_view(members@) =~= seq![
                ("sender_id"@, JsonTree::Text(self@.sender_id)),
                ("receiver_id"@, JsonTree::Text(self@.receiver_id)),
                ("message"@, JsonTree::Text(self@.message)),
                ("actions"@, JsonTree::Array(wanted)),
            ]);
        }
        value
    }

    /// The interaction that `value` stands for, if it stands for one.
    pub fn from_json(value: &JsonValue) -> (i: Option<Interaction>)
        ensures
            interaction_view_of(i) == interaction_of_tree(value@),
    {
        match value {
            JsonValue::Object(members) => {
                proof {
                    lemma_object_view(*value);
                }
                let sender_id = match find_member(members, "sender_id") {
                    Some(JsonValue::Text(text)) => text.clone(),
                    _ => {
                        return None;
                    },
                };
                let receiver_id = match find_member(members, "receiver_id") {
                    Some(JsonValue::Text(text)) => text.clone(),
                    _ => {
                        return None;
                    },
                };
                let message = match find_member(members, "message") {
                    Some(JsonValue::Text(text)) => text.clone(),
                    _ => {
                        return None;
                    },
                };
                match find_member(members, "actions") {
                    Some(JsonValue::Array(items)) => {
                        proof {
                            lemma_array_view(JsonValue::Array(*items));
                        }
                        match actions_from_json(items) {
                            Some(actions) => Some(
                                Interaction { sender_id, receiver_id, message, actions },
                            ),
                            None => None,
                        }
                    },
                    _ => None,
                }
            },
            _ => None,
        }
    }
}

} // verus!
