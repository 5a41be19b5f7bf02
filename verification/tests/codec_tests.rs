use npc_dialogue::bracket::BracketCommand;
use npc_dialogue::codec::{decode, decode_json, decode_with, encode, frame, interaction_from_document, Decoded};
use npc_dialogue::interaction::{actions_from_json, Action, Interaction};
use npc_dialogue::item::{Item, ItemType};
use npc_dialogue::json::{find_member, JsonValue};
use npc_dialogue::ledger::Ledger;

const FALLBACK_MESSAGE: &str = "There has been an error converting the AI response";

fn deal() -> Interaction {
    Interaction {
        sender_id: "Bob".to_string(),
        receiver_id: "Hank".to_string(),
        message: "Deal! 50 Gold Coins for a Steel Sword sounds good to me.".to_string(),
        actions: vec![Action::Give { item: "Gold Coin".to_string(), amount: 50 }],
    }
}

fn stocked() -> Ledger {
    let mut ledger = Ledger::new();
    ledger.add(Item::new("Steel Sword".to_string(), ItemType::Weapon, "".to_string(), ("Gold Coin".to_string(), 50)), 5);
    ledger.add(Item::new("Gold Coin".to_string(), ItemType::Currency, "".to_string(), ("Gold Coin".to_string(), 1)), 30);
    ledger
}

fn give(action: &Action) -> (String, i32) {
    match action {
        Action::Give { item, amount } => (item.clone(), *amount),
    }
}

fn assert_fallback(i: &Interaction) {
    assert_eq!(i.sender_id, "error");
    assert_eq!(i.receiver_id, "error");
    assert_eq!(i.message, FALLBACK_MESSAGE);
    assert!(i.actions.is_empty());
}

#[test]
fn encode_writes_two_documents_back_to_back() {
    let payload = encode(&deal(), &stocked());
    assert_eq!(
        payload,
        Some(
            "{\"sender_id\":\"Bob\",\"receiver_id\":\"Hank\",\"message\":\"Deal! 50 Gold Coins for a Steel Sword sounds good to me.\",\"actions\":[{\"Give\":{\"item\":\"Gold Coin\",\"amount\":50}}]}{\"Steel Sword\":5,\"Gold Coin\":30}"
                .to_string()
        )
    );
}

#[test]
fn encode_without_actions_or_holdings() {
    let i = Interaction {
        sender_id: "Bob".to_string(),
        receiver_id: "Hank".to_string(),
        message: "Hello \"friend\"\n".to_string(),
        actions: vec![],
    };
    assert_eq!(
        encode(&i, &Ledger::new()),
        Some("{\"sender_id\":\"Bob\",\"receiver_id\":\"Hank\",\"message\":\"Hello \\\"friend\\\"\\n\",\"actions\":[]}{}".to_string())
    );
}

#[test]
fn frame_needs_both_documents() {
    assert_eq!(frame(Some("{}".to_string()), Some("[]".to_string())), Some("{}[]".to_string()));
    assert_eq!(frame(None, Some("[]".to_string())), None);
    assert_eq!(frame(Some("{}".to_string()), None), None);
}

#[test]
fn encode_then_decode_yields_an_equal_interaction() {
    let original = Interaction {
        sender_id: "Hank".to_string(),
        receiver_id: "Bob".to_string(),
        message: "It was a pleasure doing business with you! \u{1F600} \\ \"quoted\"".to_string(),
        actions: vec![
            Action::Give { item: "Steel Sword".to_string(), amount: 1 },
            Action::Give { item: "Gold Coin".to_string(), amount: -7 },
            Action::Give { item: "".to_string(), amount: i32::MAX },
            Action::Give { item: "Bread".to_string(), amount: i32::MIN },
        ],
    };
    let payload = encode(&original, &stocked()).unwrap();
    let back = decode_json(&payload);
    assert_eq!(back.sender_id, original.sender_id);
    assert_eq!(back.receiver_id, original.receiver_id);
    assert_eq!(back.message, original.message);
    assert_eq!(back.actions.len(), 4);
    for k in 0..4 {
        assert_eq!(give(&back.actions[k]), give(&original.actions[k]));
    }
}

#[test]
fn decode_json_reads_the_reply_of_the_model() {
    let reply = "\n        {\n        \"sender_id\": \"Hank\",\n        \"receiver_id\": \"Bob\",\n        \"message\": \"It was a pleasure doing business with you!\",\n        \"actions\": [\n            {\n                \"Give\":\n                {\n                    \"item\": \"Steel Sword\",\n                    \"amount\": 1\n                }\n            }\n        ]\n        }\n        ";
    let i = decode_json(reply);
    assert_eq!(i.sender_id, "Hank");
    assert_eq!(i.receiver_id, "Bob");
    assert_eq!(i.message, "It was a pleasure doing business with you!");
    assert_eq!(i.actions.len(), 1);
    assert_eq!(give(&i.actions[0]), ("Steel Sword".to_string(), 1));
}

#[test]
fn decode_json_passes_over_extra_members_and_member_order() {
    let reply = "{\"actions\":[{\"Give\":{\"amount\":2,\"note\":true,\"item\":\"Bread\"}}],\"mood\":\"glad\",\"message\":\"m\",\"receiver_id\":\"r\",\"sender_id\":\"s\"}";
    let i = decode_json(reply);
    assert_eq!(i.sender_id, "s");
    assert_eq!(i.receiver_id, "r");
    assert_eq!(i.message, "m");
    assert_eq!(give(&i.actions[0]), ("Bread".to_string(), 2));
}

#[test]
fn decode_json_of_a_malformed_reply_is_the_fallback() {
    assert_fallback(&decode_json("I am not JSON at all"));
    assert_fallback(&decode_json(""));
    assert_fallback(&decode_json("{\"sender_id\": \"Hank\""));
    assert_fallback(&decode_json("```json {\"sender_id\":\"a\",\"receiver_id\":\"b\",\"message\":\"c\",\"actions\":[]} ```"));
}

#[test]
fn decode_json_of_a_wrong_shape_is_the_fallback() {
    assert_fallback(&decode_json("[1, 2, 3]"));
    assert_fallback(&decode_json("\"text\""));
    assert_fallback(&decode_json("{\"sender_id\":\"a\",\"receiver_id\":\"b\",\"message\":\"c\"}"));
    assert_fallback(&decode_json("{\"sender_id\":1,\"receiver_id\":\"b\",\"message\":\"c\",\"actions\":[]}"));
    assert_fallback(&decode_json("{\"sender_id\":\"a\",\"receiver_id\":\"b\",\"message\":\"c\",\"actions\":{}}"));
    assert_fallback(&decode_json("{\"sender_id\":\"a\",\"receiver_id\":\"b\",\"message\":null,\"actions\":[]}"));
}

#[test]
fn decode_json_of_a_wrong_action_is_the_fallback() {
    let with = |action: &str| format!("{{\"sender_id\":\"a\",\"receiver_id\":\"b\",\"message\":\"c\",\"actions\":[{}]}}", action);
    assert_eq!(decode_json(&with("{\"Give\":{\"item\":\"x\",\"amount\":3}}")).actions.len(), 1);
    assert_fallback(&decode_json(&with("{\"Take\":{\"item\":\"x\",\"amount\":3}}")));
    assert_fallback(&decode_json(&with("{\"Give\":{\"item\":\"x\"}}")));
    assert_fallback(&decode_json(&with("{\"Give\":{\"item\":\"x\",\"amount\":\"3\"}}")));
    assert_fallback(&decode_json(&with("{\"Give\":{\"item\":\"x\",\"amount\":3.5}}")));
    assert_fallback(&decode_json(&with("{\"Give\":{\"item\":\"x\",\"amount\":3.0}}")));
    assert_fallback(&decode_json(&with("{\"Give\":{\"item\":\"x\",\"amount\":2147483648}}")));
    assert_fallback(&decode_json(&with("{\"Give\":{\"item\":\"x\",\"amount\":-2147483649}}")));
    assert_fallback(&decode_json(&with("{\"Give\":{\"item\":\"x\",\"amount\":18446744073709551615}}")));
    assert_fallback(&decode_json(&with("{\"Give\":{\"item\":\"x\",\"amount\":3},\"Other\":1}")));
    assert_fallback(&decode_json(&with("\"Give\"")));
    assert_fallback(&decode_json(&with("{\"Give\":{\"item\":\"x\",\"amount\":3}},7")));
    assert_eq!(give(&decode_json(&with("{\"Give\":{\"item\":\"x\",\"amount\":2147483647}}")).actions[0]), ("x".to_string(), i32::MAX));
    assert_eq!(give(&decode_json(&with("{\"Give\":{\"item\":\"x\",\"amount\":-2147483648}}")).actions[0]), ("x".to_string(), i32::MIN));
}

#[test]
fn decode_json_reads_only_the_leading_value() {
    let i = decode_json("{\"sender_id\":\"a\",\"receiver_id\":\"b\",\"message\":\"c\",\"actions\":[]} and then some words");
    assert_eq!(i.sender_id, "a");
    assert_eq!(i.message, "c");
    assert!(i.actions.is_empty());
}

#[test]
fn interaction_from_document_takes_what_was_parsed() {
    assert_fallback(&interaction_from_document(&None));
    assert_fallback(&interaction_from_document(&Some(JsonValue::Null)));
    assert_fallback(&interaction_from_document(&Some(JsonValue::Number(Some(3)))));
    let tree = deal().to_json();
    let i = interaction_from_document(&Some(tree));
    assert_eq!(i.sender_id, "Bob");
    assert_eq!(i.receiver_id, "Hank");
    assert_eq!(give(&i.actions[0]), ("Gold Coin".to_string(), 50));
}

#[test]
fn to_json_builds_the_members_in_order() {
    match deal().to_json() {
        JsonValue::Object(members) => {
            let names: Vec<&str> = members.iter().map(|m| m.0.as_str()).collect();
            assert_eq!(names, vec!["sender_id", "receiver_id", "message", "actions"]);
            assert!(matches!(find_member(&members, "sender_id"), Some(JsonValue::Text(t)) if t == "Bob"));
            assert!(find_member(&members, "Sender_id").is_none());
            match find_member(&members, "actions") {
                Some(JsonValue::Array(items)) => {
                    let actions = actions_from_json(items).unwrap();
                    assert_eq!(give(&actions[0]), ("Gold Coin".to_string(), 50));
                }
                _ => panic!("actions is no array"),
            }
        }
        _ => panic!("no object"),
    }
}

#[test]
fn find_member_takes_the_first_of_two() {
    let members = vec![
        ("a".to_string(), JsonValue::Number(Some(1))),
        ("b".to_string(), JsonValue::Bool(true)),
        ("a".to_string(), JsonValue::Number(Some(2))),
    ];
    assert!(matches!(find_member(&members, "a"), Some(JsonValue::Number(Some(1)))));
    assert!(matches!(find_member(&members, "b"), Some(JsonValue::Bool(true))));
    assert!(find_member(&members, "c").is_none());
}

#[test]
fn action_from_json_checks_the_shape() {
    let good = Action::Give { item: "Bread".to_string(), amount: 3 }.to_json();
    assert_eq!(give(&Action::from_json(&good).unwrap()), ("Bread".to_string(), 3));
    assert!(Action::from_json(&JsonValue::Null).is_none());
    assert!(Action::from_json(&JsonValue::Object(vec![])).is_none());
    let too_big = JsonValue::Object(vec![(
        "Give".to_string(),
        JsonValue::Object(vec![
            ("item".to_string(), JsonValue::Text("x".to_string())),
            ("amount".to_string(), JsonValue::Number(Some(2147483648))),
        ]),
    )]);
    assert!(Action::from_json(&too_big).is_none());
    let no_integer = JsonValue::Object(vec![(
        "Give".to_string(),
        JsonValue::Object(vec![
            ("item".to_string(), JsonValue::Text("x".to_string())),
            ("amount".to_string(), JsonValue::Number(None)),
        ]),
    )]);
    assert!(Action::from_json(&no_integer).is_none());
}

#[test]
fn fallback_has_the_error_identifiers() {
    assert_fallback(&Interaction::fallback());
}

#[test]
fn decode_prefers_json() {
    match decode("{\"sender_id\":\"NPC Hank\",\"receiver_id\":\"PLAYER Bob\",\"message\":\"SAYS [x]\",\"actions\":[]}") {
        Decoded::Structured(i) => {
            assert_eq!(i.sender_id, "NPC Hank");
            assert_eq!(i.message, "SAYS [x]");
        }
        Decoded::Commands(_) => panic!("read as commands"),
    }
}

#[test]
fn decode_falls_back_to_the_bracket_dialect() {
    match decode("NPC Hank GIVES ITEM [5] [Gold Coin] TO PLAYER Bob") {
        Decoded::Commands(list) => {
            assert_eq!(list.len(), 1);
            assert!(matches!(&list[0], BracketCommand::ItemTransfer { sender, receiver, amount, item }
                if sender == "Hank" && receiver == "Bob" && *amount == 5 && item == "Gold Coin"));
        }
        Decoded::Structured(_) => panic!("not read as commands"),
    }
}

#[test]
fn decode_of_a_reply_in_neither_dialect_is_the_fallback() {
    for reply in ["Well met, traveller!", "", "{ not json", "NPC Hank SAYS hello TO PLAYER Bob", "&&"] {
        match decode(reply) {
            Decoded::Structured(i) => assert_fallback(&i),
            Decoded::Commands(_) => panic!("read as commands"),
        }
    }
}

#[test]
fn decode_with_takes_what_was_parsed() {
    let tree = Some(deal().to_json());
    assert!(matches!(decode_with(&tree, "anything"), Decoded::Structured(i) if i.sender_id == "Bob"));
    assert!(matches!(decode_with(&None, "NPC Hank SAYS [Hi] TO PLAYER Bob"), Decoded::Commands(list) if list.len() == 1));
    assert!(matches!(decode_with(&Some(JsonValue::Null), "nothing here"), Decoded::Structured(i) if i.sender_id == "error"));
}
