use npc_dialogue::bracket::{decode_bracket, insert_sorted, parse_one, rank_commands, BracketCommand};
use npc_dialogue::text::{
    chars_of, find_from, parse_amount_of, rank_chars, skip_spaces_from, word_end_from, Rank,
};

fn transfer(sender: &str, receiver: &str, amount: i32, item: &str) -> BracketCommand {
    BracketCommand::ItemTransfer {
        sender: sender.to_string(),
        receiver: receiver.to_string(),
        amount,
        item: item.to_string(),
    }
}

fn message(player: &str, text: &str) -> BracketCommand {
    BracketCommand::Message { player: player.to_string(), text: text.to_string() }
}

fn show(c: &BracketCommand) -> String {
    match c {
        BracketCommand::ItemTransfer { sender, receiver, amount, item } => {
            format!("T({},{},{},{})", sender, receiver, amount, item)
        }
        BracketCommand::Message { player, text } => format!("M({},{})", player, text),
    }
}

fn shown(reply: &str) -> Option<Vec<String>> {
    decode_bracket(reply).map(|list| list.iter().map(show).collect())
}

#[test]
fn item_transfer_from_npc_to_player() {
    let list = decode_bracket("NPC Hank GIVES ITEM [5] [Gold Coin] TO PLAYER Bob").unwrap();
    assert_eq!(list.len(), 1);
    match &list[0] {
        BracketCommand::ItemTransfer { sender, receiver, amount, item } => {
            assert_eq!(sender, "Hank");
            assert_eq!(receiver, "Bob");
            assert_eq!(*amount, 5);
            assert_eq!(item, "Gold Coin");
        }
        other => panic!("not a transfer: {}", show(other)),
    }
}

#[test]
fn message_from_npc_to_player() {
    let list = decode_bracket("NPC Hank SAYS [Hello there] TO PLAYER Bob").unwrap();
    assert_eq!(list.len(), 1);
    match &list[0] {
        BracketCommand::Message { player, text } => {
            assert_eq!(player, "Bob");
            assert!(text.contains("Hello there"));
            assert_eq!(text, "Hello there");
        }
        other => panic!("not a message: {}", show(other)),
    }
}

#[test]
fn mixed_commands_put_the_transfer_first() {
    let list = decode_bracket(
        "NPC Hank SAYS [Here] TO PLAYER Bob && NPC Hank GIVES ITEM [1] [Steel Sword] TO PLAYER Bob",
    )
    .unwrap();
    assert_eq!(list.len(), 2);
    assert_eq!(show(&list[0]), "T(Hank,Bob,1,Steel Sword)");
    assert_eq!(show(&list[1]), "M(Bob,Here)");
}

#[test]
fn the_keyword_that_stands_first_names_the_sender() {
    assert_eq!(
        shown("PLAYER Bob GIVES ITEM [50] [Gold Coin] TO NPC Hank"),
        Some(vec!["T(Bob,Hank,50,Gold Coin)".to_string()])
    );
    assert_eq!(
        shown("ITEM [50] [Gold Coin] GIVES NPC Hank PLAYER Bob"),
        Some(vec!["T(Hank,Bob,50,Gold Coin)".to_string()])
    );
}

#[test]
fn an_item_name_without_brackets_ends_at_to() {
    assert_eq!(
        shown("NPC Hank GIVES ITEM [2] Steel Sword TO PLAYER Bob"),
        Some(vec!["T(Hank,Bob,2,Steel Sword)".to_string()])
    );
    assert_eq!(
        shown("NPC Hank GIVES ITEM [2]    Iron TOngs TO PLAYER Bob"),
        Some(vec!["T(Hank,Bob,2,Iron TOngs)".to_string()])
    );
    assert_eq!(shown("NPC Hank GIVES ITEM [2] Steel Sword PLAYER Bob"), None);
}

#[test]
fn amounts_are_decimal_integers_with_an_optional_sign() {
    assert_eq!(shown("NPC A GIVES ITEM [+5] [x] TO PLAYER B"), Some(vec!["T(A,B,5,x)".to_string()]));
    assert_eq!(shown("NPC A GIVES ITEM [-5] [x] TO PLAYER B"), Some(vec!["T(A,B,-5,x)".to_string()]));
    assert_eq!(shown("NPC A GIVES ITEM [007] [x] TO PLAYER B"), Some(vec!["T(A,B,7,x)".to_string()]));
    assert_eq!(
        shown("NPC A GIVES ITEM [2147483647] [x] TO PLAYER B"),
        Some(vec!["T(A,B,2147483647,x)".to_string()])
    );
    assert_eq!(shown("NPC A GIVES ITEM [2147483648] [x] TO PLAYER B"), None);
    assert_eq!(shown("NPC A GIVES ITEM [five] [x] TO PLAYER B"), None);
    assert_eq!(shown("NPC A GIVES ITEM [ 5] [x] TO PLAYER B"), None);
    assert_eq!(shown("NPC A GIVES ITEM [] [x] TO PLAYER B"), None);
    assert_eq!(shown("NPC A GIVES ITEM [5.0] [x] TO PLAYER B"), None);
}

#[test]
fn a_missing_part_fails_the_whole_reply() {
    assert_eq!(shown(""), None);
    assert_eq!(shown("Well met!"), None);
    assert_eq!(shown("NPC Hank SAYS [Hello there]"), None);
    assert_eq!(shown("SAYS [Hello there] TO PLAYER Bob"), None);
    assert_eq!(shown("NPC Hank SAYS Hello there TO PLAYER Bob"), None);
    assert_eq!(shown("NPC Hank SAYS [Hello there TO PLAYER Bob"), None);
    assert_eq!(shown("NPC Hank GIVES [5] [Gold Coin] TO PLAYER Bob"), None);
    assert_eq!(shown("NPC Hank GIVES ITEM 5 [Gold Coin TO PLAYER Bob"), None);
    assert_eq!(shown("NPC Hank GIVES ITEM [5] [Gold Coin TO PLAYER Bob"), None);
    assert_eq!(shown("NPC Hank GIVES ITEM [5] [Gold Coin] TO PLAYER"), None);
    assert_eq!(shown("NPC Hank SAYS [Hi] TO PLAYER Bob &&"), None);
    assert_eq!(shown("&& NPC Hank SAYS [Hi] TO PLAYER Bob"), None);
    assert_eq!(shown("NPC Hank SAYS [Hi] TO PLAYER Bob && nonsense"), None);
}

#[test]
fn a_command_with_says_and_gives_is_a_transfer() {
    assert_eq!(
        shown("NPC Hank SAYS and GIVES ITEM [1] [Bread] TO PLAYER Bob"),
        Some(vec!["T(Hank,Bob,1,Bread)".to_string()])
    );
    assert_eq!(shown("NPC Hank SAYS and GIVES [Bread] TO PLAYER Bob"), None);
}

#[test]
fn commands_of_one_kind_are_sorted_by_their_fields() {
    assert_eq!(
        shown("NPC Hank GIVES ITEM [7] [A] TO PLAYER Bob && NPC Hank GIVES ITEM [3] [B] TO PLAYER Bob && NPC Abe GIVES ITEM [9] [C] TO PLAYER Bob && NPC Hank GIVES ITEM [3] [A] TO PLAYER Bob && NPC Hank GIVES ITEM [3] [A] TO PLAYER Al"),
        Some(vec![
            "T(Abe,Bob,9,C)".to_string(),
            "T(Hank,Al,3,A)".to_string(),
            "T(Hank,Bob,3,A)".to_string(),
            "T(Hank,Bob,3,B)".to_string(),
            "T(Hank,Bob,7,A)".to_string(),
        ])
    );
    assert_eq!(
        shown("NPC X SAYS [b] TO PLAYER Bob&&NPC X SAYS [a] TO PLAYER Bob&&NPC X SAYS [z] TO PLAYER Bo&&NPC X SAYS [a] TO PLAYER Bob"),
        Some(vec![
            "M(Bo,z)".to_string(),
            "M(Bob,a)".to_string(),
            "M(Bob,a)".to_string(),
            "M(Bob,b)".to_string(),
        ])
    );
}

#[test]
fn negative_amounts_sort_before_positive_ones() {
    assert_eq!(
        shown("NPC A GIVES ITEM [2] [x] TO PLAYER B && NPC A GIVES ITEM [-10] [x] TO PLAYER B"),
        Some(vec!["T(A,B,-10,x)".to_string(), "T(A,B,2,x)".to_string()])
    );
}

#[test]
fn parse_one_reads_a_single_command() {
    assert_eq!(parse_one("NPC Hank SAYS [Hello] TO PLAYER Bob").as_ref().map(show), Some("M(Bob,Hello)".to_string()));
    assert_eq!(parse_one("NPC  Hank   SAYS   [ Hello, [you ]] TO PLAYER   Bob  ").as_ref().map(show), Some("M(Bob, Hello, [you )".to_string()));
    assert_eq!(parse_one("PLAYERBob SAYS [x] NPCHank").as_ref().map(show), Some("M(Bob,x)".to_string()));
    assert!(parse_one("NPC Hank SAYS [Hello] && PLAYER Bob").is_some());
    assert!(parse_one("NPC SAYS").is_none());
    assert!(parse_one("NPC Hank SAYS [x] PLAYER").is_none());
}

#[test]
fn parse_one_handles_text_beyond_ascii() {
    assert_eq!(
        parse_one("NPC Zo\u{00EB} SAYS [Gr\u{00FC}\u{00DF} dich \u{1F600}] TO PLAYER Bj\u{00F6}rn").as_ref().map(show),
        Some("M(Bj\u{00F6}rn,Gr\u{00FC}\u{00DF} dich \u{1F600})".to_string())
    );
}

#[test]
fn rank_commands_orders_kinds_then_fields() {
    assert_eq!(rank_commands(&transfer("z", "z", 9, "z"), &message("a", "a")), Rank::Before);
    assert_eq!(rank_commands(&message("a", "a"), &transfer("z", "z", 9, "z")), Rank::After);
    assert_eq!(rank_commands(&transfer("a", "b", 1, "c"), &transfer("a", "b", 1, "c")), Rank::Same);
    assert_eq!(rank_commands(&transfer("a", "b", 1, "c"), &transfer("a", "b", 1, "d")), Rank::Before);
    assert_eq!(rank_commands(&transfer("a", "b", 2, "c"), &transfer("a", "b", 1, "d")), Rank::After);
    assert_eq!(rank_commands(&transfer("a", "c", 0, "c"), &transfer("a", "b", 1, "d")), Rank::After);
    assert_eq!(rank_commands(&transfer("A", "c", 0, "c"), &transfer("a", "b", 1, "d")), Rank::Before);
    assert_eq!(rank_commands(&message("Bob", "x"), &message("Bob", "x")), Rank::Same);
    assert_eq!(rank_commands(&message("Bob", "x"), &message("Bob", "xa")), Rank::Before);
    assert_eq!(rank_commands(&message("Bob", "x"), &message("Bo", "zz")), Rank::After);
}

#[test]
fn insert_sorted_keeps_the_list_sorted() {
    let mut list: Vec<BracketCommand> = Vec::new();
    insert_sorted(&mut list, message("Bob", "m"));
    insert_sorted(&mut list, transfer("b", "x", 1, "i"));
    insert_sorted(&mut list, message("Al", "z"));
    insert_sorted(&mut list, transfer("a", "x", 1, "i"));
    insert_sorted(&mut list, transfer("b", "x", 1, "i"));
    let all: Vec<String> = list.iter().map(show).collect();
    assert_eq!(all, vec!["T(a,x,1,i)", "T(b,x,1,i)", "T(b,x,1,i)", "M(Al,z)", "M(Bob,m)"]);
}

#[test]
fn parse_amount_of_follows_the_grammar() {
    let parse = |s: &str| parse_amount_of(&s.chars().collect::<Vec<char>>());
    assert_eq!(parse("0"), Some(0));
    assert_eq!(parse("5"), Some(5));
    assert_eq!(parse("-0"), Some(0));
    assert_eq!(parse("+12"), Some(12));
    assert_eq!(parse("-12"), Some(-12));
    assert_eq!(parse("2147483647"), Some(i32::MAX));
    assert_eq!(parse("+2147483647"), Some(i32::MAX));
    assert_eq!(parse("2147483648"), None);
    assert_eq!(parse("-2147483648"), Some(i32::MIN));
    assert_eq!(parse("-2147483649"), None);
    assert_eq!(parse("00000000000000000000000000000012"), Some(12));
    assert_eq!(parse("99999999999999999999999999999999"), None);
    assert_eq!(parse("-99999999999999999999999999999999"), None);
    assert_eq!(parse(""), None);
    assert_eq!(parse("+"), None);
    assert_eq!(parse("-"), None);
    assert_eq!(parse("--1"), None);
    assert_eq!(parse("1-"), None);
    assert_eq!(parse("12a"), None);
    assert_eq!(parse(" 12"), None);
    assert_eq!(parse("1 2"), None);
    assert_eq!(parse("\u{0663}"), None);
}

#[test]
fn find_from_gives_the_first_position() {
    let hay = chars_of("abcabcab");
    let find = |needle: &str, from: usize| find_from(&hay, &chars_of(needle), from);
    assert_eq!(find("abc", 0), Some(0));
    assert_eq!(find("abc", 1), Some(3));
    assert_eq!(find("abc", 4), None);
    assert_eq!(find("ab", 4), Some(6));
    assert_eq!(find("b", 7), Some(7));
    assert_eq!(find("b", 8), None);
    assert_eq!(find("b", 100), None);
    assert_eq!(find("", 3), Some(3));
    assert_eq!(find("", 8), Some(8));
    assert_eq!(find("", 9), None);
    assert_eq!(find("abcabcabc", 0), None);
    assert_eq!(find_from(&Vec::new(), &chars_of("a"), 0), None);
}

#[test]
fn chars_of_counts_characters_not_bytes() {
    assert_eq!(chars_of("a\u{00E9}\u{1F600}"), vec!['a', '\u{00E9}', '\u{1F600}']);
    assert!(chars_of("").is_empty());
}

#[test]
fn scanning_for_spaces_and_words() {
    let text = chars_of("  ab  c");
    assert_eq!(skip_spaces_from(&text, 0), 2);
    assert_eq!(skip_spaces_from(&text, 2), 2);
    assert_eq!(skip_spaces_from(&text, 4), 6);
    assert_eq!(skip_spaces_from(&text, 7), 7);
    assert_eq!(word_end_from(&text, 2), 4);
    assert_eq!(word_end_from(&text, 0), 0);
    assert_eq!(word_end_from(&text, 6), 7);
    assert_eq!(word_end_from(&text, 7), 7);
}

#[test]
fn rank_chars_is_dictionary_order() {
    let rank = |a: &str, b: &str| rank_chars(&chars_of(a), &chars_of(b));
    assert_eq!(rank("", ""), Rank::Same);
    assert_eq!(rank("", "a"), Rank::Before);
    assert_eq!(rank("a", ""), Rank::After);
    assert_eq!(rank("abc", "abc"), Rank::Same);
    assert_eq!(rank("abc", "abd"), Rank::Before);
    assert_eq!(rank("abd", "abc"), Rank::After);
    assert_eq!(rank("ab", "abc"), Rank::Before);
    assert_eq!(rank("b", "abc"), Rank::After);
    assert_eq!(rank("Z", "a"), Rank::Before);
    assert_eq!(rank("\u{00E9}", "z"), Rank::After);
}
