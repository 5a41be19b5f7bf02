use crate::text::{
    chars_of, contains_text, find_from, first_occurrence, lemma_text_precedes_irreflexive,
    lemma_text_precedes_total, lemma_text_precedes_transitive, parse_amount, parse_amount_of,
    rank_chars, skip_spaces, skip_spaces_from, text_precedes, word_end, word_end_from, Rank,
};
use vstd::prelude::*;
use vstd::seq_lib::to_multiset_insert;
use vstd::string::StrSliceExecFns;
use vstd::string::StringExecFns;

verus! {

/// One command of a reply in the bracketed dialect.
#[derive(Debug)]
pub enum BracketCommand {
    /// `sender` hands `amount` of the item named `item` to `receiver`.
    ItemTransfer { sender: String, receiver: String, amount: i32, item: String },
    /// Something is said in a conversation with the player named `player`.
    Message { player: String, text: String },
}

/// A `BracketCommand` as plain mathematical values.
pub enum CommandView {
    ItemTransfer { sender: Seq<char>, receiver: Seq<char>, amount: int, item: Seq<char> },
    Message { player: Seq<char>, text: Seq<char> },
}

impl View for BracketCommand {
    type V = CommandView;

    open spec fn view(&self) -> CommandView {
        match self {
            BracketCommand::ItemTransfer { sender, receiver, amount, item } => CommandView::ItemTransfer {
                sender: sender@,
                receiver: receiver@,
                amount: *amount as int,
                item: item@,
            },
            BracketCommand::Message { player, text } => CommandView::Message {
                player: player@,
                text: text@,
            },
        }
    }
}

/// The views of a sequence of commands, in order.
pub open spec fn commands_view(commands: Seq<BracketCommand>) -> Seq<CommandView> {
    Seq::new(commands.len(), |i: int| commands[i]@)
}

/// The name that follows the first `keyword` of a command: after the
/// keyword and any spaces, the run of characters up to the next space. An
/// empty run is no name.
pub open spec fn name_after(command: Seq<char>, keyword: Seq<char>) -> Option<Seq<char>> {
    match first_occurrence(command, keyword, 0) {
        Some(at) => {
            let from = skip_spaces(command, at + keyword.len());
            let to = word_end(command, from);
            if from < to {
                Some(command.subrange(from, to))
            } else {
                None
            }
        },
        None => None,
    }
}

/// The bracketed value that is scanned from `from` on: what stands between
/// the first `[` at or after `from` and the first `]` after that bracket,
/// together with the position just behind the `]`.
pub open spec fn bracket_token(command: Seq<char>, from: int) -> Option<(Seq<char>, int)> {
    match first_occurrence(command, seq!['['], from) {
        Some(open) => match first_occurrence(command, seq![']'], open + 1) {
            Some(close) => Some((command.subrange(open + 1, close), close + 1)),
            None => None,
        },
        None => None,
    }
}

/// The item name that is scanned from `from` on: bracketed where the next
/// character that is no space is a `[`; otherwise everything up to the
/// next ` TO `.
pub open spec fn item_name(command: Seq<char>, from: int) -> Option<Seq<char>> {
    let start = skip_spaces(command, from);
    if 0 <= start < command.len() && command[start] == '[' {
        match bracket_token(command, start) {
            Some((name, _)) => Some(name),
            None => None,
        }
    } else {
        match first_occurrence(command, " TO "@, start) {
            Some(end) => Some(command.subrange(start, end)),
            None => None,
        }
    }
}

/// The amount and the item name of a transfer: behind the first `ITEM`, a
/// bracketed decimal integer and then the item name.
pub open spec fn transfer_parts(command: Seq<char>) -> Option<(int, Seq<char>)> {
    match first_occurrence(command, "ITEM"@, 0) {
        Some(at) => match bracket_token(command, at + "ITEM"@.len()) {
            Some((token, after)) => match (parse_amount(token), item_name(command, after)) {
                (Some(amount), Some(item)) => Some((amount, item)),
                _ => None,
            },
            None => None,
        },
        None => None,
    }
}

/// What a command says, if it is well formed.
///
/// A command names a player behind `PLAYER` and a character behind `NPC`;
/// whichever keyword stands first names the sender. A command that holds
/// `SAYS` and no `GIVES` is a message, with the bracketed text behind
/// `SAYS`; any other command is an item transfer.
pub open spec fn parse_command(command: Seq<char>) -> Option<CommandView> {
    match (
        first_occurrence(command, "PLAYER"@, 0),
        first_occurrence(command, "NPC"@, 0),
        name_after(command, "PLAYER"@),
        name_after(command, "NPC"@),
    ) {
        (Some(at_player), Some(at_npc), Some(player), Some(npc)) => {
            if contains_text(command, "SAYS"@) && !contains_text(command, "GIVES"@) {
                match bracket_token(
                    command,
                    first_occurrence(command, "SAYS"@, 0)->Some_0 + "SAYS"@.len(),
                ) {
                    Some((text, _)) => Some(CommandView::Message { player, text }),
                    None => None,
                }
            } else {
                match transfer_parts(command) {
                    Some((amount, item)) => Some(
                        CommandView::ItemTransfer {
                            sender: if at_player < at_npc {
                                player
                            } else {
                                npc
                            },
                            receiver: if at_player < at_npc {
                                npc
                            } else {
                                player
                            },
                            amount,
                            item,
                        },
                    ),
                    None => None,
                }
            }
        },
        _ => None,
    }
}

/// The pieces of `text` from `from` on that the token `&&` separates.
pub open spec fn split_from(text: Seq<char>, from: int) -> Seq<Seq<char>>
    decreases text.len() - from,
{
    match first_occurrence(text, "&&"@, from) {
        Some(at) => if from <= at && at + "&&"@.len() <= text.len() && "&&"@.len() > 0 {
            seq![text.subrange(from, at)] + split_from(text, at + "&&"@.len())
        } else {
            seq![text.subrange(from, text.len() as int)]
        },
        None => seq![text.subrange(from, text.len() as int)],
    }
}

/// The commands of a reply: its pieces between `&&` tokens.
pub open spec fn split_commands(text: Seq<char>) -> Seq<Seq<char>> {
    split_from(text, 0)
}

/// What the commands of a reply say, in the order written, where every one
/// of them is well formed.
pub open spec fn parsed_commands(text: Seq<char>) -> Option<Seq<CommandView>> {
    let pieces = split_commands(text);
    if forall|k: int| 0 <= k < pieces.len() ==> (#[trigger] parse_command(pieces[k])) is Some {
        Some(Seq::new(pieces.len(), |k: int| parse_command(pieces[k])->Some_0))
    } else {
        None
    }
}

/// Whether `a` is ordered strictly before `b`: item transfers before
/// messages; two of a kind by their fields in turn (sender, receiver, amount,
/// item; player, text), texts in dictionary order.
pub open spec fn command_precedes(a: CommandView, b: CommandView) -> bool {
    match (a, b) {
        (CommandView::ItemTransfer { .. }, CommandView::Message { .. }) => true,
        (CommandView::Message { .. }, CommandView::ItemTransfer { .. }) => false,
        (
            CommandView::ItemTransfer { sender: s1, receiver: r1, amount: a1, item: i1 },
            CommandView::ItemTransfer { sender: s2, receiver: r2, amount: a2, item: i2 },
        ) => {
            if s1 != s2 {
                text_precedes(s1, s2)
            } else if r1 != r2 {
                text_precedes(r1, r2)
            } else if a1 != a2 {
                a1 < a2
            } else {
                text_precedes(i1, i2)
            }
        },
        (
            CommandView::Message { player: who1, text: t1 },
            CommandView::Message { player: who2, text: t2 },
        ) => {
            if who1 != who2 {
                text_precedes(who1, who2)
            } else {
                text_precedes(t1, t2)
            }
        },
    }
}

/// No command of the sequence is ordered strictly before an earlier one.
pub open spec fn commands_sorted(commands: Seq<CommandView>) -> bool {
    forall|i: int, j: int|
        0 <= i < j < commands.len() ==> !command_precedes(
            #[trigger] commands[j],
            #[trigger] commands[i],
        )
}

proof fn lemma_text_order(a: Seq<char>, b: Seq<char>, c: Seq<char>)
    ensures
        !text_precedes(a, a),
        a == b || text_precedes(a, b) || text_precedes(b, a),
        !(text_precedes(a, b) && text_precedes(b, a)),
        text_precedes(a, b) && text_precedes(b, c) ==> text_precedes(a, c),
{
    lemma_text_precedes_irreflexive(a);
    lemma_text_precedes_total(a, b);
    if text_precedes(a, b) && text_precedes(b, c) {
        lemma_text_precedes_transitive(a, b, c);
    }
}

/// The order of commands is strict: nothing precedes itself, and of two
/// commands at most one precedes the other.
pub proof fn lemma_command_order_strict(a: CommandView, b: CommandView)
    ensures
        !command_precedes(a, a),
        !(command_precedes(a, b) && command_precedes(b, a)),
        a == b || command_precedes(a, b) || command_precedes(b, a),
{
    match (a, b) {
        (
            CommandView::ItemTransfer { sender: s1, receiver: r1, amount: a1, item: i1 },
            CommandView::ItemTransfer { sender: s2, receiver: r2, amount: a2, item: i2 },
        ) => {
            lemma_text_order(s1, s2, s1);
            lemma_text_order(r1, r2, r1);
            lemma_text_order(i1, i2, i1);
        },
        (
            CommandView::Message { player: who1, text: t1 },
            CommandView::Message { player: who2, text: t2 },
        ) => {
            lemma_text_order(who1, who2, who1);
            lemma_text_order(t1, t2, t1);
        },
        (CommandView::ItemTransfer { sender, receiver, amount, item }, _) => {
            lemma_text_order(sender, sender, sender);
            lemma_text_order(receiver, receiver, receiver);
            lemma_text_order(item, item, item);
        },
        (CommandView::Message { player, text }, _) => {
            lemma_text_order(player, player, player);
            lemma_text_order(text, text, text);
        },
    }
}

/// The order of commands is transitive.
pub proof fn lemma_command_order_transitive(a: CommandView, b: CommandView, c: CommandView)
    requires
        command_precedes(a, b),
        command_precedes(b, c),
    ensures
        command_precedes(a, c),
{
    match (a, b, c) {
        (
            CommandView::ItemTransfer { sender: s1, receiver: r1, amount: a1, item: i1 },
            CommandView::ItemTransfer { sender: s2, receiver: r2, amount: a2, item: i2 },
            CommandView::ItemTransfer { sender: s3, receiver: r3, amount: a3, item: i3 },
        ) => {
            lemma_text_order(s1, s2, s3);
            lemma_text_order(s1, s3, s2);
            lemma_text_order(r1, r2, r3);
            lemma_text_order(r1, r3, r2);
            lemma_text_order(i1, i2, i3);
            lemma_text_order(i1, i3, i2);
        },
        (
            CommandView::Message { player: who1, text: t1 },
            CommandView::Message { player: who2, text: t2 },
            CommandView::Message { player: who3, text: t3 },
        ) => {
            lemma_text_order(who1, who2, who3);
            lemma_text_order(who1, who3, who2);
            lemma_text_order(t1, t2, t3);
            lemma_text_order(t1, t3, t2);
        },
        _ => {},
    }
}

/// In a sorted sequence every item transfer stands before every message.
pub proof fn law_transfers_before_messages(commands: Seq<CommandView>, i: int, j: int)
    requires
        commands_sorted(commands),
        0 <= i < commands.len(),
        0 <= j < commands.len(),
        commands[i] is ItemTransfer,
        commands[j] is Message,
    ensures
        i < j,
{
    if j < i {
        assert(!command_precedes(commands[i], commands[j]));
    }
}

/// Sorting fixes the order: two sorted sequences that hold the same
/// commands, each as often as the other, are the same sequence.
pub proof fn law_sorted_order_is_unique(a: Seq<CommandView>, b: Seq<CommandView>)
    requires
        commands_sorted(a),
        commands_sorted(b),
        a.to_multiset() == b.to_multiset(),
    ensures
        a == b,
    decreases a.len(),
{
    broadcast use vstd::seq_lib::to_multiset_len, vstd::seq_lib::to_multiset_contains;

    assert(a.len() == b.len()) by {
        assert(a.to_multiset().len() == a.len());
        assert(b.to_multiset().len() == b.len());
    }
    if a.len() == 0 {
        assert(a =~= b);
    } else {
        assert(b.to_multiset().contains(a[0])) by {
            assert(a.contains(a[0]));
        }
        assert(b.contains(a[0]));
        let i = choose|i: int| 0 <= i < b.len() && b[i] == a[0];
        assert(a.to_multiset().contains(b[0])) by {
            assert(b.contains(b[0]));
        }
        assert(a.contains(b[0]));
        let j = choose|j: int| 0 <= j < a.len() && a[j] == b[0];
        if i > 0 {
            assert(!command_precedes(b[i], b[0]));
        }
        if j > 0 {
            assert(!command_precedes(a[j], a[0]));
        }
        lemma_command_order_strict(a[0], b[0]);
        assert(a[0] == b[0]);
        let ra = a.drop_first();
        let rb = b.drop_first();
        assert(ra =~= a.remove(0));
        assert(rb =~= b.remove(0));
        vstd::seq_lib::to_multiset_remove(a, 0);
        vstd::seq_lib::to_multiset_remove(b, 0);
        assert forall|x: int, y: int| 0 <= x < y < ra.len() implies !command_precedes(
            #[trigger] ra[y],
            #[trigger] ra[x],
        ) by {
            assert(!command_precedes(a[y + 1], a[x + 1]));
        }
        assert forall|x: int, y: int| 0 <= x < y < rb.len() implies !command_precedes(
            #[trigger] rb[y],
            #[trigger] rb[x],
        ) by {
            assert(!command_precedes(b[y + 1], b[x + 1]));
        }
        law_sorted_order_is_unique(ra, rb);
        assert(a =~= seq![a[0]] + ra);
        assert(b =~= seq![b[0]] + rb);
    }
}

/// How `a` stands to `b` in the order of commands.
pub open spec fn command_rank(a: CommandView, b: CommandView) -> Rank {
    if command_precedes(a, b) {
        Rank::Before
    } else if a == b {
        Rank::Same
    } else {
        Rank::After
    }
}

fn rank_texts(a: &String, b: &String) -> (rank: Rank)
    ensures
        rank == crate::text::text_rank(a@, b@),
{
    let left = chars_of(a.as_str());
    let right = chars_of(b.as_str());
    rank_chars(&left, &right)
}

/// How `a` stands to `b` in the order of commands.
pub fn rank_commands(a: &BracketCommand, b: &BracketCommand) -> (rank: Rank)
    ensures
        rank == command_rank(a@, b@),
{
    proof {
        lemma_command_order_strict(a@, b@);
    }
    match (a, b) {
        (BracketCommand::ItemTransfer { .. }, BracketCommand::Message { .. }) => Rank::Before,
        (BracketCommand::Message { .. }, BracketCommand::ItemTransfer { .. }) => Rank::After,
        (
            BracketCommand::ItemTransfer { sender: s1, receiver: r1, amount: a1, item: i1 },
            BracketCommand::ItemTransfer { sender: s2, receiver: r2, amount: a2, item: i2 },
        ) => {
            proof {
                lemma_text_order(s1@, s2@, s1@);
                lemma_text_order(r1@, r2@, r1@);
                lemma_text_order(i1@, i2@, i1@);
            }
            let by_sender = rank_texts(s1, s2);
            if by_sender != Rank::Same {
                return by_sender;
            }
            let by_receiver = rank_texts(r1, r2);
            if by_receiver != Rank::Same {
                return by_receiver;
            }
            if *a1 < *a2 {
                return Rank::Before;
            }
            if *a1 > *a2 {
                return Rank::After;
            }
            rank_texts(i1, i2)
        },
        (
            BracketCommand::Message { player: who1, text: t1 },
            BracketCommand::Message { player: who2, text: t2 },
        ) => {
            proof {
                lemma_text_order(who1@, who2@, who1@);
                lemma_text_order(t1@, t2@, t1@);
            }
            let by_player = rank_texts(who1, who2);
            if by_player != Rank::Same {
                return by_player;
            }
            rank_texts(t1, t2)
        },
    }
}

/// Puts `command` into the sorted `list`, behind the commands that it does
/// not precede.
pub fn insert_sorted(list: &mut Vec<BracketCommand>, command: BracketCommand)
    requires
        commands_sorted(commands_view(old(list)@)),
    ensures
        commands_sorted(commands_view(final(list)@)),
        commands_view(final(list)@).to_multiset() == commands_view(old(list)@).to_multiset().insert(
            command@,
        ),
        final(list)@.len() == old(list)@.len() + 1,
{
    let ghost before = commands_view(list@);
    let mut at: usize = 0;
    let mut found = false;
    while at < list.len() && !found
        invariant
            at <= list.len(),
            before == commands_view(list@),
            forall|i: int| 0 <= i < at ==> !command_precedes(command@, #[trigger] before[i]),
            found ==> at < list.len() && command_precedes(command@, before[at as int]),
        decreases list.len() - at + (if found { 0int } else { 1int }),
    {
        match rank_commands(&command, &list[at]) {
            Rank::Before => {
                found = true;
            },
            _ => {
                at += 1;
            },
        }
    }
    let ghost added = command@;
    list.insert(at, command);
    proof {
        let after = commands_view(list@);
        assert(after =~= before.insert(at as int, added));
        to_multiset_insert(before, at as int, added);
        assert forall|i: int, j: int| 0 <= i < j < after.len() implies !command_precedes(
            #[trigger] after[j],
            #[trigger] after[i],
        ) by {
            if j < at {
                assert(!command_precedes(before[j], before[i]));
            } else if j == at {
                assert(!command_precedes(added, before[i]));
            } else if i < at {
                assert(!command_precedes(before[j - 1], before[i]));
            } else if i == at {
                lemma_command_order_strict(added, before[at as int]);
                if j - 1 > at {
                    assert(!command_precedes(before[j - 1], before[at as int]));
                    if command_precedes(before[j - 1], added) {
                        lemma_command_order_transitive(before[j - 1], added, before[at as int]);
                    }
                }
            } else {
                assert(!command_precedes(before[j - 1], before[i - 1]));
            }
        }
    }
}

fn name_after_keyword(command: &str, chars: &Vec<char>, keyword: &str) -> (found: Option<
    (String, usize),
>)
    requires
        chars@ == command@,
    ensures
        match found {
            Some((name, at)) => first_occurrence(command@, keyword@, 0) == Some(at as int)
                && name_after(command@, keyword@) == Some(name@),
            None => first_occurrence(command@, keyword@, 0) is None || name_after(
                command@,
                keyword@,
            ) is None,
        },
{
    let needle = chars_of(keyword);
    match find_from(chars, &needle, 0) {
        Some(at) => {
            let from = skip_spaces_from(chars, at + needle.len());
            let to = word_end_from(chars, from);
            if from < to {
                let name = String::from_str(command.substring_char(from, to));
                Some((name, at))
            } else {
                None
            }
        },
        None => None,
    }
}

fn bracket_token_from(command: &str, chars: &Vec<char>, from: usize) -> (found: Option<
    (String, usize),
>)
    requires
        chars@ == command@,
    ensures
        match found {
            Some((token, after)) => bracket_token(command@, from as int) == Some(
                (token@, after as int),
            ) && after <= chars.len(),
            None => bracket_token(command@, from as int) is None,
        },
{
    let opening: Vec<char> = vec!['['];
    let closing: Vec<char> = vec![']'];
    assert(opening@ =~= seq!['[']);
    assert(closing@ =~= seq![']']);
    match find_from(chars, &opening, from) {
        Some(open) => match find_from(chars, &closing, open + 1) {
            Some(close) => {
                let token = String::from_str(command.substring_char(open + 1, close));
                Some((token, close + 1))
            },
            None => None,
        },
        None => None,
    }
}

fn item_name_from(command: &str, chars: &Vec<char>, from: usize) -> (found: Option<String>)
    requires
        chars@ == command@,
        from <= chars.len(),
    ensures
        match found {
            Some(name) => item_name(command@, from as int) == Some(name@),
            None => item_name(command@, from as int) is None,
        },
{
    let start = skip_spaces_from(chars, from);
    if start < chars.len() && chars[start] == '[' {
        match bracket_token_from(command, chars, start) {
            Some((name, _)) => Some(name),
            None => None,
        }
    } else {
        let stop = chars_of(" TO ");
        match find_from(chars, &stop, start) {
            Some(end) => Some(String::from_str(command.substring_char(start, end))),
            None => None,
        }
    }
}

fn transfer_parts_of(command: &str, chars: &Vec<char>) -> (found: Option<(i32, String)>)
    requires
        chars@ == command@,
    ensures
        match found {
            Some((amount, item)) => transfer_parts(command@) == Some((amount as int, item@)),
            None => transfer_parts(command@) is None,
        },
{
    let keyword = chars_of("ITEM");
    match find_from(chars, &keyword, 0) {
        Some(at) => match bracket_token_from(command, chars, at + keyword.len()) {
            Some((token, after)) => {
                let digits = chars_of(token.as_str());
                match parse_amount_of(&digits) {
                    Some(amount) => match item_name_from(command, chars, after) {
                        Some(item) => Some((amount, item)),
                        None => None,
                    },
                    None => None,
                }
            },
            None => None,
        },
        None => None,
    }
}

/// What `command` says, if it is well formed.
pub fn parse_one(command: &str) -> (parsed: Option<BracketCommand>)
    ensures
        match parsed {
            Some(c) => parse_command(command@) == Some(c@),
            None => parse_command(command@) is None,
        },
{
    let chars = chars_of(command);
    let (player, at_player) = match name_after_keyword(command, &chars, "PLAYER") {
        Some(found) => found,
        None => {
            return None;
        },
    };
    let (npc, at_npc) = match name_after_keyword(command, &chars, "NPC") {
        Some(found) => found,
        None => {
            return None;
        },
    };
    let says = chars_of("SAYS");
    let gives = chars_of("GIVES");
    let at_says = find_from(&chars, &says, 0);
    let at_gives = find_from(&chars, &gives, 0);
    match (at_says, at_gives) {
        (Some(at), None) => {
            match bracket_token_from(command, &chars, at + says.len()) {
                Some((text, _)) => Some(BracketCommand::Message { player, text }),
                None => None,
            }
        },
        _ => {
            match transfer_parts_of(command, &chars) {
                Some((amount, item)) => {
                    if at_player < at_npc {
                        Some(
                            BracketCommand::ItemTransfer {
                                sender: player,
                                receiver: npc,
                                amount,
                                item,
                            },
                        )
                    } else {
                        Some(
                            BracketCommand::ItemTransfer {
                                sender: npc,
                                receiver: player,
                                amount,
                                item,
                            },
                        )
                    }
                },
                None => None,
            }
        },
    }
}

/// Decodes a reply in the bracketed dialect.
///
/// Returns the commands of the reply, sorted, where every command is well
/// formed, and `None` where one is not. The result holds what
/// `parsed_commands` names, each command as often as it was written.
pub fn decode_bracket(reply: &str) -> (decoded: Option<Vec<BracketCommand>>)
    ensures
        match decoded {
            Some(list) => parsed_commands(reply@) matches Some(parsed) && commands_sorted(
                commands_view(list@),
            ) && commands_view(list@).to_multiset() == parsed.to_multiset(),
            None => parsed_commands(reply@) is None,
        },
{
    let chars = chars_of(reply);
    let separator = chars_of("&&");
    let ghost text = reply@;
    let ghost mut done: Seq<Seq<char>> = Seq::empty();
    let ghost mut parsed: Seq<CommandView> = Seq::empty();
    let mut list: Vec<BracketCommand> = Vec::new();
    let mut start: usize = 0;
    let mut more = true;
    assert(commands_view(list@) =~= Seq::<CommandView>::empty());
    assert(done + split_from(text, 0) =~= split_from(text, 0));
    while more
        invariant
            start <= chars.len(),
            chars@ == text,
            text == reply@,
            separator@ == "&&"@,
            more ==> split_commands(text) == done + split_from(text, start as int),
            !more ==> split_commands(text) == done,
            parsed.len() == done.len(),
            forall|k: int|
                0 <= k < done.len() ==> (#[trigger] parse_command(done[k])) == Some(parsed[k]),
            commands_sorted(commands_view(list@)),
            commands_view(list@).to_multiset() == parsed.to_multiset(),
            list@.len() == done.len(),
        decreases chars.len() - start + (if more { 1int } else { 0int }),
    {
        let found = find_from(&chars, &separator, start);
        let end: usize = match found {
            Some(at) => at,
            None => chars.len(),
        };
        let piece = reply.substring_char(start, end);
        proof {
            reveal_strlit("&&");
        }
        let ghost rest = split_from(text, start as int);
        assert(rest[0] == piece@);
        let ghost pieces = split_commands(text);
        assert(pieces[done.len() as int] == piece@);
        match parse_one(piece) {
            Some(command) => {
                proof {
                    let before = parsed;
                    parsed = parsed.push(command@);
                    vstd::seq_lib::to_multiset_build(before, command@);
                }
                insert_sorted(&mut list, command);
            },
            None => {
                assert(parse_command(pieces[done.len() as int]) is None);
                return None;
            },
        }
        proof {
            done = done.push(piece@);
        }
        match found {
            Some(at) => {
                assert(rest =~= seq![piece@] + split_from(text, at + separator@.len()));
                assert(done + split_from(text, at + separator@.len()) =~= pieces);
                start = at + separator.len();
            },
            None => {
                assert(rest =~= seq![piece@]);
                assert(done =~= pieces);
                more = false;
            },
        }
    }
    proof {
        let pieces = split_commands(text);
        assert(parsed_commands(text)->Some_0 =~= parsed);
    }
    Some(list)
}

} // verus!
