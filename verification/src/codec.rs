use crate::bracket::{
    commands_sorted, commands_view, decode_bracket, parsed_commands, BracketCommand,
};
use crate::interaction::{
    fallback_view, interaction_of_tree, tree_of_interaction, Interaction, InteractionView,
};
use crate::json::{json_leading_value, json_text, parse_leading, render, view_of, JsonTree, JsonValue};
use crate::ledger::{json_map_text, Ledger};
use crate::text::text_of;
use vstd::prelude::*;
use vstd::string::StringExecFns;

verus! {

/// The payload that goes out for an interaction: the interaction as one JSON
/// object and, right behind it with nothing between, the responder's
/// holdings as a second JSON object.
pub open spec fn encoded(interaction: InteractionView, holdings: Seq<(Seq<char>, int)>) -> Option<
    Seq<char>,
> {
    match (json_text(tree_of_interaction(interaction)), json_map_text(holdings)) {
        (Some(first), Some(second)) => Some(first + second),
        _ => None,
    }
}

/// The two documents of a payload, put together.
pub open spec fn framed(first: Option<Seq<char>>, second: Option<Seq<char>>) -> Option<Seq<char>> {
    match (first, second) {
        (Some(first), Some(second)) => Some(first + second),
        _ => None,
    }
}

/// Puts the two documents of a payload together, the second right behind
/// the first. `None` where either is missing.
pub fn frame(first: Option<String>, second: Option<String>) -> (payload: Option<String>)
    ensures
        text_of(payload) == framed(text_of(first), text_of(second)),
{
    match (first, second) {
        (Some(first), Some(second)) => Some(first.concat(second.as_str())),
        _ => None,
    }
}

/// Encodes an outgoing interaction together with the responder's holdings.
/// `None` where the JSON writer refuses one of the two documents.
pub fn encode(interaction: &Interaction, holdings: &Ledger) -> (payload: Option<String>)
    ensures
        text_of(payload) == encoded(interaction@, holdings.listing()),
{
    let tree = interaction.to_json();
    frame(render(&tree), holdings.snapshot_to_wire())
}

/// The interaction that a parsed document stands for; the stand-in where
/// there is no document or it does not stand for one.
pub open spec fn interaction_or_fallback(document: Option<JsonTree>) -> InteractionView {
    match document {
        Some(tree) => match interaction_of_tree(tree) {
            Some(interaction) => interaction,
            None => fallback_view(),
        },
        None => fallback_view(),
    }
}

/// The interaction that a parsed document stands for; the stand-in where
/// there is no document or it does not stand for one.
pub fn interaction_from_document(document: &Option<JsonValue>) -> (interaction: Interaction)
    ensures
        interaction@ == interaction_or_fallback(view_of(*document)),
{
    match document {
        Some(value) => match Interaction::from_json(value) {
            Some(interaction) => interaction,
            None => Interaction::fallback(),
        },
        None => Interaction::fallback(),
    }
}

/// Decodes a reply in the JSON dialect: the JSON value at the start of the
/// reply is read as an interaction, and what follows it is passed over. A
/// reply that cannot be read so decodes to the stand-in.
pub fn decode_json(reply: &str) -> (interaction: Interaction)
    ensures
        interaction@ == interaction_or_fallback(json_leading_value(reply@)),
{
    let document = parse_leading(reply);
    interaction_from_document(&document)
}

/// Decoding reads back what encoding wrote: a text whose leading JSON value
/// is the tree of an interaction decodes to an equal interaction, whatever
/// follows that value.
pub proof fn law_decode_reads_back(interaction: Interaction, text: Seq<char>)
    requires
        json_leading_value(text) == Some(tree_of_interaction(interaction@)),
    ensures
        interaction_or_fallback(json_leading_value(text)) == interaction@,
{
    crate::interaction::law_tree_round_trip(interaction);
}

/// What a reply decodes to, in either dialect.
#[derive(Debug)]
pub enum Decoded {
    /// A reply in the JSON dialect, or the stand-in for a reply in neither.
    Structured(Interaction),
    /// A reply in the bracketed dialect: its commands, sorted.
    Commands(Vec<BracketCommand>),
}

/// Whether `decoded` is what the reply `text` with the parsed document
/// `document` decodes to: the JSON dialect first, then the bracketed one,
/// then the stand-in.
pub open spec fn decodes_to(document: Option<JsonTree>, text: Seq<char>, decoded: Decoded) -> bool {
    let structured = match document {
        Some(tree) => interaction_of_tree(tree),
        None => None,
    };
    match structured {
        Some(interaction) => decoded matches Decoded::Structured(i) && i@ == interaction,
        None => match parsed_commands(text) {
            Some(parsed) => decoded matches Decoded::Commands(list) && commands_sorted(
                commands_view(list@),
            ) && commands_view(list@).to_multiset() == parsed.to_multiset(),
            None => decoded matches Decoded::Structured(i) && i@ == fallback_view(),
        },
    }
}

/// Decodes `reply`, given the document that was parsed from its start.
pub fn decode_with(document: &Option<JsonValue>, reply: &str) -> (decoded: Decoded)
    ensures
        decodes_to(view_of(*document), reply@, decoded),
{
    let structured = match document {
        Some(value) => Interaction::from_json(value),
        None => None,
    };
    match structured {
        Some(interaction) => Decoded::Structured(interaction),
        None => match decode_bracket(reply) {
            Some(list) => Decoded::Commands(list),
            None => Decoded::Structured(Interaction::fallback()),
        },
    }
}

/// Decodes a reply of the model: as JSON where its start is a JSON object
/// that stands for an interaction, else as bracketed commands where all of
/// them are well formed, else to the stand-in. Every reply decodes to a value.
pub fn decode(reply: &str) -> (decoded: Decoded)
    ensures
        decodes_to(json_leading_value(reply@), reply@, decoded),
{
    let document = parse_leading(reply);
    decode_with(&document, reply)
}

} // verus!
