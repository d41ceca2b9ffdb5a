use vstd::prelude::*;

use crate::binahbot::{color_value, BinahBotLocale, DiscordEmbedColors};
use crate::dice::{calculate, calculate_accepted, calculate_accepts, dice_formula, DiceDistribution};
use crate::discord::{DiscordInteraction, DiscordInteractionData, DiscordInteractionOptionValue, DiscordInteractionOptions};
use crate::utils::{DELETE_BUTTON_CUSTOM_ID, get_binahbot_locale, get_option_value, interaction_locale, named_value};

verus! {

/// The number Discord uses for an ephemeral message.
pub const EPHEMERAL_FLAG: i32 = 64;

/// The integer an option holds, if it is one.
pub open spec fn int_of(v: Option<DiscordInteractionOptionValue>) -> Option<i32> {
    match v {
        Some(DiscordInteractionOptionValue::Integer(x)) => Some(x),
        _ => None,
    }
}

/// Whether the `private` option is set to true.
pub open spec fn private_requested(options: Seq<DiscordInteractionOptions>) -> bool {
    named_value(options, "private"@) == Some(DiscordInteractionOptionValue::Bool(true))
}

/// The options of a command interaction, when it has any.
pub open spec fn command_options(interaction: DiscordInteraction) -> Option<Seq<DiscordInteractionOptions>> {
    match interaction.data {
        Some(DiscordInteractionData::ApplicationCommand(d)) => match d.options {
            Some(o) => Some(o@),
            None => None,
        },
        _ => None,
    }
}

/// The four bounds of a roll command: `min1`, `max1`, `min2`, `max2`.
pub open spec fn roll_bounds(options: Seq<DiscordInteractionOptions>) -> (Option<i32>, Option<i32>, Option<i32>, Option<i32>) {
    (
        int_of(named_value(options, "min1"@)),
        int_of(named_value(options, "max1"@)),
        int_of(named_value(options, "min2"@)),
        int_of(named_value(options, "max2"@)),
    )
}

/// The interactions a roll command answers: it has options, the four bounds are integers,
/// and where both ranges are non-empty the dice are ones `calculate` takes.
pub open spec fn rollcalc_accepts(interaction: DiscordInteraction) -> bool {
    match command_options(interaction) {
        Some(o) => {
            let b = roll_bounds(o);
            &&& b.0 is Some
            &&& b.1 is Some
            &&& b.2 is Some
            &&& b.3 is Some
            &&& (b.0->Some_0 <= b.1->Some_0 && b.2->Some_0 <= b.3->Some_0) ==> calculate_accepts(
                b.0->Some_0 as int,
                b.1->Some_0 as int,
                b.2->Some_0 as int,
                b.3->Some_0 as int,
            )
        },
        None => false,
    }
}

/// What a roll command shows: a note that a range is empty, or the distribution.
#[derive(Debug)]
pub enum RollcalcOutcome {
    RangeError,
    Distribution(DiceDistribution),
}

/// A field of the roll message: the message key of its header, and the count it shows over
/// the number of pairs, which the value message writes with the count's percentage.
#[derive(Debug)]
pub struct RollField {
    pub header_key: &'static str,
    pub numerator: u128,
    pub denominator: u128,
}

/// The embed of the roll message. Its title is the message `title_key` with the four
/// bounds; an empty range is explained by the message `description_key`; otherwise it has
/// three inline fields, each valued by the message `value_key`.
#[derive(Debug)]
pub struct RollEmbed {
    pub title_key: &'static str,
    pub description_key: Option<&'static str>,
    pub color: i32,
    pub fields: Option<Vec<RollField>>,
    pub value_key: &'static str,
}

/// The decisions of a roll command, which the message is then written from: its locale, its
/// privacy, the bounds, the outcome, the embed, and the id of the delete button that the
/// message carries in a row of its own (public messages only).
#[derive(Debug)]
pub struct RollcalcPlan {
    pub locale: BinahBotLocale,
    pub is_private: bool,
    pub flags: Option<i32>,
    pub min1: i32,
    pub max1: i32,
    pub min2: i32,
    pub max2: i32,
    pub outcome: RollcalcOutcome,
    pub embed: RollEmbed,
    pub delete_button: Option<&'static str>,
}

/// A field as plain values.
pub open spec fn field_view(f: RollField) -> (Seq<char>, int, int) {
    (f.header_key@, f.numerator as int, f.denominator as int)
}

/// The embed of a roll message for an outcome.
pub open spec fn roll_embed_holds(e: RollEmbed, outcome: RollcalcOutcome) -> bool {
    &&& e.title_key@ == "title_format"@
    &&& e.color == color_value(DiscordEmbedColors::Default)
    &&& e.value_key@ == "win_format"@
    &&& match outcome {
        RollcalcOutcome::RangeError => (e.description_key matches Some(k) && k@ == "dice_range_message"@)
            && e.fields is None,
        RollcalcOutcome::Distribution(d) => e.description_key is None && (e.fields matches Some(f) && f@.map_values(
            |x: RollField| field_view(x),
        ) == seq![
            ("dice_1_win_header"@, d.1 as int, d.0 as int),
            ("dice_2_win_header"@, d.2 as int, d.0 as int),
            ("draw_header"@, d.3 as int, d.0 as int),
        ]),
    }
}

/// The embed of a roll message for an outcome.
fn roll_embed(outcome: &RollcalcOutcome) -> (e: RollEmbed)
    ensures
        roll_embed_holds(e, *outcome),
{
    let fields = match outcome {
        RollcalcOutcome::RangeError => None,
        RollcalcOutcome::Distribution(d) => {
            let mut f: Vec<RollField> = Vec::new();
            f.push(RollField { header_key: "dice_1_win_header", numerator: d.1, denominator: d.0 });
            f.push(RollField { header_key: "dice_2_win_header", numerator: d.2, denominator: d.0 });
            f.push(RollField { header_key: "draw_header", numerator: d.3, denominator: d.0 });
            assert(f@.map_values(|x: RollField| field_view(x)) =~= seq![
                ("dice_1_win_header"@, d.1 as int, d.0 as int),
                ("dice_2_win_header"@, d.2 as int, d.0 as int),
                ("draw_header"@, d.3 as int, d.0 as int),
            ]);
            Some(f)
        },
    };
    let description_key = match outcome {
        RollcalcOutcome::RangeError => Some("dice_range_message"),
        RollcalcOutcome::Distribution(_) => None,
    };
    RollEmbed {
        title_key: "title_format",
        description_key,
        color: DiscordEmbedColors::Default.value(),
        fields,
        value_key: "win_format",
    }
}

/// The integer value of a required option.
fn required_int(name: &str, options: &[DiscordInteractionOptions]) -> (x: i32)
    requires
        int_of(named_value(options@, name@)) is Some,
    ensures
        Some(x) == int_of(named_value(options@, name@)),
{
    match get_option_value(name, options) {
        Some(DiscordInteractionOptionValue::Integer(x)) => *x,
        _ => vstd::pervasive::unreached(),
    }
}

/// Decides the answer to a roll command: the locale, whether it is private, the bounds, and
/// either the note that a range is empty or the distribution of the two dice.
pub fn rollcalc(interaction: &DiscordInteraction) -> (plan: RollcalcPlan)
    requires
        rollcalc_accepts(*interaction),
    ensures
        plan.locale == interaction_locale(interaction.locale, interaction.guild_locale),
        plan.is_private == private_requested(command_options(*interaction)->Some_0),
        plan.flags == (if plan.is_private { Some(EPHEMERAL_FLAG) } else { None }),
        (Some(plan.min1), Some(plan.max1), Some(plan.min2), Some(plan.max2)) == roll_bounds(
            command_options(*interaction)->Some_0,
        ),
        match plan.outcome {
            RollcalcOutcome::RangeError => plan.min1 > plan.max1 || plan.min2 > plan.max2,
            RollcalcOutcome::Distribution(d) => plan.min1 <= plan.max1 && plan.min2 <= plan.max2 && (
            d.0 as int, d.1 as int, d.2 as int, d.3 as int) == dice_formula(
                plan.min1 as int,
                plan.max1 as int,
                plan.min2 as int,
                plan.max2 as int,
            ),
        },
        roll_embed_holds(plan.embed, plan.outcome),
        plan.delete_button == (if plan.is_private { None } else { Some(DELETE_BUTTON_CUSTOM_ID) }),
{
    let options: &Vec<DiscordInteractionOptions> = match &interaction.data {
        Some(DiscordInteractionData::ApplicationCommand(d)) => match &d.options {
            Some(o) => o,
            None => vstd::pervasive::unreached(),
        },
        _ => vstd::pervasive::unreached(),
    };
    let locale = get_binahbot_locale(interaction);
    let is_private = match get_option_value("private", options.as_slice()) {
        Some(DiscordInteractionOptionValue::Bool(b)) => *b,
        _ => false,
    };
    let flags = if is_private { Some(EPHEMERAL_FLAG) } else { None };
    let min1 = required_int("min1", options.as_slice());
    let min2 = required_int("min2", options.as_slice());
    let max1 = required_int("max1", options.as_slice());
    let max2 = required_int("max2", options.as_slice());
    let outcome = if min1 > max1 || min2 > max2 {
        RollcalcOutcome::RangeError
    } else {
        RollcalcOutcome::Distribution(calculate(min1, max1, min2, max2))
    };
    let embed = roll_embed(&outcome);
    RollcalcPlan { locale, is_private, flags, min1, max1, min2, max2, outcome, embed, delete_button: if is_private { None } else { Some(DELETE_BUTTON_CUSTOM_ID) } }
}


/// The integer value of an option, where it has one.
fn optional_int(name: &str, options: &[DiscordInteractionOptions]) -> (x: Option<i32>)
    ensures
        x == int_of(named_value(options@, name@)),
{
    match get_option_value(name, options) {
        Some(DiscordInteractionOptionValue::Integer(x)) => Some(*x),
        _ => None,
    }
}

/// Whether a roll command can be answered: it has options and four integer bounds, and where
/// both ranges are non-empty the dice are ones `calculate` takes.
pub fn rollcalc_answerable(interaction: &DiscordInteraction) -> (b: bool)
    ensures
        b == rollcalc_accepts(*interaction),
{
    let options: &Vec<DiscordInteractionOptions> = match &interaction.data {
        Some(DiscordInteractionData::ApplicationCommand(d)) => match &d.options {
            Some(o) => o,
            None => {
                return false;
            },
        },
        _ => {
            return false;
        },
    };
    let min1 = optional_int("min1", options.as_slice());
    let max1 = optional_int("max1", options.as_slice());
    let min2 = optional_int("min2", options.as_slice());
    let max2 = optional_int("max2", options.as_slice());
    match (min1, max1, min2, max2) {
        (Some(a), Some(b), Some(c), Some(d)) => !(a <= b && c <= d) || calculate_accepted(a, b, c, d),
        _ => false,
    }
}

} // verus!
