use vstd::prelude::*;

use crate::abnormalities::PartialNormalInfo;
use crate::equipment::PartialWeapon;
use crate::binahbot::{color_value, BinahBotLocale, Emojis};
use crate::discord::{
    AllowedMentions, DiscordInteraction, DiscordInteractionData, DiscordInteractionOptionValue, DiscordInteractionOptions,
    DiscordInteractionResponseMessage, DiscordInteractionResponseType, MessageResponse,
};
use crate::reparser::{first_id_index, get_encyclopedia_info, ids_distinct};
use crate::router::is_lc_button;
use crate::utils::{get_option_value, named_value};
use crate::game_objects::{DamageType, EquipRequirement, EquipRequirementKey, ResistanceCategories, Stat};
use crate::lobocorp::{
    game_locale_code, game_locale_of_binahbot_locale, game_locale_of_code, lemma_game_locale_code_round_trip, Locale,
};
use crate::numbers::{
    all_digits, decimal, digits, digits_value, i32_to_decimal, is_digit, lemma_decimal_digits, parse_u32,
    parse_unsigned, parse_usize, sign_stripped, u64_to_decimal,
};
use crate::text::{append_str, chars_of, join_spec, join_with, lemma_split_append, lemma_split_no_sep, replace_chars, replace_spec, split_on, split_spec, string_of, views};
use crate::lists::str_views;
use crate::game_objects::{risk_color, risk_level_name, DamageRange};

verus! {

/// Which page of an encyclopedia entry a button shows.
#[derive(Debug, Clone, Copy, PartialEq, Eq, Structural)]
pub enum Code {
    Encyclopedia,
    Weapon,
    Suit,
    Gift,
    BreachingEntity,
}

/// The letter of a page in a button's id.
pub open spec fn code_letter(c: Code) -> Seq<char> {
    match c {
        Code::Encyclopedia => seq!['e'],
        Code::Weapon => seq!['w'],
        Code::Suit => seq!['s'],
        Code::Gift => seq!['g'],
        Code::BreachingEntity => seq!['b'],
    }
}

/// The page whose letter is exactly `s`, if any.
pub open spec fn code_of_letter(s: Seq<char>) -> Option<Code> {
    if s == seq!['e'] {
        Some(Code::Encyclopedia)
    } else if s == seq!['w'] {
        Some(Code::Weapon)
    } else if s == seq!['s'] {
        Some(Code::Suit)
    } else if s == seq!['g'] {
        Some(Code::Gift)
    } else if s == seq!['b'] {
        Some(Code::BreachingEntity)
    } else {
        None
    }
}

impl Code {
    /// The letter of this page.
    pub fn to_string(&self) -> (s: String)
        ensures
            s@ == code_letter(*self),
    {
        let c = match self {
            Code::Encyclopedia => 'e',
            Code::Weapon => 'w',
            Code::Suit => 's',
            Code::Gift => 'g',
            Code::BreachingEntity => 'b',
        };
        let v = vec![c];
        string_of(&v)
    }

    /// The page whose letter is exactly `s`; none for any other text.
    pub fn from_str(s: &str) -> (r: Option<Code>)
        ensures
            r == code_of_letter(s@),
    {
        let chars = crate::text::chars_of(s);
        if chars.len() != 1 {
            assert(s@.len() != 1);
            return None;
        }
        assert(s@ =~= seq![chars[0]]);
        match chars[0] {
            'e' => Some(Code::Encyclopedia),
            'w' => Some(Code::Weapon),
            's' => Some(Code::Suit),
            'g' => Some(Code::Gift),
            'b' => Some(Code::BreachingEntity),
            _ => None,
        }
    }
}

/// The id of a button of an encyclopedia entry: `lc#<page>#<entry id>#<language>#<index>`.
pub open spec fn custom_id_spec(code: Code, id: u32, locale: Locale, index: usize) -> Seq<char> {
    seq!['l', 'c', '#'] + code_letter(code) + seq!['#'] + digits(id as nat, 10) + seq!['#']
        + game_locale_code(locale) + seq!['#'] + digits(index as nat, 10)
}

/// What a button id reads as: the page, entry id, language and index in its second to fifth
/// `#`-separated parts, when all four read.
pub open spec fn custom_id_parts(s: Seq<char>) -> Option<(Code, u32, Locale, usize)> {
    let parts = split_spec(s, '#');
    if parts.len() >= 5 && code_of_letter(parts[1]) is Some && parse_unsigned(parts[2], u32::MAX as nat) is Some
        && game_locale_of_code(parts[3]) is Some && parse_unsigned(parts[4], usize::MAX as nat) is Some {
        Some(
            (
                code_of_letter(parts[1])->Some_0,
                parse_unsigned(parts[2], u32::MAX as nat)->Some_0 as u32,
                game_locale_of_code(parts[3])->Some_0,
                parse_unsigned(parts[4], usize::MAX as nat)->Some_0 as usize,
            ),
        )
    } else {
        None
    }
}

/// Reads a button id, or gives none when one of its four parts does not read.
pub fn try_parse_custom_id(custom_id: &str) -> (r: Option<(Code, u32, Locale, usize)>)
    ensures
        r == custom_id_parts(custom_id@),
{
    let parts = split_on(custom_id, '#');
    if parts.len() < 5 {
        return None;
    }
    let code = Code::from_str(parts[1].as_str());
    let id = parse_u32(parts[2].as_str());
    let locale = Locale::from_str(parts[3].as_str());
    let index = parse_usize(parts[4].as_str());
    assert(views(parts@)[1] == parts@[1]@);
    assert(views(parts@)[2] == parts@[2]@);
    assert(views(parts@)[3] == parts@[3]@);
    assert(views(parts@)[4] == parts@[4]@);
    match (code, id, locale, index) {
        (Some(c), Some(i), Some(l), Some(x)) => Some((c, i, l, x)),
        _ => None,
    }
}

/// Reads a button id of an encyclopedia entry.
pub fn parse_custom_id(custom_id: &str) -> (r: (Code, u32, Locale, usize))
    requires
        custom_id_parts(custom_id@) is Some,
    ensures
        Some(r) == custom_id_parts(custom_id@),
{
    match try_parse_custom_id(custom_id) {
        Some(r) => r,
        None => vstd::pervasive::unreached(),
    }
}

/// The button presses that `lc_button` answers: a press of a button whose id begins with
/// `lc#` and reads as the encyclopedia page of an entry of `table`.
pub open spec fn lc_button_accepts<T>(i: DiscordInteraction, table: Seq<(u32, T)>) -> bool {
    match i.data {
        Some(DiscordInteractionData::MessageComponent(d)) => {
            &&& 3 <= d.custom_id@.len() && d.custom_id@.take(3) == "lc#"@
            &&& custom_id_parts(d.custom_id@) is Some
            &&& custom_id_parts(d.custom_id@)->Some_0.0 == Code::Encyclopedia
            &&& first_id_index(table, custom_id_parts(d.custom_id@)->Some_0.1) >= 0
        },
        _ => false,
    }
}

/// Whether `lc_button` answers a press: its button id begins with `lc#` and reads as the
/// encyclopedia page of an entry of `table`.
pub fn lc_button_answerable<T>(interaction: &DiscordInteraction, table: &[(u32, T)]) -> (b: bool)
    requires
        ids_distinct(table@),
    ensures
        b == lc_button_accepts(*interaction, table@),
{
    let d = match &interaction.data {
        Some(DiscordInteractionData::MessageComponent(d)) => d,
        _ => return false,
    };
    if !is_lc_button(d.custom_id.as_str()) {
        return false;
    }
    match try_parse_custom_id(d.custom_id.as_str()) {
        Some((code, id, _, _)) => {
            match code {
                Code::Encyclopedia => get_encyclopedia_info(table, &id).is_some(),
                _ => false,
            }
        },
        None => false,
    }
}

/// Answers a press of one of an encyclopedia entry's buttons: the message is updated in
/// place, with no mentions allowed and nothing else changed.
pub fn lc_button<T>(interaction: &DiscordInteraction, table: &[(u32, T)]) -> (r: MessageResponse)
    requires
        lc_button_accepts(*interaction, table@),
    ensures
        r.kind == DiscordInteractionResponseType::UpdateMessage,
        r.data matches Some(m) && m.allowed_mentions matches Some(a) && a.parse@.len() == 0 && m.content is None
            && m.embeds is None && m.flags is None,
{
    MessageResponse {
        kind: DiscordInteractionResponseType::UpdateMessage,
        data: Some(
            DiscordInteractionResponseMessage {
                allowed_mentions: Some(AllowedMentions { parse: Vec::new() }),
                content: None,
                embeds: None,
                flags: None,
            },
        ),
    }
}

/// Writes the id of a button of an encyclopedia entry.
pub fn build_custom_id(code: &Code, id: &u32, locale: &Locale, index: &usize) -> (s: String)
    ensures
        s@ == custom_id_spec(*code, *id, *locale, *index),
{
    let mut out: Vec<char> = Vec::new();
    out.push('l');
    out.push('c');
    out.push('#');
    append_str(&mut out, code.to_string().as_str());
    out.push('#');
    append_str(&mut out, u64_to_decimal(*id as u64).as_str());
    out.push('#');
    append_str(&mut out, locale.to_string().as_str());
    out.push('#');
    append_str(&mut out, u64_to_decimal(*index as u64).as_str());
    assert(out@ =~= custom_id_spec(*code, *id, *locale, *index));
    string_of(&out)
}

proof fn lemma_decimal_digits_no_sep(n: nat)
    ensures
        all_digits(digits(n, 10)),
        digits_value(digits(n, 10)) == n,
        digits(n, 10).len() > 0,
        !digits(n, 10).contains('#'),
        digits(n, 10)[0] != '+',
{
    let d = digits(n, 10);
    lemma_decimal_digits(n);
    assert(is_digit(d[0]));
    assert(!d.contains('#')) by {
        if d.contains('#') {
            let k = choose|k: int| 0 <= k < d.len() && d[k] == '#';
            assert(is_digit(d[k]));
        }
    }
}

/// A decimal number reads back as itself, up to any bound it is within.
pub proof fn lemma_digits_parse(n: nat, max: nat)
    requires
        n <= max,
    ensures
        parse_unsigned(digits(n, 10), max) == Some(n),
{
    lemma_decimal_digits_no_sep(n);
    let d = digits(n, 10);
    assert(sign_stripped(d) == d);
}

/// A button id reads back as the page, entry id, language and index it was written from.
pub proof fn lemma_custom_id_round_trip(code: Code, id: u32, locale: Locale, index: usize)
    ensures
        custom_id_parts(custom_id_spec(code, id, locale, index)) == Some((code, id, locale, index)),
{
    let c = code_letter(code);
    let d = digits(id as nat, 10);
    let l = game_locale_code(locale);
    let i = digits(index as nat, 10);
    let lc = seq!['l', 'c'];
    lemma_decimal_digits_no_sep(id as nat);
    lemma_decimal_digits_no_sep(index as nat);
    lemma_digits_parse(id as nat, u32::MAX as nat);
    lemma_digits_parse(index as nat, usize::MAX as nat);
    lemma_game_locale_code_round_trip(locale);
    reveal_strlit("kr");
    reveal_strlit("en");
    reveal_strlit("jp");
    reveal_strlit("cn");
    reveal_strlit("cn_tr");
    reveal_strlit("ru");
    reveal_strlit("bg");
    reveal_strlit("es");
    reveal_strlit("fr");
    reveal_strlit("pt_br");
    reveal_strlit("pt_pt");
    assert(!c.contains('#'));
    assert(!l.contains('#')) by {
        if l.contains('#') {
            let k = choose|k: int| 0 <= k < l.len() && l[k] == '#';
            assert(l[k] != '#');
        }
    }
    assert(!lc.contains('#'));
    let a1 = lc.push('#') + c;
    let a2 = a1.push('#') + d;
    let a3 = a2.push('#') + l;
    let a4 = a3.push('#') + i;
    assert(a4 =~= custom_id_spec(code, id, locale, index));
    lemma_split_no_sep(lc, '#');
    lemma_split_append(lc, c, '#');
    lemma_split_append(a1, d, '#');
    lemma_split_append(a2, l, '#');
    lemma_split_append(a3, i, '#');
    let parts = split_spec(a4, '#');
    assert(parts =~= seq![lc, c, d, l, i]);
    assert(code_of_letter(c) == Some(code));
}

/// What decides the buttons of an encyclopedia entry: for an abnormality that is worked
/// with, its breaching entities, whether it breaches itself, whether it has a weapon and a
/// suit, and its gifts; other entries have no buttons of their own.
#[derive(Debug, Clone, Copy, PartialEq, Eq, Structural)]
pub enum EntryButtons {
    Normal { breaching_entities: usize, is_breachable: bool, has_weapon: bool, has_suit: bool, gifts: usize },
    Other,
}

/// What a button is labelled with.
#[derive(Debug, Clone, Copy, PartialEq, Eq, Structural)]
pub enum ButtonLabel {
    Encyclopedia,
    Breaching,
    BreachingChild(usize),
    Weapon,
    Suit,
    Gift(usize),
    Delete,
}

/// A button of an encyclopedia entry: its label, the id it answers to, and whether it is
/// disabled because its page is the one shown.
#[derive(Debug)]
pub struct ButtonPlan {
    pub label: ButtonLabel,
    pub custom_id: Option<String>,
    pub disabled: bool,
}

/// A button as plain values.
pub open spec fn plan_view(b: ButtonPlan) -> (ButtonLabel, Option<Seq<char>>, bool) {
    (b.label, match b.custom_id {
        Some(s) => Some(s@),
        None => None,
    }, b.disabled)
}

/// A row of buttons as plain values.
pub open spec fn row_view(r: Seq<ButtonPlan>) -> Seq<(ButtonLabel, Option<Seq<char>>, bool)> {
    r.map_values(|b: ButtonPlan| plan_view(b))
}

/// Rows of buttons as plain values.
pub open spec fn rows_view(rows: Seq<Vec<ButtonPlan>>) -> Seq<Seq<(ButtonLabel, Option<Seq<char>>, bool)>> {
    rows.map_values(|r: Vec<ButtonPlan>| row_view(r@))
}

/// The rows one after the other.
pub open spec fn flatten<T>(rows: Seq<Seq<T>>) -> Seq<T>
    decreases rows.len(),
{
    if rows.len() == 0 {
        Seq::empty()
    } else {
        flatten(rows.drop_last()) + rows.last()
    }
}

/// A button that leads to a page of an entry.
pub open spec fn page_button(label: ButtonLabel, code: Code, id: u32, locale: Locale, index: usize, current: (Code, usize), disabled: bool) -> (ButtonLabel, Option<Seq<char>>, bool) {
    (label, Some(custom_id_spec(code, id, locale, index)), disabled)
}

/// The buttons of the breaching entities of an abnormality.
pub open spec fn breaching_buttons(id: u32, locale: Locale, current: (Code, usize), n: usize, is_breachable: bool) -> Seq<(ButtonLabel, Option<Seq<char>>, bool)> {
    Seq::new(n as nat, |i: int| page_button(
        if i == 0 && is_breachable { ButtonLabel::Breaching } else { ButtonLabel::BreachingChild(i as usize) },
        Code::BreachingEntity, id, locale, i as usize, current,
        current.0 == Code::BreachingEntity && current.1 == i,
    ))
}

/// The buttons of the gifts of an abnormality.
pub open spec fn gift_buttons(id: u32, locale: Locale, current: (Code, usize), n: usize) -> Seq<(ButtonLabel, Option<Seq<char>>, bool)> {
    Seq::new(n as nat, |i: int| page_button(
        ButtonLabel::Gift(i as usize), Code::Gift, id, locale, i as usize, current,
        current.0 == Code::Gift && current.1 == i,
    ))
}

/// The buttons of an encyclopedia entry, in order: the encyclopedia page, then for an
/// abnormality that is worked with its breaching entities (the first labelled as the
/// abnormality's own breach when it breaches), its weapon, its suit and its gifts, and last
/// the delete button. The button of the page shown is disabled.
pub open spec fn buttons_spec(id: u32, locale: Locale, current: (Code, usize), entry: EntryButtons) -> Seq<(ButtonLabel, Option<Seq<char>>, bool)> {
    let enc = page_button(ButtonLabel::Encyclopedia, Code::Encyclopedia, id, locale, 0, current, current.0 == Code::Encyclopedia);
    let extra = match entry {
        EntryButtons::Normal { breaching_entities, is_breachable, has_weapon, has_suit, gifts } => {
            breaching_buttons(id, locale, current, breaching_entities, is_breachable) + (if has_weapon {
                seq![page_button(ButtonLabel::Weapon, Code::Weapon, id, locale, 0, current, current.0 == Code::Weapon)]
            } else {
                Seq::empty()
            }) + (if has_suit {
                seq![page_button(ButtonLabel::Suit, Code::Suit, id, locale, 0, current, current.0 == Code::Suit)]
            } else {
                Seq::empty()
            }) + gift_buttons(id, locale, current, gifts)
        },
        EntryButtons::Other => Seq::empty(),
    };
    seq![enc] + extra + seq![(ButtonLabel::Delete, None, false)]
}

/// Rows hold the buttons in order, five to a row but the last, which holds one to five.
pub open spec fn rows_of_five<T>(rows: Seq<Seq<T>>, buttons: Seq<T>) -> bool {
    &&& flatten(rows) == buttons
    &&& rows.len() > 0
    &&& forall|r: int| 0 <= r < rows.len() - 1 ==> #[trigger] rows[r].len() == 5
    &&& 1 <= rows.last().len() <= 5
}

/// Adds a button after the others, opening a new row when the current one is full.
fn push_button(rows: &mut Vec<Vec<ButtonPlan>>, row: &mut Vec<ButtonPlan>, b: ButtonPlan)
    requires
        old(row).len() <= 5,
        forall|r: int| 0 <= r < old(rows).len() ==> #[trigger] old(rows)@[r].len() == 5,
    ensures
        1 <= final(row).len() <= 5,
        forall|r: int| 0 <= r < final(rows).len() ==> #[trigger] final(rows)@[r].len() == 5,
        flatten(rows_view(final(rows)@)) + row_view(final(row)@) == flatten(rows_view(old(rows)@))
            + row_view(old(row)@) + seq![plan_view(b)],
{
    let ghost v = plan_view(b);
    if row.len() == 5 {
        let mut full: Vec<ButtonPlan> = Vec::new();
        std::mem::swap(&mut full, row);
        let ghost old_rows = rows@;
        rows.push(full);
        assert(rows_view(rows@).drop_last() =~= rows_view(old_rows));
        assert(rows_view(rows@).last() == row_view(full@));
        row.push(b);
        assert(row_view(row@) =~= seq![v]);
        assert(flatten(rows_view(rows@)) == flatten(rows_view(old_rows)) + row_view(full@));
        assert(flatten(rows_view(rows@)) + row_view(row@) =~= flatten(rows_view(old_rows)) + row_view(full@) + seq![v]);
    } else {
        let ghost before = row@;
        row.push(b);
        assert(row_view(row@) =~= row_view(before).push(v));
        assert(flatten(rows_view(rows@)) + row_view(row@) =~= flatten(rows_view(rows@)) + row_view(before) + seq![v]);
    }
}

/// A button that leads to a page of an entry.
fn page_button_plan(label: ButtonLabel, code: Code, id: u32, locale: &Locale, index: usize, current: &(Code, usize), disabled: bool) -> (b: ButtonPlan)
    ensures
        plan_view(b) == page_button(label, code, id, *locale, index, *current, disabled),
{
    ButtonPlan { label, custom_id: Some(build_custom_id(&code, &id, locale, &index)), disabled }
}

/// Adds the buttons of the breaching entities.
fn push_breaching_buttons(
    rows: &mut Vec<Vec<ButtonPlan>>,
    row: &mut Vec<ButtonPlan>,
    id: u32,
    locale: &Locale,
    current: &(Code, usize),
    n: usize,
    is_breachable: bool,
)
    requires
        1 <= old(row).len() <= 5,
        forall|r: int| 0 <= r < old(rows).len() ==> #[trigger] old(rows)@[r].len() == 5,
    ensures
        1 <= final(row).len() <= 5,
        forall|r: int| 0 <= r < final(rows).len() ==> #[trigger] final(rows)@[r].len() == 5,
        flatten(rows_view(final(rows)@)) + row_view(final(row)@) == flatten(rows_view(old(rows)@))
            + row_view(old(row)@) + breaching_buttons(id, *locale, *current, n, is_breachable),
{
    let ghost start = flatten(rows_view(rows@)) + row_view(row@);
    let ghost breach = breaching_buttons(id, *locale, *current, n, is_breachable);
    let mut i: usize = 0;
    while i < n
        invariant
            i <= n,
            1 <= row.len() <= 5,
            forall|r: int| 0 <= r < rows.len() ==> #[trigger] rows@[r].len() == 5,
            breach == breaching_buttons(id, *locale, *current, n, is_breachable),
            flatten(rows_view(rows@)) + row_view(row@) == start + breach.take(i as int),
        decreases n - i,
    {
        let label = if i == 0 && is_breachable { ButtonLabel::Breaching } else { ButtonLabel::BreachingChild(i) };
        let b = page_button_plan(label, Code::BreachingEntity, id, locale, i, current,
            current.0 == Code::BreachingEntity && current.1 == i);
        assert(plan_view(b) == breach[i as int]);
        push_button(rows, row, b);
        assert(breach.take(i + 1) =~= breach.take(i as int).push(breach[i as int]));
        i = i + 1;
    }
    assert(breach.take(n as int) =~= breach);
}

/// Adds the buttons of the gifts.
fn push_gift_buttons(
    rows: &mut Vec<Vec<ButtonPlan>>,
    row: &mut Vec<ButtonPlan>,
    id: u32,
    locale: &Locale,
    current: &(Code, usize),
    n: usize,
)
    requires
        1 <= old(row).len() <= 5,
        forall|r: int| 0 <= r < old(rows).len() ==> #[trigger] old(rows)@[r].len() == 5,
    ensures
        1 <= final(row).len() <= 5,
        forall|r: int| 0 <= r < final(rows).len() ==> #[trigger] final(rows)@[r].len() == 5,
        flatten(rows_view(final(rows)@)) + row_view(final(row)@) == flatten(rows_view(old(rows)@))
            + row_view(old(row)@) + gift_buttons(id, *locale, *current, n),
{
    let ghost start = flatten(rows_view(rows@)) + row_view(row@);
    let ghost gift = gift_buttons(id, *locale, *current, n);
    let mut i: usize = 0;
    while i < n
        invariant
            i <= n,
            1 <= row.len() <= 5,
            forall|r: int| 0 <= r < rows.len() ==> #[trigger] rows@[r].len() == 5,
            gift == gift_buttons(id, *locale, *current, n),
            flatten(rows_view(rows@)) + row_view(row@) == start + gift.take(i as int),
        decreases n - i,
    {
        let b = page_button_plan(ButtonLabel::Gift(i), Code::Gift, id, locale, i, current,
            current.0 == Code::Gift && current.1 == i);
        assert(plan_view(b) == gift[i as int]);
        push_button(rows, row, b);
        assert(gift.take(i + 1) =~= gift.take(i as int).push(gift[i as int]));
        i = i + 1;
    }
    assert(gift.take(n as int) =~= gift);
}

proof fn lemma_close_rows(
    rows: Seq<Vec<ButtonPlan>>,
    row: Vec<ButtonPlan>,
    all: Seq<(ButtonLabel, Option<Seq<char>>, bool)>,
)
    requires
        forall|r: int| 0 <= r < rows.len() ==> #[trigger] rows[r].len() == 5,
        1 <= row.len() <= 5,
        flatten(rows_view(rows)) + row_view(row@) == all,
    ensures
        rows_of_five(rows_view(rows.push(row)), all),
{
    let rv = rows_view(rows.push(row));
    assert(rv.drop_last() =~= rows_view(rows));
    assert(rv.last() == row_view(row@));
    assert forall|r: int| 0 <= r < rv.len() - 1 implies #[trigger] rv[r].len() == 5 by {
        assert(rows[r].len() == 5);
        assert(rv[r] == row_view(rows[r]@));
        assert(rv[r].len() == rows[r]@.len());
    }
}

/// The buttons of an encyclopedia entry, five to a row.
#[verifier::rlimit(60)]
pub fn build_buttons(id: u32, abno_locale: &Locale, current: &(Code, usize), entry: &EntryButtons) -> (rows: Vec<Vec<ButtonPlan>>)
    ensures
        rows_of_five(rows_view(rows@), buttons_spec(id, *abno_locale, *current, *entry)),
{
    let ghost all = buttons_spec(id, *abno_locale, *current, *entry);
    let mut rows: Vec<Vec<ButtonPlan>> = Vec::new();
    let mut row: Vec<ButtonPlan> = Vec::new();
    let enc = page_button_plan(ButtonLabel::Encyclopedia, Code::Encyclopedia, id, abno_locale, 0, current, current.0 == Code::Encyclopedia);
    let ghost enc_view = plan_view(enc);
    assert(flatten(rows_view(rows@)) =~= Seq::<(ButtonLabel, Option<Seq<char>>, bool)>::empty());
    assert(row_view(row@) =~= Seq::<(ButtonLabel, Option<Seq<char>>, bool)>::empty());
    push_button(&mut rows, &mut row, enc);
    assert(flatten(rows_view(rows@)) + row_view(row@) =~= seq![enc_view]);
    match entry {
        EntryButtons::Normal { breaching_entities, is_breachable, has_weapon, has_suit, gifts } => {
            push_breaching_buttons(&mut rows, &mut row, id, abno_locale, current, *breaching_entities, *is_breachable);
            let ghost f1 = flatten(rows_view(rows@)) + row_view(row@);
            if *has_weapon {
                let b = page_button_plan(ButtonLabel::Weapon, Code::Weapon, id, abno_locale, 0, current, current.0 == Code::Weapon);
                push_button(&mut rows, &mut row, b);
            }
            let ghost f2 = flatten(rows_view(rows@)) + row_view(row@);
            if *has_suit {
                let b = page_button_plan(ButtonLabel::Suit, Code::Suit, id, abno_locale, 0, current, current.0 == Code::Suit);
                push_button(&mut rows, &mut row, b);
            }
            let ghost f3 = flatten(rows_view(rows@)) + row_view(row@);
            push_gift_buttons(&mut rows, &mut row, id, abno_locale, current, *gifts);
            assert(flatten(rows_view(rows@)) + row_view(row@) =~= all.drop_last());
        },
        EntryButtons::Other => {
            assert(flatten(rows_view(rows@)) + row_view(row@) =~= all.drop_last());
        },
    }
    let delete = ButtonPlan { label: ButtonLabel::Delete, custom_id: None, disabled: false };
    push_button(&mut rows, &mut row, delete);
    assert(flatten(rows_view(rows@)) + row_view(row@) =~= all);
    proof {
        lemma_close_rows(rows@, row, all);
    }
    rows.push(row);
    rows
}

/// The text of an optional string, nothing when there is none.
pub open spec fn or_empty(o: Option<String>) -> Seq<char> {
    match o {
        Some(s) => s@,
        None => Seq::empty(),
    }
}

/// A mood range as shown: the mood's emoji (nothing without one), a space, the low end,
/// ` - ` and the high end.
pub open spec fn happiness_range_spec(low: int, high: int, emoji: Option<String>) -> Seq<char> {
    or_empty(emoji) + seq![' '] + decimal(low) + seq![' ', '-', ' '] + decimal(high)
}

/// Writes a mood range.
pub fn format_happiness_range(low: &i32, high: &i32, emoji: &Option<String>) -> (s: String)
    ensures
        s@ == happiness_range_spec(*low as int, *high as int, *emoji),
{
    let mut out: Vec<char> = Vec::new();
    match emoji {
        Some(e) => append_str(&mut out, e.as_str()),
        None => {},
    }
    out.push(' ');
    append_str(&mut out, i32_to_decimal(*low).as_str());
    out.push(' ');
    out.push('-');
    out.push(' ');
    append_str(&mut out, i32_to_decimal(*high).as_str());
    assert(out@ =~= happiness_range_spec(*low as int, *high as int, *emoji));
    string_of(&out)
}

/// One mood range, when it is not empty.
pub open spec fn happiness_line(low: int, high: int, emoji: Option<String>) -> Seq<Seq<char>> {
    if low == high {
        Seq::empty()
    } else {
        seq![happiness_range_spec(low + 1, high, emoji)]
    }
}

/// The mood ranges of a work result, best first: good above the second bound, normal
/// above the first, bad from zero; a range that holds no result is left out.
pub open spec fn happiness_lines(ranges: Seq<i32>, emojis: Emojis) -> Seq<Seq<char>> {
    happiness_line(ranges[1] as int, ranges[2] as int, emojis.good_mood)
        + happiness_line(ranges[0] as int, ranges[1] as int, emojis.normal_mood)
        + happiness_line(-1, ranges[0] as int, emojis.bad_mood)
}

/// Adds a mood range when it is not empty.
fn push_happiness_line(lines: &mut Vec<String>, low: i32, high: i32, emoji: &Option<String>)
    requires
        low != high ==> low < i32::MAX,
    ensures
        views(final(lines)@) == views(old(lines)@) + happiness_line(low as int, high as int, *emoji),
{
    if low != high {
        let line = format_happiness_range(&(low + 1), &high, emoji);
        lines.push(line);
        assert(views(lines@) =~= views(old(lines)@).push(line@));
    } else {
        assert(views(lines@) =~= views(old(lines)@) + Seq::<Seq<char>>::empty());
    }
}

/// The mood ranges of a work result, one per line.
pub fn format_happiness_ranges(ranges: &[i32; 3], emojis: &Emojis) -> (s: String)
    requires
        ranges@[1] != ranges@[2] ==> ranges@[1] < i32::MAX,
        ranges@[0] != ranges@[1] ==> ranges@[0] < i32::MAX,
    ensures
        s@ == join_spec(happiness_lines(ranges@, *emojis), '\n'),
{
    let mut lines: Vec<String> = Vec::new();
    assert(views(lines@) =~= Seq::<Seq<char>>::empty());
    push_happiness_line(&mut lines, ranges[1], ranges[2], &emojis.good_mood);
    push_happiness_line(&mut lines, ranges[0], ranges[1], &emojis.normal_mood);
    push_happiness_line(&mut lines, -1, ranges[0], &emojis.bad_mood);
    assert(views(lines@) =~= happiness_lines(ranges@, *emojis));
    join_with(lines.as_slice(), '\n')
}

/// The emoji of a damage type, where one is configured.
pub open spec fn damage_emoji(d: DamageType, emojis: Emojis) -> Option<String> {
    match d {
        DamageType::Red => emojis.red_damage,
        DamageType::White => emojis.white_damage,
        DamageType::Black => emojis.black_damage,
        DamageType::Pale => emojis.pale_damage,
    }
}

/// Each damage type is shown with the emoji configured for that same type, so that damage
/// types with different emojis are told apart; where that emoji is missing, damage is
/// written after a dash.
pub proof fn lemma_damage_emoji_is_its_own(emojis: Emojis, r: DamageRange)
    ensures
        damage_emoji(DamageType::Red, emojis) == emojis.red_damage,
        damage_emoji(DamageType::White, emojis) == emojis.white_damage,
        damage_emoji(DamageType::Black, emojis) == emojis.black_damage,
        damage_emoji(DamageType::Pale, emojis) == emojis.pale_damage,
        forall|a: DamageType, b: DamageType|
            #![trigger damage_emoji(a, emojis), damage_emoji(b, emojis)]
            a != b && emojis_differ(emojis) ==> damage_emoji(a, emojis) != damage_emoji(b, emojis),
        forall|t: DamageType| damage_emoji(t, emojis) is None ==> #[trigger] damage_text(t, r, emojis) == seq!['-', ' '] + decimal(r.0 as int)
            + seq![' ', '-', ' '] + decimal(r.1 as int),
{
}

/// Whether the four damage emojis are all configured and all different.
pub open spec fn emojis_differ(emojis: Emojis) -> bool {
    let all = seq![emojis.red_damage, emojis.white_damage, emojis.black_damage, emojis.pale_damage];
    forall|i: int, j: int| 0 <= i < j < 4 ==> all[i] is Some && all[j] is Some && all[i] != all[j]
}

/// The emoji of a damage type.
pub fn get_damage_emoji<'a>(damage_type: &DamageType, emojis: &'a Emojis) -> (e: Option<&'a String>)
    ensures
        match e {
            Some(s) => damage_emoji(*damage_type, *emojis) == Some(*s),
            None => damage_emoji(*damage_type, *emojis) is None,
        },
{
    match damage_type {
        DamageType::Red => emojis.red_damage.as_ref(),
        DamageType::White => emojis.white_damage.as_ref(),
        DamageType::Black => emojis.black_damage.as_ref(),
        DamageType::Pale => emojis.pale_damage.as_ref(),
    }
}

/// The emoji of an equipment requirement: each stat by the work that trains it; the agent
/// level has none.
pub open spec fn requirement_emoji(k: EquipRequirementKey, emojis: Emojis) -> Option<String> {
    match k {
        EquipRequirementKey::AgentLevel => None,
        EquipRequirementKey::Fortitude => emojis.instinct,
        EquipRequirementKey::Prudence => emojis.insight,
        EquipRequirementKey::Temperance => emojis.attachment,
        EquipRequirementKey::Justice => emojis.repression,
    }
}

/// The emoji of an equipment requirement.
pub fn get_equip_requirement_emoji<'a>(key: &EquipRequirementKey, emojis: &'a Emojis) -> (e: Option<&'a String>)
    ensures
        match e {
            Some(s) => requirement_emoji(*key, *emojis) == Some(*s),
            None => requirement_emoji(*key, *emojis) is None,
        },
{
    match key {
        EquipRequirementKey::AgentLevel => None,
        EquipRequirementKey::Fortitude => emojis.instinct.as_ref(),
        EquipRequirementKey::Prudence => emojis.insight.as_ref(),
        EquipRequirementKey::Temperance => emojis.attachment.as_ref(),
        EquipRequirementKey::Justice => emojis.repression.as_ref(),
    }
}

/// The address of an abnormality's portrait in the bot's bucket.
pub open spec fn portrait_url(id: u32, bucket: Seq<char>) -> Seq<char> {
    "https://"@ + bucket + ".s3.amazonaws.com/lc/portrait/"@ + digits(id as nat, 10) + ".png"@
}

/// The address of an abnormality's portrait.
pub fn get_portrait_url(id: u32, bucket: &str) -> (u: String)
    ensures
        u@ == portrait_url(id, bucket@),
{
    let mut out: Vec<char> = Vec::new();
    append_str(&mut out, "https://");
    append_str(&mut out, bucket);
    append_str(&mut out, ".s3.amazonaws.com/lc/portrait/");
    append_str(&mut out, u64_to_decimal(id as u64).as_str());
    append_str(&mut out, ".png");
    string_of(&out)
}

/// The message key of a defense category.
pub open spec fn defenses_key(c: ResistanceCategories) -> Seq<char> {
    match c {
        ResistanceCategories::Absorb => "absorb_defenses_value"@,
        ResistanceCategories::Immune => "immune_defenses_value"@,
        ResistanceCategories::Resistant => "resistant_defenses_value"@,
        ResistanceCategories::Endured => "endured_defenses_value"@,
        ResistanceCategories::Normal => "normal_defenses_value"@,
        ResistanceCategories::Weak => "weak_defenses_value"@,
        ResistanceCategories::Vulnerable => "vulnerable_defenses_value"@,
    }
}

/// The message key of a defense category.
pub fn lookup_defenses_key(resistance_category: &ResistanceCategories) -> (k: &'static str)
    ensures
        k@ == defenses_key(*resistance_category),
{
    match resistance_category {
        ResistanceCategories::Absorb => "absorb_defenses_value",
        ResistanceCategories::Immune => "immune_defenses_value",
        ResistanceCategories::Resistant => "resistant_defenses_value",
        ResistanceCategories::Endured => "endured_defenses_value",
        ResistanceCategories::Normal => "normal_defenses_value",
        ResistanceCategories::Weak => "weak_defenses_value",
        ResistanceCategories::Vulnerable => "vulnerable_defenses_value",
    }
}

/// The message key of an observation bonus; only success rate and work speed are
/// observation bonuses.
pub fn observation_level_key(stat: &Stat) -> (k: &'static str)
    requires
        *stat == Stat::SuccessRate || *stat == Stat::WorkSpeed,
    ensures
        k@ == (if *stat == Stat::SuccessRate { "observation_level_success_rate"@ } else { "observation_level_speed_rate"@ }),
{
    match stat {
        Stat::SuccessRate => "observation_level_success_rate",
        _ => "observation_level_speed_rate",
    }
}

/// Lines numbered from 1: `1. first`, `2. second`, ... joined by line breaks.
pub open spec fn numbered_lines_spec(lines: Seq<Seq<char>>) -> Seq<char> {
    join_spec(Seq::new(lines.len(), |i: int| digits((i + 1) as nat, 10) + seq!['.', ' '] + lines[i]), '\n')
}

/// Numbers the lines from 1, one per line.
pub fn numbered_lines(lines: &[String]) -> (s: String)
    requires
        lines.len() < u64::MAX,
    ensures
        s@ == numbered_lines_spec(views(lines@)),
{
    let ghost want = Seq::new(lines@.len(), |i: int| digits((i + 1) as nat, 10) + seq!['.', ' '] + lines@[i]@);
    let mut items: Vec<String> = Vec::new();
    let mut i: usize = 0;
    while i < lines.len()
        invariant
            i <= lines.len() < u64::MAX,
            items.len() == i,
            want == Seq::new(lines@.len(), |i: int| digits((i + 1) as nat, 10) + seq!['.', ' '] + lines@[i]@),
            forall|j: int| 0 <= j < i ==> #[trigger] items@[j]@ == want[j],
        decreases lines.len() - i,
    {
        let mut out: Vec<char> = Vec::new();
        append_str(&mut out, u64_to_decimal((i as u64) + 1).as_str());
        out.push('.');
        out.push(' ');
        append_str(&mut out, lines[i].as_str());
        assert(out@ =~= want[i as int]);
        items.push(string_of(&out));
        i = i + 1;
    }
    assert(views(items@) =~= Seq::new(views(lines@).len(), |i: int| digits((i + 1) as nat, 10) + seq!['.', ' '] + views(lines@)[i]));
    join_with(items.as_slice(), '\n')
}

/// One equipment requirement as shown: its emoji (`-` without one), a space, its minimum.
pub open spec fn requirement_text(r: EquipRequirement, emojis: Emojis) -> Seq<char> {
    (match requirement_emoji(r.0, emojis) {
        Some(e) => e@,
        None => seq!['-'],
    }) + seq![' '] + decimal(r.1 as int)
}

/// The requirements of a piece of equipment, separated by `; `.
pub open spec fn requirements_text(rs: Seq<EquipRequirement>, emojis: Emojis) -> Seq<char>
    decreases rs.len(),
{
    if rs.len() == 0 {
        Seq::empty()
    } else if rs.len() == 1 {
        requirement_text(rs[0], emojis)
    } else {
        requirements_text(rs.drop_last(), emojis) + seq![';', ' '] + requirement_text(rs.last(), emojis)
    }
}

/// Writes the requirements of a piece of equipment.
pub fn format_equip_requirements(equip_requirements: &[EquipRequirement], emojis: &Emojis) -> (s: String)
    ensures
        s@ == requirements_text(equip_requirements@, *emojis),
{
    let mut out: Vec<char> = Vec::new();
    let mut i: usize = 0;
    while i < equip_requirements.len()
        invariant
            i <= equip_requirements.len(),
            out@ == requirements_text(equip_requirements@.take(i as int), *emojis),
        decreases equip_requirements.len() - i,
    {
        let ghost before = out@;
        assert(equip_requirements@.take(i + 1).drop_last() == equip_requirements@.take(i as int));
        if i > 0 {
            out.push(';');
            out.push(' ');
        }
        let r = &equip_requirements[i];
        let ghost start = out@;
        match get_equip_requirement_emoji(&r.0, emojis) {
            Some(e) => append_str(&mut out, e.as_str()),
            None => out.push('-'),
        }
        out.push(' ');
        append_str(&mut out, i32_to_decimal(r.1).as_str());
        assert(out@ =~= start + requirement_text(*r, *emojis));
        i = i + 1;
        if i == 1 {
            assert(out@ =~= requirements_text(equip_requirements@.take(1), *emojis));
        } else {
            assert(out@ =~= requirements_text(equip_requirements@.take(i as int), *emojis));
        }
    }
    assert(equip_requirements@.take(equip_requirements.len() as int) == equip_requirements@);
    string_of(&out)
}

/// A text of an entry with its `$0` placeholders replaced by the abnormality's name.
pub open spec fn named_text(text: Seq<char>, name: Seq<char>) -> Seq<char> {
    replace_spec(text, seq!['$', '0'], name)
}

/// `text` with `$0` replaced by `name`.
fn fill_name(text: &str, name: &str) -> (s: String)
    ensures
        s@ == named_text(text@, name@),
{
    let t = chars_of(text);
    let n = chars_of(name);
    let mut pat: Vec<char> = Vec::new();
    pat.push('$');
    pat.push('0');
    assert(pat@ =~= seq!['$', '0']);
    string_of(&replace_chars(&t, &pat, &n))
}

/// The managerial guidances of an abnormality, its name put in.
pub fn managerial_guidance_texts(guidances: &[&str], name: &str) -> (v: Vec<String>)
    ensures
        views(v@) == str_views(guidances@).map_values(|g: Seq<char>| named_text(g, name@)),
{
    let mut v: Vec<String> = Vec::new();
    let mut i: usize = 0;
    while i < guidances.len()
        invariant
            i <= guidances.len(),
            views(v@) == str_views(guidances@.take(i as int)).map_values(|g: Seq<char>| named_text(g, name@)),
        decreases guidances.len() - i,
    {
        let ghost before = v@;
        let t = fill_name(guidances[i], name);
        v.push(t);
        assert(views(v@) =~= views(before).push(t@));
        assert(str_views(guidances@.take(i + 1)) =~= str_views(guidances@.take(i as int)).push(guidances@[i as int]@));
        i = i + 1;
        assert(views(v@) =~= str_views(guidances@.take(i as int)).map_values(|g: Seq<char>| named_text(g, name@)));
    }
    assert(guidances@.take(guidances.len() as int) == guidances@);
    v
}

/// The `i`-th story line or guidance of a tool, its name put in, or `-` past the last.
pub open spec fn tool_part(texts: Seq<Seq<char>>, i: int, name: Seq<char>) -> Seq<char> {
    if i < texts.len() {
        named_text(texts[i], name)
    } else {
        seq!['-']
    }
}

/// The entries of a tool abnormality: as many as its longer list of story lines and
/// guidances, each the story line, a line break and the guidance.
pub open spec fn tool_entries(story: Seq<Seq<char>>, guidances: Seq<Seq<char>>, name: Seq<char>) -> Seq<Seq<char>> {
    Seq::new(
        if story.len() >= guidances.len() { story.len() } else { guidances.len() },
        |i: int| tool_part(story, i, name) + seq!['\n'] + tool_part(guidances, i, name),
    )
}

/// One part of a tool's entry.
fn tool_part_of(texts: &[&str], i: usize, name: &str) -> (s: String)
    ensures
        s@ == tool_part(str_views(texts@), i as int, name@),
{
    if i < texts.len() {
        fill_name(texts[i], name)
    } else {
        let v = vec!['-'];
        string_of(&v)
    }
}

/// The entries of a tool abnormality's encyclopedia page.
pub fn tool_guidance_texts(story: &[&str], guidances: &[&str], name: &str) -> (v: Vec<String>)
    ensures
        views(v@) == tool_entries(str_views(story@), str_views(guidances@), name@),
{
    let n = if story.len() >= guidances.len() { story.len() } else { guidances.len() };
    let ghost want = tool_entries(str_views(story@), str_views(guidances@), name@);
    let mut v: Vec<String> = Vec::new();
    let mut i: usize = 0;
    while i < n
        invariant
            i <= n,
            n == want.len(),
            want == tool_entries(str_views(story@), str_views(guidances@), name@),
            views(v@) == want.take(i as int),
        decreases n - i,
    {
        let mut out: Vec<char> = Vec::new();
        append_str(&mut out, tool_part_of(story, i, name).as_str());
        out.push('\n');
        append_str(&mut out, tool_part_of(guidances, i, name).as_str());
        assert(out@ =~= want[i as int]);
        let ghost before = v@;
        let t = string_of(&out);
        v.push(t);
        assert(views(v@) =~= views(before).push(t@));
        assert(want.take(i + 1) =~= want.take(i as int).push(want[i as int]));
        i = i + 1;
    }
    assert(want.take(n as int) == want);
    v
}

/// The damage of a weapon as shown: the emoji of its type (`-` without one), then the
/// smallest and largest damage.
pub open spec fn damage_text(t: DamageType, r: DamageRange, emojis: Emojis) -> Seq<char> {
    (match damage_emoji(t, emojis) {
        Some(e) => e@,
        None => seq!['-'],
    }) + seq![' '] + decimal(r.0 as int) + seq![' ', '-', ' '] + decimal(r.1 as int)
}

/// Writes the damage of a weapon.
pub fn format_damage(damage_type: &DamageType, range: &DamageRange, emojis: &Emojis) -> (s: String)
    ensures
        s@ == damage_text(*damage_type, *range, *emojis),
{
    let mut out: Vec<char> = Vec::new();
    match get_damage_emoji(damage_type, emojis) {
        Some(e) => append_str(&mut out, e.as_str()),
        None => out.push('-'),
    }
    out.push(' ');
    append_str(&mut out, i32_to_decimal(range.0).as_str());
    out.push(' ');
    out.push('-');
    out.push(' ');
    append_str(&mut out, i32_to_decimal(range.1).as_str());
    string_of(&out)
}


/// The game language of an encyclopedia command or search: the one its `locale` option
/// names, where it names one, else the language of the request's locale.
pub open spec fn entry_locale_spec(options: Seq<DiscordInteractionOptions>, request: BinahBotLocale) -> Locale {
    match named_value(options, "locale"@) {
        Some(DiscordInteractionOptionValue::String(s)) => match game_locale_of_code(s@) {
            Some(l) => l,
            None => game_locale_of_binahbot_locale(request),
        },
        _ => game_locale_of_binahbot_locale(request),
    }
}

/// The game language of an encyclopedia command or search.
pub fn entry_locale(options: &[DiscordInteractionOptions], request: &BinahBotLocale) -> (l: Locale)
    ensures
        l == entry_locale_spec(options@, *request),
{
    match get_option_value("locale", options) {
        Some(DiscordInteractionOptionValue::String(s)) => match Locale::from_str(s.as_str()) {
            Some(l) => l,
            None => Locale::from_binahbot_locale(request),
        },
        _ => Locale::from_binahbot_locale(request),
    }
}

/// The encyclopedia page of an abnormality that is worked with, as the bot decides it: the
/// colour of its risk level, its portrait, its id as the footer, and the values of the
/// fields for its risk level, its qliphoth counter (`-` where it has none), its work damage
/// and its moods; and whether the defenses field lists its resistances (breachable
/// abnormalities) or says, by the message `non_breachable_entity_value`, that it cannot
/// breach. The field of its success rates, that of its defenses and that of its
/// observation levels are written from decimal and translated texts.
#[derive(Debug)]
pub struct NormalInfoPlan {
    pub color: i32,
    pub image_url: String,
    pub footer: String,
    pub risk: String,
    pub qliphoth_counter: String,
    pub work_damage: String,
    pub happiness: String,
    pub lists_defenses: bool,
}

/// Decides the encyclopedia page of the abnormality `id`, from what the game's files say of it.
pub fn normal_info_plan(id: u32, info: &PartialNormalInfo, emojis: &Emojis, bucket: &str) -> (plan: NormalInfoPlan)
    requires
        info.work_happiness_ranges@[1] != info.work_happiness_ranges@[2] ==> info.work_happiness_ranges@[1] < i32::MAX,
        info.work_happiness_ranges@[0] != info.work_happiness_ranges@[1] ==> info.work_happiness_ranges@[0] < i32::MAX,
    ensures
        plan.color == color_value(risk_color(info.risk)),
        plan.image_url@ == portrait_url(id, bucket@),
        plan.footer@ == digits(id as nat, 10),
        plan.risk@ == risk_level_name(info.risk),
        plan.qliphoth_counter@ == match info.qliphoth_counter {
            Some(q) => decimal(q as int),
            None => seq!['-'],
        },
        plan.work_damage@ == damage_text(info.work_damage_type, info.work_damage_range, *emojis),
        plan.happiness@ == join_spec(happiness_lines(info.work_happiness_ranges@, *emojis), '\n'),
        plan.lists_defenses == info.is_breachable,
{
    let qliphoth_counter = match info.qliphoth_counter {
        Some(q) => i32_to_decimal(q),
        None => {
            let mut dash: Vec<char> = Vec::new();
            dash.push('-');
            string_of(&dash)
        },
    };
    NormalInfoPlan {
        color: info.risk.color().value(),
        image_url: get_portrait_url(id, bucket),
        footer: u64_to_decimal(id as u64),
        risk: info.risk.to_string(),
        qliphoth_counter,
        work_damage: format_damage(&info.work_damage_type, &info.work_damage_range, emojis),
        happiness: format_happiness_ranges(&info.work_happiness_ranges, emojis),
        lists_defenses: info.is_breachable,
    }
}

/// The encyclopedia page of a weapon, as the bot decides it: the colour of its risk level,
/// its id as the footer, and the values of the fields for its risk level, cost, how many can
/// be had, damage and range, in that order, then its requirements where it has any, and
/// whether its description and its ability's description follow (where the weapon names
/// them). The attack speed, a decimal, and the observation level are written beside them.
#[derive(Debug)]
pub struct WeaponPlan {
    pub color: i32,
    pub footer: String,
    pub risk: String,
    pub cost: String,
    pub max_amount: String,
    pub damage: String,
    pub range: String,
    pub requirements: Option<String>,
    pub has_description: bool,
    pub has_ability_description: bool,
}

/// Decides the encyclopedia page of a weapon that costs `cost` energy.
pub fn weapon_plan(weapon: &PartialWeapon, cost: i32, emojis: &Emojis) -> (plan: WeaponPlan)
    ensures
        plan.color == color_value(risk_color(weapon.risk)),
        plan.footer@ == digits(weapon.id as nat, 10),
        plan.risk@ == risk_level_name(weapon.risk),
        plan.cost@ == decimal(cost as int),
        plan.max_amount@ == decimal(weapon.max_collectable_amount as int),
        plan.damage@ == damage_text(weapon.damage_type, weapon.damage_range, *emojis),
        plan.range@ == digits(weapon.range.0 as nat, 10),
        match plan.requirements {
            Some(r) => weapon.equip_requirements.len() > 0 && r@ == requirements_text(weapon.equip_requirements@, *emojis),
            None => weapon.equip_requirements.len() == 0,
        },
        plan.has_description == weapon.desc_id is Some,
        plan.has_ability_description == weapon.special_desc_id is Some,
{
    let requirements = if weapon.equip_requirements.len() > 0 {
        Some(format_equip_requirements(weapon.equip_requirements.as_slice(), emojis))
    } else {
        None
    };
    WeaponPlan {
        color: weapon.risk.color().value(),
        footer: u64_to_decimal(weapon.id as u64),
        risk: weapon.risk.to_string(),
        cost: i32_to_decimal(cost),
        max_amount: i32_to_decimal(weapon.max_collectable_amount),
        damage: format_damage(&weapon.damage_type, &weapon.damage_range, emojis),
        range: u64_to_decimal(weapon.range.0 as u64),
        requirements,
        has_description: weapon.desc_id.is_some(),
        has_ability_description: weapon.special_desc_id.is_some(),
    }
}

} // verus!
