use vstd::prelude::*;

use crate::filters::{lowercase_spec, to_lowercase};
use crate::game_objects::{risk_level_name, EncyclopediaInfoLocalization, LocalizationKey, RiskLevel, Slot, StatBonus, ToolType};
use crate::lobocorp::{game_locale_code, Locale};
use crate::numbers::{digits, u64_to_decimal};
use crate::text::{append_str, chars_of, join_spec, join_with, str_eq, string_of, views};

verus! {

/// `Some(` and the serialized value and `)`, or `None`.
pub fn serialize_option<T, F: Fn(&T) -> String>(option: &Option<T>, serializer: F) -> (s: String)
    requires
        option matches Some(x) ==> serializer.requires((&x,)),
    ensures
        match option {
            Some(x) => exists|r: String| serializer.ensures((&x,), r) && s@ == "Some("@ + r@ + ")"@,
            None => s@ == "None"@,
        },
{
    match option {
        Some(x) => {
            let inner = serializer(x);
            let mut out: Vec<char> = Vec::new();
            append_str(&mut out, "Some(");
            append_str(&mut out, inner.as_str());
            append_str(&mut out, ")");
            string_of(&out)
        },
        None => "None".to_owned(),
    }
}

/// A value written as it displays; for numbers, booleans and plain strings that is the
/// source text of the value.
pub fn display_serializer<T: std::fmt::Display>(x: &T) -> (s: String)
    ensures
        vstd::string::to_string_from_display_ensures::<T>(x, s),
{
    x.to_string()
}

/// A string written as a string literal: between double quotes.
pub fn str_serializer(x: &String) -> (s: String)
    ensures
        s@ == seq!['"'] + x@ + seq!['"'],
{
    let mut out: Vec<char> = Vec::new();
    out.push('"');
    append_str(&mut out, x.as_str());
    out.push('"');
    string_of(&out)
}

/// Items written as an array: between brackets, separated by commas.
pub fn write_vec(v: &[String]) -> (s: String)
    ensures
        s@ == seq!['['] + join_spec(views(v@), ',') + seq![']'],
{
    let mut out: Vec<char> = Vec::new();
    out.push('[');
    append_str(&mut out, join_with(v, ',').as_str());
    out.push(']');
    string_of(&out)
}

/// The path of an abnormality's texts in a language:
/// `./data/Language/<code>/creatures/<id>_<code>.xml`.
pub open spec fn abno_file_path(locale: Locale, abno_id: Seq<char>) -> Seq<char> {
    "./data/Language/"@ + game_locale_code(locale) + "/creatures/"@ + abno_id + "_"@ + game_locale_code(locale)
        + ".xml"@
}

/// The path of an abnormality's texts in a language.
pub fn get_lcoalized_abno_file_path(locale: &Locale, abno_id: &str) -> (p: String)
    ensures
        p@ == abno_file_path(*locale, abno_id@),
{
    let code = locale.to_string();
    let mut out: Vec<char> = Vec::new();
    append_str(&mut out, "./data/Language/");
    append_str(&mut out, code.as_str());
    append_str(&mut out, "/creatures/");
    append_str(&mut out, abno_id);
    append_str(&mut out, "_");
    append_str(&mut out, code.as_str());
    append_str(&mut out, ".xml");
    string_of(&out)
}

/// The path of the equipment texts in a language:
/// `./data/Language/Localize/<code>/Equipment_<code>.xml`.
pub open spec fn equipment_file_path(locale: Locale) -> Seq<char> {
    "./data/Language/Localize/"@ + game_locale_code(locale) + "/Equipment_"@ + game_locale_code(locale)
        + ".xml"@
}

/// The path of the equipment texts in a language.
pub fn get_localized_equipment_file_path(locale: &Locale) -> (p: String)
    ensures
        p@ == equipment_file_path(*locale),
{
    let code = locale.to_string();
    let mut out: Vec<char> = Vec::new();
    append_str(&mut out, "./data/Language/Localize/");
    append_str(&mut out, code.as_str());
    append_str(&mut out, "/Equipment_");
    append_str(&mut out, code.as_str());
    append_str(&mut out, ".xml");
    string_of(&out)
}

/// The names of WhiteNight's four apostles; they are the English names in every language.
pub fn get_apostle_names(locale: &Locale) -> (names: [String; 4])
    ensures
        names@[0]@ == "Scythe Apostle"@,
        names@[1]@ == "Guardian Apostle"@,
        names@[2]@ == "Staff Apostle"@,
        names@[3]@ == "Spear Apostle"@,
{
    [
        "Scythe Apostle".to_owned(),
        "Guardian Apostle".to_owned(),
        "Staff Apostle".to_owned(),
        "Spear Apostle".to_owned(),
    ]
}

/// The name by which a language is written in lookup keys: its variant name.
pub open spec fn locale_variant_name(l: Locale) -> Seq<char> {
    match l {
        Locale::Korean => "Korean"@,
        Locale::English => "English"@,
        Locale::Japanese => "Japanese"@,
        Locale::Chinese => "Chinese"@,
        Locale::ChineseTraditional => "ChineseTraditional"@,
        Locale::Russian => "Russian"@,
        Locale::Bulgarian => "Bulgarian"@,
        Locale::Spanish => "Spanish"@,
        Locale::French => "French"@,
        Locale::PortugueseBrazil => "PortugueseBrazil"@,
        Locale::PortuguesePortugal => "PortuguesePortugal"@,
    }
}

/// The variant name of a language.
fn locale_variant(l: &Locale) -> (s: &'static str)
    ensures
        s@ == locale_variant_name(*l),
{
    match l {
        Locale::Korean => "Korean",
        Locale::English => "English",
        Locale::Japanese => "Japanese",
        Locale::Chinese => "Chinese",
        Locale::ChineseTraditional => "ChineseTraditional",
        Locale::Russian => "Russian",
        Locale::Bulgarian => "Bulgarian",
        Locale::Spanish => "Spanish",
        Locale::French => "French",
        Locale::PortugueseBrazil => "PortugueseBrazil",
        Locale::PortuguesePortugal => "PortuguesePortugal",
    }
}

/// The key of a localized text in the lookup tables: `<text id>#<language>`.
pub fn localization_lookup_key(key: &str, locale: &Locale) -> (s: String)
    ensures
        s@ == key@.push('#') + locale_variant_name(*locale),
{
    let mut out: Vec<char> = Vec::new();
    append_str(&mut out, key);
    out.push('#');
    append_str(&mut out, locale_variant(locale));
    string_of(&out)
}

/// An abnormality in the game's list: its file name, its number and its stat file.
#[derive(Debug)]
pub struct ListEntry {
    pub src: String,
    pub id: u32,
    pub stat: String,
}

/// Whether an entry of the list is shown in the encyclopedia. Ordeals and sephirah cores
/// are not shown, nor is the egg stage of the big bird event.
pub open spec fn is_listed_id(id: u32) -> bool {
    &&& (id <= 200000 || id > 299999)
    &&& (id <= 400001 || id > 499999)
    &&& (id < 1000350 || id > 1000353)
}

/// Whether an abnormality of the list is kept.
pub fn is_listed(id: u32) -> (b: bool)
    ensures
        b == is_listed_id(id),
{
    (id <= 200000 || id > 299999) && (id <= 400001 || id > 499999) && (id < 1000350 || id > 1000353)
}

/// A list entry as plain values.
pub open spec fn entry_view(e: ListEntry) -> (Seq<char>, u32, Seq<char>) {
    (e.src@, e.id, e.stat@)
}

/// List entries as plain values.
pub open spec fn entries_view(s: Seq<ListEntry>) -> Seq<(Seq<char>, u32, Seq<char>)> {
    s.map_values(|e: ListEntry| entry_view(e))
}

/// The entries of `s` that are kept, in order.
pub open spec fn listed_entries(s: Seq<(Seq<char>, u32, Seq<char>)>) -> Seq<(Seq<char>, u32, Seq<char>)>
    decreases s.len(),
{
    if s.len() == 0 {
        Seq::empty()
    } else if is_listed_id(s.last().1) {
        listed_entries(s.drop_last()).push(s.last())
    } else {
        listed_entries(s.drop_last())
    }
}

/// Apocalypse Bird, which the list does not hold but the encyclopedia shows.
pub open spec fn apocalypse_bird() -> (Seq<char>, u32, Seq<char>) {
    ("BossBird"@, 100038u32, "ChildCreatures/BossBird_stat"@)
}

/// The encyclopedia's abnormalities from those of the game's list: Apocalypse Bird added
/// at the end, and the entries that are not kept left out, in order.
pub fn finish_encyclopedia_list(entries: Vec<ListEntry>) -> (r: Vec<ListEntry>)
    ensures
        entries_view(r@) == listed_entries(
            entries_view(entries@).push(apocalypse_bird()),
        ),
{
    let mut all = entries;
    all.push(ListEntry {
        src: "BossBird".to_owned(),
        id: 100038,
        stat: "ChildCreatures/BossBird_stat".to_owned(),
    });
    let ghost all_view = entries_view(all@);
    assert(all_view =~= entries_view(entries@).push(apocalypse_bird()));
    let mut kept: Vec<ListEntry> = Vec::new();
    let n = all.len();
    let mut i: usize = 0;
    while i < n
        invariant
            i <= n,
            all.len() == n - i,
            all_view.len() == n,
            entries_view(all@) == all_view.skip(i as int),
            entries_view(kept@) == listed_entries(all_view.take(i as int)),
        decreases n - i,
    {
        let ghost old_all = all@;
        assert(entries_view(old_all)[0] == entry_view(old_all[0]));
        assert(all_view.skip(i as int)[0] == all_view[i as int]);
        let e = all.remove(0);
        let ghost ev = entry_view(e);
        assert(ev == all_view[i as int]);
        assert(all@ == old_all.remove(0));
        assert forall|k: int| 0 <= k < all@.len() implies #[trigger] entries_view(all@)[k]
            == all_view.skip(i + 1)[k] by {
            assert(all@[k] == old_all[k + 1]);
            assert(entries_view(old_all)[k + 1] == entry_view(old_all[k + 1]));
            assert(all_view.skip(i as int)[k + 1] == all_view[i + 1 + k]);
        }
        assert(entries_view(all@) =~= all_view.skip(i + 1));
        assert(all_view.take(i + 1).drop_last() == all_view.take(i as int));
        assert(all_view.take(i + 1).last() == ev);
        let ghost before = kept@;
        if is_listed(e.id) {
            kept.push(e);
            assert(entries_view(kept@) =~= entries_view(before).push(ev));
        }
        i = i + 1;
    }
    assert(all_view.take(n as int) == all_view);
    kept
}

/// What the game's files hold of an abnormality that is not worked with.
#[derive(Debug)]
pub struct PartialDontTouchMeInfo {
    pub risk: RiskLevel,
    pub image: Option<String>,
}

/// What the game's files hold of a tool abnormality.
#[derive(Debug)]
pub struct PartialToolInfo {
    pub risk: RiskLevel,
    pub tool_type: ToolType,
    pub image: Option<String>,
}

/// What the game's files hold of a gift.
#[derive(Debug)]
pub struct PartialGift {
    pub id: u32,
    pub name_id: Option<String>,
    pub desc_id: Option<String>,
    pub slot: Slot,
    pub stat_bonuses: Vec<StatBonus>,
    pub image: Option<String>,
}

/// The slot a gift is worn in, from where it is attached and how, both read in lower case.
pub open spec fn gift_slot(pos: Seq<char>, kind: Seq<char>) -> Option<Slot> {
    if pos == "body_up"@ {
        Some(Slot::Brooch)
    } else if pos == "right_cheek"@ {
        Some(Slot::Cheek)
    } else if pos == "eye"@ {
        Some(Slot::Eye)
    } else if pos == "face"@ {
        Some(Slot::Face)
    } else if pos == "right_hand"@ {
        if kind == "add"@ { Some(Slot::Hand1) } else { Some(Slot::Hand2) }
    } else if pos == "head"@ {
        Some(Slot::Hat)
    } else if pos == "hair"@ {
        Some(Slot::Helmet)
    } else if pos == "back2"@ {
        Some(Slot::LeftBack)
    } else if pos == "mouth"@ {
        if kind == "add"@ { Some(Slot::Mouth1) } else { Some(Slot::Mouth2) }
    } else if pos == "ribborn"@ {
        Some(Slot::Neckwear)
    } else if pos == "back"@ {
        Some(Slot::RightBack)
    } else if pos == "headback"@ {
        Some(Slot::Special)
    } else {
        None
    }
}

/// The slot of a gift, from the game's `attachPos` and `attachType`.
pub fn get_gift_slot(attach_pos: &str, attach_type: &str) -> (r: Result<Slot, String>)
    ensures
        match r {
            Ok(slot) => gift_slot(lowercase_spec(attach_pos@), lowercase_spec(attach_type@)) == Some(slot),
            Err(e) => gift_slot(lowercase_spec(attach_pos@), lowercase_spec(attach_type@)) is None && e@
                == "invalid slot type"@,
        },
{
    let pos_s = to_lowercase(attach_pos);
    let kind_s = to_lowercase(attach_type);
    let pos = pos_s.as_str();
    let add = str_eq(kind_s.as_str(), "add");
    if str_eq(pos, "body_up") {
        Ok(Slot::Brooch)
    } else if str_eq(pos, "right_cheek") {
        Ok(Slot::Cheek)
    } else if str_eq(pos, "eye") {
        Ok(Slot::Eye)
    } else if str_eq(pos, "face") {
        Ok(Slot::Face)
    } else if str_eq(pos, "right_hand") {
        if add { Ok(Slot::Hand1) } else { Ok(Slot::Hand2) }
    } else if str_eq(pos, "head") {
        Ok(Slot::Hat)
    } else if str_eq(pos, "hair") {
        Ok(Slot::Helmet)
    } else if str_eq(pos, "back2") {
        Ok(Slot::LeftBack)
    } else if str_eq(pos, "mouth") {
        if add { Ok(Slot::Mouth1) } else { Ok(Slot::Mouth2) }
    } else if str_eq(pos, "ribborn") {
        Ok(Slot::Neckwear)
    } else if str_eq(pos, "back") {
        Ok(Slot::RightBack)
    } else if str_eq(pos, "headback") {
        Ok(Slot::Special)
    } else {
        Err("invalid slot type".to_owned())
    }
}

/// The position of the first `c` in `s`, or -1.
pub open spec fn first_index_of(s: Seq<char>, c: char) -> int
    decreases s.len(),
{
    if s.len() == 0 {
        -1
    } else if s[0] == c {
        0
    } else if first_index_of(s.skip(1), c) < 0 {
        -1
    } else {
        first_index_of(s.skip(1), c) + 1
    }
}

/// The position of the last `c` in `s`, or -1.
pub open spec fn last_index_of(s: Seq<char>, c: char) -> int
    decreases s.len(),
{
    if s.len() == 0 {
        -1
    } else if s.last() == c {
        s.len() - 1
    } else {
        last_index_of(s.drop_last(), c)
    }
}

/// Whether `s` holds `##`.
pub open spec fn has_double_hash(s: Seq<char>) -> bool {
    exists|i: int| 0 <= i < s.len() - 1 && s[i] == '#' && #[trigger] s[i + 1] == '#'
}

/// The text of a story line: what lies between its first `{` and its last `}` when it has
/// both, else all of it.
pub open spec fn story_text(s: Seq<char>) -> Seq<char> {
    let a = first_index_of(s, '{');
    let b = last_index_of(s, '}');
    if a >= 0 && b >= 0 {
        s.subrange(a + 1, b)
    } else {
        s
    }
}

/// A story line written as a raw string literal, with as many `#` as its text needs.
pub open spec fn story_literal(s: Seq<char>) -> Seq<char> {
    let x = story_text(s);
    if !x.contains('"') {
        seq!['r', '"'] + x + seq!['"']
    } else if has_double_hash(x) {
        seq!['r', '#', '#', '#', '"'] + x + seq!['"', '#', '#', '#']
    } else if x.contains('#') {
        seq!['r', '#', '#', '"'] + x + seq!['"', '#', '#']
    } else {
        seq!['r', '#', '"'] + x + seq!['"', '#']
    }
}

/// Whether a story line that has both braces has its first `{` before its last `}`, as the
/// game's files always do.
pub open spec fn braces_in_order(s: Seq<char>) -> bool {
    first_index_of(s, '{') >= 0 && last_index_of(s, '}') >= 0 ==> first_index_of(s, '{') < last_index_of(s, '}')
}

proof fn lemma_first_index_of(s: Seq<char>, c: char, i: int)
    requires
        0 <= i < s.len(),
        s[i] == c,
        forall|j: int| 0 <= j < i ==> s[j] != c,
    ensures
        first_index_of(s, c) == i,
    decreases i,
{
    if i > 0 {
        lemma_first_index_of(s.skip(1), c, i - 1);
    }
}

proof fn lemma_first_index_absent(s: Seq<char>, c: char)
    requires
        forall|j: int| 0 <= j < s.len() ==> s[j] != c,
    ensures
        first_index_of(s, c) == -1,
    decreases s.len(),
{
    if s.len() > 0 {
        lemma_first_index_absent(s.skip(1), c);
    }
}

proof fn lemma_last_index_of(s: Seq<char>, c: char, i: int)
    requires
        -1 <= i < s.len(),
        i >= 0 ==> s[i] == c,
        forall|j: int| i < j < s.len() ==> s[j] != c,
    ensures
        last_index_of(s, c) == i,
    decreases s.len(),
{
    if s.len() > 0 && i < s.len() - 1 {
        lemma_last_index_of(s.drop_last(), c, i);
    }
}

/// Whether `chars[lo..hi]` holds `c`.
fn holds_char(chars: &Vec<char>, lo: usize, hi: usize, c: char) -> (b: bool)
    requires
        lo <= hi <= chars.len(),
    ensures
        b == chars@.subrange(lo as int, hi as int).contains(c),
{
    let mut i = lo;
    while i < hi
        invariant
            lo <= i <= hi <= chars.len(),
            forall|k: int| lo <= k < i ==> chars@[k] != c,
        decreases hi - i,
    {
        if chars[i] == c {
            assert(chars@.subrange(lo as int, hi as int)[i - lo] == c);
            return true;
        }
        i = i + 1;
    }
    proof {
        if chars@.subrange(lo as int, hi as int).contains(c) {
            let k = choose|k: int| 0 <= k < hi - lo && chars@.subrange(lo as int, hi as int)[k] == c;
            assert(chars@[lo + k] == c);
        }
    }
    false
}

/// Whether `chars[lo..hi]` holds `##`.
fn holds_double_hash(chars: &Vec<char>, lo: usize, hi: usize) -> (b: bool)
    requires
        lo <= hi <= chars.len(),
    ensures
        b == has_double_hash(chars@.subrange(lo as int, hi as int)),
{
    let ghost x = chars@.subrange(lo as int, hi as int);
    let mut i = lo;
    while hi - i > 1
        invariant
            lo <= i <= hi <= chars.len(),
            x == chars@.subrange(lo as int, hi as int),
            forall|k: int| lo <= k < i && k + 1 < hi ==> !(#[trigger] chars@[k] == '#' && chars@[k + 1] == '#'),
        decreases hi - i,
    {
        if chars[i] == '#' && chars[i + 1] == '#' {
            assert(x[i - lo] == '#' && x[i - lo + 1] == '#');
            return true;
        }
        i = i + 1;
    }
    proof {
        if has_double_hash(x) {
            let k = choose|k: int| 0 <= k < x.len() - 1 && x[k] == '#' && #[trigger] x[k + 1] == '#';
            assert(chars@[lo + k] == '#' && chars@[lo + k + 1] == '#');
        }
    }
    false
}

/// Where the text of a story line lies.
fn story_bounds(chars: &Vec<char>) -> (r: (usize, usize))
    requires
        braces_in_order(chars@),
    ensures
        r.0 <= r.1 <= chars.len(),
        chars@.subrange(r.0 as int, r.1 as int) == story_text(chars@),
{
    let n = chars.len();
    let mut a: usize = 0;
    while a < n && chars[a] != '{'
        invariant
            a <= n == chars.len(),
            forall|j: int| 0 <= j < a ==> chars@[j] != '{',
        decreases n - a,
    {
        a = a + 1;
    }
    let mut b: usize = n;
    while b > 0 && chars[b - 1] != '}'
        invariant
            b <= n == chars.len(),
            forall|j: int| b <= j < n ==> chars@[j] != '}',
        decreases b,
    {
        b = b - 1;
    }
    proof {
        if a < n {
            lemma_first_index_of(chars@, '{', a as int);
        } else {
            lemma_first_index_absent(chars@, '{');
        }
        if b > 0 {
            lemma_last_index_of(chars@, '}', b - 1);
        } else {
            lemma_last_index_of(chars@, '}', -1);
        }
    }
    if a < n && b > 0 {
        (a + 1, b - 1)
    } else {
        assert(chars@.subrange(0, n as int) =~= chars@);
        (0, n)
    }
}

/// `r`, `hashes` times `#`, a quote, the text, a quote and `hashes` times `#`.
pub open spec fn raw_literal(x: Seq<char>, hashes: nat) -> Seq<char> {
    seq!['r'] + Seq::new(hashes, |_i: int| '#') + seq!['"'] + x + seq!['"'] + Seq::new(hashes, |_i: int| '#')
}

/// Appends `k` times `#`.
fn push_hashes(out: &mut Vec<char>, k: usize)
    ensures
        final(out)@ == old(out)@ + Seq::new(k as nat, |_i: int| '#'),
{
    let mut j: usize = 0;
    while j < k
        invariant
            j <= k,
            out@ == old(out)@ + Seq::new(j as nat, |_i: int| '#'),
        decreases k - j,
    {
        out.push('#');
        j = j + 1;
        assert(out@ =~= old(out)@ + Seq::new(j as nat, |_i: int| '#'));
    }
}

/// `chars[lo..hi]` as a raw string literal with `hashes` hashes.
fn raw_literal_of(chars: &Vec<char>, lo: usize, hi: usize, hashes: usize) -> (r: Vec<char>)
    requires
        lo <= hi <= chars.len(),
    ensures
        r@ == raw_literal(chars@.subrange(lo as int, hi as int), hashes as nat),
{
    let mut out: Vec<char> = Vec::new();
    out.push('r');
    push_hashes(&mut out, hashes);
    out.push('"');
    let ghost start = out@;
    let mut i = lo;
    while i < hi
        invariant
            lo <= i <= hi <= chars.len(),
            out@ == start + chars@.subrange(lo as int, i as int),
        decreases hi - i,
    {
        out.push(chars[i]);
        i = i + 1;
        assert(out@ =~= start + chars@.subrange(lo as int, i as int));
    }
    out.push('"');
    push_hashes(&mut out, hashes);
    assert(out@ =~= raw_literal(chars@.subrange(lo as int, hi as int), hashes as nat));
    out
}

proof fn lemma_raw_literals(x: Seq<char>)
    ensures
        raw_literal(x, 0) == seq!['r', '"'] + x + seq!['"'],
        raw_literal(x, 1) == seq!['r', '#', '"'] + x + seq!['"', '#'],
        raw_literal(x, 2) == seq!['r', '#', '#', '"'] + x + seq!['"', '#', '#'],
        raw_literal(x, 3) == seq!['r', '#', '#', '#', '"'] + x + seq!['"', '#', '#', '#'],
{
    assert(raw_literal(x, 0) =~= seq!['r', '"'] + x + seq!['"']);
    assert(raw_literal(x, 1) =~= seq!['r', '#', '"'] + x + seq!['"', '#']);
    assert(raw_literal(x, 2) =~= seq!['r', '#', '#', '"'] + x + seq!['"', '#', '#']);
    assert(raw_literal(x, 3) =~= seq!['r', '#', '#', '#', '"'] + x + seq!['"', '#', '#', '#']);
}

/// Writes a story line of the game's files as a raw string literal.
pub fn format_story_data(s: &str) -> (r: String)
    requires
        braces_in_order(s@),
    ensures
        r@ == story_literal(s@),
{
    let chars = chars_of(s);
    let (lo, hi) = story_bounds(&chars);
    let ghost x = chars@.subrange(lo as int, hi as int);
    let hashes: usize = if !holds_char(&chars, lo, hi, '"') {
        0
    } else if holds_double_hash(&chars, lo, hi) {
        3
    } else if holds_char(&chars, lo, hi, '#') {
        2
    } else {
        1
    };
    let out = raw_literal_of(&chars, lo, hi, hashes);
    proof {
        lemma_raw_literals(x);
    }
    string_of(&out)
}

/// The name a tool type is written by in source text.
pub open spec fn tool_type_variant(t: ToolType) -> Seq<char> {
    match t {
        ToolType::Equippable => "Equippable"@,
        ToolType::SustainedUse => "SustainedUse"@,
        ToolType::SingleUse => "SingleUse"@,
    }
}

/// The name a tool type is written by in source text.
fn tool_type_variant_str(t: &ToolType) -> (s: &'static str)
    ensures
        s@ == tool_type_variant(*t),
{
    match t {
        ToolType::Equippable => "Equippable",
        ToolType::SustainedUse => "SustainedUse",
        ToolType::SingleUse => "SingleUse",
    }
}

/// The source text of a tool abnormality's encyclopedia entry.
pub open spec fn tool_info_source(id: u32, risk: RiskLevel, tool_type: ToolType, image: Seq<char>) -> Seq<char> {
    "EncyclopediaInfo::Tool(ToolInfo {\n        id: "@ + digits(id as nat, 10) + ",\n        risk: RiskLevel::"@
        + risk_level_name(risk) + ",\n        tool_type: ToolType::"@ + tool_type_variant(tool_type)
        + ",\n        image: \""@ + image + "\"\n    })"@
}

/// Writes the source text of a tool abnormality's encyclopedia entry; an abnormality
/// without an image gets an empty one.
pub fn write_tool_info(list_entry: &ListEntry, partial_encyclopedia_info: &PartialToolInfo) -> (s: String)
    ensures
        s@ == tool_info_source(
            list_entry.id,
            partial_encyclopedia_info.risk,
            partial_encyclopedia_info.tool_type,
            match partial_encyclopedia_info.image {
                Some(i) => i@,
                None => Seq::empty(),
            },
        ),
{
    let mut out: Vec<char> = Vec::new();
    append_str(&mut out, "EncyclopediaInfo::Tool(ToolInfo {\n        id: ");
    append_str(&mut out, u64_to_decimal(list_entry.id as u64).as_str());
    append_str(&mut out, ",\n        risk: RiskLevel::");
    append_str(&mut out, partial_encyclopedia_info.risk.to_string().as_str());
    append_str(&mut out, ",\n        tool_type: ToolType::");
    append_str(&mut out, tool_type_variant_str(&partial_encyclopedia_info.tool_type));
    append_str(&mut out, ",\n        image: \"");
    match &partial_encyclopedia_info.image {
        Some(i) => append_str(&mut out, i.as_str()),
        None => {},
    }
    append_str(&mut out, "\"\n    })");
    proof {
        if partial_encyclopedia_info.image is None {
            assert(out@ =~= tool_info_source(
                list_entry.id,
                partial_encyclopedia_info.risk,
                partial_encyclopedia_info.tool_type,
                Seq::empty(),
            ));
        }
    }
    string_of(&out)
}

/// The position of the first entry of a table whose key is `key`, or -1.
pub open spec fn first_key_index<V>(table: Seq<(String, V)>, key: Seq<char>) -> int
    decreases table.len(),
{
    if table.len() == 0 {
        -1
    } else if table[0].0@ == key {
        0
    } else if first_key_index(table.skip(1), key) < 0 {
        -1
    } else {
        first_key_index(table.skip(1), key) + 1
    }
}

proof fn lemma_first_key_index<V>(table: Seq<(String, V)>, key: Seq<char>, i: int)
    requires
        -1 <= i <= table.len(),
        0 <= i < table.len() ==> table[i].0@ == key,
        forall|j: int| 0 <= j < (if i < 0 { table.len() as int } else { i }) ==> table[j].0@ != key,
    ensures
        first_key_index(table, key) == (if i == table.len() { -1 } else { i }),
    decreases table.len(),
{
    if table.len() > 0 {
        if i != 0 {
            let next = if i < 0 || i == table.len() { i } else { i - 1 };
            let next = if i == table.len() { table.len() - 1 } else { next };
            assert forall|j: int| 0 <= j < (if next < 0 { table.len() - 1 } else { next }) implies table.skip(1)[j].0@ != key by {
                assert(table.skip(1)[j] == table[j + 1]);
            }
            lemma_first_key_index(table.skip(1), key, next);
        }
    }
}

/// The value of the first entry of a table whose key is `key`.
fn find_by_key<'a, V>(table: &'a [(String, V)], key: &str) -> (r: Option<&'a V>)
    ensures
        match r {
            Some(v) => first_key_index(table@, key@) >= 0 && *v == table@[first_key_index(table@, key@)].1,
            None => first_key_index(table@, key@) == -1,
        },
{
    let mut i: usize = 0;
    while i < table.len()
        invariant
            i <= table.len(),
            forall|j: int| 0 <= j < i ==> table@[j].0@ != key@,
        decreases table.len() - i,
    {
        if str_eq(table[i].0.as_str(), key) {
            proof {
                lemma_first_key_index(table@, key@, i as int);
            }
            return Some(&table[i].1);
        }
        i = i + 1;
    }
    proof {
        lemma_first_key_index(table@, key@, table@.len() as int);
    }
    None
}

/// The localized text of a key in the table of localized texts, whose entries are keyed by
/// `<text id>#<language>`.
pub fn get_localization<'a>(table: &'a [(String, String)], key: &LocalizationKey) -> (r: Option<&'a String>)
    ensures
        match r {
            Some(v) => first_key_index(table@, key.0@.push('#') + locale_variant_name(key.1)) >= 0 && *v
                == table@[first_key_index(table@, key.0@.push('#') + locale_variant_name(key.1))].1,
            None => first_key_index(table@, key.0@.push('#') + locale_variant_name(key.1)) == -1,
        },
{
    let k = localization_lookup_key(key.0, &key.1);
    find_by_key(table, k.as_str())
}

/// An abnormality's texts in a language, from the table of them, whose entries are keyed
/// by `<id>#<language>`.
pub fn get_abno_localization<'a, 'b>(
    table: &'a [(String, EncyclopediaInfoLocalization<'b>)],
    id: &u32,
    locale: &Locale,
) -> (r: Option<&'a EncyclopediaInfoLocalization<'b>>)
    ensures
        match r {
            Some(v) => first_key_index(table@, digits(*id as nat, 10).push('#') + locale_variant_name(*locale)) >= 0
                && *v == table@[first_key_index(table@, digits(*id as nat, 10).push('#') + locale_variant_name(*locale))].1,
            None => first_key_index(table@, digits(*id as nat, 10).push('#') + locale_variant_name(*locale)) == -1,
        },
{
    let id_text = u64_to_decimal(*id as u64);
    let k = localization_lookup_key(id_text.as_str(), locale);
    find_by_key(table, k.as_str())
}

/// The ids of the encyclopedia's entries, in the order of its table: each once, and exactly
/// the ids that `get_encyclopedia_info` finds an entry for.
pub fn get_all_encyclopedia_ids<T>(table: &[(u32, T)]) -> (ids: Vec<u32>)
    requires
        ids_distinct(table@),
    ensures
        ids@ == table_ids(table@),
        ids@.no_duplicates(),
        forall|y: u32| #[trigger] ids@.contains(y) <==> first_id_index(table@, y) >= 0,
{
    let mut ids: Vec<u32> = Vec::new();
    let mut i: usize = 0;
    while i < table.len()
        invariant
            i <= table.len(),
            ids@ == table@.take(i as int).map_values(|e: (u32, T)| e.0),
        decreases table.len() - i,
    {
        ids.push(table[i].0);
        i = i + 1;
        assert(ids@ =~= table@.take(i as int).map_values(|e: (u32, T)| e.0));
    }
    assert(table@.take(table.len() as int) == table@);
    assert(ids@ == table_ids(table@));
    proof {
        lemma_encyclopedia_ids_are_the_keys(table@);
        assert forall|y: u32| #[trigger] ids@.contains(y) <==> first_id_index(table@, y) >= 0 by {
            assert(table_ids(table@).contains(y) <==> first_id_index(table@, y) >= 0);
        }
    }
    ids
}


/// The index of the first entry of `table` with the id `id`, or -1.
pub open spec fn first_id_index<T>(table: Seq<(u32, T)>, id: u32) -> int
    decreases table.len(),
{
    if table.len() == 0 {
        -1
    } else {
        let rest = first_id_index(table.drop_last(), id);
        if rest >= 0 {
            rest
        } else if table.last().0 == id {
            table.len() - 1
        } else {
            -1
        }
    }
}

/// The encyclopedia's entry with the id `id`, from the table of entries: the one entry with
/// that id, or none when no entry has it.
pub fn get_encyclopedia_info<'a, T>(table: &'a [(u32, T)], id: &u32) -> (r: Option<&'a T>)
    requires
        ids_distinct(table@),
    ensures
        match r {
            Some(v) => first_id_index(table@, *id) >= 0 && *v == table@[first_id_index(table@, *id)].1,
            None => first_id_index(table@, *id) == -1,
        },
        r is Some <==> exists|k: int| 0 <= k < table@.len() && #[trigger] table@[k].0 == *id,
        forall|k: int| 0 <= k < table@.len() && #[trigger] table@[k].0 == *id ==> r == Some(&table@[k].1),
{
    let r = find_entry(table, id);
    proof {
        lemma_first_id_index_found(table@, *id);
        assert forall|k: int| 0 <= k < table@.len() && #[trigger] table@[k].0 == *id implies r == Some(&table@[k].1) by {
            let f = first_id_index(table@, *id);
            if f != k {
                if f < k {
                    assert(table@[f].0 != table@[k].0);
                } else {
                    assert(table@[k].0 != table@[f].0);
                }
            }
        }
    }
    r
}

/// The first entry of the table with the id `id`.
fn find_entry<'a, T>(table: &'a [(u32, T)], id: &u32) -> (r: Option<&'a T>)
    ensures
        match r {
            Some(v) => first_id_index(table@, *id) >= 0 && *v == table@[first_id_index(table@, *id)].1,
            None => first_id_index(table@, *id) == -1,
        },
{
    let mut i: usize = 0;
    while i < table.len()
        invariant
            i <= table.len(),
            first_id_index(table@.take(i as int), *id) == -1,
        decreases table.len() - i,
    {
        assert(table@.take(i + 1).drop_last() =~= table@.take(i as int));
        if table[i].0 == *id {
            proof {
                lemma_first_id_prefix(table@, i + 1, *id);
            }
            return Some(&table[i].1);
        }
        i = i + 1;
    }
    assert(table@.take(table.len() as int) =~= table@);
    None
}

/// A match in a prefix of the table is the table's first match.
proof fn lemma_first_id_prefix<T>(table: Seq<(u32, T)>, k: int, id: u32)
    requires
        0 <= k <= table.len(),
        first_id_index(table.take(k), id) >= 0,
    ensures
        first_id_index(table, id) == first_id_index(table.take(k), id),
    decreases table.len() - k,
{
    if k < table.len() {
        assert(table.take(k + 1).drop_last() =~= table.take(k));
        lemma_first_id_prefix(table, k + 1, id);
    } else {
        assert(table.take(k) =~= table);
    }
}


/// The ids of a table, in order.
pub open spec fn table_ids<T>(table: Seq<(u32, T)>) -> Seq<u32> {
    table.map_values(|e: (u32, T)| e.0)
}

/// Whether the ids of a table are all different, as the keys of a map are.
pub open spec fn ids_distinct<T>(table: Seq<(u32, T)>) -> bool {
    forall|a: int, b: int| 0 <= a < b < table.len() ==> table[a].0 != table[b].0
}

proof fn lemma_first_id_index_found<T>(table: Seq<(u32, T)>, y: u32)
    ensures
        first_id_index(table, y) >= 0 <==> exists|k: int| 0 <= k < table.len() && table[k].0 == y,
        first_id_index(table, y) < table.len(),
        first_id_index(table, y) >= 0 ==> table[first_id_index(table, y)].0 == y,
    decreases table.len(),
{
    if table.len() > 0 {
        let p = table.drop_last();
        lemma_first_id_index_found(p, y);
        if exists|k: int| 0 <= k < p.len() && p[k].0 == y {
            let k = choose|k: int| 0 <= k < p.len() && p[k].0 == y;
            assert(table[k].0 == y);
        }
        if exists|k: int| 0 <= k < table.len() && table[k].0 == y {
            let k = choose|k: int| 0 <= k < table.len() && table[k].0 == y;
            if k < p.len() {
                assert(p[k].0 == y);
            }
        }
    }
}

/// In a table whose ids are distinct, as the encyclopedia's are, the list of ids has no
/// repeats and holds exactly the ids that a lookup finds.
pub proof fn lemma_encyclopedia_ids_are_the_keys<T>(table: Seq<(u32, T)>)
    requires
        ids_distinct(table),
    ensures
        forall|a: int, b: int| 0 <= a < b < table.len() ==> #[trigger] table_ids(table)[a] != #[trigger] table_ids(table)[b],
        forall|y: u32| #[trigger] table_ids(table).contains(y) <==> first_id_index(table, y) >= 0,
{
    let ids = table_ids(table);
    assert forall|y: u32| #[trigger] ids.contains(y) <==> first_id_index(table, y) >= 0 by {
        lemma_first_id_index_found(table, y);
        if ids.contains(y) {
            let k = choose|k: int| 0 <= k < ids.len() && ids[k] == y;
            assert(table[k].0 == y);
        }
        if first_id_index(table, y) >= 0 {
            let k = first_id_index(table, y);
            assert(ids[k] == y);
        }
    }
}

} // verus!
