//! The romaji rule table: which keystroke sequence types which kana.
//!
//! Keys are lowercase ASCII; outputs are never ASCII, so an ASCII
//! character in converted text is always a keystroke that passed through.
//! The `,` `.` `/` `[` `]` keys type what the [`SymbolStyle`] picks.

use vstd::prelude::*;

use crate::romaji::style::{spec_close, spec_comma, spec_open, spec_period, spec_slash, SymbolStyle};
use crate::text::chars_of;

verus! {

/// One conversion rule: typing `key` produces `output`.
#[derive(Debug, Clone)]
pub struct Rule {
    pub key: Vec<char>,
    pub output: Vec<char>,
}

/// A rule as plain values: its key and its output.
pub type RuleView = (Seq<char>, Seq<char>);

/// The rule as plain values.
pub open spec fn rule_view(r: Rule) -> RuleView {
    (r.key@, r.output@)
}

/// A rule table as plain values.
pub open spec fn rule_views(rules: Seq<Rule>) -> Seq<RuleView> {
    rules.map_values(|r: Rule| rule_view(r))
}

fn push_rule(rules: &mut Vec<Rule>, key: &str, output: &str)
    ensures
        rule_views(final(rules)@) == rule_views(old(rules)@).push((key@, output@)),
{
    let ghost before = rules@;
    let r = Rule { key: chars_of(key), output: chars_of(output) };
    rules.push(r);
    assert(rule_views(rules@) =~= rule_views(before).push((key@, output@)));
}

fn push_rule_char(rules: &mut Vec<Rule>, key: char, output: char)
    ensures
        rule_views(final(rules)@) == rule_views(old(rules)@).push((seq![key], seq![output])),
{
    let ghost before = rules@;
    let mut k: Vec<char> = Vec::new();
    k.push(key);
    let mut o: Vec<char> = Vec::new();
    o.push(output);
    let r = Rule { key: k, output: o };
    rules.push(r);
    assert(rule_views(rules@) =~= rule_views(before).push((seq![key], seq![output])));
}

/// The plain syllables: vowels and consonant + vowel (`ka` → か).
pub open spec fn basic_rules(s: Seq<RuleView>) -> Seq<RuleView> {
    s
        .push(("a"@, "あ"@))
        .push(("i"@, "い"@))
        .push(("u"@, "う"@))
        .push(("e"@, "え"@))
        .push(("o"@, "お"@))
        .push(("ka"@, "か"@))
        .push(("ki"@, "き"@))
        .push(("ku"@, "く"@))
        .push(("ke"@, "け"@))
        .push(("ko"@, "こ"@))
        .push(("ga"@, "が"@))
        .push(("gi"@, "ぎ"@))
        .push(("gu"@, "ぐ"@))
        .push(("ge"@, "げ"@))
        .push(("go"@, "ご"@))
        .push(("sa"@, "さ"@))
        .push(("si"@, "し"@))
        .push(("su"@, "す"@))
        .push(("se"@, "せ"@))
        .push(("so"@, "そ"@))
        .push(("za"@, "ざ"@))
        .push(("zi"@, "じ"@))
        .push(("zu"@, "ず"@))
        .push(("ze"@, "ぜ"@))
        .push(("zo"@, "ぞ"@))
        .push(("ta"@, "た"@))
        .push(("ti"@, "ち"@))
        .push(("tu"@, "つ"@))
        .push(("te"@, "て"@))
        .push(("to"@, "と"@))
        .push(("da"@, "だ"@))
        .push(("di"@, "ぢ"@))
        .push(("du"@, "づ"@))
        .push(("de"@, "で"@))
        .push(("do"@, "ど"@))
        .push(("na"@, "な"@))
        .push(("ni"@, "に"@))
        .push(("nu"@, "ぬ"@))
        .push(("ne"@, "ね"@))
        .push(("no"@, "の"@))
        .push(("ha"@, "は"@))
        .push(("hi"@, "ひ"@))
        .push(("hu"@, "ふ"@))
        .push(("he"@, "へ"@))
        .push(("ho"@, "ほ"@))
        .push(("ba"@, "ば"@))
        .push(("bi"@, "び"@))
        .push(("bu"@, "ぶ"@))
        .push(("be"@, "べ"@))
        .push(("bo"@, "ぼ"@))
        .push(("pa"@, "ぱ"@))
        .push(("pi"@, "ぴ"@))
        .push(("pu"@, "ぷ"@))
        .push(("pe"@, "ぺ"@))
        .push(("po"@, "ぽ"@))
        .push(("ma"@, "ま"@))
        .push(("mi"@, "み"@))
        .push(("mu"@, "む"@))
        .push(("me"@, "め"@))
        .push(("mo"@, "も"@))
        .push(("ra"@, "ら"@))
        .push(("ri"@, "り"@))
        .push(("ru"@, "る"@))
        .push(("re"@, "れ"@))
        .push(("ro"@, "ろ"@))
}

fn push_basic_rules(rules: &mut Vec<Rule>)
    ensures
        rule_views(final(rules)@) == basic_rules(rule_views(old(rules)@)),
{
    push_rule(rules, "a", "あ");
    push_rule(rules, "i", "い");
    push_rule(rules, "u", "う");
    push_rule(rules, "e", "え");
    push_rule(rules, "o", "お");
    push_rule(rules, "ka", "か");
    push_rule(rules, "ki", "き");
    push_rule(rules, "ku", "く");
    push_rule(rules, "ke", "け");
    push_rule(rules, "ko", "こ");
    push_rule(rules, "ga", "が");
    push_rule(rules, "gi", "ぎ");
    push_rule(rules, "gu", "ぐ");
    push_rule(rules, "ge", "げ");
    push_rule(rules, "go", "ご");
    push_rule(rules, "sa", "さ");
    push_rule(rules, "si", "し");
    push_rule(rules, "su", "す");
    push_rule(rules, "se", "せ");
    push_rule(rules, "so", "そ");
    push_rule(rules, "za", "ざ");
    push_rule(rules, "zi", "じ");
    push_rule(rules, "zu", "ず");
    push_rule(rules, "ze", "ぜ");
    push_rule(rules, "zo", "ぞ");
    push_rule(rules, "ta", "た");
    push_rule(rules, "ti", "ち");
    push_rule(rules, "tu", "つ");
    push_rule(rules, "te", "て");
    push_rule(rules, "to", "と");
    push_rule(rules, "da", "だ");
    push_rule(rules, "di", "ぢ");
    push_rule(rules, "du", "づ");
    push_rule(rules, "de", "で");
    push_rule(rules, "do", "ど");
    push_rule(rules, "na", "な");
    push_rule(rules, "ni", "に");
    push_rule(rules, "nu", "ぬ");
    push_rule(rules, "ne", "ね");
    push_rule(rules, "no", "の");
    push_rule(rules, "ha", "は");
    push_rule(rules, "hi", "ひ");
    push_rule(rules, "hu", "ふ");
    push_rule(rules, "he", "へ");
    push_rule(rules, "ho", "ほ");
    push_rule(rules, "ba", "ば");
    push_rule(rules, "bi", "び");
    push_rule(rules, "bu", "ぶ");
    push_rule(rules, "be", "べ");
    push_rule(rules, "bo", "ぼ");
    push_rule(rules, "pa", "ぱ");
    push_rule(rules, "pi", "ぴ");
    push_rule(rules, "pu", "ぷ");
    push_rule(rules, "pe", "ぺ");
    push_rule(rules, "po", "ぽ");
    push_rule(rules, "ma", "ま");
    push_rule(rules, "mi", "み");
    push_rule(rules, "mu", "む");
    push_rule(rules, "me", "め");
    push_rule(rules, "mo", "も");
    push_rule(rules, "ra", "ら");
    push_rule(rules, "ri", "り");
    push_rule(rules, "ru", "る");
    push_rule(rules, "re", "れ");
    push_rule(rules, "ro", "ろ");
}

/// Contracted syllables with a small ゃ/ゅ/ょ (`kya` → きゃ).
pub open spec fn contracted_rules(s: Seq<RuleView>) -> Seq<RuleView> {
    s
        .push(("kya"@, "きゃ"@))
        .push(("kyi"@, "きぃ"@))
        .push(("kyu"@, "きゅ"@))
        .push(("kye"@, "きぇ"@))
        .push(("kyo"@, "きょ"@))
        .push(("gya"@, "ぎゃ"@))
        .push(("gyi"@, "ぎぃ"@))
        .push(("gyu"@, "ぎゅ"@))
        .push(("gye"@, "ぎぇ"@))
        .push(("gyo"@, "ぎょ"@))
        .push(("sya"@, "しゃ"@))
        .push(("syi"@, "しぃ"@))
        .push(("syu"@, "しゅ"@))
        .push(("sye"@, "しぇ"@))
        .push(("syo"@, "しょ"@))
        .push(("zya"@, "じゃ"@))
        .push(("zyi"@, "じぃ"@))
        .push(("zyu"@, "じゅ"@))
        .push(("zye"@, "じぇ"@))
        .push(("zyo"@, "じょ"@))
        .push(("jya"@, "じゃ"@))
        .push(("jyi"@, "じぃ"@))
        .push(("jyu"@, "じゅ"@))
        .push(("jye"@, "じぇ"@))
        .push(("jyo"@, "じょ"@))
        .push(("tya"@, "ちゃ"@))
        .push(("tyi"@, "ちぃ"@))
        .push(("tyu"@, "ちゅ"@))
        .push(("tye"@, "ちぇ"@))
        .push(("tyo"@, "ちょ"@))
        .push(("cya"@, "ちゃ"@))
        .push(("cyi"@, "ちぃ"@))
        .push(("cyu"@, "ちゅ"@))
        .push(("cye"@, "ちぇ"@))
        .push(("cyo"@, "ちょ"@))
        .push(("dya"@, "ぢゃ"@))
        .push(("dyi"@, "ぢぃ"@))
        .push(("dyu"@, "ぢゅ"@))
        .push(("dye"@, "ぢぇ"@))
        .push(("dyo"@, "ぢょ"@))
        .push(("nya"@, "にゃ"@))
        .push(("nyi"@, "にぃ"@))
        .push(("nyu"@, "にゅ"@))
        .push(("nye"@, "にぇ"@))
        .push(("nyo"@, "にょ"@))
        .push(("hya"@, "ひゃ"@))
        .push(("hyi"@, "ひぃ"@))
        .push(("hyu"@, "ひゅ"@))
        .push(("hye"@, "ひぇ"@))
        .push(("hyo"@, "ひょ"@))
        .push(("bya"@, "びゃ"@))
        .push(("byi"@, "びぃ"@))
        .push(("byu"@, "びゅ"@))
        .push(("bye"@, "びぇ"@))
        .push(("byo"@, "びょ"@))
        .push(("pya"@, "ぴゃ"@))
        .push(("pyi"@, "ぴぃ"@))
        .push(("pyu"@, "ぴゅ"@))
        .push(("pye"@, "ぴぇ"@))
        .push(("pyo"@, "ぴょ"@))
        .push(("mya"@, "みゃ"@))
        .push(("myi"@, "みぃ"@))
        .push(("myu"@, "みゅ"@))
        .push(("mye"@, "みぇ"@))
        .push(("myo"@, "みょ"@))
        .push(("rya"@, "りゃ"@))
        .push(("ryi"@, "りぃ"@))
        .push(("ryu"@, "りゅ"@))
        .push(("rye"@, "りぇ"@))
        .push(("ryo"@, "りょ"@))
}

fn push_contracted_rules(rules: &mut Vec<Rule>)
    ensures
        rule_views(final(rules)@) == contracted_rules(rule_views(old(rules)@)),
{
    push_rule(rules, "kya", "きゃ");
    push_rule(rules, "kyi", "きぃ");
    push_rule(rules, "kyu", "きゅ");
    push_rule(rules, "kye", "きぇ");
    push_rule(rules, "kyo", "きょ");
    push_rule(rules, "gya", "ぎゃ");
    push_rule(rules, "gyi", "ぎぃ");
    push_rule(rules, "gyu", "ぎゅ");
    push_rule(rules, "gye", "ぎぇ");
    push_rule(rules, "gyo", "ぎょ");
    push_rule(rules, "sya", "しゃ");
    push_rule(rules, "syi", "しぃ");
    push_rule(rules, "syu", "しゅ");
    push_rule(rules, "sye", "しぇ");
    push_rule(rules, "syo", "しょ");
    push_rule(rules, "zya", "じゃ");
    push_rule(rules, "zyi", "じぃ");
    push_rule(rules, "zyu", "じゅ");
    push_rule(rules, "zye", "じぇ");
    push_rule(rules, "zyo", "じょ");
    push_rule(rules, "jya", "じゃ");
    push_rule(rules, "jyi", "じぃ");
    push_rule(rules, "jyu", "じゅ");
    push_rule(rules, "jye", "じぇ");
    push_rule(rules, "jyo", "じょ");
    push_rule(rules, "tya", "ちゃ");
    push_rule(rules, "tyi", "ちぃ");
    push_rule(rules, "tyu", "ちゅ");
    push_rule(rules, "tye", "ちぇ");
    push_rule(rules, "tyo", "ちょ");
    push_rule(rules, "cya", "ちゃ");
    push_rule(rules, "cyi", "ちぃ");
    push_rule(rules, "cyu", "ちゅ");
    push_rule(rules, "cye", "ちぇ");
    push_rule(rules, "cyo", "ちょ");
    push_rule(rules, "dya", "ぢゃ");
    push_rule(rules, "dyi", "ぢぃ");
    push_rule(rules, "dyu", "ぢゅ");
    push_rule(rules, "dye", "ぢぇ");
    push_rule(rules, "dyo", "ぢょ");
    push_rule(rules, "nya", "にゃ");
    push_rule(rules, "nyi", "にぃ");
    push_rule(rules, "nyu", "にゅ");
    push_rule(rules, "nye", "にぇ");
    push_rule(rules, "nyo", "にょ");
    push_rule(rules, "hya", "ひゃ");
    push_rule(rules, "hyi", "ひぃ");
    push_rule(rules, "hyu", "ひゅ");
    push_rule(rules, "hye", "ひぇ");
    push_rule(rules, "hyo", "ひょ");
    push_rule(rules, "bya", "びゃ");
    push_rule(rules, "byi", "びぃ");
    push_rule(rules, "byu", "びゅ");
    push_rule(rules, "bye", "びぇ");
    push_rule(rules, "byo", "びょ");
    push_rule(rules, "pya", "ぴゃ");
    push_rule(rules, "pyi", "ぴぃ");
    push_rule(rules, "pyu", "ぴゅ");
    push_rule(rules, "pye", "ぴぇ");
    push_rule(rules, "pyo", "ぴょ");
    push_rule(rules, "mya", "みゃ");
    push_rule(rules, "myi", "みぃ");
    push_rule(rules, "myu", "みゅ");
    push_rule(rules, "mye", "みぇ");
    push_rule(rules, "myo", "みょ");
    push_rule(rules, "rya", "りゃ");
    push_rule(rules, "ryi", "りぃ");
    push_rule(rules, "ryu", "りゅ");
    push_rule(rules, "rye", "りぇ");
    push_rule(rules, "ryo", "りょ");
}

/// Alternative spellings and sounds beyond the plain table (`sha` → しゃ, `fa` → ふぁ, `wi` → うぃ).
pub open spec fn extended_rules(s: Seq<RuleView>) -> Seq<RuleView> {
    s
        .push(("tha"@, "てゃ"@))
        .push(("thi"@, "てぃ"@))
        .push(("thu"@, "てゅ"@))
        .push(("the"@, "てぇ"@))
        .push(("tho"@, "てょ"@))
        .push(("dha"@, "でゃ"@))
        .push(("dhi"@, "でぃ"@))
        .push(("dhu"@, "でゅ"@))
        .push(("dhe"@, "でぇ"@))
        .push(("dho"@, "でょ"@))
        .push(("fya"@, "ふゃ"@))
        .push(("fyu"@, "ふゅ"@))
        .push(("fyo"@, "ふょ"@))
        .push(("vya"@, "ゔゃ"@))
        .push(("vyu"@, "ゔゅ"@))
        .push(("vyo"@, "ゔょ"@))
        .push(("sha"@, "しゃ"@))
        .push(("shi"@, "し"@))
        .push(("shu"@, "しゅ"@))
        .push(("she"@, "しぇ"@))
        .push(("sho"@, "しょ"@))
        .push(("ja"@, "じゃ"@))
        .push(("ji"@, "じ"@))
        .push(("ju"@, "じゅ"@))
        .push(("je"@, "じぇ"@))
        .push(("jo"@, "じょ"@))
        .push(("cha"@, "ちゃ"@))
        .push(("chi"@, "ち"@))
        .push(("chu"@, "ちゅ"@))
        .push(("che"@, "ちぇ"@))
        .push(("cho"@, "ちょ"@))
        .push(("ca"@, "か"@))
        .push(("ci"@, "し"@))
        .push(("cu"@, "く"@))
        .push(("ce"@, "せ"@))
        .push(("co"@, "こ"@))
        .push(("tsa"@, "つぁ"@))
        .push(("tsi"@, "つぃ"@))
        .push(("tsu"@, "つ"@))
        .push(("tse"@, "つぇ"@))
        .push(("tso"@, "つぉ"@))
        .push(("twa"@, "とぁ"@))
        .push(("twi"@, "とぃ"@))
        .push(("twu"@, "とぅ"@))
        .push(("twe"@, "とぇ"@))
        .push(("two"@, "とぉ"@))
        .push(("dwa"@, "どぁ"@))
        .push(("dwi"@, "どぃ"@))
        .push(("dwu"@, "どぅ"@))
        .push(("dwe"@, "どぇ"@))
        .push(("dwo"@, "どぉ"@))
        .push(("fa"@, "ふぁ"@))
        .push(("fi"@, "ふぃ"@))
        .push(("fu"@, "ふ"@))
        .push(("fe"@, "ふぇ"@))
        .push(("fo"@, "ふぉ"@))
        .push(("va"@, "ゔぁ"@))
        .push(("vi"@, "ゔぃ"@))
        .push(("vu"@, "ゔ"@))
        .push(("ve"@, "ゔぇ"@))
        .push(("vo"@, "ゔぉ"@))
        .push(("qa"@, "くぁ"@))
        .push(("qi"@, "くぃ"@))
        .push(("qu"@, "く"@))
        .push(("qe"@, "くぇ"@))
        .push(("qo"@, "くぉ"@))
        .push(("kwa"@, "くぁ"@))
        .push(("gwa"@, "ぐぁ"@))
        .push(("wha"@, "うぁ"@))
        .push(("whi"@, "うぃ"@))
        .push(("whu"@, "う"@))
        .push(("whe"@, "うぇ"@))
        .push(("who"@, "うぉ"@))
        .push(("ya"@, "や"@))
        .push(("yu"@, "ゆ"@))
        .push(("yo"@, "よ"@))
        .push(("ye"@, "いぇ"@))
        .push(("wa"@, "わ"@))
        .push(("wi"@, "うぃ"@))
        .push(("wu"@, "う"@))
        .push(("we"@, "うぇ"@))
        .push(("wo"@, "を"@))
        .push(("wyi"@, "ゐ"@))
        .push(("wye"@, "ゑ"@))
}

fn push_extended_rules(rules: &mut Vec<Rule>)
    ensures
        rule_views(final(rules)@) == extended_rules(rule_views(old(rules)@)),
{
    push_rule(rules, "tha", "てゃ");
    push_rule(rules, "thi", "てぃ");
    push_rule(rules, "thu", "てゅ");
    push_rule(rules, "the", "てぇ");
    push_rule(rules, "tho", "てょ");
    push_rule(rules, "dha", "でゃ");
    push_rule(rules, "dhi", "でぃ");
    push_rule(rules, "dhu", "でゅ");
    push_rule(rules, "dhe", "でぇ");
    push_rule(rules, "dho", "でょ");
    push_rule(rules, "fya", "ふゃ");
    push_rule(rules, "fyu", "ふゅ");
    push_rule(rules, "fyo", "ふょ");
    push_rule(rules, "vya", "ゔゃ");
    push_rule(rules, "vyu", "ゔゅ");
    push_rule(rules, "vyo", "ゔょ");
    push_rule(rules, "sha", "しゃ");
    push_rule(rules, "shi", "し");
    push_rule(rules, "shu", "しゅ");
    push_rule(rules, "she", "しぇ");
    push_rule(rules, "sho", "しょ");
    push_rule(rules, "ja", "じゃ");
    push_rule(rules, "ji", "じ");
    push_rule(rules, "ju", "じゅ");
    push_rule(rules, "je", "じぇ");
    push_rule(rules, "jo", "じょ");
    push_rule(rules, "cha", "ちゃ");
    push_rule(rules, "chi", "ち");
    push_rule(rules, "chu", "ちゅ");
    push_rule(rules, "che", "ちぇ");
    push_rule(rules, "cho", "ちょ");
    push_rule(rules, "ca", "か");
    push_rule(rules, "ci", "し");
    push_rule(rules, "cu", "く");
    push_rule(rules, "ce", "せ");
    push_rule(rules, "co", "こ");
    push_rule(rules, "tsa", "つぁ");
    push_rule(rules, "tsi", "つぃ");
    push_rule(rules, "tsu", "つ");
    push_rule(rules, "tse", "つぇ");
    push_rule(rules, "tso", "つぉ");
    push_rule(rules, "twa", "とぁ");
    push_rule(rules, "twi", "とぃ");
    push_rule(rules, "twu", "とぅ");
    push_rule(rules, "twe", "とぇ");
    push_rule(rules, "two", "とぉ");
    push_rule(rules, "dwa", "どぁ");
    push_rule(rules, "dwi", "どぃ");
    push_rule(rules, "dwu", "どぅ");
    push_rule(rules, "dwe", "どぇ");
    push_rule(rules, "dwo", "どぉ");
    push_rule(rules, "fa", "ふぁ");
    push_rule(rules, "fi", "ふぃ");
    push_rule(rules, "fu", "ふ");
    push_rule(rules, "fe", "ふぇ");
    push_rule(rules, "fo", "ふぉ");
    push_rule(rules, "va", "ゔぁ");
    push_rule(rules, "vi", "ゔぃ");
    push_rule(rules, "vu", "ゔ");
    push_rule(rules, "ve", "ゔぇ");
    push_rule(rules, "vo", "ゔぉ");
    push_rule(rules, "qa", "くぁ");
    push_rule(rules, "qi", "くぃ");
    push_rule(rules, "qu", "く");
    push_rule(rules, "qe", "くぇ");
    push_rule(rules, "qo", "くぉ");
    push_rule(rules, "kwa", "くぁ");
    push_rule(rules, "gwa", "ぐぁ");
    push_rule(rules, "wha", "うぁ");
    push_rule(rules, "whi", "うぃ");
    push_rule(rules, "whu", "う");
    push_rule(rules, "whe", "うぇ");
    push_rule(rules, "who", "うぉ");
    push_rule(rules, "ya", "や");
    push_rule(rules, "yu", "ゆ");
    push_rule(rules, "yo", "よ");
    push_rule(rules, "ye", "いぇ");
    push_rule(rules, "wa", "わ");
    push_rule(rules, "wi", "うぃ");
    push_rule(rules, "wu", "う");
    push_rule(rules, "we", "うぇ");
    push_rule(rules, "wo", "を");
    push_rule(rules, "wyi", "ゐ");
    push_rule(rules, "wye", "ゑ");
}

/// Small kana typed with an `l` or `x` prefix (`la` → ぁ, `xtu` → っ).
pub open spec fn small_kana_rules(s: Seq<RuleView>) -> Seq<RuleView> {
    s
        .push(("la"@, "ぁ"@))
        .push(("li"@, "ぃ"@))
        .push(("lu"@, "ぅ"@))
        .push(("le"@, "ぇ"@))
        .push(("lo"@, "ぉ"@))
        .push(("lya"@, "ゃ"@))
        .push(("lyu"@, "ゅ"@))
        .push(("lyo"@, "ょ"@))
        .push(("lyi"@, "ぃ"@))
        .push(("lye"@, "ぇ"@))
        .push(("ltu"@, "っ"@))
        .push(("ltsu"@, "っ"@))
        .push(("lwa"@, "ゎ"@))
        .push(("lka"@, "ヵ"@))
        .push(("lke"@, "ヶ"@))
        .push(("xa"@, "ぁ"@))
        .push(("xi"@, "ぃ"@))
        .push(("xu"@, "ぅ"@))
        .push(("xe"@, "ぇ"@))
        .push(("xo"@, "ぉ"@))
        .push(("xya"@, "ゃ"@))
        .push(("xyu"@, "ゅ"@))
        .push(("xyo"@, "ょ"@))
        .push(("xyi"@, "ぃ"@))
        .push(("xye"@, "ぇ"@))
        .push(("xtu"@, "っ"@))
        .push(("xtsu"@, "っ"@))
        .push(("xwa"@, "ゎ"@))
        .push(("xka"@, "ヵ"@))
        .push(("xke"@, "ヶ"@))
}

fn push_small_kana_rules(rules: &mut Vec<Rule>)
    ensures
        rule_views(final(rules)@) == small_kana_rules(rule_views(old(rules)@)),
{
    push_rule(rules, "la", "ぁ");
    push_rule(rules, "li", "ぃ");
    push_rule(rules, "lu", "ぅ");
    push_rule(rules, "le", "ぇ");
    push_rule(rules, "lo", "ぉ");
    push_rule(rules, "lya", "ゃ");
    push_rule(rules, "lyu", "ゅ");
    push_rule(rules, "lyo", "ょ");
    push_rule(rules, "lyi", "ぃ");
    push_rule(rules, "lye", "ぇ");
    push_rule(rules, "ltu", "っ");
    push_rule(rules, "ltsu", "っ");
    push_rule(rules, "lwa", "ゎ");
    push_rule(rules, "lka", "ヵ");
    push_rule(rules, "lke", "ヶ");
    push_rule(rules, "xa", "ぁ");
    push_rule(rules, "xi", "ぃ");
    push_rule(rules, "xu", "ぅ");
    push_rule(rules, "xe", "ぇ");
    push_rule(rules, "xo", "ぉ");
    push_rule(rules, "xya", "ゃ");
    push_rule(rules, "xyu", "ゅ");
    push_rule(rules, "xyo", "ょ");
    push_rule(rules, "xyi", "ぃ");
    push_rule(rules, "xye", "ぇ");
    push_rule(rules, "xtu", "っ");
    push_rule(rules, "xtsu", "っ");
    push_rule(rules, "xwa", "ゎ");
    push_rule(rules, "xka", "ヵ");
    push_rule(rules, "xke", "ヶ");
}

/// ん, the long-vowel mark, and the fixed symbols (`z/` → ・).
pub open spec fn mark_rules(s: Seq<RuleView>) -> Seq<RuleView> {
    s
        .push(("nn"@, "ん"@))
        .push(("n\'"@, "ん"@))
        .push(("xn"@, "ん"@))
        .push(("-"@, "ー"@))
        .push(("~"@, "〜"@))
        .push(("?"@, "？"@))
        .push(("!"@, "！"@))
        .push(("z,"@, "‥"@))
        .push(("z."@, "…"@))
        .push(("z/"@, "・"@))
        .push(("z-"@, "〜"@))
        .push(("zh"@, "←"@))
        .push(("zj"@, "↓"@))
        .push(("zk"@, "↑"@))
        .push(("zl"@, "→"@))
        .push(("z["@, "『"@))
        .push(("z]"@, "』"@))
}

fn push_mark_rules(rules: &mut Vec<Rule>)
    ensures
        rule_views(final(rules)@) == mark_rules(rule_views(old(rules)@)),
{
    push_rule(rules, "nn", "ん");
    push_rule(rules, "n\'", "ん");
    push_rule(rules, "xn", "ん");
    push_rule(rules, "-", "ー");
    push_rule(rules, "~", "〜");
    push_rule(rules, "?", "？");
    push_rule(rules, "!", "！");
    push_rule(rules, "z,", "‥");
    push_rule(rules, "z.", "…");
    push_rule(rules, "z/", "・");
    push_rule(rules, "z-", "〜");
    push_rule(rules, "zh", "←");
    push_rule(rules, "zj", "↓");
    push_rule(rules, "zk", "↑");
    push_rule(rules, "zl", "→");
    push_rule(rules, "z[", "『");
    push_rule(rules, "z]", "』");
}

/// The `,` `.` `/` `[` `]` keys, typing what the style picks.
pub open spec fn style_rules(s: Seq<RuleView>, style: SymbolStyle) -> Seq<RuleView> {
    s
        .push((seq![','], seq![spec_comma(style.punctuation)]))
        .push((seq!['.'], seq![spec_period(style.punctuation)]))
        .push((seq!['/'], seq![spec_slash(style.slash)]))
        .push((seq!['['], seq![spec_open(style.bracket)]))
        .push((seq![']'], seq![spec_close(style.bracket)]))
}

/// The full rule table for a symbol style, in the order the converter
/// searches it.
pub open spec fn rule_table(style: SymbolStyle) -> Seq<RuleView> {
    style_rules(
        mark_rules(small_kana_rules(extended_rules(contracted_rules(basic_rules(Seq::empty()))))),
        style,
    )
}

/// The full rule table for a symbol style.
pub fn build_rules(style: SymbolStyle) -> (rules: Vec<Rule>)
    ensures
        rule_views(rules@) == rule_table(style),
{
    let mut rules: Vec<Rule> = Vec::new();
    assert(rule_views(rules@) =~= Seq::<RuleView>::empty());
    push_basic_rules(&mut rules);
    push_contracted_rules(&mut rules);
    push_extended_rules(&mut rules);
    push_small_kana_rules(&mut rules);
    push_mark_rules(&mut rules);
    push_rule_char(&mut rules, ',', style.punctuation.comma_char());
    push_rule_char(&mut rules, '.', style.punctuation.period_char());
    push_rule_char(&mut rules, '/', style.slash.slash_char());
    push_rule_char(&mut rules, '[', style.bracket.open_char());
    push_rule_char(&mut rules, ']', style.bracket.close_char());
    rules
}


// ---------- where an n can stand ----------

/// A key that leaves the syllabic n readable: neither a lone `n` nor `ny`,
/// and, when longer than one keystroke and starting with `n`, continuing
/// with a vowel, `y`, the apostrophe or a second `n`.
pub open spec fn regular_n_key(k: Seq<char>) -> bool {
    &&& !(k.len() == 1 && k[0] == 'n')
    &&& !(k.len() == 2 && k[0] == 'n' && k[1] == 'y')
    &&& k.len() >= 2 && k[0] == 'n' ==> (k[1] == 'a' || k[1] == 'i' || k[1] == 'u' || k[1] == 'e'
        || k[1] == 'o' || k[1] == 'y' || k[1] == '\'' || k[1] == 'n')
}

/// Every key of the table leaves the syllabic n readable.
pub open spec fn regular_n_table(t: Seq<RuleView>) -> bool {
    forall|j: int| 0 <= j < t.len() ==> regular_n_key(#[trigger] t[j].0)
}

proof fn lemma_push_regular(t: Seq<RuleView>, x: RuleView)
    requires
        regular_n_table(t),
        regular_n_key(x.0),
    ensures
        regular_n_table(t.push(x)),
{
    assert forall|j: int| 0 <= j < t.push(x).len() implies regular_n_key(#[trigger] t.push(x)[j].0) by {
        if j < t.len() {
            assert(t.push(x)[j] == t[j]);
        }
    }
}

proof fn lemma_basic_rules_regular(s: Seq<RuleView>)
    requires
        regular_n_table(s),
    ensures
        regular_n_table(basic_rules(s)),
{
    let t = s;
    reveal_strlit("a");
    lemma_push_regular(t, ("a"@, "あ"@));
    let t = t.push(("a"@, "あ"@));
    reveal_strlit("i");
    lemma_push_regular(t, ("i"@, "い"@));
    let t = t.push(("i"@, "い"@));
    reveal_strlit("u");
    lemma_push_regular(t, ("u"@, "う"@));
    let t = t.push(("u"@, "う"@));
    reveal_strlit("e");
    lemma_push_regular(t, ("e"@, "え"@));
    let t = t.push(("e"@, "え"@));
    reveal_strlit("o");
    lemma_push_regular(t, ("o"@, "お"@));
    let t = t.push(("o"@, "お"@));
    reveal_strlit("ka");
    lemma_push_regular(t, ("ka"@, "か"@));
    let t = t.push(("ka"@, "か"@));
    reveal_strlit("ki");
    lemma_push_regular(t, ("ki"@, "き"@));
    let t = t.push(("ki"@, "き"@));
    reveal_strlit("ku");
    lemma_push_regular(t, ("ku"@, "く"@));
    let t = t.push(("ku"@, "く"@));
    reveal_strlit("ke");
    lemma_push_regular(t, ("ke"@, "け"@));
    let t = t.push(("ke"@, "け"@));
    reveal_strlit("ko");
    lemma_push_regular(t, ("ko"@, "こ"@));
    let t = t.push(("ko"@, "こ"@));
    reveal_strlit("ga");
    lemma_push_regular(t, ("ga"@, "が"@));
    let t = t.push(("ga"@, "が"@));
    reveal_strlit("gi");
    lemma_push_regular(t, ("gi"@, "ぎ"@));
    let t = t.push(("gi"@, "ぎ"@));
    reveal_strlit("gu");
    lemma_push_regular(t, ("gu"@, "ぐ"@));
    let t = t.push(("gu"@, "ぐ"@));
    reveal_strlit("ge");
    lemma_push_regular(t, ("ge"@, "げ"@));
    let t = t.push(("ge"@, "げ"@));
    reveal_strlit("go");
    lemma_push_regular(t, ("go"@, "ご"@));
    let t = t.push(("go"@, "ご"@));
    reveal_strlit("sa");
    lemma_push_regular(t, ("sa"@, "さ"@));
    let t = t.push(("sa"@, "さ"@));
    reveal_strlit("si");
    lemma_push_regular(t, ("si"@, "し"@));
    let t = t.push(("si"@, "し"@));
    reveal_strlit("su");
    lemma_push_regular(t, ("su"@, "す"@));
    let t = t.push(("su"@, "す"@));
    reveal_strlit("se");
    lemma_push_regular(t, ("se"@, "せ"@));
    let t = t.push(("se"@, "せ"@));
    reveal_strlit("so");
    lemma_push_regular(t, ("so"@, "そ"@));
    let t = t.push(("so"@, "そ"@));
    reveal_strlit("za");
    lemma_push_regular(t, ("za"@, "ざ"@));
    let t = t.push(("za"@, "ざ"@));
    reveal_strlit("zi");
    lemma_push_regular(t, ("zi"@, "じ"@));
    let t = t.push(("zi"@, "じ"@));
    reveal_strlit("zu");
    lemma_push_regular(t, ("zu"@, "ず"@));
    let t = t.push(("zu"@, "ず"@));
    reveal_strlit("ze");
    lemma_push_regular(t, ("ze"@, "ぜ"@));
    let t = t.push(("ze"@, "ぜ"@));
    reveal_strlit("zo");
    lemma_push_regular(t, ("zo"@, "ぞ"@));
    let t = t.push(("zo"@, "ぞ"@));
    reveal_strlit("ta");
    lemma_push_regular(t, ("ta"@, "た"@));
    let t = t.push(("ta"@, "た"@));
    reveal_strlit("ti");
    lemma_push_regular(t, ("ti"@, "ち"@));
    let t = t.push(("ti"@, "ち"@));
    reveal_strlit("tu");
    lemma_push_regular(t, ("tu"@, "つ"@));
    let t = t.push(("tu"@, "つ"@));
    reveal_strlit("te");
    lemma_push_regular(t, ("te"@, "て"@));
    let t = t.push(("te"@, "て"@));
    reveal_strlit("to");
    lemma_push_regular(t, ("to"@, "と"@));
    let t = t.push(("to"@, "と"@));
    reveal_strlit("da");
    lemma_push_regular(t, ("da"@, "だ"@));
    let t = t.push(("da"@, "だ"@));
    reveal_strlit("di");
    lemma_push_regular(t, ("di"@, "ぢ"@));
    let t = t.push(("di"@, "ぢ"@));
    reveal_strlit("du");
    lemma_push_regular(t, ("du"@, "づ"@));
    let t = t.push(("du"@, "づ"@));
    reveal_strlit("de");
    lemma_push_regular(t, ("de"@, "で"@));
    let t = t.push(("de"@, "で"@));
    reveal_strlit("do");
    lemma_push_regular(t, ("do"@, "ど"@));
    let t = t.push(("do"@, "ど"@));
    reveal_strlit("na");
    lemma_push_regular(t, ("na"@, "な"@));
    let t = t.push(("na"@, "な"@));
    reveal_strlit("ni");
    lemma_push_regular(t, ("ni"@, "に"@));
    let t = t.push(("ni"@, "に"@));
    reveal_strlit("nu");
    lemma_push_regular(t, ("nu"@, "ぬ"@));
    let t = t.push(("nu"@, "ぬ"@));
    reveal_strlit("ne");
    lemma_push_regular(t, ("ne"@, "ね"@));
    let t = t.push(("ne"@, "ね"@));
    reveal_strlit("no");
    lemma_push_regular(t, ("no"@, "の"@));
    let t = t.push(("no"@, "の"@));
    reveal_strlit("ha");
    lemma_push_regular(t, ("ha"@, "は"@));
    let t = t.push(("ha"@, "は"@));
    reveal_strlit("hi");
    lemma_push_regular(t, ("hi"@, "ひ"@));
    let t = t.push(("hi"@, "ひ"@));
    reveal_strlit("hu");
    lemma_push_regular(t, ("hu"@, "ふ"@));
    let t = t.push(("hu"@, "ふ"@));
    reveal_strlit("he");
    lemma_push_regular(t, ("he"@, "へ"@));
    let t = t.push(("he"@, "へ"@));
    reveal_strlit("ho");
    lemma_push_regular(t, ("ho"@, "ほ"@));
    let t = t.push(("ho"@, "ほ"@));
    reveal_strlit("ba");
    lemma_push_regular(t, ("ba"@, "ば"@));
    let t = t.push(("ba"@, "ば"@));
    reveal_strlit("bi");
    lemma_push_regular(t, ("bi"@, "び"@));
    let t = t.push(("bi"@, "び"@));
    reveal_strlit("bu");
    lemma_push_regular(t, ("bu"@, "ぶ"@));
    let t = t.push(("bu"@, "ぶ"@));
    reveal_strlit("be");
    lemma_push_regular(t, ("be"@, "べ"@));
    let t = t.push(("be"@, "べ"@));
    reveal_strlit("bo");
    lemma_push_regular(t, ("bo"@, "ぼ"@));
    let t = t.push(("bo"@, "ぼ"@));
    reveal_strlit("pa");
    lemma_push_regular(t, ("pa"@, "ぱ"@));
    let t = t.push(("pa"@, "ぱ"@));
    reveal_strlit("pi");
    lemma_push_regular(t, ("pi"@, "ぴ"@));
    let t = t.push(("pi"@, "ぴ"@));
    reveal_strlit("pu");
    lemma_push_regular(t, ("pu"@, "ぷ"@));
    let t = t.push(("pu"@, "ぷ"@));
    reveal_strlit("pe");
    lemma_push_regular(t, ("pe"@, "ぺ"@));
    let t = t.push(("pe"@, "ぺ"@));
    reveal_strlit("po");
    lemma_push_regular(t, ("po"@, "ぽ"@));
    let t = t.push(("po"@, "ぽ"@));
    reveal_strlit("ma");
    lemma_push_regular(t, ("ma"@, "ま"@));
    let t = t.push(("ma"@, "ま"@));
    reveal_strlit("mi");
    lemma_push_regular(t, ("mi"@, "み"@));
    let t = t.push(("mi"@, "み"@));
    reveal_strlit("mu");
    lemma_push_regular(t, ("mu"@, "む"@));
    let t = t.push(("mu"@, "む"@));
    reveal_strlit("me");
    lemma_push_regular(t, ("me"@, "め"@));
    let t = t.push(("me"@, "め"@));
    reveal_strlit("mo");
    lemma_push_regular(t, ("mo"@, "も"@));
    let t = t.push(("mo"@, "も"@));
    reveal_strlit("ra");
    lemma_push_regular(t, ("ra"@, "ら"@));
    let t = t.push(("ra"@, "ら"@));
    reveal_strlit("ri");
    lemma_push_regular(t, ("ri"@, "り"@));
    let t = t.push(("ri"@, "り"@));
    reveal_strlit("ru");
    lemma_push_regular(t, ("ru"@, "る"@));
    let t = t.push(("ru"@, "る"@));
    reveal_strlit("re");
    lemma_push_regular(t, ("re"@, "れ"@));
    let t = t.push(("re"@, "れ"@));
    reveal_strlit("ro");
    lemma_push_regular(t, ("ro"@, "ろ"@));
    let t = t.push(("ro"@, "ろ"@));
    assert(t == basic_rules(s));
}

proof fn lemma_contracted_rules_regular(s: Seq<RuleView>)
    requires
        regular_n_table(s),
    ensures
        regular_n_table(contracted_rules(s)),
{
    let t = s;
    reveal_strlit("kya");
    lemma_push_regular(t, ("kya"@, "きゃ"@));
    let t = t.push(("kya"@, "きゃ"@));
    reveal_strlit("kyi");
    lemma_push_regular(t, ("kyi"@, "きぃ"@));
    let t = t.push(("kyi"@, "きぃ"@));
    reveal_strlit("kyu");
    lemma_push_regular(t, ("kyu"@, "きゅ"@));
    let t = t.push(("kyu"@, "きゅ"@));
    reveal_strlit("kye");
    lemma_push_regular(t, ("kye"@, "きぇ"@));
    let t = t.push(("kye"@, "きぇ"@));
    reveal_strlit("kyo");
    lemma_push_regular(t, ("kyo"@, "きょ"@));
    let t = t.push(("kyo"@, "きょ"@));
    reveal_strlit("gya");
    lemma_push_regular(t, ("gya"@, "ぎゃ"@));
    let t = t.push(("gya"@, "ぎゃ"@));
    reveal_strlit("gyi");
    lemma_push_regular(t, ("gyi"@, "ぎぃ"@));
    let t = t.push(("gyi"@, "ぎぃ"@));
    reveal_strlit("gyu");
    lemma_push_regular(t, ("gyu"@, "ぎゅ"@));
    let t = t.push(("gyu"@, "ぎゅ"@));
    reveal_strlit("gye");
    lemma_push_regular(t, ("gye"@, "ぎぇ"@));
    let t = t.push(("gye"@, "ぎぇ"@));
    reveal_strlit("gyo");
    lemma_push_regular(t, ("gyo"@, "ぎょ"@));
    let t = t.push(("gyo"@, "ぎょ"@));
    reveal_strlit("sya");
    lemma_push_regular(t, ("sya"@, "しゃ"@));
    let t = t.push(("sya"@, "しゃ"@));
    reveal_strlit("syi");
    lemma_push_regular(t, ("syi"@, "しぃ"@));
    let t = t.push(("syi"@, "しぃ"@));
    reveal_strlit("syu");
    lemma_push_regular(t, ("syu"@, "しゅ"@));
    let t = t.push(("syu"@, "しゅ"@));
    reveal_strlit("sye");
    lemma_push_regular(t, ("sye"@, "しぇ"@));
    let t = t.push(("sye"@, "しぇ"@));
    reveal_strlit("syo");
    lemma_push_regular(t, ("syo"@, "しょ"@));
    let t = t.push(("syo"@, "しょ"@));
    reveal_strlit("zya");
    lemma_push_regular(t, ("zya"@, "じゃ"@));
    let t = t.push(("zya"@, "じゃ"@));
    reveal_strlit("zyi");
    lemma_push_regular(t, ("zyi"@, "じぃ"@));
    let t = t.push(("zyi"@, "じぃ"@));
    reveal_strlit("zyu");
    lemma_push_regular(t, ("zyu"@, "じゅ"@));
    let t = t.push(("zyu"@, "じゅ"@));
    reveal_strlit("zye");
    lemma_push_regular(t, ("zye"@, "じぇ"@));
    let t = t.push(("zye"@, "じぇ"@));
    reveal_strlit("zyo");
    lemma_push_regular(t, ("zyo"@, "じょ"@));
    let t = t.push(("zyo"@, "じょ"@));
    reveal_strlit("jya");
    lemma_push_regular(t, ("jya"@, "じゃ"@));
    let t = t.push(("jya"@, "じゃ"@));
    reveal_strlit("jyi");
    lemma_push_regular(t, ("jyi"@, "じぃ"@));
    let t = t.push(("jyi"@, "じぃ"@));
    reveal_strlit("jyu");
    lemma_push_regular(t, ("jyu"@, "じゅ"@));
    let t = t.push(("jyu"@, "じゅ"@));
    reveal_strlit("jye");
    lemma_push_regular(t, ("jye"@, "じぇ"@));
    let t = t.push(("jye"@, "じぇ"@));
    reveal_strlit("jyo");
    lemma_push_regular(t, ("jyo"@, "じょ"@));
    let t = t.push(("jyo"@, "じょ"@));
    reveal_strlit("tya");
    lemma_push_regular(t, ("tya"@, "ちゃ"@));
    let t = t.push(("tya"@, "ちゃ"@));
    reveal_strlit("tyi");
    lemma_push_regular(t, ("tyi"@, "ちぃ"@));
    let t = t.push(("tyi"@, "ちぃ"@));
    reveal_strlit("tyu");
    lemma_push_regular(t, ("tyu"@, "ちゅ"@));
    let t = t.push(("tyu"@, "ちゅ"@));
    reveal_strlit("tye");
    lemma_push_regular(t, ("tye"@, "ちぇ"@));
    let t = t.push(("tye"@, "ちぇ"@));
    reveal_strlit("tyo");
    lemma_push_regular(t, ("tyo"@, "ちょ"@));
    let t = t.push(("tyo"@, "ちょ"@));
    reveal_strlit("cya");
    lemma_push_regular(t, ("cya"@, "ちゃ"@));
    let t = t.push(("cya"@, "ちゃ"@));
    reveal_strlit("cyi");
    lemma_push_regular(t, ("cyi"@, "ちぃ"@));
    let t = t.push(("cyi"@, "ちぃ"@));
    reveal_strlit("cyu");
    lemma_push_regular(t, ("cyu"@, "ちゅ"@));
    let t = t.push(("cyu"@, "ちゅ"@));
    reveal_strlit("cye");
    lemma_push_regular(t, ("cye"@, "ちぇ"@));
    let t = t.push(("cye"@, "ちぇ"@));
    reveal_strlit("cyo");
    lemma_push_regular(t, ("cyo"@, "ちょ"@));
    let t = t.push(("cyo"@, "ちょ"@));
    reveal_strlit("dya");
    lemma_push_regular(t, ("dya"@, "ぢゃ"@));
    let t = t.push(("dya"@, "ぢゃ"@));
    reveal_strlit("dyi");
    lemma_push_regular(t, ("dyi"@, "ぢぃ"@));
    let t = t.push(("dyi"@, "ぢぃ"@));
    reveal_strlit("dyu");
    lemma_push_regular(t, ("dyu"@, "ぢゅ"@));
    let t = t.push(("dyu"@, "ぢゅ"@));
    reveal_strlit("dye");
    lemma_push_regular(t, ("dye"@, "ぢぇ"@));
    let t = t.push(("dye"@, "ぢぇ"@));
    reveal_strlit("dyo");
    lemma_push_regular(t, ("dyo"@, "ぢょ"@));
    let t = t.push(("dyo"@, "ぢょ"@));
    reveal_strlit("nya");
    lemma_push_regular(t, ("nya"@, "にゃ"@));
    let t = t.push(("nya"@, "にゃ"@));
    reveal_strlit("nyi");
    lemma_push_regular(t, ("nyi"@, "にぃ"@));
    let t = t.push(("nyi"@, "にぃ"@));
    reveal_strlit("nyu");
    lemma_push_regular(t, ("nyu"@, "にゅ"@));
    let t = t.push(("nyu"@, "にゅ"@));
    reveal_strlit("nye");
    lemma_push_regular(t, ("nye"@, "にぇ"@));
    let t = t.push(("nye"@, "にぇ"@));
    reveal_strlit("nyo");
    lemma_push_regular(t, ("nyo"@, "にょ"@));
    let t = t.push(("nyo"@, "にょ"@));
    reveal_strlit("hya");
    lemma_push_regular(t, ("hya"@, "ひゃ"@));
    let t = t.push(("hya"@, "ひゃ"@));
    reveal_strlit("hyi");
    lemma_push_regular(t, ("hyi"@, "ひぃ"@));
    let t = t.push(("hyi"@, "ひぃ"@));
    reveal_strlit("hyu");
    lemma_push_regular(t, ("hyu"@, "ひゅ"@));
    let t = t.push(("hyu"@, "ひゅ"@));
    reveal_strlit("hye");
    lemma_push_regular(t, ("hye"@, "ひぇ"@));
    let t = t.push(("hye"@, "ひぇ"@));
    reveal_strlit("hyo");
    lemma_push_regular(t, ("hyo"@, "ひょ"@));
    let t = t.push(("hyo"@, "ひょ"@));
    reveal_strlit("bya");
    lemma_push_regular(t, ("bya"@, "びゃ"@));
    let t = t.push(("bya"@, "びゃ"@));
    reveal_strlit("byi");
    lemma_push_regular(t, ("byi"@, "びぃ"@));
    let t = t.push(("byi"@, "びぃ"@));
    reveal_strlit("byu");
    lemma_push_regular(t, ("byu"@, "びゅ"@));
    let t = t.push(("byu"@, "びゅ"@));
    reveal_strlit("bye");
    lemma_push_regular(t, ("bye"@, "びぇ"@));
    let t = t.push(("bye"@, "びぇ"@));
    reveal_strlit("byo");
    lemma_push_regular(t, ("byo"@, "びょ"@));
    let t = t.push(("byo"@, "びょ"@));
    reveal_strlit("pya");
    lemma_push_regular(t, ("pya"@, "ぴゃ"@));
    let t = t.push(("pya"@, "ぴゃ"@));
    reveal_strlit("pyi");
    lemma_push_regular(t, ("pyi"@, "ぴぃ"@));
    let t = t.push(("pyi"@, "ぴぃ"@));
    reveal_strlit("pyu");
    lemma_push_regular(t, ("pyu"@, "ぴゅ"@));
    let t = t.push(("pyu"@, "ぴゅ"@));
    reveal_strlit("pye");
    lemma_push_regular(t, ("pye"@, "ぴぇ"@));
    let t = t.push(("pye"@, "ぴぇ"@));
    reveal_strlit("pyo");
    lemma_push_regular(t, ("pyo"@, "ぴょ"@));
    let t = t.push(("pyo"@, "ぴょ"@));
    reveal_strlit("mya");
    lemma_push_regular(t, ("mya"@, "みゃ"@));
    let t = t.push(("mya"@, "みゃ"@));
    reveal_strlit("myi");
    lemma_push_regular(t, ("myi"@, "みぃ"@));
    let t = t.push(("myi"@, "みぃ"@));
    reveal_strlit("myu");
    lemma_push_regular(t, ("myu"@, "みゅ"@));
    let t = t.push(("myu"@, "みゅ"@));
    reveal_strlit("mye");
    lemma_push_regular(t, ("mye"@, "みぇ"@));
    let t = t.push(("mye"@, "みぇ"@));
    reveal_strlit("myo");
    lemma_push_regular(t, ("myo"@, "みょ"@));
    let t = t.push(("myo"@, "みょ"@));
    reveal_strlit("rya");
    lemma_push_regular(t, ("rya"@, "りゃ"@));
    let t = t.push(("rya"@, "りゃ"@));
    reveal_strlit("ryi");
    lemma_push_regular(t, ("ryi"@, "りぃ"@));
    let t = t.push(("ryi"@, "りぃ"@));
    reveal_strlit("ryu");
    lemma_push_regular(t, ("ryu"@, "りゅ"@));
    let t = t.push(("ryu"@, "りゅ"@));
    reveal_strlit("rye");
    lemma_push_regular(t, ("rye"@, "りぇ"@));
    let t = t.push(("rye"@, "りぇ"@));
    reveal_strlit("ryo");
    lemma_push_regular(t, ("ryo"@, "りょ"@));
    let t = t.push(("ryo"@, "りょ"@));
    assert(t == contracted_rules(s));
}

proof fn lemma_extended_rules_regular(s: Seq<RuleView>)
    requires
        regular_n_table(s),
    ensures
        regular_n_table(extended_rules(s)),
{
    let t = s;
    reveal_strlit("tha");
    lemma_push_regular(t, ("tha"@, "てゃ"@));
    let t = t.push(("tha"@, "てゃ"@));
    reveal_strlit("thi");
    lemma_push_regular(t, ("thi"@, "てぃ"@));
    let t = t.push(("thi"@, "てぃ"@));
    reveal_strlit("thu");
    lemma_push_regular(t, ("thu"@, "てゅ"@));
    let t = t.push(("thu"@, "てゅ"@));
    reveal_strlit("the");
    lemma_push_regular(t, ("the"@, "てぇ"@));
    let t = t.push(("the"@, "てぇ"@));
    reveal_strlit("tho");
    lemma_push_regular(t, ("tho"@, "てょ"@));
    let t = t.push(("tho"@, "てょ"@));
    reveal_strlit("dha");
    lemma_push_regular(t, ("dha"@, "でゃ"@));
    let t = t.push(("dha"@, "でゃ"@));
    reveal_strlit("dhi");
    lemma_push_regular(t, ("dhi"@, "でぃ"@));
    let t = t.push(("dhi"@, "でぃ"@));
    reveal_strlit("dhu");
    lemma_push_regular(t, ("dhu"@, "でゅ"@));
    let t = t.push(("dhu"@, "でゅ"@));
    reveal_strlit("dhe");
    lemma_push_regular(t, ("dhe"@, "でぇ"@));
    let t = t.push(("dhe"@, "でぇ"@));
    reveal_strlit("dho");
    lemma_push_regular(t, ("dho"@, "でょ"@));
    let t = t.push(("dho"@, "でょ"@));
    reveal_strlit("fya");
    lemma_push_regular(t, ("fya"@, "ふゃ"@));
    let t = t.push(("fya"@, "ふゃ"@));
    reveal_strlit("fyu");
    lemma_push_regular(t, ("fyu"@, "ふゅ"@));
    let t = t.push(("fyu"@, "ふゅ"@));
    reveal_strlit("fyo");
    lemma_push_regular(t, ("fyo"@, "ふょ"@));
    let t = t.push(("fyo"@, "ふょ"@));
    reveal_strlit("vya");
    lemma_push_regular(t, ("vya"@, "ゔゃ"@));
    let t = t.push(("vya"@, "ゔゃ"@));
    reveal_strlit("vyu");
    lemma_push_regular(t, ("vyu"@, "ゔゅ"@));
    let t = t.push(("vyu"@, "ゔゅ"@));
    reveal_strlit("vyo");
    lemma_push_regular(t, ("vyo"@, "ゔょ"@));
    let t = t.push(("vyo"@, "ゔょ"@));
    reveal_strlit("sha");
    lemma_push_regular(t, ("sha"@, "しゃ"@));
    let t = t.push(("sha"@, "しゃ"@));
    reveal_strlit("shi");
    lemma_push_regular(t, ("shi"@, "し"@));
    let t = t.push(("shi"@, "し"@));
    reveal_strlit("shu");
    lemma_push_regular(t, ("shu"@, "しゅ"@));
    let t = t.push(("shu"@, "しゅ"@));
    reveal_strlit("she");
    lemma_push_regular(t, ("she"@, "しぇ"@));
    let t = t.push(("she"@, "しぇ"@));
    reveal_strlit("sho");
    lemma_push_regular(t, ("sho"@, "しょ"@));
    let t = t.push(("sho"@, "しょ"@));
    reveal_strlit("ja");
    lemma_push_regular(t, ("ja"@, "じゃ"@));
    let t = t.push(("ja"@, "じゃ"@));
    reveal_strlit("ji");
    lemma_push_regular(t, ("ji"@, "じ"@));
    let t = t.push(("ji"@, "じ"@));
    reveal_strlit("ju");
    lemma_push_regular(t, ("ju"@, "じゅ"@));
    let t = t.push(("ju"@, "じゅ"@));
    reveal_strlit("je");
    lemma_push_regular(t, ("je"@, "じぇ"@));
    let t = t.push(("je"@, "じぇ"@));
    reveal_strlit("jo");
    lemma_push_regular(t, ("jo"@, "じょ"@));
    let t = t.push(("jo"@, "じょ"@));
    reveal_strlit("cha");
    lemma_push_regular(t, ("cha"@, "ちゃ"@));
    let t = t.push(("cha"@, "ちゃ"@));
    reveal_strlit("chi");
    lemma_push_regular(t, ("chi"@, "ち"@));
    let t = t.push(("chi"@, "ち"@));
    reveal_strlit("chu");
    lemma_push_regular(t, ("chu"@, "ちゅ"@));
    let t = t.push(("chu"@, "ちゅ"@));
    reveal_strlit("che");
    lemma_push_regular(t, ("che"@, "ちぇ"@));
    let t = t.push(("che"@, "ちぇ"@));
    reveal_strlit("cho");
    lemma_push_regular(t, ("cho"@, "ちょ"@));
    let t = t.push(("cho"@, "ちょ"@));
    reveal_strlit("ca");
    lemma_push_regular(t, ("ca"@, "か"@));
    let t = t.push(("ca"@, "か"@));
    reveal_strlit("ci");
    lemma_push_regular(t, ("ci"@, "し"@));
    let t = t.push(("ci"@, "し"@));
    reveal_strlit("cu");
    lemma_push_regular(t, ("cu"@, "く"@));
    let t = t.push(("cu"@, "く"@));
    reveal_strlit("ce");
    lemma_push_regular(t, ("ce"@, "せ"@));
    let t = t.push(("ce"@, "せ"@));
    reveal_strlit("co");
    lemma_push_regular(t, ("co"@, "こ"@));
    let t = t.push(("co"@, "こ"@));
    reveal_strlit("tsa");
    lemma_push_regular(t, ("tsa"@, "つぁ"@));
    let t = t.push(("tsa"@, "つぁ"@));
    reveal_strlit("tsi");
    lemma_push_regular(t, ("tsi"@, "つぃ"@));
    let t = t.push(("tsi"@, "つぃ"@));
    reveal_strlit("tsu");
    lemma_push_regular(t, ("tsu"@, "つ"@));
    let t = t.push(("tsu"@, "つ"@));
    reveal_strlit("tse");
    lemma_push_regular(t, ("tse"@, "つぇ"@));
    let t = t.push(("tse"@, "つぇ"@));
    reveal_strlit("tso");
    lemma_push_regular(t, ("tso"@, "つぉ"@));
    let t = t.push(("tso"@, "つぉ"@));
    reveal_strlit("twa");
    lemma_push_regular(t, ("twa"@, "とぁ"@));
    let t = t.push(("twa"@, "とぁ"@));
    reveal_strlit("twi");
    lemma_push_regular(t, ("twi"@, "とぃ"@));
    let t = t.push(("twi"@, "とぃ"@));
    reveal_strlit("twu");
    lemma_push_regular(t, ("twu"@, "とぅ"@));
    let t = t.push(("twu"@, "とぅ"@));
    reveal_strlit("twe");
    lemma_push_regular(t, ("twe"@, "とぇ"@));
    let t = t.push(("twe"@, "とぇ"@));
    reveal_strlit("two");
    lemma_push_regular(t, ("two"@, "とぉ"@));
    let t = t.push(("two"@, "とぉ"@));
    reveal_strlit("dwa");
    lemma_push_regular(t, ("dwa"@, "どぁ"@));
    let t = t.push(("dwa"@, "どぁ"@));
    reveal_strlit("dwi");
    lemma_push_regular(t, ("dwi"@, "どぃ"@));
    let t = t.push(("dwi"@, "どぃ"@));
    reveal_strlit("dwu");
    lemma_push_regular(t, ("dwu"@, "どぅ"@));
    let t = t.push(("dwu"@, "どぅ"@));
    reveal_strlit("dwe");
    lemma_push_regular(t, ("dwe"@, "どぇ"@));
    let t = t.push(("dwe"@, "どぇ"@));
    reveal_strlit("dwo");
    lemma_push_regular(t, ("dwo"@, "どぉ"@));
    let t = t.push(("dwo"@, "どぉ"@));
    reveal_strlit("fa");
    lemma_push_regular(t, ("fa"@, "ふぁ"@));
    let t = t.push(("fa"@, "ふぁ"@));
    reveal_strlit("fi");
    lemma_push_regular(t, ("fi"@, "ふぃ"@));
    let t = t.push(("fi"@, "ふぃ"@));
    reveal_strlit("fu");
    lemma_push_regular(t, ("fu"@, "ふ"@));
    let t = t.push(("fu"@, "ふ"@));
    reveal_strlit("fe");
    lemma_push_regular(t, ("fe"@, "ふぇ"@));
    let t = t.push(("fe"@, "ふぇ"@));
    reveal_strlit("fo");
    lemma_push_regular(t, ("fo"@, "ふぉ"@));
    let t = t.push(("fo"@, "ふぉ"@));
    reveal_strlit("va");
    lemma_push_regular(t, ("va"@, "ゔぁ"@));
    let t = t.push(("va"@, "ゔぁ"@));
    reveal_strlit("vi");
    lemma_push_regular(t, ("vi"@, "ゔぃ"@));
    let t = t.push(("vi"@, "ゔぃ"@));
    reveal_strlit("vu");
    lemma_push_regular(t, ("vu"@, "ゔ"@));
    let t = t.push(("vu"@, "ゔ"@));
    reveal_strlit("ve");
    lemma_push_regular(t, ("ve"@, "ゔぇ"@));
    let t = t.push(("ve"@, "ゔぇ"@));
    reveal_strlit("vo");
    lemma_push_regular(t, ("vo"@, "ゔぉ"@));
    let t = t.push(("vo"@, "ゔぉ"@));
    reveal_strlit("qa");
    lemma_push_regular(t, ("qa"@, "くぁ"@));
    let t = t.push(("qa"@, "くぁ"@));
    reveal_strlit("qi");
    lemma_push_regular(t, ("qi"@, "くぃ"@));
    let t = t.push(("qi"@, "くぃ"@));
    reveal_strlit("qu");
    lemma_push_regular(t, ("qu"@, "く"@));
    let t = t.push(("qu"@, "く"@));
    reveal_strlit("qe");
    lemma_push_regular(t, ("qe"@, "くぇ"@));
    let t = t.push(("qe"@, "くぇ"@));
    reveal_strlit("qo");
    lemma_push_regular(t, ("qo"@, "くぉ"@));
    let t = t.push(("qo"@, "くぉ"@));
    reveal_strlit("kwa");
    lemma_push_regular(t, ("kwa"@, "くぁ"@));
    let t = t.push(("kwa"@, "くぁ"@));
    reveal_strlit("gwa");
    lemma_push_regular(t, ("gwa"@, "ぐぁ"@));
    let t = t.push(("gwa"@, "ぐぁ"@));
    reveal_strlit("wha");
    lemma_push_regular(t, ("wha"@, "うぁ"@));
    let t = t.push(("wha"@, "うぁ"@));
    reveal_strlit("whi");
    lemma_push_regular(t, ("whi"@, "うぃ"@));
    let t = t.push(("whi"@, "うぃ"@));
    reveal_strlit("whu");
    lemma_push_regular(t, ("whu"@, "う"@));
    let t = t.push(("whu"@, "う"@));
    reveal_strlit("whe");
    lemma_push_regular(t, ("whe"@, "うぇ"@));
    let t = t.push(("whe"@, "うぇ"@));
    reveal_strlit("who");
    lemma_push_regular(t, ("who"@, "うぉ"@));
    let t = t.push(("who"@, "うぉ"@));
    reveal_strlit("ya");
    lemma_push_regular(t, ("ya"@, "や"@));
    let t = t.push(("ya"@, "や"@));
    reveal_strlit("yu");
    lemma_push_regular(t, ("yu"@, "ゆ"@));
    let t = t.push(("yu"@, "ゆ"@));
    reveal_strlit("yo");
    lemma_push_regular(t, ("yo"@, "よ"@));
    let t = t.push(("yo"@, "よ"@));
    reveal_strlit("ye");
    lemma_push_regular(t, ("ye"@, "いぇ"@));
    let t = t.push(("ye"@, "いぇ"@));
    reveal_strlit("wa");
    lemma_push_regular(t, ("wa"@, "わ"@));
    let t = t.push(("wa"@, "わ"@));
    reveal_strlit("wi");
    lemma_push_regular(t, ("wi"@, "うぃ"@));
    let t = t.push(("wi"@, "うぃ"@));
    reveal_strlit("wu");
    lemma_push_regular(t, ("wu"@, "う"@));
    let t = t.push(("wu"@, "う"@));
    reveal_strlit("we");
    lemma_push_regular(t, ("we"@, "うぇ"@));
    let t = t.push(("we"@, "うぇ"@));
    reveal_strlit("wo");
    lemma_push_regular(t, ("wo"@, "を"@));
    let t = t.push(("wo"@, "を"@));
    reveal_strlit("wyi");
    lemma_push_regular(t, ("wyi"@, "ゐ"@));
    let t = t.push(("wyi"@, "ゐ"@));
    reveal_strlit("wye");
    lemma_push_regular(t, ("wye"@, "ゑ"@));
    let t = t.push(("wye"@, "ゑ"@));
    assert(t == extended_rules(s));
}

proof fn lemma_small_kana_rules_regular(s: Seq<RuleView>)
    requires
        regular_n_table(s),
    ensures
        regular_n_table(small_kana_rules(s)),
{
    let t = s;
    reveal_strlit("la");
    lemma_push_regular(t, ("la"@, "ぁ"@));
    let t = t.push(("la"@, "ぁ"@));
    reveal_strlit("li");
    lemma_push_regular(t, ("li"@, "ぃ"@));
    let t = t.push(("li"@, "ぃ"@));
    reveal_strlit("lu");
    lemma_push_regular(t, ("lu"@, "ぅ"@));
    let t = t.push(("lu"@, "ぅ"@));
    reveal_strlit("le");
    lemma_push_regular(t, ("le"@, "ぇ"@));
    let t = t.push(("le"@, "ぇ"@));
    reveal_strlit("lo");
    lemma_push_regular(t, ("lo"@, "ぉ"@));
    let t = t.push(("lo"@, "ぉ"@));
    reveal_strlit("lya");
    lemma_push_regular(t, ("lya"@, "ゃ"@));
    let t = t.push(("lya"@, "ゃ"@));
    reveal_strlit("lyu");
    lemma_push_regular(t, ("lyu"@, "ゅ"@));
    let t = t.push(("lyu"@, "ゅ"@));
    reveal_strlit("lyo");
    lemma_push_regular(t, ("lyo"@, "ょ"@));
    let t = t.push(("lyo"@, "ょ"@));
    reveal_strlit("lyi");
    lemma_push_regular(t, ("lyi"@, "ぃ"@));
    let t = t.push(("lyi"@, "ぃ"@));
    reveal_strlit("lye");
    lemma_push_regular(t, ("lye"@, "ぇ"@));
    let t = t.push(("lye"@, "ぇ"@));
    reveal_strlit("ltu");
    lemma_push_regular(t, ("ltu"@, "っ"@));
    let t = t.push(("ltu"@, "っ"@));
    reveal_strlit("ltsu");
    lemma_push_regular(t, ("ltsu"@, "っ"@));
    let t = t.push(("ltsu"@, "っ"@));
    reveal_strlit("lwa");
    lemma_push_regular(t, ("lwa"@, "ゎ"@));
    let t = t.push(("lwa"@, "ゎ"@));
    reveal_strlit("lka");
    lemma_push_regular(t, ("lka"@, "ヵ"@));
    let t = t.push(("lka"@, "ヵ"@));
    reveal_strlit("lke");
    lemma_push_regular(t, ("lke"@, "ヶ"@));
    let t = t.push(("lke"@, "ヶ"@));
    reveal_strlit("xa");
    lemma_push_regular(t, ("xa"@, "ぁ"@));
    let t = t.push(("xa"@, "ぁ"@));
    reveal_strlit("xi");
    lemma_push_regular(t, ("xi"@, "ぃ"@));
    let t = t.push(("xi"@, "ぃ"@));
    reveal_strlit("xu");
    lemma_push_regular(t, ("xu"@, "ぅ"@));
    let t = t.push(("xu"@, "ぅ"@));
    reveal_strlit("xe");
    lemma_push_regular(t, ("xe"@, "ぇ"@));
    let t = t.push(("xe"@, "ぇ"@));
    reveal_strlit("xo");
    lemma_push_regular(t, ("xo"@, "ぉ"@));
    let t = t.push(("xo"@, "ぉ"@));
    reveal_strlit("xya");
    lemma_push_regular(t, ("xya"@, "ゃ"@));
    let t = t.push(("xya"@, "ゃ"@));
    reveal_strlit("xyu");
    lemma_push_regular(t, ("xyu"@, "ゅ"@));
    let t = t.push(("xyu"@, "ゅ"@));
    reveal_strlit("xyo");
    lemma_push_regular(t, ("xyo"@, "ょ"@));
    let t = t.push(("xyo"@, "ょ"@));
    reveal_strlit("xyi");
    lemma_push_regular(t, ("xyi"@, "ぃ"@));
    let t = t.push(("xyi"@, "ぃ"@));
    reveal_strlit("xye");
    lemma_push_regular(t, ("xye"@, "ぇ"@));
    let t = t.push(("xye"@, "ぇ"@));
    reveal_strlit("xtu");
    lemma_push_regular(t, ("xtu"@, "っ"@));
    let t = t.push(("xtu"@, "っ"@));
    reveal_strlit("xtsu");
    lemma_push_regular(t, ("xtsu"@, "っ"@));
    let t = t.push(("xtsu"@, "っ"@));
    reveal_strlit("xwa");
    lemma_push_regular(t, ("xwa"@, "ゎ"@));
    let t = t.push(("xwa"@, "ゎ"@));
    reveal_strlit("xka");
    lemma_push_regular(t, ("xka"@, "ヵ"@));
    let t = t.push(("xka"@, "ヵ"@));
    reveal_strlit("xke");
    lemma_push_regular(t, ("xke"@, "ヶ"@));
    let t = t.push(("xke"@, "ヶ"@));
    assert(t == small_kana_rules(s));
}

proof fn lemma_mark_rules_regular(s: Seq<RuleView>)
    requires
        regular_n_table(s),
    ensures
        regular_n_table(mark_rules(s)),
{
    let t = s;
    reveal_strlit("nn");
    lemma_push_regular(t, ("nn"@, "ん"@));
    let t = t.push(("nn"@, "ん"@));
    reveal_strlit("n\'");
    lemma_push_regular(t, ("n\'"@, "ん"@));
    let t = t.push(("n\'"@, "ん"@));
    reveal_strlit("xn");
    lemma_push_regular(t, ("xn"@, "ん"@));
    let t = t.push(("xn"@, "ん"@));
    reveal_strlit("-");
    lemma_push_regular(t, ("-"@, "ー"@));
    let t = t.push(("-"@, "ー"@));
    reveal_strlit("~");
    lemma_push_regular(t, ("~"@, "〜"@));
    let t = t.push(("~"@, "〜"@));
    reveal_strlit("?");
    lemma_push_regular(t, ("?"@, "？"@));
    let t = t.push(("?"@, "？"@));
    reveal_strlit("!");
    lemma_push_regular(t, ("!"@, "！"@));
    let t = t.push(("!"@, "！"@));
    reveal_strlit("z,");
    lemma_push_regular(t, ("z,"@, "‥"@));
    let t = t.push(("z,"@, "‥"@));
    reveal_strlit("z.");
    lemma_push_regular(t, ("z."@, "…"@));
    let t = t.push(("z."@, "…"@));
    reveal_strlit("z/");
    lemma_push_regular(t, ("z/"@, "・"@));
    let t = t.push(("z/"@, "・"@));
    reveal_strlit("z-");
    lemma_push_regular(t, ("z-"@, "〜"@));
    let t = t.push(("z-"@, "〜"@));
    reveal_strlit("zh");
    lemma_push_regular(t, ("zh"@, "←"@));
    let t = t.push(("zh"@, "←"@));
    reveal_strlit("zj");
    lemma_push_regular(t, ("zj"@, "↓"@));
    let t = t.push(("zj"@, "↓"@));
    reveal_strlit("zk");
    lemma_push_regular(t, ("zk"@, "↑"@));
    let t = t.push(("zk"@, "↑"@));
    reveal_strlit("zl");
    lemma_push_regular(t, ("zl"@, "→"@));
    let t = t.push(("zl"@, "→"@));
    reveal_strlit("z[");
    lemma_push_regular(t, ("z["@, "『"@));
    let t = t.push(("z["@, "『"@));
    reveal_strlit("z]");
    lemma_push_regular(t, ("z]"@, "』"@));
    let t = t.push(("z]"@, "』"@));
    assert(t == mark_rules(s));
}


/// Every table the converter is built from leaves the syllabic n readable:
/// no key is a lone `n` or `ny`, and every `n`-key continues with a vowel,
/// `y`, `'` or `n`.
pub proof fn lemma_rule_table_regular_n(style: SymbolStyle)
    ensures
        regular_n_table(rule_table(style)),
{
    let e = Seq::<RuleView>::empty();
    lemma_basic_rules_regular(e);
    let t = basic_rules(e);
    lemma_contracted_rules_regular(t);
    let t = contracted_rules(t);
    lemma_extended_rules_regular(t);
    let t = extended_rules(t);
    lemma_small_kana_rules_regular(t);
    let t = small_kana_rules(t);
    lemma_mark_rules_regular(t);
    let t = mark_rules(t);
    lemma_push_regular(t, (seq![','], seq![spec_comma(style.punctuation)]));
    let t = t.push((seq![','], seq![spec_comma(style.punctuation)]));
    lemma_push_regular(t, (seq!['.'], seq![spec_period(style.punctuation)]));
    let t = t.push((seq!['.'], seq![spec_period(style.punctuation)]));
    lemma_push_regular(t, (seq!['/'], seq![spec_slash(style.slash)]));
    let t = t.push((seq!['/'], seq![spec_slash(style.slash)]));
    lemma_push_regular(t, (seq!['['], seq![spec_open(style.bracket)]));
    let t = t.push((seq!['['], seq![spec_open(style.bracket)]));
    lemma_push_regular(t, (seq![']'], seq![spec_close(style.bracket)]));
    let t = t.push((seq![']'], seq![spec_close(style.bracket)]));
    assert(t == rule_table(style));
}

} // verus!
