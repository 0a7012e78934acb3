//! JSON text: string literals, and reading a member of an object.
use vstd::prelude::*;

use crate::text;

verus! {

/// The hexadecimal digit that stands for `n`, which is below sixteen.
pub open spec fn hex_digit(n: nat) -> char {
    if n < 10 {
        (48 + n) as char
    } else {
        (87 + n) as char
    }
}

/// How `c` is written inside a JSON string literal.
pub open spec fn json_char(c: char) -> Seq<char> {
    if c == '"' {
        seq!['\\', '"']
    } else if c == '\\' {
        seq!['\\', '\\']
    } else if c == '\u{8}' {
        seq!['\\', 'b']
    } else if c == '\t' {
        seq!['\\', 't']
    } else if c == '\n' {
        seq!['\\', 'n']
    } else if c == '\u{c}' {
        seq!['\\', 'f']
    } else if c == '\r' {
        seq!['\\', 'r']
    } else if (c as u32) < 0x20 {
        seq![
            '\\',
            'u',
            '0',
            '0',
            hex_digit((c as u32 / 16) as nat),
            hex_digit((c as u32 % 16) as nat),
        ]
    } else {
        seq![c]
    }
}

/// What stands between the quotes of the JSON string literal of `s`.
pub open spec fn json_body(s: Seq<char>) -> Seq<char>
    decreases s.len(),
{
    if s.len() == 0 {
        Seq::empty()
    } else {
        json_char(s[0]) + json_body(s.skip(1))
    }
}

/// The JSON string literal of `s`, quotes included.
pub open spec fn json_string(s: Seq<char>) -> Seq<char> {
    seq!['"'] + json_body(s) + seq!['"']
}

/// The text of the member `key` of the JSON object `text`; `None` where `text` is no JSON, is no
/// object, or has no such member.
pub uninterp spec fn json_member_text(text: Seq<char>, key: Seq<char>) -> Option<Seq<char>>;

/// Whitespace between the tokens of a JSON text.
pub open spec fn is_json_space(c: char) -> bool {
    c == ' ' || c == '\n' || c == '\t' || c == '\r'
}

/// `text` without the JSON whitespace around it.
pub open spec fn bare(text: Seq<char>) -> Seq<char>
    decreases text.len(),
{
    if text.len() > 0 && is_json_space(text[0]) {
        bare(text.skip(1))
    } else if text.len() > 0 && is_json_space(text.last()) {
        bare(text.drop_last())
    } else {
        text
    }
}

/// The JSON value `text` as an integer from 0 to 2^64 - 1; `None` where it is not the numeral of one.
pub open spec fn json_as_u64(text: Seq<char>) -> Option<u64> {
    if exists|n: u64| bare(text) == #[trigger] text::decimal(n as nat) {
        Some(choose|n: u64| bare(text) == #[trigger] text::decimal(n as nat))
    } else {
        None
    }
}

/// The JSON value `text` as a boolean; `None` where it is not one.
pub open spec fn json_as_bool(text: Seq<char>) -> Option<bool> {
    if bare(text) == "true"@ {
        Some(true)
    } else if bare(text) == "false"@ {
        Some(false)
    } else {
        None
    }
}

/// Prints a `serde_json::Value::String`. Its `Display` writes the compact form, which for a string
/// is the literal: `"` and `\` behind a backslash, the control characters below U+0020 as `\b`,
/// `\t`, `\n`, `\f`, `\r` or `\u00xx` with lower case digits, every other character as it is.
#[verifier::external_body]
pub(crate) fn quote(s: &str) -> (out: String)
    ensures
        out@ == json_string(s@),
{
    serde_json::Value::from(s).to_string()
}

/// Parses with `serde_json::from_str`, looks the member up with `serde_json::Value::get` and prints
/// it. The result is a function of the two texts alone.
#[verifier::external_body]
pub(crate) fn member(text: &str, key: &str) -> (out: Option<String>)
    ensures
        match out {
            Some(t) => json_member_text(text@, key@) == Some(t@),
            None => json_member_text(text@, key@) is None,
        },
{
    let value: serde_json::Value = serde_json::from_str(text).ok()?;
    match value.get(key) {
        Some(found) => Some(found.to_string()),
        None => None,
    }
}

/// Parses with `serde_json::from_str` and reads the value with `serde_json::Value::as_u64`. Whitespace
/// around the value does not count. There is a number exactly where the rest is its decimal numeral:
/// digits without a leading zero, sign, fraction or exponent, for at most 2^64 - 1.
#[verifier::external_body]
pub(crate) fn as_u64(text: &str) -> (out: Option<u64>)
    ensures
        out == json_as_u64(text@),
{
    let value: serde_json::Value = serde_json::from_str(text).ok()?;
    value.as_u64()
}

/// Parses with `serde_json::from_str` and reads the value with `serde_json::Value::as_bool`. Whitespace
/// around the value does not count. There is a boolean exactly where the rest is `true` or `false`.
#[verifier::external_body]
pub(crate) fn as_bool(text: &str) -> (out: Option<bool>)
    ensures
        out == json_as_bool(text@),
{
    let value: serde_json::Value = serde_json::from_str(text).ok()?;
    value.as_bool()
}

/// A numeral is read as the number that it was written for, and as no other.
pub proof fn law_numeral_reads_back(text: Seq<char>, n: u64)
    requires
        bare(text) == text::decimal(n as nat),
    ensures
        json_as_u64(text) == Some(n),
{
    let m = choose|m: u64| bare(text) == #[trigger] text::decimal(m as nat);
    text::lemma_decimal_injective(m as nat, n as nat);
}

/// A numeral has no whitespace around it.
pub proof fn law_numeral_is_bare(n: nat)
    ensures
        bare(text::decimal(n)) == text::decimal(n),
{
    text::lemma_decimal_digits(n);
}

/// What a hexadecimal digit stands for.
pub open spec fn hex_value(c: char) -> Option<nat> {
    if '0' <= c <= '9' {
        Some((c as u32 - 48) as nat)
    } else if 'a' <= c <= 'f' {
        Some((c as u32 - 87) as nat)
    } else if 'A' <= c <= 'F' {
        Some((c as u32 - 55) as nat)
    } else {
        None
    }
}

/// The character that four hexadecimal digits stand for; `None` for half of a surrogate pair.
pub open spec fn hex_char(a: char, b: char, c: char, d: char) -> Option<char> {
    match (hex_value(a), hex_value(b), hex_value(c), hex_value(d)) {
        (Some(a), Some(b), Some(c), Some(d)) => {
            let n = 4096 * a + 256 * b + 16 * c + d;
            if 0xd800 <= n <= 0xdfff {
                None
            } else {
                Some(n as char)
            }
        },
        _ => None,
    }
}

/// The character at the start of the inside of a JSON string literal, and how many characters it is
/// written with. Surrogate pairs are not read.
pub open spec fn read_char(s: Seq<char>) -> Option<(char, int)> {
    if s.len() == 0 || s[0] == '"' || (s[0] as u32) < 0x20 {
        None
    } else if s[0] != '\\' {
        Some((s[0], 1))
    } else if s.len() < 2 {
        None
    } else if s[1] == '"' || s[1] == '\\' || s[1] == '/' {
        Some((s[1], 2))
    } else if s[1] == 'b' {
        Some(('\u{8}', 2))
    } else if s[1] == 'f' {
        Some(('\u{c}', 2))
    } else if s[1] == 'n' {
        Some(('\n', 2))
    } else if s[1] == 'r' {
        Some(('\r', 2))
    } else if s[1] == 't' {
        Some(('\t', 2))
    } else if s[1] == 'u' && s.len() >= 6 {
        match hex_char(s[2], s[3], s[4], s[5]) {
            Some(c) => Some((c, 6)),
            None => None,
        }
    } else {
        None
    }
}

/// Reads the inside of a JSON string literal up to its closing quote: its text, and what follows.
pub open spec fn read_body(s: Seq<char>) -> Option<(Seq<char>, Seq<char>)>
    decreases s.len(),
{
    if s.len() > 0 && s[0] == '"' {
        Some((Seq::empty(), s.skip(1)))
    } else {
        match read_char(s) {
            Some((c, n)) => if 0 < n <= s.len() {
                match read_body(s.skip(n)) {
                    Some((text, rest)) => Some((seq![c] + text, rest)),
                    None => None,
                }
            } else {
                None
            },
            None => None,
        }
    }
}

/// Reads a JSON string literal at the start of `s`: its text, and what follows.
pub open spec fn read_string(s: Seq<char>) -> Option<(Seq<char>, Seq<char>)> {
    if s.len() > 0 && s[0] == '"' {
        read_body(s.skip(1))
    } else {
        None
    }
}

/// Reads a member of a JSON object whose value is a string: its name, its text, and what follows.
pub open spec fn read_member(s: Seq<char>) -> Option<(Seq<char>, Seq<char>, Seq<char>)> {
    match read_string(s) {
        Some((name, after)) => if after.len() > 0 && after[0] == ':' {
            match read_string(after.skip(1)) {
                Some((value, rest)) => Some((name, value, rest)),
                None => None,
            }
        } else {
            None
        },
        None => None,
    }
}

/// Reads members up to the closing brace of a JSON object, which has to be the end of the text.
pub open spec fn read_members(s: Seq<char>) -> Option<Seq<(Seq<char>, Seq<char>)>>
    decreases s.len(),
{
    match read_member(s) {
        Some((name, value, rest)) => if rest =~= seq!['}'] {
            Some(seq![(name, value)])
        } else if 0 < rest.len() <= s.len() && rest[0] == ',' {
            match read_members(rest.skip(1)) {
                Some(more) => Some(seq![(name, value)] + more),
                None => None,
            }
        } else {
            None
        },
        None => None,
    }
}

/// Reads a JSON object without whitespace whose values are all strings: its members, in order.
pub open spec fn read_object(s: Seq<char>) -> Option<Seq<(Seq<char>, Seq<char>)>> {
    if s =~= seq!['{', '}'] {
        Some(Seq::empty())
    } else if s.len() > 0 && s[0] == '{' {
        read_members(s.skip(1))
    } else {
        None
    }
}

/// A member of a JSON object whose value is a string, and what follows it.
pub open spec fn member_and(name: Seq<char>, value: Seq<char>, rest: Seq<char>) -> Seq<char> {
    json_string(name) + (seq![':'] + (json_string(value) + rest))
}

proof fn lemma_read_char(c: char, rest: Seq<char>)
    ensures
        read_char(json_char(c) + rest) == Some((c, json_char(c).len() as int)),
        (json_char(c) + rest)[0] != '"',
        json_char(c).len() >= 1,
{
    let s = json_char(c) + rest;
    assert(s[0] == json_char(c)[0]);
    if json_char(c).len() >= 2 {
        assert(s[1] == json_char(c)[1]);
    }
    if json_char(c).len() == 6 {
        assert(s[2] == '0' && s[3] == '0');
        assert(s[4] == hex_digit((c as u32 / 16) as nat));
        assert(s[5] == hex_digit((c as u32 % 16) as nat));
        assert(hex_value('0') == Some(0nat));
        assert(hex_value(s[4]) == Some((c as u32 / 16) as nat));
        assert(hex_value(s[5]) == Some((c as u32 % 16) as nat));
    }
}

proof fn lemma_read_body(text: Seq<char>, rest: Seq<char>)
    ensures
        read_body(json_body(text) + (seq!['"'] + rest)) == Some((text, rest)),
    decreases text.len(),
{
    let s = json_body(text) + (seq!['"'] + rest);
    if text.len() == 0 {
        assert(s.skip(1) =~= rest);
        assert(text =~= Seq::empty());
    } else {
        let after = json_body(text.skip(1)) + (seq!['"'] + rest);
        assert(s =~= json_char(text[0]) + after);
        lemma_read_char(text[0], after);
        lemma_read_body(text.skip(1), rest);
        assert(s.skip(json_char(text[0]).len() as int) =~= after);
        assert(seq![text[0]] + text.skip(1) =~= text);
    }
}

/// Reading a JSON string literal gives back the text that was written, whatever it holds and
/// whatever follows.
pub proof fn law_json_string_reads_back(text: Seq<char>, rest: Seq<char>)
    ensures
        read_string(json_string(text) + rest) == Some((text, rest)),
{
    lemma_read_body(text, rest);
    assert((json_string(text) + rest).skip(1) =~= json_body(text) + (seq!['"'] + rest));
}

proof fn lemma_read_member(name: Seq<char>, value: Seq<char>, rest: Seq<char>)
    ensures
        read_member(member_and(name, value, rest)) == Some((name, value, rest)),
        rest.len() < member_and(name, value, rest).len(),
{
    let after = seq![':'] + (json_string(value) + rest);
    law_json_string_reads_back(name, after);
    law_json_string_reads_back(value, rest);
    assert(after.skip(1) =~= json_string(value) + rest);
}

/// A member is read by its name and its text, and what follows it is left.
pub proof fn law_member_is_read(name: Seq<char>, value: Seq<char>, rest: Seq<char>)
    ensures
        read_member(member_and(name, value, rest)) == Some((name, value, rest)),
{
    lemma_read_member(name, value, rest);
}

/// The members of a JSON object whose values are all strings, with the closing brace.
pub open spec fn members_text(members: Seq<(Seq<char>, Seq<char>)>) -> Seq<char>
    decreases members.len(),
{
    if members.len() == 0 {
        seq!['}']
    } else {
        member_and(
            members[0].0,
            members[0].1,
            if members.len() == 1 {
                seq!['}']
            } else {
                seq![','] + members_text(members.skip(1))
            },
        )
    }
}

/// The text of a JSON object whose values are all strings.
pub open spec fn object_text(members: Seq<(Seq<char>, Seq<char>)>) -> Seq<char> {
    seq!['{'] + members_text(members)
}

proof fn lemma_read_members(members: Seq<(Seq<char>, Seq<char>)>)
    requires
        members.len() > 0,
    ensures
        read_members(members_text(members)) == Some(members),
        members_text(members)[0] == '"',
    decreases members.len(),
{
    let (name, value) = members[0];
    if members.len() == 1 {
        lemma_read_member(name, value, seq!['}']);
        assert(seq![(name, value)] =~= members);
    } else {
        let rest = seq![','] + members_text(members.skip(1));
        lemma_read_members(members.skip(1));
        lemma_read_member(name, value, rest);
        assert(rest.len() >= 2);
        assert(rest[0] == ',');
        assert(rest.skip(1) =~= members_text(members.skip(1)));
        assert(seq![(name, value)] + members.skip(1) =~= members);
    }
}

/// Reading a JSON object gives back the members that were written, in order, whatever their texts.
pub proof fn law_object_reads_back(members: Seq<(Seq<char>, Seq<char>)>)
    ensures
        read_object(object_text(members)) == Some(members),
{
    let s = object_text(members);
    if members.len() == 0 {
        assert(s =~= seq!['{', '}']);
        assert(members =~= Seq::empty());
    } else {
        lemma_read_members(members);
        assert(s[1] == members_text(members)[0]);
        assert(s.skip(1) =~= members_text(members));
    }
}

/// A label, a string and what follows make a member behind the label's first character.
pub proof fn lemma_labelled(
    label: Seq<char>,
    first: char,
    name: Seq<char>,
    value: Seq<char>,
    rest: Seq<char>,
)
    requires
        label == seq![first] + (json_string(name) + seq![':']),
    ensures
        label + (json_string(value) + rest) == seq![first] + member_and(name, value, rest),
{
    assert(label + (json_string(value) + rest) =~= seq![first] + member_and(name, value, rest));
}

/// A text without quotes, backslashes and control characters is written as it is.
pub proof fn lemma_plain_string(s: Seq<char>)
    requires
        forall|i: int|
            0 <= i < s.len() ==> #[trigger] s[i] != '"' && s[i] != '\\' && (s[i] as u32) >= 0x20,
    ensures
        json_string(s) == seq!['"'] + s + seq!['"'],
{
    lemma_plain_body(s);
}

proof fn lemma_plain_body(s: Seq<char>)
    requires
        forall|i: int|
            0 <= i < s.len() ==> #[trigger] s[i] != '"' && s[i] != '\\' && (s[i] as u32) >= 0x20,
    ensures
        json_body(s) == s,
    decreases s.len(),
{
    if s.len() > 0 {
        assert forall|i: int| 0 <= i < s.skip(1).len() implies #[trigger] s.skip(1)[i] != '"'
            && s.skip(1)[i] != '\\' && (s.skip(1)[i] as u32) >= 0x20 by {
            assert(s.skip(1)[i] == s[i + 1]);
        }
        lemma_plain_body(s.skip(1));
        assert(json_char(s[0]) =~= seq![s[0]]);
        assert(json_body(s) =~= s);
    } else {
        assert(json_body(s) =~= s);
    }
}

/// No character's escape is the beginning of another's: `json_char(a) + x` shows which `a` it was.
proof fn lemma_json_char_prefix(a: char, b: char, x: Seq<char>, y: Seq<char>)
    requires
        json_char(a) + x == json_char(b) + y,
    ensures
        a == b,
        x == y,
{
    let l = json_char(a) + x;
    let r = json_char(b) + y;
    assert(l[0] == json_char(a)[0]);
    assert(r[0] == json_char(b)[0]);
    if json_char(a).len() > 1 && json_char(b).len() > 1 {
        assert(l[1] == json_char(a)[1]);
        assert(r[1] == json_char(b)[1]);
        if json_char(a).len() == 6 && json_char(b).len() == 6 {
            assert(l[4] == json_char(a)[4]);
            assert(r[4] == json_char(b)[4]);
            assert(l[5] == json_char(a)[5]);
            assert(r[5] == json_char(b)[5]);
        }
    }
    assert(a == b);
    let n = json_char(a).len() as int;
    assert(l.skip(n) =~= x);
    assert(r.skip(n) =~= y);
}

/// A JSON string literal ends where it says: whatever follows it, the text of the string and what
/// follows can be told apart in one way only.
pub proof fn law_json_string_unambiguous(a: Seq<char>, b: Seq<char>, x: Seq<char>, y: Seq<char>)
    requires
        json_string(a) + x == json_string(b) + y,
    ensures
        a == b,
        x == y,
{
    let l = json_string(a) + x;
    let r = json_string(b) + y;
    assert(l.skip(1) =~= json_body(a) + (seq!['"'] + x));
    assert(r.skip(1) =~= json_body(b) + (seq!['"'] + y));
    lemma_json_body_unambiguous(a, b, x, y);
}

proof fn lemma_json_body_unambiguous(a: Seq<char>, b: Seq<char>, x: Seq<char>, y: Seq<char>)
    requires
        json_body(a) + (seq!['"'] + x) == json_body(b) + (seq!['"'] + y),
    ensures
        a == b,
        x == y,
    decreases a.len(),
{
    let l = json_body(a) + (seq!['"'] + x);
    let r = json_body(b) + (seq!['"'] + y);
    if a.len() == 0 && b.len() == 0 {
        assert(l.skip(1) =~= x);
        assert(r.skip(1) =~= y);
        assert(a =~= b);
    } else if a.len() == 0 {
        assert(l[0] == '"');
        assert(r[0] == json_char(b[0])[0]);
    } else if b.len() == 0 {
        assert(r[0] == '"');
        assert(l[0] == json_char(a[0])[0]);
    } else {
        let x1 = json_body(a.skip(1)) + (seq!['"'] + x);
        let y1 = json_body(b.skip(1)) + (seq!['"'] + y);
        assert(l =~= json_char(a[0]) + x1);
        assert(r =~= json_char(b[0]) + y1);
        lemma_json_char_prefix(a[0], b[0], x1, y1);
        lemma_json_body_unambiguous(a.skip(1), b.skip(1), x, y);
        assert(a =~= seq![a[0]] + a.skip(1));
        assert(b =~= seq![b[0]] + b.skip(1));
    }
}

/// A literal of characters that need no escape is read as these characters, up to its closing quote.
pub proof fn law_plain_literal_is_read(s: Seq<char>, rest: Seq<char>)
    requires
        forall|i: int|
            0 <= i < s.len() ==> #[trigger] s[i] != '"' && s[i] != '\\' && (s[i] as u32) >= 0x20,
    ensures
        read_string(seq!['"'] + s + seq!['"'] + rest) == Some((s, rest)),
{
    lemma_plain_string(s);
    law_json_string_reads_back(s, rest);
}

/// An object of two plain strings is read as its two members, by their names and in their order.
pub proof fn law_plain_object_is_read(
    name_a: Seq<char>,
    a: Seq<char>,
    name_b: Seq<char>,
    b: Seq<char>,
)
    requires
        forall|i: int|
            0 <= i < name_a.len() ==> #[trigger] name_a[i] != '"' && name_a[i] != '\\' && (
            name_a[i] as u32) >= 0x20,
        forall|i: int|
            0 <= i < a.len() ==> #[trigger] a[i] != '"' && a[i] != '\\' && (a[i] as u32) >= 0x20,
        forall|i: int|
            0 <= i < name_b.len() ==> #[trigger] name_b[i] != '"' && name_b[i] != '\\' && (
            name_b[i] as u32) >= 0x20,
        forall|i: int|
            0 <= i < b.len() ==> #[trigger] b[i] != '"' && b[i] != '\\' && (b[i] as u32) >= 0x20,
    ensures
        read_object(
            seq!['{'] + ((seq!['"'] + name_a + seq!['"']) + (seq![':'] + ((seq!['"'] + a + seq!['"'])
                + (seq![','] + ((seq!['"'] + name_b + seq!['"']) + (seq![':'] + ((seq!['"'] + b
                + seq!['"']) + seq!['}']))))))),
        ) == Some(seq![(name_a, a), (name_b, b)]),
{
    let members = seq![(name_a, a), (name_b, b)];
    law_object_reads_back(members);
    assert(object_text(members) == seq!['{'] + member_and(
        name_a,
        a,
        seq![','] + member_and(name_b, b, seq!['}']),
    )) by {
        assert(members.skip(1)[0] == (name_b, b));
        assert(members_text(members.skip(1)) == member_and(name_b, b, seq!['}']));
    }
    lemma_plain_string(name_a);
    lemma_plain_string(a);
    lemma_plain_string(name_b);
    lemma_plain_string(b);
}

} // verus!
