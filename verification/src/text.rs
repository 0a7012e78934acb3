//! Text primitives: whitespace, words, searching and decimal numerals.
//!
//! A string is modelled by its sequence of characters, `Seq<char>`.
use vstd::prelude::*;

verus! {

/// Characters with the Unicode `White_Space` property.
pub open spec fn is_space(c: char) -> bool {
    let n = c as u32;
    ||| 0x09 <= n <= 0x0d
    ||| n == 0x20
    ||| n == 0x85
    ||| n == 0xa0
    ||| n == 0x1680
    ||| 0x2000 <= n <= 0x200a
    ||| n == 0x2028
    ||| n == 0x2029
    ||| n == 0x202f
    ||| n == 0x205f
    ||| n == 0x3000
}

/// How many characters `s` holds before its first whitespace.
pub open spec fn word_len(s: Seq<char>) -> nat
    decreases s.len(),
{
    if s.len() == 0 || is_space(s[0]) {
        0
    } else {
        1 + word_len(s.skip(1))
    }
}

/// The maximal runs of non-whitespace characters of `s`, from left to right.
pub open spec fn words(s: Seq<char>) -> Seq<Seq<char>>
    decreases s.len(),
{
    if s.len() == 0 {
        Seq::empty()
    } else if is_space(s[0]) {
        words(s.skip(1))
    } else {
        let n = word_len(s);
        if 0 < n <= s.len() {
            seq![s.take(n as int)] + words(s.skip(n as int))
        } else {
            Seq::empty()
        }
    }
}

/// `s` without its leading whitespace.
pub open spec fn trim_front(s: Seq<char>) -> Seq<char>
    decreases s.len(),
{
    if s.len() > 0 && is_space(s[0]) {
        trim_front(s.skip(1))
    } else {
        s
    }
}

/// `s` without its trailing whitespace.
pub open spec fn trim_back(s: Seq<char>) -> Seq<char>
    decreases s.len(),
{
    if s.len() > 0 && is_space(s.last()) {
        trim_back(s.drop_last())
    } else {
        s
    }
}

/// `s` without the whitespace around it.
pub open spec fn trimmed(s: Seq<char>) -> Seq<char> {
    trim_back(trim_front(s))
}

/// `s` cut at the first `sep`: what stands before it and what stands after it.
pub open spec fn cut(s: Seq<char>, sep: char) -> Option<(Seq<char>, Seq<char>)> {
    match s.index_of_first(sep) {
        Some(i) => Some((s.take(i), s.skip(i + 1))),
        None => None,
    }
}

/// `c`, or the capital letter where `c` is one of `a` to `z`.
pub open spec fn upper_char(c: char) -> char {
    if 'a' <= c <= 'z' {
        ((c as u32) - 32) as char
    } else {
        c
    }
}

/// `s` with the letters `a` to `z` made capital.
pub open spec fn upper(s: Seq<char>) -> Seq<char> {
    s.map_values(|c: char| upper_char(c))
}

/// Whether `needle` stands in `s` from position `at` on.
pub open spec fn stands_at(s: Seq<char>, needle: Seq<char>, at: int) -> bool {
    0 <= at && at + needle.len() <= s.len() && s.subrange(at, at + needle.len()) == needle
}

/// Whether `needle` stands anywhere in `s`.
pub open spec fn occurs(s: Seq<char>, needle: Seq<char>) -> bool {
    exists|at: int| #[trigger] stands_at(s, needle, at)
}

/// The characters of an optional string.
pub open spec fn text_of(s: Option<String>) -> Option<Seq<char>> {
    match s {
        Some(t) => Some(t@),
        None => None,
    }
}

/// The digit that stands for `d`, which is below ten.
pub open spec fn digit(d: nat) -> char {
    (48 + d) as char
}

/// The decimal numeral of `n`.
pub open spec fn decimal(n: nat) -> Seq<char>
    decreases n,
{
    if n < 10 {
        seq![digit(n)]
    } else {
        decimal(n / 10).push(digit(n % 10))
    }
}

/// The decimal numeral of `n`, with a minus sign before a negative one.
pub open spec fn decimal_int(n: int) -> Seq<char> {
    if n < 0 {
        seq!['-'] + decimal((-n) as nat)
    } else {
        decimal(n as nat)
    }
}

/// Whether `c` is whitespace.
pub fn is_whitespace(c: char) -> (b: bool)
    ensures
        b == is_space(c),
{
    let n: u32 = c as u32;
    (0x09 <= n && n <= 0x0d) || n == 0x20 || n == 0x85 || n == 0xa0 || n == 0x1680 || (0x2000 <= n
        && n <= 0x200a) || n == 0x2028 || n == 0x2029 || n == 0x202f || n == 0x205f || n == 0x3000
}

/// The characters of `s`.
pub fn chars_of(s: &str) -> (v: Vec<char>)
    ensures
        v@ == s@,
{
    let mut v: Vec<char> = Vec::new();
    for c in it: s.chars()
        invariant
            it.seq() == s@,
            v@ == s@.take(it.index() as int),
    {
        v.push(c);
        assert(s@.take(it.index() + 1) =~= s@.take(it.index() as int).push(c));
    }
    assert(s@.take(s@.len() as int) =~= s@);
    v
}

proof fn lemma_word_len(s: Seq<char>)
    ensures
        word_len(s) <= s.len(),
        forall|i: int| 0 <= i < word_len(s) ==> !is_space(#[trigger] s[i]),
        word_len(s) < s.len() ==> is_space(s[word_len(s) as int]),
    decreases s.len(),
{
    if s.len() > 0 && !is_space(s[0]) {
        lemma_word_len(s.skip(1));
        assert forall|i: int| 0 <= i < word_len(s) implies !is_space(#[trigger] s[i]) by {
            if i > 0 {
                assert(s.skip(1)[i - 1] == s[i]);
            }
        }
    }
}

/// The word length is where the first whitespace stands.
proof fn lemma_word_len_is(s: Seq<char>, n: int)
    requires
        0 <= n <= s.len(),
        forall|i: int| 0 <= i < n ==> !is_space(#[trigger] s[i]),
        n < s.len() ==> is_space(s[n]),
    ensures
        word_len(s) == n,
{
    lemma_word_len(s);
}

/// The words of `s`, as `split_whitespace` of the standard library gives them.
pub fn split_words(s: &str) -> (out: Vec<String>)
    ensures
        out.deep_view() == words(s@),
{
    let chars: Vec<char> = chars_of(s);
    let mut out: Vec<String> = Vec::new();
    let mut i: usize = 0;
    assert(s@.skip(0) =~= s@);
    assert(out.deep_view() + words(s@) =~= words(s@));
    while i < chars.len()
        invariant
            chars@ == s@,
            i <= chars.len(),
            out.deep_view() + words(s@.skip(i as int)) == words(s@),
        decreases chars.len() - i,
    {
        let ghost rest = s@.skip(i as int);
        if is_whitespace(chars[i]) {
            assert(rest.skip(1) =~= s@.skip(i + 1));
            i = i + 1;
        } else {
            let start: usize = i;
            while i < chars.len() && !is_whitespace(chars[i])
                invariant
                    chars@ == s@,
                    start <= i <= chars.len(),
                    forall|j: int| start <= j < i ==> !is_space(#[trigger] s@[j]),
                ensures
                    i < chars.len() ==> is_space(s@[i as int]),
                decreases chars.len() - i,
            {
                i = i + 1;
            }
            let ghost n = (i - start) as int;
            let ghost before = out.deep_view();
            proof {
                assert(i > start);
                assert forall|j: int| 0 <= j < n implies !is_space(#[trigger] rest[j]) by {
                    assert(rest[j] == s@[start + j]);
                }
                lemma_word_len_is(rest, n);
                assert(rest.take(n) =~= s@.subrange(start as int, i as int));
                assert(rest.skip(n) =~= s@.skip(i as int));
                assert(words(rest) == seq![rest.take(n)] + words(rest.skip(n)));
            }
            out.push(s.substring_char(start, i).to_owned());
            assert(out.deep_view() =~= before.push(rest.take(n)));
            assert(before + words(rest) =~= before.push(rest.take(n)) + words(rest.skip(n)));
        }
    }
    assert(s@.skip(i as int) =~= Seq::<char>::empty());
    assert(out.deep_view() + words(s@.skip(i as int)) =~= out.deep_view());
    out
}

proof fn lemma_trim_front_skip(s: Seq<char>, n: int)
    requires
        0 <= n <= s.len(),
        forall|i: int| 0 <= i < n ==> is_space(#[trigger] s[i]),
    ensures
        trim_front(s) == trim_front(s.skip(n)),
    decreases n,
{
    if n == 0 {
        assert(s.skip(0) =~= s);
    } else {
        assert(is_space(s[0]));
        assert forall|i: int| 0 <= i < n - 1 implies is_space(#[trigger] s.skip(1)[i]) by {
            assert(s.skip(1)[i] == s[i + 1]);
        }
        lemma_trim_front_skip(s.skip(1), n - 1);
        assert(s.skip(1).skip(n - 1) =~= s.skip(n));
    }
}

proof fn lemma_trim_back_take(s: Seq<char>, n: int)
    requires
        0 <= n <= s.len(),
        forall|i: int| n <= i < s.len() ==> is_space(#[trigger] s[i]),
    ensures
        trim_back(s) == trim_back(s.take(n)),
    decreases s.len() - n,
{
    if n == s.len() {
        assert(s.take(n) =~= s);
    } else {
        assert(is_space(s[s.len() - 1]));
        lemma_trim_back_take(s.drop_last(), n);
        assert(s.drop_last().take(n) =~= s.take(n));
    }
}

/// `s` without the whitespace around it.
pub fn trim(s: &str) -> (out: &str)
    ensures
        out@ == trimmed(s@),
{
    let chars: Vec<char> = chars_of(s);
    let mut start: usize = 0;
    while start < chars.len() && is_whitespace(chars[start])
        invariant
            chars@ == s@,
            start <= chars.len(),
            forall|j: int| 0 <= j < start ==> is_space(#[trigger] s@[j]),
        ensures
            start < chars.len() ==> !is_space(s@[start as int]),
        decreases chars.len() - start,
    {
        start = start + 1;
    }
    let mut end: usize = chars.len();
    while start < end && is_whitespace(chars[end - 1])
        invariant
            chars@ == s@,
            start <= end <= chars.len(),
            forall|j: int| end <= j < s@.len() ==> is_space(#[trigger] s@[j]),
        ensures
            start < end ==> !is_space(s@[end - 1]),
        decreases end,
    {
        end = end - 1;
    }
    proof {
        let front = s@.skip(start as int);
        lemma_trim_front_skip(s@, start as int);
        assert(trim_front(s@) == front);
        assert forall|j: int| end - start <= j < front.len() implies is_space(#[trigger] front[j]) by {
            assert(front[j] == s@[start + j]);
        }
        lemma_trim_back_take(front, end - start);
        assert(front.take(end - start) =~= s@.subrange(start as int, end as int));
    }
    s.substring_char(start, end)
}

/// `s` cut at the first `sep`.
pub fn cut_at(s: &str, sep: char) -> (out: Option<(&str, &str)>)
    ensures
        match out {
            Some((before, after)) => cut(s@, sep) == Some((before@, after@)),
            None => cut(s@, sep) is None,
        },
{
    let chars: Vec<char> = chars_of(s);
    let mut i: usize = 0;
    while i < chars.len()
        invariant
            chars@ == s@,
            i <= chars.len(),
            forall|j: int| 0 <= j < i ==> s@[j] != sep,
        decreases chars.len() - i,
    {
        if chars[i] == sep {
            proof {
                s@.index_of_first_ensures(sep);
                assert(s@[i as int] == sep);
                assert(s@.index_of_first(sep) == Some(i as int));
            }
            return Some((s.substring_char(0, i), s.substring_char(i + 1, chars.len())));
        }
        i = i + 1;
    }
    proof {
        s@.index_of_first_ensures(sep);
        assert(!s@.contains(sep));
    }
    None
}

/// `c`, or the capital letter where `c` is one of `a` to `z`.
pub fn to_upper(c: char) -> (u: char)
    ensures
        u == upper_char(c),
{
    if 'a' <= c && c <= 'z' {
        let n: u32 = c as u32;
        let low: u8 = (n - 32) as u8;
        low as char
    } else {
        c
    }
}

/// `s` with the letters `a` to `z` made capital, as a list of characters.
pub fn upper_chars(s: &str) -> (v: Vec<char>)
    ensures
        v@ == upper(s@),
{
    let chars: Vec<char> = chars_of(s);
    let mut v: Vec<char> = Vec::new();
    let mut i: usize = 0;
    while i < chars.len()
        invariant
            chars@ == s@,
            i <= chars.len(),
            v@ == upper(s@.take(i as int)),
        decreases chars.len() - i,
    {
        v.push(to_upper(chars[i]));
        i = i + 1;
        assert(v@ =~= upper(s@.take(i as int)));
    }
    assert(s@.take(i as int) =~= s@);
    v
}

/// Whether `needle` stands in `chars` from position `at` on.
fn matches_at(chars: &Vec<char>, needle: &Vec<char>, at: usize) -> (b: bool)
    requires
        at + needle.len() <= chars.len(),
    ensures
        b == stands_at(chars@, needle@, at as int),
{
    let mut j: usize = 0;
    while j < needle.len()
        invariant
            at + needle.len() <= chars.len(),
            j <= needle.len(),
            forall|k: int| 0 <= k < j ==> chars@[at + k] == needle@[k],
        decreases needle.len() - j,
    {
        if chars[at + j] != needle[j] {
            assert(chars@.subrange(at as int, at + needle.len())[j as int] != needle@[j as int]);
            return false;
        }
        j = j + 1;
    }
    assert(chars@.subrange(at as int, at + needle.len()) =~= needle@);
    true
}

/// Whether `needle` stands anywhere in `chars`.
pub fn contains(chars: &Vec<char>, needle: &str) -> (b: bool)
    ensures
        b == occurs(chars@, needle@),
{
    let wanted: Vec<char> = chars_of(needle);
    if wanted.len() > chars.len() {
        return false;
    }
    let last: usize = chars.len() - wanted.len();
    let mut at: usize = 0;
    while at <= last
        invariant
            wanted@ == needle@,
            last == chars.len() - wanted.len(),
            at <= last + 1,
            forall|k: int| 0 <= k < at ==> !#[trigger] stands_at(chars@, needle@, k),
        decreases last + 1 - at,
    {
        if matches_at(chars, &wanted, at) {
            return true;
        }
        if at == last {
            return false;
        }
        at = at + 1;
    }
    false
}

/// Whether `s` starts with `prefix`.
pub fn starts_with(s: &str, prefix: &str) -> (b: bool)
    ensures
        b == prefix@.is_prefix_of(s@),
{
    let chars: Vec<char> = chars_of(s);
    let wanted: Vec<char> = chars_of(prefix);
    wanted.len() <= chars.len() && matches_at(&chars, &wanted, 0)
}

/// Whether two strings hold the same characters.
pub fn same(a: &str, b: &str) -> (eq: bool)
    ensures
        eq == (a@ == b@),
{
    a.to_owned() == b.to_owned()
}

/// What follows a common beginning is the same where the whole is.
pub proof fn lemma_cancel_prefix(prefix: Seq<char>, a: Seq<char>, b: Seq<char>)
    requires
        prefix + a == prefix + b,
    ensures
        a == b,
{
    assert((prefix + a).skip(prefix.len() as int) =~= a);
    assert((prefix + b).skip(prefix.len() as int) =~= b);
}

/// Two numbers with one numeral are one.
pub proof fn lemma_decimal_injective(a: nat, b: nat)
    requires
        decimal(a) == decimal(b),
    ensures
        a == b,
    decreases a,
{
    assert(decimal(a).last() == digit(a % 10));
    assert(decimal(b).last() == digit(b % 10));
    assert(a % 10 == b % 10);
    if a >= 10 && b >= 10 {
        assert(decimal(a).drop_last() =~= decimal(a / 10));
        assert(decimal(b).drop_last() =~= decimal(b / 10));
        lemma_decimal_injective(a / 10, b / 10);
    } else {
        lemma_decimal_len(a);
        lemma_decimal_len(b);
    }
}

/// A numeral is made of digits, and has one at least.
pub proof fn lemma_decimal_digits(n: nat)
    ensures
        decimal(n).len() >= 1,
        forall|i: int| 0 <= i < decimal(n).len() ==> '0' <= #[trigger] decimal(n)[i] <= '9',
    decreases n,
{
    if n >= 10 {
        lemma_decimal_digits(n / 10);
    }
}

proof fn lemma_decimal_len(n: nat)
    ensures
        decimal(n).len() >= 1,
        n >= 10 ==> decimal(n).len() >= 2,
    decreases n,
{
    if n >= 10 {
        lemma_decimal_len(n / 10);
    }
}

/// The numeral of one digit.
fn digit_str(d: u64) -> (s: &'static str)
    requires
        d < 10,
    ensures
        s@ == seq![digit(d as nat)],
{
    proof {
        reveal_strlit("0");
        reveal_strlit("1");
        reveal_strlit("2");
        reveal_strlit("3");
        reveal_strlit("4");
        reveal_strlit("5");
        reveal_strlit("6");
        reveal_strlit("7");
        reveal_strlit("8");
        reveal_strlit("9");
    }
    match d {
        0 => "0",
        1 => "1",
        2 => "2",
        3 => "3",
        4 => "4",
        5 => "5",
        6 => "6",
        7 => "7",
        8 => "8",
        _ => "9",
    }
}

/// Writes the decimal numeral of `n` at the end of `out`.
pub fn push_decimal(out: &mut String, n: u64)
    ensures
        final(out)@ == old(out)@ + decimal(n as nat),
    decreases n,
{
    if n >= 10 {
        push_decimal(out, n / 10);
    }
    let ghost before = out@;
    out.append(digit_str(n % 10));
    assert(out@ =~= before.push(digit((n % 10) as nat)));
    assert(out@ =~= old(out)@ + decimal(n as nat));
}

/// Writes the decimal numeral of `n` at the end of `out`, a minus sign before it where `n` is
/// negative.
pub fn push_decimal_int(out: &mut String, n: i32)
    ensures
        final(out)@ == old(out)@ + decimal_int(n as int),
{
    if n < 0 {
        proof {
            reveal_strlit("-");
        }
        out.append("-");
        push_decimal(out, (-(n as i64)) as u64);
        assert(out@ =~= old(out)@ + decimal_int(n as int));
    } else {
        push_decimal(out, n as u64);
    }
}

/// The number that a row of digits stands for.
pub open spec fn numeral_value(s: Seq<char>) -> int
    decreases s.len(),
{
    if s.len() == 0 {
        0
    } else {
        numeral_value(s.drop_last()) * 10 + (s.last() as u32 - '0' as u32)
    }
}

/// A numeral is a row of digits that stands for its number, without needless zeros before it.
pub proof fn law_numeral_stands_for_its_number(n: nat)
    ensures
        numeral_value(decimal(n)) == n,
        decimal(n).len() >= 1,
        forall|i: int| 0 <= i < decimal(n).len() ==> '0' <= #[trigger] decimal(n)[i] <= '9',
        n > 0 ==> decimal(n)[0] != '0',
        n == 0 ==> decimal(n).len() == 1,
    decreases n,
{
    lemma_decimal_digits(n);
    if n >= 10 {
        law_numeral_stands_for_its_number(n / 10);
        assert(decimal(n).drop_last() =~= decimal(n / 10));
    } else {
        reveal_with_fuel(numeral_value, 2);
        assert(decimal(n).drop_last() =~= Seq::empty());
    }
}

/// A negative number has a minus sign before the numeral of its amount, any other number has its
/// numeral alone.
pub proof fn law_signed_numeral_stands_for_its_number(n: int)
    ensures
        n >= 0 ==> numeral_value(decimal_int(n)) == n && decimal_int(n)[0] != '-',
        n < 0 ==> decimal_int(n)[0] == '-' && numeral_value(decimal_int(n).skip(1)) == -n,
{
    if n < 0 {
        law_numeral_stands_for_its_number((-n) as nat);
        assert(decimal_int(n).skip(1) =~= decimal((-n) as nat));
    } else {
        law_numeral_stands_for_its_number(n as nat);
    }
}

/// Making letters capital changes each character by itself: `a` to `z` become `A` to `Z`, all others
/// stay.
pub proof fn law_upper_goes_by_characters(s: Seq<char>)
    ensures
        upper(s).len() == s.len(),
        forall|i: int|
            0 <= i < s.len() ==> #[trigger] upper(s)[i] == if 'a' <= s[i] <= 'z' {
                ((s[i] as u32) - 32) as char
            } else {
                s[i]
            },
{
}

/// A part occurs exactly where the text is something, the part, and something.
pub proof fn law_occurs_is_a_part(s: Seq<char>, part: Seq<char>)
    ensures
        occurs(s, part) <==> exists|before: Seq<char>, after: Seq<char>|
            s == #[trigger] (before + part + after),
{
    if occurs(s, part) {
        let at = choose|at: int| #[trigger] stands_at(s, part, at);
        assert(s =~= s.take(at) + part + s.skip(at + part.len()));
    }
    if exists|before: Seq<char>, after: Seq<char>| s == #[trigger] (before + part + after) {
        let (before, after) = choose|before: Seq<char>, after: Seq<char>|
            s == #[trigger] (before + part + after);
        let at = before.len() as int;
        assert(s.subrange(at, at + part.len()) =~= part);
        assert(stands_at(s, part, at));
    }
}

/// A text is cut at its first separator, and not at all where it has none.
pub proof fn law_cut_parts_at_the_first(before: Seq<char>, sep: char, after: Seq<char>)
    requires
        forall|i: int| 0 <= i < before.len() ==> before[i] != sep,
    ensures
        cut(before + seq![sep] + after, sep) == Some((before, after)),
        cut(before, sep) is None,
{
    let s = before + seq![sep] + after;
    s.index_of_first_ensures(sep);
    before.index_of_first_ensures(sep);
    assert(s[before.len() as int] == sep);
    let at = s.index_of_first(sep)->0;
    if at < before.len() {
        assert(s[at] == before[at]);
    }
    assert(s.take(at) =~= before);
    assert(s.skip(at + 1) =~= after);
    assert(!before.contains(sep));
}

/// Trimming takes away the whitespace around a text, all of it, and nothing else.
pub proof fn law_trim_takes_the_whitespace_around(
    lead: Seq<char>,
    core: Seq<char>,
    tail: Seq<char>,
)
    requires
        forall|i: int| 0 <= i < lead.len() ==> is_space(#[trigger] lead[i]),
        forall|i: int| 0 <= i < tail.len() ==> is_space(#[trigger] tail[i]),
        core.len() > 0 ==> !is_space(core[0]) && !is_space(core.last()),
        core.len() == 0 ==> tail.len() == 0,
    ensures
        trimmed(lead + core + tail) == core,
{
    let s = lead + core + tail;
    assert forall|i: int| 0 <= i < lead.len() implies is_space(#[trigger] s[i]) by {
        assert(s[i] == lead[i]);
    }
    lemma_trim_front_skip(s, lead.len() as int);
    let rest = s.skip(lead.len() as int);
    assert(rest =~= core + tail);
    if core.len() > 0 {
        assert(rest[0] == core[0]);
        assert(trim_front(rest) == rest);
        assert forall|i: int| core.len() <= i < rest.len() implies is_space(#[trigger] rest[i]) by {
            assert(rest[i] == tail[i - core.len()]);
        }
        lemma_trim_back_take(rest, core.len() as int);
        assert(rest.take(core.len() as int) =~= core);
        assert(trim_back(core) == core);
    } else {
        assert(rest =~= core);
    }
}

/// A trimmed text is a part of the text, from its start where that is no whitespace.
pub proof fn lemma_trimmed_is_a_part(s: Seq<char>)
    ensures
        exists|from: int|
            0 <= from && from + trimmed(s).len() <= s.len() && #[trigger] s.skip(from).take(
                trimmed(s).len() as int,
            ) == trimmed(s) && (s.len() > 0 && !is_space(s[0]) ==> from == 0),
{
    lemma_trim_front_is_a_part(s);
    let front = trim_front(s);
    let from = choose|from: int|
        0 <= from <= s.len() && #[trigger] s.skip(from) == front && (s.len() > 0 && !is_space(s[0])
            ==> from == 0);
    lemma_trim_back_is_a_part(front);
    assert(s.skip(from).take(trimmed(s).len() as int) == trimmed(s));
}

proof fn lemma_trim_front_is_a_part(s: Seq<char>)
    ensures
        exists|from: int|
            0 <= from <= s.len() && #[trigger] s.skip(from) == trim_front(s) && (s.len() > 0
                && !is_space(s[0]) ==> from == 0),
    decreases s.len(),
{
    if s.len() > 0 && is_space(s[0]) {
        let shorter = s.skip(1);
        lemma_trim_front_is_a_part(shorter);
        let from = choose|from: int|
            0 <= from <= shorter.len() && #[trigger] shorter.skip(from) == trim_front(shorter) && (
            shorter.len() > 0 && !is_space(shorter[0]) ==> from == 0);
        assert(s.skip(from + 1) =~= shorter.skip(from));
    } else {
        assert(s.skip(0) =~= s);
    }
}

proof fn lemma_trim_back_is_a_part(s: Seq<char>)
    ensures
        trim_back(s).len() <= s.len(),
        s.take(trim_back(s).len() as int) == trim_back(s),
    decreases s.len(),
{
    if s.len() > 0 && is_space(s.last()) {
        lemma_trim_back_is_a_part(s.drop_last());
        assert(s.take(trim_back(s).len() as int) =~= s.drop_last().take(trim_back(s).len() as int));
    } else {
        assert(s.take(s.len() as int) =~= s);
    }
}

/// A word behind whitespace, or at the start, is the last of the words; the words before it stay.
pub proof fn law_word_behind_whitespace(lead: Seq<char>, word: Seq<char>)
    requires
        lead.len() == 0 || is_space(lead.last()),
        word.len() > 0,
        forall|i: int| 0 <= i < word.len() ==> !is_space(#[trigger] word[i]),
    ensures
        words(lead + word) == words(lead).push(word),
    decreases lead.len(),
{
    let s = lead + word;
    if lead.len() == 0 {
        assert(s =~= word);
        lemma_word_len_is(word, word.len() as int);
        assert(word.take(word.len() as int) =~= word);
        assert(word.skip(word.len() as int) =~= Seq::empty());
        assert(words(Seq::<char>::empty()) =~= Seq::empty());
        assert(words(word) == seq![word.take(word.len() as int)] + words(
            word.skip(word.len() as int),
        ));
        assert(words(word) =~= seq![word]);
        assert(lead =~= Seq::empty());
        assert(words(s) =~= words(lead).push(word));
    } else if is_space(lead[0]) {
        assert(s[0] == lead[0]);
        assert(s.skip(1) =~= lead.skip(1) + word);
        if lead.len() > 1 {
            assert(lead.skip(1).last() == lead.last());
        }
        law_word_behind_whitespace(lead.skip(1), word);
    } else {
        lemma_word_len(lead);
        let n = word_len(lead) as int;
        if n == lead.len() {
            assert(!is_space(lead[n - 1]));
        }
        assert(s[0] == lead[0]);
        assert forall|i: int| 0 <= i < n implies !is_space(#[trigger] s[i]) by {
            assert(s[i] == lead[i]);
        }
        assert(s[n] == lead[n]);
        lemma_word_len_is(s, n);
        assert(s.take(n) =~= lead.take(n));
        assert(s.skip(n) =~= lead.skip(n) + word);
        assert(lead.skip(n).last() == lead.last());
        law_word_behind_whitespace(lead.skip(n), word);
        assert(words(s) == seq![s.take(n)] + words(s.skip(n)));
        assert(words(lead) == seq![lead.take(n)] + words(lead.skip(n)));
        assert(words(s) =~= words(lead).push(word));
    }
}

/// Whitespace at the end of a text adds no word, and a text of whitespace alone has none.
pub proof fn law_whitespace_is_no_word(lead: Seq<char>, space: char)
    requires
        is_space(space),
    ensures
        words(lead.push(space)) == words(lead),
        words(Seq::<char>::empty()) == Seq::<Seq<char>>::empty(),
    decreases lead.len(),
{
    let s = lead.push(space);
    if lead.len() == 0 {
        assert(s.skip(1) =~= Seq::empty());
    } else if is_space(lead[0]) {
        assert(s[0] == lead[0]);
        assert(s.skip(1) =~= lead.skip(1).push(space));
        law_whitespace_is_no_word(lead.skip(1), space);
    } else {
        lemma_word_len(lead);
        let n = word_len(lead) as int;
        assert(s[0] == lead[0]);
        assert forall|i: int| 0 <= i < n implies !is_space(#[trigger] s[i]) by {
            assert(s[i] == lead[i]);
        }
        if n < lead.len() {
            assert(s[n] == lead[n]);
        }
        lemma_word_len_is(s, n);
        assert(s.take(n) =~= lead.take(n));
        assert(s.skip(n) =~= lead.skip(n).push(space));
        law_whitespace_is_no_word(lead.skip(n), space);
        assert(words(s) == seq![s.take(n)] + words(s.skip(n)));
        assert(words(lead) == seq![lead.take(n)] + words(lead.skip(n)));
    }
}

/// The characters of an optional string are those of the string.
pub proof fn law_text_of_is_the_text(s: String)
    ensures
        text_of(Some(s)) == Some(s@),
        text_of(None) is None,
{
}

} // verus!
