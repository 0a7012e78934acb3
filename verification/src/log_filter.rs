//! The filter of the log, which the 1C side can change at run time.
use vstd::prelude::*;

use crate::text;

verus! {

/// Whether a text is a filter of the log.
pub uninterp spec fn is_log_filter(filter: Seq<char>) -> bool;

/// How many bytes a character takes in UTF-8.
pub open spec fn width(c: char) -> nat {
    let n = c as u32;
    if n < 0x80 {
        1
    } else if n < 0x800 {
        2
    } else if n < 0x1_0000 {
        3
    } else {
        4
    }
}

/// How many bytes a text takes in UTF-8.
pub open spec fn byte_len(s: Seq<char>) -> nat
    decreases s.len(),
{
    if s.len() == 0 {
        0
    } else {
        byte_len(s.drop_last()) + width(s.last())
    }
}

/// Whether a text can be cut at a byte: one where a character begins, or the end.
pub open spec fn is_boundary(s: Seq<char>, at: nat) -> bool {
    exists|k: int| 0 <= k <= s.len() && #[trigger] byte_len(s.take(k)) == at
}

/// Where the reader of a directive stands. A number is the byte at which a part began, counted
/// without the whitespace before the directive.
pub ghost enum Reading {
    Start,
    /// In the target, or in a level without one.
    Target,
    Span(nat),
    Field(nat),
    /// Behind the closing brace of the fields.
    Fields,
    /// Behind the closing bracket.
    Behind,
    Level(nat),
}

/// Whether every cut that is made from the character `at` of `trimmed` on, which stands at the byte
/// `byte`, is one that `directive` allows. `trimmed` is the directive without the whitespace around
/// it: the reader finds the bytes in it, and cuts the directive with its whitespace there. What the
/// reader refuses makes no cut.
pub open spec fn cuts_fit(
    directive: Seq<char>,
    trimmed: Seq<char>,
    at: int,
    byte: nat,
    reading: Reading,
) -> bool
    decreases trimmed.len() - at,
{
    if at < 0 || at >= trimmed.len() {
        match reading {
            Reading::Level(start) => is_boundary(directive, start),
            _ => true,
        }
    } else {
        let c = trimmed[at];
        let next = byte + width(c);
        match reading {
            Reading::Start => cuts_fit(
                directive,
                trimmed,
                at + 1,
                next,
                if c == '[' {
                    Reading::Span(next)
                } else {
                    Reading::Target
                },
            ),
            Reading::Target => if c == '=' {
                is_boundary(directive, byte) && cuts_fit(
                    directive,
                    trimmed,
                    at + 1,
                    next,
                    Reading::Level(next),
                )
            } else if c == '[' {
                is_boundary(directive, byte) && cuts_fit(
                    directive,
                    trimmed,
                    at + 1,
                    next,
                    Reading::Span(next),
                )
            } else {
                cuts_fit(directive, trimmed, at + 1, next, reading)
            },
            Reading::Span(start) => if c == ']' || c == '{' {
                is_boundary(directive, start) && is_boundary(directive, byte) && cuts_fit(
                    directive,
                    trimmed,
                    at + 1,
                    next,
                    if c == ']' {
                        Reading::Behind
                    } else {
                        Reading::Field(next)
                    },
                )
            } else {
                cuts_fit(directive, trimmed, at + 1, next, reading)
            },
            Reading::Field(start) => if c == '}' {
                is_boundary(directive, start) && is_boundary(directive, byte) && cuts_fit(
                    directive,
                    trimmed,
                    at + 1,
                    next,
                    Reading::Fields,
                )
            } else {
                cuts_fit(directive, trimmed, at + 1, next, reading)
            },
            Reading::Fields => c == ']' ==> cuts_fit(
                directive,
                trimmed,
                at + 1,
                next,
                Reading::Behind,
            ),
            Reading::Behind => c == '=' ==> cuts_fit(
                directive,
                trimmed,
                at + 1,
                next,
                Reading::Level(next),
            ),
            Reading::Level(_) => cuts_fit(directive, trimmed, at + 1, next, reading),
        }
    }
}

/// Whether a directive can be tried.
pub open spec fn directive_can_be_tried(directive: Seq<char>) -> bool {
    cuts_fit(directive, text::trimmed(directive), 0, 0, Reading::Start)
}

/// Whether a text can be tried as a filter: none of its directives, which are parted by commas, is
/// cut inside a character. Whether the reader refuses a part before it comes to a cut is not looked
/// at, since the text is no filter then. So every filter can be tried.
pub open spec fn can_be_tried(filter: Seq<char>) -> bool
    decreases filter.len(),
{
    match text::cut(filter, ',') {
        Some((directive, rest)) => {
            proof {
                filter.index_of_first_ensures(',');
            }
            directive_can_be_tried(directive) && can_be_tried(rest)
        },
        None => directive_can_be_tried(filter),
    }
}

/// Tries a text with `tracing_subscriber::EnvFilter::try_new`. Whether it is taken is a function of
/// the text alone. The function finds the parts of a directive in the directive without the
/// whitespace around it, and cuts the directive with that whitespace at the bytes that it found; it
/// panics where such a byte lies inside a character.
#[verifier::external_body]
fn is_filter(filter: &str) -> (yes: bool)
    requires
        can_be_tried(filter@),
    ensures
        yes == is_log_filter(filter@),
{
    tracing_subscriber::EnvFilter::try_new(filter).is_ok()
}

/// [`Reading`] at run time.
#[derive(Clone, Copy)]
enum ReadingState {
    Start,
    Target,
    Span(u128),
    Field(u128),
    Fields,
    Behind,
    Level(u128),
}

impl View for ReadingState {
    type V = Reading;

    closed spec fn view(&self) -> Reading {
        match *self {
            ReadingState::Start => Reading::Start,
            ReadingState::Target => Reading::Target,
            ReadingState::Span(start) => Reading::Span(start as nat),
            ReadingState::Field(start) => Reading::Field(start as nat),
            ReadingState::Fields => Reading::Fields,
            ReadingState::Behind => Reading::Behind,
            ReadingState::Level(start) => Reading::Level(start as nat),
        }
    }
}

fn width_of(c: char) -> (n: u128)
    ensures
        n == width(c),
{
    let code: u32 = c as u32;
    if code < 0x80 {
        1
    } else if code < 0x800 {
        2
    } else if code < 0x1_0000 {
        3
    } else {
        4
    }
}

fn can_cut(chars: &Vec<char>, at: u128) -> (yes: bool)
    ensures
        yes == is_boundary(chars@, at as nat),
{
    let mut byte: u128 = 0;
    let mut k: usize = 0;
    assert(byte_len(chars@.take(0)) == 0);
    while k < chars.len()
        invariant
            k <= chars.len(),
            byte == byte_len(chars@.take(k as int)),
            byte <= 4 * k,
            forall|j: int| 0 <= j < k ==> #[trigger] byte_len(chars@.take(j)) != at,
        decreases chars.len() - k,
    {
        if byte == at {
            return true;
        }
        let ghost longer = chars@.take(k + 1);
        assert(longer.drop_last() =~= chars@.take(k as int));
        assert(longer.last() == chars@[k as int]);
        byte = byte + width_of(chars[k]);
        k = k + 1;
    }
    assert(byte == at ==> byte_len(chars@.take(k as int)) == at);
    byte == at
}

fn directive_is_safe(directive: &str) -> (yes: bool)
    ensures
        yes == directive_can_be_tried(directive@),
{
    let whole: Vec<char> = text::chars_of(directive);
    let chars: Vec<char> = text::chars_of(text::trim(directive));
    let ghost d = whole@;
    let ghost t = chars@;
    let mut byte: u128 = 0;
    let mut state = ReadingState::Start;
    let mut i: usize = 0;
    while i < chars.len()
        invariant
            whole@ == d,
            chars@ == t,
            d == directive@,
            t == text::trimmed(d),
            i <= chars.len(),
            byte <= 4 * i,
            cuts_fit(d, t, i as int, byte as nat, state@) == directive_can_be_tried(d),
        decreases chars.len() - i,
    {
        let c: char = chars[i];
        let next: u128 = byte + width_of(c);
        state = match state {
            ReadingState::Start => if c == '[' {
                ReadingState::Span(next)
            } else {
                ReadingState::Target
            },
            ReadingState::Target => if c == '=' || c == '[' {
                if !can_cut(&whole, byte) {
                    return false;
                }
                if c == '=' {
                    ReadingState::Level(next)
                } else {
                    ReadingState::Span(next)
                }
            } else {
                state
            },
            ReadingState::Span(start) => if c == ']' || c == '{' {
                if !can_cut(&whole, start) || !can_cut(&whole, byte) {
                    return false;
                }
                if c == ']' {
                    ReadingState::Behind
                } else {
                    ReadingState::Field(next)
                }
            } else {
                state
            },
            ReadingState::Field(start) => if c == '}' {
                if !can_cut(&whole, start) || !can_cut(&whole, byte) {
                    return false;
                }
                ReadingState::Fields
            } else {
                state
            },
            ReadingState::Fields => {
                if c != ']' {
                    return true;
                }
                ReadingState::Behind
            },
            ReadingState::Behind => {
                if c != '=' {
                    return true;
                }
                ReadingState::Level(next)
            },
            ReadingState::Level(_) => state,
        };
        byte = next;
        i = i + 1;
    }
    match state {
        ReadingState::Level(start) => can_cut(&whole, start),
        _ => true,
    }
}

/// Whether a text can be tried as a filter.
pub fn is_safe_to_try(filter: &str) -> (yes: bool)
    ensures
        yes == can_be_tried(filter@),
{
    let mut rest = filter;
    loop
        invariant
            can_be_tried(rest@) == can_be_tried(filter@),
        decreases rest@.len(),
    {
        match text::cut_at(rest, ',') {
            Some((directive, others)) => {
                proof {
                    rest@.index_of_first_ensures(',');
                }
                if !directive_is_safe(directive) {
                    return false;
                }
                rest = others;
            },
            None => {
                return directive_is_safe(rest);
            },
        }
    }
}

/// The filter that a request asks for: the text without the whitespace around it. Returns `None`
/// where nothing is left of it, where it cannot be tried, or where it is no filter.
pub fn requested_filter(level: &str) -> (out: Option<&str>)
    ensures
        match out {
            Some(filter) => filter@ == text::trimmed(level@) && filter@.len() > 0 && can_be_tried(
                filter@,
            ) && is_log_filter(filter@),
            None => text::trimmed(level@).len() == 0 || !can_be_tried(text::trimmed(level@))
                || !is_log_filter(text::trimmed(level@)),
        },
{
    let filter = text::trim(level);
    choose_filter(filter, !filter.is_empty() && is_safe_to_try(filter) && is_filter(filter))
}

/// `filter` where there is something in it and it was taken as a filter.
pub fn choose_filter(filter: &str, taken: bool) -> (out: Option<&str>)
    ensures
        match out {
            Some(chosen) => chosen@ == filter@ && filter@.len() > 0 && taken,
            None => filter@.len() == 0 || !taken,
        },
{
    if !filter.is_empty() && taken {
        Some(filter)
    } else {
        None
    }
}

/// Where the parts that have begun can be cut.
spec fn begun_fits(directive: Seq<char>, reading: Reading) -> bool {
    match reading {
        Reading::Span(start) => is_boundary(directive, start),
        Reading::Field(start) => is_boundary(directive, start),
        Reading::Level(start) => is_boundary(directive, start),
        _ => true,
    }
}

proof fn lemma_all_cuts_fit(
    directive: Seq<char>,
    trimmed: Seq<char>,
    at: int,
    byte: nat,
    reading: Reading,
)
    requires
        0 <= at <= trimmed.len(),
        byte == byte_len(trimmed.take(at)),
        forall|k: int|
            0 <= k <= trimmed.len() ==> is_boundary(
                directive,
                #[trigger] byte_len(trimmed.take(k)),
            ),
        begun_fits(directive, reading),
    ensures
        cuts_fit(directive, trimmed, at, byte, reading),
    decreases trimmed.len() - at,
{
    if at < trimmed.len() {
        let longer = trimmed.take(at + 1);
        assert(longer.drop_last() =~= trimmed.take(at));
        assert(longer.last() == trimmed[at]);
        let next = byte + width(trimmed[at]);
        assert(next == byte_len(longer));
        assert(is_boundary(directive, byte_len(trimmed.take(at + 1))));
        assert(is_boundary(directive, byte_len(trimmed.take(at))));
        lemma_all_cuts_fit(directive, trimmed, at + 1, next, Reading::Target);
        lemma_all_cuts_fit(directive, trimmed, at + 1, next, Reading::Span(next));
        lemma_all_cuts_fit(directive, trimmed, at + 1, next, Reading::Field(next));
        lemma_all_cuts_fit(directive, trimmed, at + 1, next, Reading::Level(next));
        lemma_all_cuts_fit(directive, trimmed, at + 1, next, Reading::Fields);
        lemma_all_cuts_fit(directive, trimmed, at + 1, next, Reading::Behind);
        lemma_all_cuts_fit(directive, trimmed, at + 1, next, reading);
    }
}

proof fn lemma_ascii_len(s: Seq<char>)
    requires
        forall|i: int| 0 <= i < s.len() ==> (#[trigger] s[i] as u32) < 0x80,
    ensures
        byte_len(s) == s.len(),
    decreases s.len(),
{
    if s.len() > 0 {
        lemma_ascii_len(s.drop_last());
    }
}

/// A directive that does not begin with whitespace can be tried, whatever it holds.
pub proof fn law_directive_from_its_start_can_be_tried(directive: Seq<char>)
    requires
        directive.len() == 0 || !text::is_space(directive[0]),
    ensures
        directive_can_be_tried(directive),
{
    let trimmed = text::trimmed(directive);
    text::lemma_trimmed_is_a_part(directive);
    let from = choose|from: int|
        0 <= from && from + trimmed.len() <= directive.len() && #[trigger] directive.skip(
            from,
        ).take(trimmed.len() as int) == trimmed && (directive.len() > 0 && !text::is_space(
            directive[0],
        ) ==> from == 0);
    assert forall|k: int| 0 <= k <= trimmed.len() implies is_boundary(
        directive,
        #[trigger] byte_len(trimmed.take(k)),
    ) by {
        assert(trimmed.take(k) =~= directive.take(k));
        assert(byte_len(directive.take(k)) == byte_len(trimmed.take(k)));
    }
    assert(trimmed.take(0) =~= Seq::empty());
    lemma_all_cuts_fit(directive, trimmed, 0, 0, Reading::Start);
}

/// A directive of ASCII characters can be tried, whatever whitespace it begins with.
pub proof fn law_ascii_directive_can_be_tried(directive: Seq<char>)
    requires
        forall|i: int| 0 <= i < directive.len() ==> (#[trigger] directive[i] as u32) < 0x80,
    ensures
        directive_can_be_tried(directive),
{
    let trimmed = text::trimmed(directive);
    text::lemma_trimmed_is_a_part(directive);
    let from = choose|from: int|
        0 <= from && from + trimmed.len() <= directive.len() && #[trigger] directive.skip(
            from,
        ).take(trimmed.len() as int) == trimmed && (directive.len() > 0 && !text::is_space(
            directive[0],
        ) ==> from == 0);
    assert forall|k: int| 0 <= k <= trimmed.len() implies is_boundary(
        directive,
        #[trigger] byte_len(trimmed.take(k)),
    ) by {
        assert forall|i: int| 0 <= i < k implies (#[trigger] trimmed.take(k)[i] as u32) < 0x80 by {
            assert(trimmed[i] == directive.skip(from).take(trimmed.len() as int)[i]);
            assert(trimmed.take(k)[i] == directive[from + i]);
        }
        lemma_ascii_len(trimmed.take(k));
        lemma_ascii_len(directive.take(k));
        assert(byte_len(directive.take(k)) == k);
    }
    assert(trimmed.take(0) =~= Seq::empty());
    lemma_all_cuts_fit(directive, trimmed, 0, 0, Reading::Start);
}

/// A filter goes by its directives: it can be tried exactly where each of them can.
pub proof fn law_filter_goes_by_its_directives(directive: Seq<char>, rest: Seq<char>)
    requires
        forall|i: int| 0 <= i < directive.len() ==> directive[i] != ',',
    ensures
        can_be_tried(directive) == directive_can_be_tried(directive),
        can_be_tried(directive + seq![','] + rest) == (directive_can_be_tried(directive)
            && can_be_tried(rest)),
{
    text::law_cut_parts_at_the_first(directive, ',', rest);
}

/// A directive that would be cut inside a character is not tried: one of a space, a character that is
/// not ASCII, and `=`.
pub proof fn law_cut_inside_a_character_is_not_tried(c: char, rest: Seq<char>)
    requires
        c as u32 >= 0x80,
        !text::is_space(c),
        rest.len() > 0 ==> !text::is_space(rest.last()),
    ensures
        !directive_can_be_tried(seq![' ', c, '='] + rest),
{
    let directive = seq![' ', c, '='] + rest;
    let core = seq![c, '='] + rest;
    assert(directive =~= seq![' '] + core + Seq::<char>::empty());
    text::law_trim_takes_the_whitespace_around(seq![' '], core, Seq::empty());
    let w = width(c);
    if is_boundary(directive, w) {
        let k = choose|k: int|
            0 <= k <= directive.len() && #[trigger] byte_len(directive.take(k)) == w;
        assert(directive.take(0) =~= Seq::empty());
        assert(directive.take(1).drop_last() =~= directive.take(0));
        assert(byte_len(directive.take(0)) == 0);
        assert(directive.take(1).last() == ' ');
        assert(byte_len(directive.take(1)) == 1);
        assert(directive.take(2).last() == c);
        assert(directive.take(2).drop_last() =~= directive.take(1));
        assert(byte_len(directive.take(2)) == 1 + w);
        if k >= 2 {
            lemma_byte_len_grows(directive, 2, k);
        }
    }
    assert(cuts_fit(directive, core, 0, 0, Reading::Start) == cuts_fit(
        directive,
        core,
        1,
        w,
        Reading::Target,
    ));
}

proof fn lemma_byte_len_grows(s: Seq<char>, a: int, b: int)
    requires
        0 <= a <= b <= s.len(),
    ensures
        byte_len(s.take(a)) <= byte_len(s.take(b)),
    decreases b - a,
{
    if a < b {
        lemma_byte_len_grows(s, a, b - 1);
        assert(s.take(b).drop_last() =~= s.take(b - 1));
    }
}

} // verus!
