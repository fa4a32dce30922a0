//! Display text: short view counts, clock-style timestamps and caption
//! lines without speaker marks.

use crate::binary64::{
    excess_bits,
    fraction_places,
    lemma_excess_bits_leave_a_significand,
    lemma_fraction_places_leave_a_significand,
    lemma_ratio_tenths_are_near,
    lemma_round_half_even_is_nearest,
    lemma_small_whole_is_exact,
    nearest_to_whole,
    nearest_whole,
    ratio_tenths,
    tenths_of_ratio,
    whole_part,
    Seconds,
    SIGNIFICAND_LIMIT,
};
use crate::decimal::{
    decimal,
    digit_char,
    digit_of,
    parse_count,
    parsed_count,
    push_decimal,
    push_two_places,
    two_places,
};
use crate::text::to_chars;
use vstd::arithmetic::power2::{lemma2_to64, lemma2_to64_rest, lemma_pow2_pos, pow2};
use vstd::prelude::*;

verus! {

/// A thousand, the unit of counts that end in `K`.
pub const THOUSAND: u64 = 1_000;

/// A million, the unit of counts that end in `M`.
pub const MILLION: u64 = 1_000_000;

/// A thousand millions, the unit of counts that end in `B`.
pub const BILLION: u64 = 1_000_000_000;

/// The unit in which a count of a thousand or more is given: the largest of
/// the three that the count reaches.
pub open spec fn unit_of(count: nat) -> nat {
    if count >= BILLION {
        BILLION as nat
    } else if count >= MILLION {
        MILLION as nat
    } else {
        THOUSAND as nat
    }
}

/// The letter that stands for `unit_of(count)`.
pub open spec fn suffix_of(count: nat) -> char {
    if count >= BILLION {
        'B'
    } else if count >= MILLION {
        'M'
    } else {
        'K'
    }
}

/// A count of a thousand or more in tenths of its unit. The count and the
/// ratio are binary64 numbers: each is the nearest that there is, and the
/// tenths are the nearest to that ratio.
pub open spec fn scaled_tenths(count: nat) -> nat {
    ratio_tenths(nearest_to_whole(count), unit_of(count))
}

/// A number of tenths with one decimal place, or with none where that place
/// would hold a zero.
pub open spec fn tenths_text(tenths: nat) -> Seq<char> {
    if tenths % 10 == 0 {
        decimal(tenths / 10)
    } else {
        decimal(tenths / 10) + seq!['.', digit_char(tenths % 10)]
    }
}

/// A count as it is shown: in full below a thousand, else in its unit with
/// at most one decimal place and the unit's letter.
pub open spec fn count_text(count: nat) -> Seq<char> {
    if count < THOUSAND {
        decimal(count)
    } else {
        tenths_text(scaled_tenths(count)).push(suffix_of(count))
    }
}

/// A raw view count as it is shown: what writes no count stays as it is.
pub open spec fn views_text(raw: Seq<char>) -> Seq<char> {
    match parsed_count(raw) {
        Some(count) => count_text(count as nat),
        None => raw,
    }
}

/// The text of a count.
pub fn format_count(count: u64) -> (out: String)
    ensures
        out@ == count_text(count as nat),
{
    let mut out = String::new();
    if count < THOUSAND {
        push_decimal(&mut out, count);
        assert(Seq::<char>::empty() + decimal(count as nat) =~= decimal(count as nat));
        return out;
    }
    let (unit, suffix): (u64, char) = if count >= BILLION {
        (BILLION, 'B')
    } else if count >= MILLION {
        (MILLION, 'M')
    } else {
        (THOUSAND, 'K')
    };
    let nearest: u128 = nearest_whole(count);
    let tenths: u64 = tenths_of_ratio(nearest, unit as u128);
    push_decimal(&mut out, tenths / 10);
    if tenths % 10 != 0 {
        out.push('.');
        out.push(digit_of((tenths % 10) as u8));
    }
    out.push(suffix);
    proof {
        let whole = decimal(tenths as nat / 10);
        assert(Seq::<char>::empty() + whole =~= whole);
        assert(whole.push('.').push(digit_char(tenths as nat % 10)) =~= whole + seq![
            '.',
            digit_char(tenths as nat % 10),
        ]);
    }
    out
}

/// Formats a raw view count for display.
///
/// A count below a thousand is written in full. A larger one is divided by
/// the largest of a thousand, a million and a thousand millions that it
/// reaches, written with one decimal place, without that place where it is a
/// zero, and followed by `K`, `M` or `B`. The division is that of binary64
/// numbers, so the place is the one that floating point gives: 1250 is
/// `1.2K`, 1350 is `1.4K`, and 1150, whose ratio lies a little under 1.15, is
/// `1.1K`. Nothing is scaled twice: 999950 is `1000K`. Text that writes no
/// count, or one that 64 bits do not hold, is handed back as it came.
pub fn format_views(views: &str) -> (out: String)
    ensures
        out@ == views_text(views@),
{
    let chars = to_chars(views);
    match parse_count(&chars) {
        Some(count) => format_count(count),
        None => String::from_str(views),
    }
}

/// A number of whole seconds on a clock: hours, minutes and seconds on two
/// places each, without the hours where there are none.
pub open spec fn timestamp_text(total: nat) -> Seq<char> {
    let hours: nat = total / 3600;
    let minutes: nat = (total % 3600) / 60;
    let seconds: nat = total % 60;
    if hours > 0 {
        two_places(hours) + seq![':'] + two_places(minutes) + seq![':'] + two_places(seconds)
    } else {
        two_places(minutes) + seq![':'] + two_places(seconds)
    }
}

/// The clock text of a number of whole seconds.
pub fn format_whole_seconds(total: u64) -> (out: String)
    ensures
        out@ == timestamp_text(total as nat),
{
    let hours: u64 = total / 3600;
    let minutes: u64 = (total % 3600) / 60;
    let seconds: u64 = total % 60;
    let mut out = String::new();
    if hours > 0 {
        push_two_places(&mut out, hours);
        out.push(':');
    }
    push_two_places(&mut out, minutes);
    out.push(':');
    push_two_places(&mut out, seconds);
    proof {
        let h = two_places(hours as nat);
        let m = two_places(minutes as nat);
        let s = two_places(seconds as nat);
        assert(((Seq::<char>::empty() + h).push(':') + m).push(':') + s =~= h + seq![':'] + m
            + seq![':'] + s);
        assert((Seq::<char>::empty() + m).push(':') + s =~= m + seq![':'] + s);
    }
    out
}

/// Formats a time in seconds as a clock: the seconds are cut to whole
/// seconds, not rounded.
pub fn seconds_to_timestamp(seconds: Seconds) -> (out: String)
    ensures
        out@ == timestamp_text(whole_part(seconds.bits)),
{
    format_whole_seconds(seconds.whole())
}

/// The mark that some caption sources put where the speaker changes: two
/// `>` and the space after them.
pub open spec fn speaker_mark() -> Seq<char> {
    seq!['>', '>', ' ']
}

/// Whether `s` begins with the speaker mark.
pub open spec fn starts_with_mark(s: Seq<char>) -> bool {
    s.len() >= 3 && s[0] == '>' && s[1] == '>' && s[2] == ' '
}

/// `s` without the speaker marks in it, read from the left: what the
/// removal of one mark brings together is not read as a mark again.
pub open spec fn without_marks(s: Seq<char>) -> Seq<char>
    decreases s.len(),
{
    if s.len() == 0 {
        s
    } else if starts_with_mark(s) {
        without_marks(s.skip(3))
    } else {
        seq![s[0]] + without_marks(s.skip(1))
    }
}

/// A line in which no `>` stands is left as it is.
pub proof fn lemma_line_without_marks_is_kept(s: Seq<char>)
    requires
        forall|i: int| 0 <= i < s.len() ==> s[i] != '>',
    ensures
        without_marks(s) == s,
    decreases s.len(),
{
    if s.len() > 0 {
        let rest = s.skip(1);
        assert forall|i: int| 0 <= i < rest.len() implies rest[i] != '>' by {
            assert(rest[i] == s[i + 1]);
        }
        lemma_line_without_marks_is_kept(rest);
        assert(seq![s[0]] + rest =~= s);
    }
}

/// Removing the marks never makes a line longer.
pub proof fn lemma_without_marks_is_no_longer(s: Seq<char>)
    ensures
        without_marks(s).len() <= s.len(),
    decreases s.len(),
{
    if s.len() > 0 {
        if starts_with_mark(s) {
            lemma_without_marks_is_no_longer(s.skip(3));
        } else {
            lemma_without_marks_is_no_longer(s.skip(1));
        }
    }
}

/// Removes every speaker mark from a caption line.
pub fn clean_caption_text(text: &str) -> (out: String)
    ensures
        out@ == without_marks(text@),
{
    let chars = to_chars(text);
    let n: usize = chars.len();
    let mut out = String::new();
    let mut i: usize = 0;
    assert(chars@.skip(0) =~= chars@);
    assert(Seq::<char>::empty() + without_marks(chars@) =~= without_marks(chars@));
    while i < n
        invariant
            i <= n == chars.len(),
            chars@ == text@,
            out@ + without_marks(chars@.skip(i as int)) == without_marks(text@),
        decreases n - i,
    {
        let ghost rest = chars@.skip(i as int);
        if n - i >= 3 && chars[i] == '>' && chars[i + 1] == '>' && chars[i + 2] == ' ' {
            assert(starts_with_mark(rest));
            assert(rest.skip(3) =~= chars@.skip(i + 3));
            i += 3;
        } else {
            assert(!starts_with_mark(rest));
            assert(rest.skip(1) =~= chars@.skip(i + 1));
            assert(out@.push(chars@[i as int]) + without_marks(rest.skip(1)) =~= out@ + (seq![
                rest[0],
            ] + without_marks(rest.skip(1))));
            out.push(chars[i]);
            i += 1;
        }
    }
    assert(without_marks(chars@.skip(n as int)) =~= Seq::<char>::empty());
    assert(out@ + Seq::<char>::empty() =~= out@);
    out
}

/// A count that is shown is shown the same again: the text of a count below
/// a thousand writes that count, and the text of a greater one ends in a
/// letter, so that it writes no count and stays as it is.
pub proof fn lemma_views_text_idempotent(raw: Seq<char>)
    ensures
        views_text(views_text(raw)) == views_text(raw),
{
    match parsed_count(raw) {
        Some(count) => {
            if count < THOUSAND {
                crate::decimal::lemma_parse_of_decimal(count);
            } else {
                crate::decimal::lemma_no_count_without_final_digit(count_text(count as nat));
            }
        },
        None => {},
    }
}

/// What is shown of a count of a thousand or more lies within one tenth of
/// the count over its unit.
pub proof fn lemma_scaled_tenths_are_near(count: nat)
    requires
        THOUSAND <= count <= u64::MAX,
    ensures
        10 * count - unit_of(count) <= scaled_tenths(count) * unit_of(count),
        scaled_tenths(count) * unit_of(count) <= 10 * count + unit_of(count),
{
    let unit: int = unit_of(count) as int;
    let nearest: int = nearest_to_whole(count) as int;
    let grain: int = pow2(excess_bits(count)) as int;
    let n: int = count as int;
    lemma2_to64();
    lemma2_to64_rest();
    lemma_pow2_pos(excess_bits(count));
    if count < SIGNIFICAND_LIMIT {
        lemma_small_whole_is_exact(count);
        assert(grain == 1);
    } else {
        lemma_excess_bits_leave_a_significand(count);
        assert(grain < 4096) by (nonlinear_arith)
            requires
                0x10_0000_0000_0000 * grain <= n,
                n < 0x1_0000_0000_0000_0000,
        ;
        lemma_round_half_even_is_nearest(count, grain as nat);
    }
    assert(2 * nearest - grain <= 2 * n <= 2 * nearest + grain);
    assert(0 < nearest < unit * 0x20_0000_0000_0000);
    let places: nat = fraction_places(nearest as nat, unit as nat);
    let weight: int = pow2(places) as int;
    let tenths: int = scaled_tenths(count) as int;
    lemma_fraction_places_leave_a_significand(nearest as nat, unit as nat);
    lemma_ratio_tenths_are_near(nearest as nat, unit as nat);
    assert(weight >= 20) by (nonlinear_arith)
        requires
            unit * 0x10_0000_0000_0000 <= nearest * weight,
            nearest < 0x20_0000_0000_0000 && unit >= 1000 || nearest < 0x2_0000_0000_0000_0000
                && unit >= 1_000_000_000,
            weight >= 0,
    ;
    let over: int = 2 * (tenths * unit) - unit - 20 * nearest;
    let under: int = 20 * nearest - 2 * (tenths * unit) - unit;
    assert(2 * over <= unit && 2 * under <= unit) by (nonlinear_arith)
        requires
            weight * over <= 10 * unit,
            weight * under <= 10 * unit,
            weight >= 20,
            unit > 0,
    ;
}

/// What a formatter gives depends on what it is given and on nothing else:
/// equal inputs have equal texts.
pub proof fn lemma_formatting_depends_on_input_alone(
    raw: Seq<char>,
    raw_again: Seq<char>,
    seconds: Seconds,
    seconds_again: Seconds,
    line: Seq<char>,
    line_again: Seq<char>,
)
    ensures
        raw == raw_again ==> views_text(raw) == views_text(raw_again),
        seconds.bits == seconds_again.bits ==> timestamp_text(whole_part(seconds.bits))
            == timestamp_text(whole_part(seconds_again.bits)),
        line == line_again ==> without_marks(line) == without_marks(line_again),
{
}

} // verus!
