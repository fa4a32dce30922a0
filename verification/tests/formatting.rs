use caption::binary64::Seconds;
use caption::decimal::parse_count;
use caption::format::{
    clean_caption_text, format_count, format_views, format_whole_seconds, seconds_to_timestamp,
};
use caption::text::{is_whitespace, to_chars, trim};

fn seconds(value: f64) -> Seconds {
    Seconds { bits: value.to_bits() }
}

/// The same count, worked out with floating point.
fn with_floats(count: u64) -> String {
    let (value, suffix) = if count >= 1_000_000_000 {
        (count as f64 / 1_000_000_000.0, "B")
    } else if count >= 1_000_000 {
        (count as f64 / 1_000_000.0, "M")
    } else if count >= 1_000 {
        (count as f64 / 1_000.0, "K")
    } else {
        return count.to_string();
    };
    let text = format!("{:.1}", value);
    format!("{}{}", text.trim_end_matches(".0"), suffix)
}

/// A sequence of numbers that looks random and is the same on every run.
fn next(state: &mut u64) -> u64 {
    *state ^= *state << 13;
    *state ^= *state >> 7;
    *state ^= *state << 17;
    *state
}

#[test]
fn views_below_a_thousand_are_written_in_full() {
    assert_eq!(format_views("950"), "950");
    assert_eq!(format_views("0"), "0");
    assert_eq!(format_views("999"), "999");
    assert_eq!(format_views("7"), "7");
}

#[test]
fn views_are_scaled_by_the_largest_unit() {
    assert_eq!(format_views("1500"), "1.5K");
    assert_eq!(format_views("2500000"), "2.5M");
    assert_eq!(format_views("7300000000"), "7.3B");
    assert_eq!(format_views("1000"), "1K");
    assert_eq!(format_views("1000000"), "1M");
    assert_eq!(format_views("1000000000"), "1B");
}

#[test]
fn views_lose_a_zero_decimal_place() {
    assert_eq!(format_views("2000000"), "2M");
    assert_eq!(format_views("10000"), "10K");
    assert_eq!(format_views("100000"), "100K");
    assert_eq!(format_views("10500"), "10.5K");
}

#[test]
fn views_that_are_no_count_pass_through() {
    assert_eq!(format_views("abc"), "abc");
    assert_eq!(format_views(""), "");
    assert_eq!(format_views("-5"), "-5");
    assert_eq!(format_views("+"), "+");
    assert_eq!(format_views("12a"), "12a");
    assert_eq!(format_views(" 12"), " 12");
    assert_eq!(format_views("1,000"), "1,000");
    assert_eq!(format_views("1.5K"), "1.5K");
    assert_eq!(format_views("18446744073709551616"), "18446744073709551616");
}

#[test]
fn views_accept_a_plus_sign_and_leading_zeros() {
    assert_eq!(format_views("+1500"), "1.5K");
    assert_eq!(format_views("0001500"), "1.5K");
    assert_eq!(format_views("+007"), "7");
}

#[test]
fn views_round_to_the_nearest_binary64_tenth() {
    assert_eq!(format_views("1050"), "1.1K");
    assert_eq!(format_views("1150"), "1.1K");
    assert_eq!(format_views("1250"), "1.2K");
    assert_eq!(format_views("1350"), "1.4K");
    assert_eq!(format_views("1450"), "1.4K");
    assert_eq!(format_views("1750"), "1.8K");
    assert_eq!(format_views("999949"), "999.9K");
    assert_eq!(format_views("999950"), "1000K");
    assert_eq!(format_views("999999"), "1000K");
    assert_eq!(format_views("999999999"), "1000M");
    assert_eq!(format_views("18446744073709551615"), "18446744073.7B");
}

#[test]
fn counts_agree_with_floating_point_up_to_a_million() {
    let mut count: u64 = 0;
    while count <= 1_100_000 {
        assert_eq!(format_count(count), with_floats(count), "count {}", count);
        count += if count < 20_000 { 1 } else { 3 };
    }
}

#[test]
fn counts_agree_with_floating_point_on_scattered_values() {
    let mut state: u64 = 0x9e37_79b9_7f4a_7c15;
    for _ in 0..100_000 {
        let raw = next(&mut state);
        let count = raw >> (next(&mut state) % 64);
        assert_eq!(format_count(count), with_floats(count), "count {}", count);
    }
}

#[test]
fn counts_agree_with_floating_point_near_ties() {
    for unit in [1_000u64, 1_000_000, 1_000_000_000] {
        let mut state: u64 = 0x2545_f491_4f6c_dd1d ^ unit;
        for _ in 0..20_000 {
            let tenths = next(&mut state) % 9_990 + 10;
            let tie = tenths * (unit / 10) + unit / 20;
            for nearby in [tie - 1, tie, tie + 1] {
                assert_eq!(format_count(nearby), with_floats(nearby), "count {}", nearby);
            }
        }
    }
    let mut state: u64 = 0x1234_5678_9abc_def1;
    for _ in 0..20_000 {
        let tenths = next(&mut state) % 184_467_440_000 + 10;
        let tie = tenths * 100_000_000 + 50_000_000;
        for nearby in [tie - 3000, tie - 1, tie, tie + 1, tie + 3000] {
            assert_eq!(format_count(nearby), with_floats(nearby), "count {}", nearby);
        }
    }
}

#[test]
fn counts_agree_with_floating_point_at_the_edges() {
    let edges = [
        (1u64 << 53) - 1,
        1u64 << 53,
        (1u64 << 53) + 1,
        (1u64 << 53) + 2,
        (1u64 << 53) + 3,
        (1u64 << 54) + 2,
        (1u64 << 54) + 6,
        (1u64 << 63) - 1,
        1u64 << 63,
        (1u64 << 63) + 1024,
        (1u64 << 63) + 1025,
        (1u64 << 63) + 3072,
        u64::MAX - 1024,
        u64::MAX - 1023,
        u64::MAX - 1,
        u64::MAX,
    ];
    for count in edges {
        assert_eq!(format_count(count), with_floats(count), "count {}", count);
    }
}

#[test]
fn formatting_the_same_input_again_gives_the_same_text() {
    for raw in ["950", "1500", "2000000", "abc", "", "18446744073709551615"] {
        assert_eq!(format_views(raw), format_views(raw));
    }
    for value in [0.0, 65.9, 3661.0, -3.5, 1e30, f64::NAN] {
        assert_eq!(seconds_to_timestamp(seconds(value)), seconds_to_timestamp(seconds(value)));
    }
    for line in [">> hello", "plain", ">>> > x", ""] {
        assert_eq!(clean_caption_text(line), clean_caption_text(line));
    }
}

#[test]
fn formatting_twice_changes_nothing_more() {
    for raw in ["950", "1500", "2000000", "abc", "+12", "007", "999950", "1.5K"] {
        let once = format_views(raw);
        assert_eq!(format_views(&once), once);
        assert_eq!(format_views(raw), once);
    }
}

#[test]
fn counts_are_read_as_the_standard_library_reads_them() {
    let samples = [
        "", "+", "-", "0", "+0", "-0", "00", "+00", "++1", "+-1", "1+", "12", "+12", " 12", "12 ",
        "1_000", "1e3", "0x10", "18446744073709551615", "18446744073709551616",
        "+18446744073709551615", "99999999999999999999", "000000000000000000000000001",
        "\u{661}\u{662}", "1\u{0}",
    ];
    for raw in samples {
        assert_eq!(parse_count(&to_chars(raw)), raw.parse::<u64>().ok(), "text {:?}", raw);
    }
}

#[test]
fn timestamps_drop_what_is_past_the_point() {
    assert_eq!(seconds_to_timestamp(seconds(65.9)), "01:05");
    assert_eq!(seconds_to_timestamp(seconds(3661.0)), "01:01:01");
    assert_eq!(seconds_to_timestamp(seconds(0.0)), "00:00");
    assert_eq!(seconds_to_timestamp(seconds(0.999)), "00:00");
    assert_eq!(seconds_to_timestamp(seconds(59.999)), "00:59");
    assert_eq!(seconds_to_timestamp(seconds(5.0)), "00:05");
}

#[test]
fn timestamps_show_hours_only_where_there_are_some() {
    assert_eq!(format_whole_seconds(3599), "59:59");
    assert_eq!(format_whole_seconds(3600), "01:00:00");
    assert_eq!(format_whole_seconds(36_000), "10:00:00");
    assert_eq!(format_whole_seconds(360_000), "100:00:00");
    assert_eq!(format_whole_seconds(u64::MAX), "5124095576030431:00:15");
}

#[test]
fn timestamps_of_odd_numbers() {
    assert_eq!(seconds_to_timestamp(seconds(-1.0)), "00:00");
    assert_eq!(seconds_to_timestamp(seconds(-0.0)), "00:00");
    assert_eq!(seconds_to_timestamp(seconds(f64::NAN)), "00:00");
    assert_eq!(seconds_to_timestamp(seconds(f64::NEG_INFINITY)), "00:00");
    assert_eq!(seconds_to_timestamp(seconds(f64::INFINITY)), "5124095576030431:00:15");
    assert_eq!(seconds_to_timestamp(seconds(1e300)), "5124095576030431:00:15");
}

#[test]
fn whole_seconds_agree_with_the_cast() {
    let values = [
        0.0, -0.0, 0.5, 1.0, 1.5, 2.0, 65.9, 3661.0, 4503599627370495.5, 4503599627370496.0,
        9007199254740991.0, 9007199254740992.0, 9007199254740994.0, 9223372036854775808.0,
        18446744073709549568.0, 18446744073709551616.0, 1e19, 1e20, 1e300, -1e300, -0.5,
        f64::MIN_POSITIVE, f64::MAX, f64::MIN, f64::EPSILON, f64::INFINITY, f64::NEG_INFINITY,
        f64::NAN, -f64::NAN,
    ];
    for value in values {
        assert_eq!(seconds(value).whole(), value as u64, "value {:?}", value);
    }
    let mut state: u64 = 0x0123_4567_89ab_cdef;
    for _ in 0..100_000 {
        let bits = next(&mut state);
        assert_eq!(Seconds { bits }.whole(), f64::from_bits(bits) as u64, "bits {:#x}", bits);
        let near = (bits % (70 << 52)) + (1000 << 52);
        assert_eq!(Seconds { bits: near }.whole(), f64::from_bits(near) as u64, "bits {:#x}", near);
    }
}

#[test]
fn caption_text_loses_its_speaker_marks() {
    assert_eq!(clean_caption_text(">> hello"), "hello");
    assert_eq!(clean_caption_text(">> hi"), "hi");
    assert_eq!(clean_caption_text("a >> b >> c"), "a b c");
    assert_eq!(clean_caption_text("no marks"), "no marks");
    assert_eq!(clean_caption_text(""), "");
    assert_eq!(clean_caption_text(">>"), ">>");
    assert_eq!(clean_caption_text(">>x"), ">>x");
    assert_eq!(clean_caption_text("> > "), "> > ");
    assert_eq!(clean_caption_text(">> >> "), "");
}

#[test]
fn caption_text_is_read_once_from_the_left() {
    assert_eq!(clean_caption_text(">>> "), ">");
    assert_eq!(clean_caption_text(">>> > x"), ">> x");
    for text in [">>> > x", ">> >>> ", "a>> >> >b", ">>>> ", "\u{e9}>> \u{e9}"] {
        assert_eq!(clean_caption_text(text), text.replace(">> ", ""));
    }
}

#[test]
fn white_space_is_what_the_standard_library_trims() {
    let mut code: u32 = 0;
    while code <= 0x10_ffff {
        if let Some(c) = char::from_u32(code) {
            assert_eq!(is_whitespace(c), c.is_whitespace(), "code {:#x}", code);
        }
        code += 1;
    }
    for text in ["", " ", "  a b  ", "\t\n x \u{3000}", "\u{a0}a\u{2003}", "a", " \u{200b} "] {
        let trimmed: String = trim(&to_chars(text)).into_iter().collect();
        assert_eq!(trimmed, text.trim());
    }
}
