use profile_view_counter::colors::ColorScale;
use profile_view_counter::counter::ViewCounter;
use profile_view_counter::error::Error;
use profile_view_counter::handler::{default_fill_mode, FillMode, RequestHandler};
use profile_view_counter::options::Options;
use profile_view_counter::svg::ViewCountSVG;
use profile_view_counter::text::{find_from, str_eq, u64_to_string};

fn three_color_scale() -> ColorScale {
    ColorScale::from_source("000000\n888888\nffffff\n", 10).unwrap()
}

#[test]
fn scale_from_source_discards_empty_lines() {
    let s = ColorScale::from_source("\n000000\n\n888888\nffffff", 10).unwrap();
    assert_eq!(s.colors, vec!["000000", "888888", "ffffff"]);
    assert_eq!(s.max_views, 10);
}

#[test]
fn scale_from_source_empty_fails() {
    assert_eq!(ColorScale::from_source("", 10).unwrap_err(), Error::EmptyScale);
    assert_eq!(ColorScale::from_source("\n\n\n", 10).unwrap_err(), Error::EmptyScale);
}

#[test]
fn color_for_count_interpolates_and_clamps() {
    let s = three_color_scale();
    assert_eq!(s.hex_color_for_view_count(0), "000000");
    assert_eq!(s.hex_color_for_view_count(5), "888888");
    assert_eq!(s.hex_color_for_view_count(10), "ffffff");
    assert_eq!(s.hex_color_for_view_count(100), "ffffff");
    assert_eq!(s.hex_color_for_view_count(u64::MAX), "ffffff");
}

#[test]
fn color_for_count_first_and_last_for_any_scale() {
    let s = ColorScale::from_source("a\nb\nc\nd\ne", 7).unwrap();
    assert_eq!(s.hex_color_for_view_count(0), "a");
    assert_eq!(s.hex_color_for_view_count(7), "e");
    assert_eq!(s.hex_color_for_view_count(8), "e");
}

#[test]
fn color_index_is_monotonic_in_count() {
    let s = three_color_scale();
    let index_of = |color: &str| s.colors.iter().position(|c| c == color).unwrap();
    let mut last = 0;
    for count in 0..=12u64 {
        let idx = index_of(s.hex_color_for_view_count(count));
        assert!(idx >= last, "index decreased at count {}", count);
        last = idx;
    }
}

#[test]
fn random_color_is_a_member_and_never_the_last() {
    let s = three_color_scale();
    for _ in 0..200 {
        let c = s.random_hex_color();
        assert!(c == "000000" || c == "888888");
    }
    let two = ColorScale::from_source("only\nlast", 10).unwrap();
    for _ in 0..50 {
        assert_eq!(two.random_hex_color(), "only");
    }
}

#[test]
fn template_from_source_splits_into_three_parts() {
    let t = ViewCountSVG::from_source("<svg fill='$M$' />$M$ views", "$M$").unwrap();
    assert_eq!(t.before_color_part, "<svg fill='");
    assert_eq!(t.after_color_before_text_part, "' />");
    assert_eq!(t.after_text_part, " views");
}

#[test]
fn template_render_concatenates_in_fixed_order() {
    let t = ViewCountSVG::from_source("<svg fill='$M$' />$M$ views", "$M$").unwrap();
    assert_eq!(t.template("#ff0000", "3"), "<svg fill='#ff0000' />3 views");
}

#[test]
fn template_round_trip_reproduces_the_parts() {
    let t = ViewCountSVG::from_source("pre[X]mid[X]suf", "[X]").unwrap();
    assert_eq!(t.before_color_part, "pre");
    assert_eq!(t.after_color_before_text_part, "mid");
    assert_eq!(t.after_text_part, "suf");
    assert_eq!(t.template("COLOR", "COUNT"), "preCOLORmidCOUNTsuf");
}

#[test]
fn template_from_source_missing_part() {
    assert_eq!(
        ViewCountSVG::from_source("no marker here", "$M$").unwrap_err(),
        Error::MissingPart
    );
    assert_eq!(
        ViewCountSVG::from_source("only one $M$ occurrence", "$M$").unwrap_err(),
        Error::MissingPart
    );
}

#[test]
fn template_from_source_keeps_extra_markers_in_the_suffix() {
    let t = ViewCountSVG::from_source("a$M$b$M$c$M$d", "$M$").unwrap();
    assert_eq!(t.before_color_part, "a");
    assert_eq!(t.after_color_before_text_part, "b");
    assert_eq!(t.after_text_part, "c$M$d");
}

#[test]
fn counter_starts_at_zero_and_first_access_yields_one() {
    let mut c = ViewCounter::new();
    assert_eq!(c.get("profile"), 0);
    assert_eq!(c.increment_and_get("profile"), 1);
    assert_eq!(c.increment_and_get("profile"), 2);
    assert_eq!(c.get("profile"), 2);
}

#[test]
fn counter_keys_are_independent() {
    let mut c = ViewCounter::new();
    assert_eq!(c.increment_and_get("a"), 1);
    assert_eq!(c.increment_and_get("b"), 1);
    assert_eq!(c.increment_and_get("a"), 2);
    assert_eq!(c.get("a"), 2);
    assert_eq!(c.get("b"), 1);
    assert_eq!(c.get("c"), 0);
}

#[test]
fn handler_renders_milestone_badge() {
    let scale = three_color_scale();
    let svg = ViewCountSVG::from_source("<svg fill='$M$' />$M$ views", "$M$").unwrap();
    let handler = RequestHandler::new(scale, svg);
    let mut counter = ViewCounter::new();
    let first = handler.handle(&mut counter, "profile", FillMode::Milestone);
    assert_eq!(first, "<svg fill='#000000' />1 views");
    for _ in 0..4 {
        handler.handle(&mut counter, "profile", FillMode::Milestone);
    }
    let fifth = handler.handle(&mut counter, "profile", FillMode::Milestone);
    assert_eq!(fifth, "<svg fill='#888888' />6 views");
    assert_eq!(counter.get("profile"), 6);
}

#[test]
fn handler_random_badge_uses_a_scale_color() {
    let scale = three_color_scale();
    let svg = ViewCountSVG::from_source("[$M$|$M$]", "$M$").unwrap();
    let handler = RequestHandler::new(scale, svg);
    let mut counter = ViewCounter::new();
    for i in 1..=20u64 {
        let badge = handler.handle(&mut counter, "k", FillMode::Random);
        let a = format!("[#000000|{}]", i);
        let b = format!("[#888888|{}]", i);
        assert!(badge == a || badge == b, "unexpected badge {}", badge);
    }
}

#[test]
fn default_mode_is_milestone() {
    assert_eq!(default_fill_mode(), FillMode::Milestone);
}

#[test]
fn options_defaults() {
    let o = Options { host_on_all_interfaces: false, port: None, max_views: None };
    assert_eq!(o.max_views(), 10_400);
    assert_eq!(o.port(), 3030);
    let o2 = Options { host_on_all_interfaces: true, port: Some(8080), max_views: Some(99) };
    assert_eq!(o2.max_views(), 99);
    assert_eq!(o2.port(), 8080);
}

#[test]
fn error_messages() {
    assert_eq!(Error::MissingPart.message(), "MissingPart");
    assert_eq!(Error::EmptyScale.message(), "EmptyScale");
    assert_eq!(Error::CounterUnavailable.message(), "CounterUnavailable");
}

#[test]
fn decimal_rendering() {
    assert_eq!(u64_to_string(0), "0");
    assert_eq!(u64_to_string(7), "7");
    assert_eq!(u64_to_string(10), "10");
    assert_eq!(u64_to_string(10_400), "10400");
    assert_eq!(u64_to_string(u64::MAX), "18446744073709551615");
}

#[test]
fn substring_search() {
    assert_eq!(find_from("abcabc", "bc", 0), Some(1));
    assert_eq!(find_from("abcabc", "bc", 2), Some(4));
    assert_eq!(find_from("abcabc", "zz", 0), None);
    assert_eq!(find_from("aaa", "aa", 0), Some(0));
    assert_eq!(find_from("", "", 0), Some(0));
}

#[test]
fn string_equality() {
    assert!(str_eq("", ""));
    assert!(str_eq("abc", "abc"));
    assert!(!str_eq("abc", "abd"));
    assert!(!str_eq("abc", "ab"));
}
