use ansi_display::difference::Difference;
use ansi_display::style::{Colour, Style};

#[test]
fn between_identical_is_no_difference() {
    let s = Style::new().bold().underline().fg(Colour::Red);
    assert!(matches!(Difference::between(&s, &s), Difference::NoDifference));
}

#[test]
fn between_identical_plain_is_no_difference() {
    let s = Style::new();
    assert!(matches!(Difference::between(&s, &s), Difference::NoDifference));
}

#[test]
fn between_superset_gives_exact_delta() {
    let first = Style::new().bold();
    let next = Style::new().bold().underline().fg(Colour::Red);
    match Difference::between(&first, &next) {
        Difference::ExtraStyles(delta) => {
            assert!(!delta.is_bold);
            assert!(delta.is_underline);
            assert!(!delta.is_dimmed);
            assert!(!delta.is_italic);
            assert!(!delta.is_blink);
            assert!(!delta.is_reverse);
            assert!(!delta.is_hidden);
            assert!(!delta.is_strikethrough);
            assert_eq!(delta.foreground, Some(Colour::Red));
            assert_eq!(delta.background, None);
        },
        _ => panic!("expected ExtraStyles"),
    }
}

#[test]
fn between_plain_to_styled_is_extra_styles() {
    let first = Style::new();
    let next = Style::new().bold();
    match Difference::between(&first, &next) {
        Difference::ExtraStyles(delta) => {
            assert!(delta.is_bold);
            assert_eq!(delta.foreground, None);
        },
        _ => panic!("expected ExtraStyles"),
    }
}

#[test]
fn between_dropped_attribute_is_reset() {
    let first = Style::new().bold().underline();
    let next = Style::new().bold();
    assert!(matches!(Difference::between(&first, &next), Difference::Reset));
}

#[test]
fn between_changed_colour_is_reset() {
    let first = Style::new().bold().fg(Colour::Red);
    let next = Style::new().bold().fg(Colour::Blue);
    assert!(matches!(Difference::between(&first, &next), Difference::Reset));
}

#[test]
fn between_styled_to_plain_is_reset() {
    let first = Style::new().fg(Colour::Green);
    let next = Style::new();
    assert!(matches!(Difference::between(&first, &next), Difference::Reset));
}

#[test]
fn between_incomparable_is_reset() {
    let first = Style::new().bold();
    let next = Style::new().underline();
    assert!(matches!(Difference::between(&first, &next), Difference::Reset));
}

#[test]
fn between_dropped_background_is_reset() {
    let first = Style::new().on(Colour::Yellow);
    let next = Style::new().bold();
    assert!(matches!(Difference::between(&first, &next), Difference::Reset));
}
