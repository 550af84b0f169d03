use ansi_display::style::{Colour, Style, RESET};

#[test]
fn reset_is_the_universal_reset() {
    assert_eq!(RESET, "\x1b[0m");
}

#[test]
fn plain_prefix_and_suffix_are_empty() {
    let plain = Style::default();
    assert!(plain.is_plain());
    assert_eq!(plain.prefix(), "");
    assert_eq!(plain.suffix(), "");
}

#[test]
fn styled_is_not_plain() {
    assert!(!Style::new().bold().is_plain());
    assert!(!Style::new().fg(Colour::Red).is_plain());
}

#[test]
fn bold_prefix() {
    assert_eq!(Style::new().bold().prefix(), "\x1b[1m");
}

#[test]
fn styled_suffix_is_reset() {
    assert_eq!(Style::new().bold().suffix(), "\x1b[0m");
}

#[test]
fn combined_prefix_joins_codes_with_semicolons() {
    let s = Style::new().bold().underline().fg(Colour::Red).on(Colour::Blue);
    assert_eq!(s.prefix(), "\x1b[1;4;31;44m");
}

#[test]
fn every_flag_has_its_code() {
    let s = Style::new()
        .bold()
        .dimmed()
        .italic()
        .underline()
        .blink()
        .reverse()
        .hidden()
        .strikethrough();
    assert_eq!(s.prefix(), "\x1b[1;2;3;4;5;7;8;9m");
}

#[test]
fn foreground_codes() {
    assert_eq!(Colour::Black.normal().prefix(), "\x1b[30m");
    assert_eq!(Colour::Red.normal().prefix(), "\x1b[31m");
    assert_eq!(Colour::Green.normal().prefix(), "\x1b[32m");
    assert_eq!(Colour::Yellow.normal().prefix(), "\x1b[33m");
    assert_eq!(Colour::Blue.normal().prefix(), "\x1b[34m");
    assert_eq!(Colour::Purple.normal().prefix(), "\x1b[35m");
    assert_eq!(Colour::Cyan.normal().prefix(), "\x1b[36m");
    assert_eq!(Colour::White.normal().prefix(), "\x1b[37m");
}

#[test]
fn background_codes() {
    assert_eq!(Style::new().on(Colour::Black).prefix(), "\x1b[40m");
    assert_eq!(Style::new().on(Colour::White).prefix(), "\x1b[47m");
}

#[test]
fn fixed_colour_codes() {
    assert_eq!(Colour::Fixed(0).normal().prefix(), "\x1b[38;5;0m");
    assert_eq!(Colour::Fixed(9).normal().prefix(), "\x1b[38;5;9m");
    assert_eq!(Colour::Fixed(10).normal().prefix(), "\x1b[38;5;10m");
    assert_eq!(Colour::Fixed(99).normal().prefix(), "\x1b[38;5;99m");
    assert_eq!(Colour::Fixed(100).normal().prefix(), "\x1b[38;5;100m");
    assert_eq!(Colour::Fixed(244).normal().prefix(), "\x1b[38;5;244m");
    assert_eq!(Colour::Fixed(255).normal().prefix(), "\x1b[38;5;255m");
    assert_eq!(Style::new().on(Colour::Fixed(15)).prefix(), "\x1b[48;5;15m");
}

#[test]
fn rgb_colour_codes() {
    assert_eq!(Colour::RGB(70, 130, 180).normal().prefix(), "\x1b[38;2;70;130;180m");
    assert_eq!(Colour::RGB(0, 0, 0).normal().prefix(), "\x1b[38;2;0;0;0m");
    assert_eq!(Style::new().on(Colour::RGB(255, 255, 255)).prefix(), "\x1b[48;2;255;255;255m");
}

#[test]
fn normal_sets_only_the_foreground() {
    let s = Colour::Cyan.normal();
    assert_eq!(s.foreground, Some(Colour::Cyan));
    assert_eq!(s.background, None);
    assert!(!s.is_bold);
}
