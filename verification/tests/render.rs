use ansi_display::display::{ANSIDisplay, ANSIDisplaySlice};
use ansi_display::style::{Colour, Style};

#[test]
fn no_control_codes_for_plain() {
    let one = Style::default().paint("one");
    let two = Style::default().paint("two");
    let output = ANSIDisplaySlice(&[one, two]).render();
    assert_eq!(&*output, "onetwo");
}

#[test]
fn empty_sequence_renders_to_nothing() {
    let output = ANSIDisplaySlice(&[]).render();
    assert_eq!(output, "");
}

#[test]
fn single_styled_fragment_ends_with_reset() {
    let output = ANSIDisplaySlice(&[Style::new().bold().paint("x")]).render();
    assert_eq!(output, "\x1b[1mx\x1b[0m");
    assert!(output.ends_with("\x1b[0m"));
}

#[test]
fn single_plain_fragment_has_no_reset() {
    let output = ANSIDisplaySlice(&[Style::new().paint("quiet")]).render();
    assert_eq!(output, "quiet");
    assert!(!output.contains("\x1b[0m"));
}

#[test]
fn rendering_twice_is_byte_identical() {
    let fragments = [
        Colour::Red.paint("warm"),
        Style::new().bold().fg(Colour::Red).paint("hot"),
        Style::new().paint("cool"),
    ];
    let first = ANSIDisplaySlice(&fragments).render();
    let second = ANSIDisplaySlice(&fragments).render();
    assert_eq!(first, second);
}

#[test]
fn bold_then_bold_underline_then_plain() {
    let fragments = [
        Style::new().bold().paint("A"),
        Style::new().bold().underline().paint("B"),
        Style::new().paint("C"),
    ];
    let output = ANSIDisplaySlice(&fragments).render();
    assert_eq!(output, "\x1b[1mA\x1b[4mB\x1b[0mC");
    assert!(!output.ends_with("\x1b[0m"));
}

#[test]
fn identical_styles_share_one_prefix() {
    let fragments = [
        Style::new().bold().paint("one"),
        Style::new().bold().paint("two"),
    ];
    let output = ANSIDisplaySlice(&fragments).render();
    assert_eq!(output, "\x1b[1monetwo\x1b[0m");
}

#[test]
fn colour_change_resets_before_new_prefix() {
    let fragments = [Colour::Red.paint("red"), Colour::Blue.paint("blue")];
    let output = ANSIDisplaySlice(&fragments).render();
    assert_eq!(output, "\x1b[31mred\x1b[0m\x1b[34mblue\x1b[0m");
}

#[test]
fn render_to_appends_after_existing_content() {
    let mut out = String::from("log: ");
    ANSIDisplaySlice(&[Style::new().bold().paint("x")]).render_to(&mut out);
    assert_eq!(out, "log: \x1b[1mx\x1b[0m");
}

#[test]
fn isolated_fragment_render_wraps_prefix_and_suffix() {
    let fragment = Colour::Red.paint("hi");
    assert_eq!(fragment.render(), "\x1b[31mhi\x1b[0m");
    let plain = Style::new().paint("hi");
    assert_eq!(plain.render(), "hi");
}

#[test]
fn paint_attaches_style_and_borrows_value() {
    let fragment = Style::new().bold().paint("text");
    assert!(fragment.style_ref().is_bold);
    assert_eq!(fragment.value_ref(), "text");
}

#[test]
fn from_str_uses_the_plain_style() {
    let fragment = ANSIDisplay::from("bare");
    assert!(fragment.style_ref().is_plain());
    assert_eq!(fragment.render(), "bare");
}

#[test]
fn style_ref_mut_changes_the_rendered_style() {
    let mut fragment = Style::new().paint("loud");
    *fragment.style_ref_mut() = Style::new().bold();
    assert_eq!(fragment.render(), "\x1b[1mloud\x1b[0m");
}
