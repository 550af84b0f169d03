//! The style model: a set of togglable attribute flags plus optional
//! foreground and background colour slots, together with the escape
//! strings that switch a style on (`prefix`) and off (`suffix`).

use vstd::prelude::*;

verus! {

/// The escape sequence that disables every active attribute: the
/// universal reset.
pub const RESET: &'static str = "\u{1b}[0m";

/// A terminal colour: one of the eight named colours, an indexed
/// palette colour, or a direct 24-bit colour.
#[derive(Clone, Copy, Debug, PartialEq, Eq, Structural)]
pub enum Colour {
    Black,
    Red,
    Green,
    Yellow,
    Blue,
    Purple,
    Cyan,
    White,
    Fixed(u8),
    RGB(u8, u8, u8),
}

/// A terminal text style: eight independent attribute flags and two
/// optional colour slots. A style with nothing set is *plain*; its
/// prefix and suffix are both empty.
#[derive(Clone, Copy, Debug, PartialEq, Eq, Structural)]
#[verifier::ext_equal]
pub struct Style {
    pub is_bold: bool,
    pub is_dimmed: bool,
    pub is_italic: bool,
    pub is_underline: bool,
    pub is_blink: bool,
    pub is_reverse: bool,
    pub is_hidden: bool,
    pub is_strikethrough: bool,
    pub foreground: Option<Colour>,
    pub background: Option<Colour>,
}

/// The universal reset, as a sequence of characters.
pub open spec fn reset_seq() -> Seq<char> {
    "\u{1b}[0m"@
}

/// Appends one numeric code to the body of an escape sequence,
/// separating it from an earlier code with `;`.
pub open spec fn app_code(acc: Seq<char>, code: Seq<char>) -> Seq<char> {
    if acc.len() == 0 {
        code
    } else {
        acc + ";"@ + code
    }
}

/// The single decimal digit `d` as a one-character sequence.
pub open spec fn digit_seq(d: int) -> Seq<char> {
    if d == 0 {
        "0"@
    } else if d == 1 {
        "1"@
    } else if d == 2 {
        "2"@
    } else if d == 3 {
        "3"@
    } else if d == 4 {
        "4"@
    } else if d == 5 {
        "5"@
    } else if d == 6 {
        "6"@
    } else if d == 7 {
        "7"@
    } else if d == 8 {
        "8"@
    } else {
        "9"@
    }
}

/// `n` written in decimal, without leading zeroes.
pub open spec fn dec_seq(n: int) -> Seq<char>
    decreases n,
{
    if n < 10 {
        digit_seq(n)
    } else {
        dec_seq(n / 10) + digit_seq(n % 10)
    }
}

fn digit_str(d: u8) -> (r: &'static str)
    requires
        d < 10,
    ensures
        r@ == digit_seq(d as int),
{
    match d {
        0 => "0",
        1 => "1",
        2 => "2",
        3 => "3",
        4 => "4",
        5 => "5",
        6 => "6",
        7 => "7",
        8 => "8",
        _ => "9",
    }
}

fn push_u8(out: &mut String, n: u8)
    ensures
        final(out)@ == old(out)@ + dec_seq(n as int),
{
    if n >= 100 {
        out.append(digit_str(n / 100));
        out.append(digit_str((n / 10) % 10));
        out.append(digit_str(n % 10));
        proof {
            vstd::arithmetic::div_mod::lemma_div_denominator(n as int, 10, 10);
            assert(dec_seq(n as int / 10) == dec_seq(n as int / 100) + digit_seq(
                (n as int / 10) % 10,
            ));
            assert(dec_seq(n as int / 100) == digit_seq(n as int / 100));
            assert(out@ =~= old(out)@ + dec_seq(n as int));
        }
    } else if n >= 10 {
        out.append(digit_str(n / 10));
        out.append(digit_str(n % 10));
        proof {
            assert(dec_seq(n as int / 10) == digit_seq(n as int / 10));
            assert(out@ =~= old(out)@ + dec_seq(n as int));
        }
    } else {
        out.append(digit_str(n));
    }
}

/// The numeric code that selects `c` as the foreground colour.
pub open spec fn fg_code_seq(c: Colour) -> Seq<char> {
    match c {
        Colour::Black => "30"@,
        Colour::Red => "31"@,
        Colour::Green => "32"@,
        Colour::Yellow => "33"@,
        Colour::Blue => "34"@,
        Colour::Purple => "35"@,
        Colour::Cyan => "36"@,
        Colour::White => "37"@,
        Colour::Fixed(n) => "38;5;"@ + dec_seq(n as int),
        Colour::RGB(red, green, blue) => "38;2;"@ + dec_seq(red as int) + ";"@ + dec_seq(
            green as int,
        ) + ";"@ + dec_seq(blue as int),
    }
}

/// The numeric code that selects `c` as the background colour.
pub open spec fn bg_code_seq(c: Colour) -> Seq<char> {
    match c {
        Colour::Black => "40"@,
        Colour::Red => "41"@,
        Colour::Green => "42"@,
        Colour::Yellow => "43"@,
        Colour::Blue => "44"@,
        Colour::Purple => "45"@,
        Colour::Cyan => "46"@,
        Colour::White => "47"@,
        Colour::Fixed(n) => "48;5;"@ + dec_seq(n as int),
        Colour::RGB(red, green, blue) => "48;2;"@ + dec_seq(red as int) + ";"@ + dec_seq(
            green as int,
        ) + ";"@ + dec_seq(blue as int),
    }
}

fn fg_code(c: Colour) -> (r: String)
    ensures
        r@ == fg_code_seq(c),
{
    match c {
        Colour::Black => String::from_str("30"),
        Colour::Red => String::from_str("31"),
        Colour::Green => String::from_str("32"),
        Colour::Yellow => String::from_str("33"),
        Colour::Blue => String::from_str("34"),
        Colour::Purple => String::from_str("35"),
        Colour::Cyan => String::from_str("36"),
        Colour::White => String::from_str("37"),
        Colour::Fixed(n) => {
            let mut r = String::from_str("38;5;");
            push_u8(&mut r, n);
            r
        },
        Colour::RGB(red, green, blue) => {
            let mut r = String::from_str("38;2;");
            push_u8(&mut r, red);
            r.append(";");
            push_u8(&mut r, green);
            r.append(";");
            push_u8(&mut r, blue);
            r
        },
    }
}

fn bg_code(c: Colour) -> (r: String)
    ensures
        r@ == bg_code_seq(c),
{
    match c {
        Colour::Black => String::from_str("40"),
        Colour::Red => String::from_str("41"),
        Colour::Green => String::from_str("42"),
        Colour::Yellow => String::from_str("43"),
        Colour::Blue => String::from_str("44"),
        Colour::Purple => String::from_str("45"),
        Colour::Cyan => String::from_str("46"),
        Colour::White => String::from_str("47"),
        Colour::Fixed(n) => {
            let mut r = String::from_str("48;5;");
            push_u8(&mut r, n);
            r
        },
        Colour::RGB(red, green, blue) => {
            let mut r = String::from_str("48;2;");
            push_u8(&mut r, red);
            r.append(";");
            push_u8(&mut r, green);
            r.append(";");
            push_u8(&mut r, blue);
            r
        },
    }
}

fn push_code(body: &mut String, code: &str)
    ensures
        final(body)@ == app_code(old(body)@, code@),
{
    if body.as_str().unicode_len() != 0 {
        body.append(";");
    }
    body.append(code);
    proof {
        if old(body)@.len() == 0 {
            assert(final(body)@ =~= code@);
        }
    }
}

impl Style {
    /// The style with no attributes and no colours.
    pub open spec fn spec_plain() -> Style {
        Style {
            is_bold: false,
            is_dimmed: false,
            is_italic: false,
            is_underline: false,
            is_blink: false,
            is_reverse: false,
            is_hidden: false,
            is_strikethrough: false,
            foreground: None,
            background: None,
        }
    }

    /// A style is plain when it sets nothing at all.
    pub open spec fn spec_is_plain(self) -> bool {
        self == Style::spec_plain()
    }

    /// The `;`-separated body of this style's prefix: one numeric code
    /// per attribute set, flags first, then the foreground colour, then
    /// the background colour.
    pub open spec fn spec_prefix_body(self) -> Seq<char> {
        let b = Seq::<char>::empty();
        let b = if self.is_bold { app_code(b, "1"@) } else { b };
        let b = if self.is_dimmed { app_code(b, "2"@) } else { b };
        let b = if self.is_italic { app_code(b, "3"@) } else { b };
        let b = if self.is_underline { app_code(b, "4"@) } else { b };
        let b = if self.is_blink { app_code(b, "5"@) } else { b };
        let b = if self.is_reverse { app_code(b, "7"@) } else { b };
        let b = if self.is_hidden { app_code(b, "8"@) } else { b };
        let b = if self.is_strikethrough { app_code(b, "9"@) } else { b };
        let b = match self.foreground {
            Some(c) => app_code(b, fg_code_seq(c)),
            None => b,
        };
        let b = match self.background {
            Some(c) => app_code(b, bg_code_seq(c)),
            None => b,
        };
        b
    }

    /// The escape sequence that enables exactly this style's attributes,
    /// assuming none is currently active: empty for a plain style, and
    /// `ESC [ codes m` otherwise.
    pub open spec fn spec_prefix(self) -> Seq<char> {
        if self.spec_is_plain() {
            Seq::<char>::empty()
        } else {
            "\u{1b}["@ + self.spec_prefix_body() + "m"@
        }
    }

    /// The escape sequence that closes this style when the fragment is
    /// rendered in isolation: empty for a plain style (nothing was
    /// opened), the universal reset otherwise.
    pub open spec fn spec_suffix(self) -> Seq<char> {
        if self.spec_is_plain() {
            Seq::<char>::empty()
        } else {
            reset_seq()
        }
    }

    /// Creates a plain style.
    pub fn new() -> (r: Style)
        ensures
            r == Style::spec_plain(),
    {
        Style {
            is_bold: false,
            is_dimmed: false,
            is_italic: false,
            is_underline: false,
            is_blink: false,
            is_reverse: false,
            is_hidden: false,
            is_strikethrough: false,
            foreground: None,
            background: None,
        }
    }

    /// True iff this style has no attributes at all.
    pub fn is_plain(&self) -> (r: bool)
        ensures
            r == self.spec_is_plain(),
    {
        let r = !self.is_bold && !self.is_dimmed && !self.is_italic && !self.is_underline
            && !self.is_blink && !self.is_reverse && !self.is_hidden && !self.is_strikethrough
            && self.foreground.is_none() && self.background.is_none();
        proof {
            if r {
                assert(*self =~= Style::spec_plain());
            }
        }
        r
    }

    /// The escape sequence that enables exactly this style's attributes.
    pub fn prefix(&self) -> (r: String)
        ensures
            r@ == self.spec_prefix(),
    {
        if self.is_plain() {
            return String::new();
        }
        let mut body = String::new();
        if self.is_bold {
            push_code(&mut body, "1");
        }
        if self.is_dimmed {
            push_code(&mut body, "2");
        }
        if self.is_italic {
            push_code(&mut body, "3");
        }
        if self.is_underline {
            push_code(&mut body, "4");
        }
        if self.is_blink {
            push_code(&mut body, "5");
        }
        if self.is_reverse {
            push_code(&mut body, "7");
        }
        if self.is_hidden {
            push_code(&mut body, "8");
        }
        if self.is_strikethrough {
            push_code(&mut body, "9");
        }
        match self.foreground {
            Some(c) => {
                let code = fg_code(c);
                push_code(&mut body, code.as_str());
            },
            None => {},
        }
        match self.background {
            Some(c) => {
                let code = bg_code(c);
                push_code(&mut body, code.as_str());
            },
            None => {},
        }
        let mut r = String::from_str("\u{1b}[");
        r.append(body.as_str());
        r.append("m");
        r
    }

    /// The escape sequence that closes this style after an isolated
    /// fragment: the universal reset, or nothing for a plain style.
    pub fn suffix(&self) -> (r: String)
        ensures
            r@ == self.spec_suffix(),
    {
        if self.is_plain() {
            String::new()
        } else {
            String::from_str(RESET)
        }
    }

    /// This style with the bold flag set.
    pub fn bold(self) -> (r: Style)
        ensures
            r == (Style { is_bold: true, ..self }),
    {
        Style { is_bold: true, ..self }
    }

    /// This style with the dimmed flag set.
    pub fn dimmed(self) -> (r: Style)
        ensures
            r == (Style { is_dimmed: true, ..self }),
    {
        Style { is_dimmed: true, ..self }
    }

    /// This style with the italic flag set.
    pub fn italic(self) -> (r: Style)
        ensures
            r == (Style { is_italic: true, ..self }),
    {
        Style { is_italic: true, ..self }
    }

    /// This style with the underline flag set.
    pub fn underline(self) -> (r: Style)
        ensures
            r == (Style { is_underline: true, ..self }),
    {
        Style { is_underline: true, ..self }
    }

    /// This style with the blink flag set.
    pub fn blink(self) -> (r: Style)
        ensures
            r == (Style { is_blink: true, ..self }),
    {
        Style { is_blink: true, ..self }
    }

    /// This style with the reverse-video flag set.
    pub fn reverse(self) -> (r: Style)
        ensures
            r == (Style { is_reverse: true, ..self }),
    {
        Style { is_reverse: true, ..self }
    }

    /// This style with the hidden flag set.
    pub fn hidden(self) -> (r: Style)
        ensures
            r == (Style { is_hidden: true, ..self }),
    {
        Style { is_hidden: true, ..self }
    }

    /// This style with the strikethrough flag set.
    pub fn strikethrough(self) -> (r: Style)
        ensures
            r == (Style { is_strikethrough: true, ..self }),
    {
        Style { is_strikethrough: true, ..self }
    }

    /// This style with its foreground colour set to `colour`.
    pub fn fg(self, colour: Colour) -> (r: Style)
        ensures
            r == (Style { foreground: Some(colour), ..self }),
    {
        Style { foreground: Some(colour), ..self }
    }

    /// This style with its background colour set to `colour`.
    pub fn on(self, colour: Colour) -> (r: Style)
        ensures
            r == (Style { background: Some(colour), ..self }),
    {
        Style { background: Some(colour), ..self }
    }
}

/// Law: a style is plain exactly when both of its escape strings are
/// empty.
pub proof fn lemma_plain_iff_empty_escapes(s: Style)
    ensures
        s.spec_is_plain() <==> (s.spec_prefix().len() == 0 && s.spec_suffix().len() == 0),
{
    if !s.spec_is_plain() {
        reveal_strlit("\u{1b}[");
        assert(s.spec_prefix().len() >= 2);
    }
}

impl Default for Style {
    /// The default style is plain.
    fn default() -> (r: Style)
        ensures
            r == Style::spec_plain(),
    {
        Style::new()
    }
}

impl Colour {
    /// A style whose only attribute is this foreground colour.
    pub fn normal(self) -> (r: Style)
        ensures
            r == (Style { foreground: Some(self), ..Style::spec_plain() }),
    {
        Style {
            is_bold: false,
            is_dimmed: false,
            is_italic: false,
            is_underline: false,
            is_blink: false,
            is_reverse: false,
            is_hidden: false,
            is_strikethrough: false,
            foreground: Some(self),
            background: None,
        }
    }
}

} // verus!
