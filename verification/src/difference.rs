//! The style difference engine: given the styles of two consecutive
//! fragments, classify the minimal escape-code transition between them.

use vstd::prelude::*;

use crate::style::{Colour, Style};

verus! {

/// The minimal transition between two consecutive styles.
#[derive(Clone, Copy, Debug, PartialEq, Eq, Structural)]
pub enum Difference {
    /// The next style strictly extends the previous one: emit only the
    /// prefix of the carried style, which holds the added attributes.
    ExtraStyles(Style),
    /// The next style gives something up (or changes a colour): emit
    /// the universal reset, then the next style's full prefix.
    Reset,
    /// The styles are identical: emit nothing.
    NoDifference,
}

/// One attribute a style can carry: a flag, or a colour filling one of
/// the two colour slots.
#[derive(Clone, Copy, Debug, PartialEq, Eq, Structural)]
pub enum Attr {
    Bold,
    Dimmed,
    Italic,
    Underline,
    Blink,
    Reverse,
    Hidden,
    Strikethrough,
    Foreground(Colour),
    Background(Colour),
}

/// Whether style `s` carries attribute `a`.
pub open spec fn has_attr(s: Style, a: Attr) -> bool {
    match a {
        Attr::Bold => s.is_bold,
        Attr::Dimmed => s.is_dimmed,
        Attr::Italic => s.is_italic,
        Attr::Underline => s.is_underline,
        Attr::Blink => s.is_blink,
        Attr::Reverse => s.is_reverse,
        Attr::Hidden => s.is_hidden,
        Attr::Strikethrough => s.is_strikethrough,
        Attr::Foreground(c) => s.foreground == Some(c),
        Attr::Background(c) => s.background == Some(c),
    }
}

/// The set of attributes style `s` carries.
pub open spec fn attr_set(s: Style) -> Set<Attr> {
    Set::new(|a: Attr| has_attr(s, a))
}

/// Every attribute of `prev` is present, unchanged, in `next`: set
/// flags stay set, and a filled colour slot keeps its colour.
pub open spec fn covers(prev: Style, next: Style) -> bool {
    &&& (prev.is_bold ==> next.is_bold)
    &&& (prev.is_dimmed ==> next.is_dimmed)
    &&& (prev.is_italic ==> next.is_italic)
    &&& (prev.is_underline ==> next.is_underline)
    &&& (prev.is_blink ==> next.is_blink)
    &&& (prev.is_reverse ==> next.is_reverse)
    &&& (prev.is_hidden ==> next.is_hidden)
    &&& (prev.is_strikethrough ==> next.is_strikethrough)
    &&& (prev.foreground.is_some() ==> next.foreground == prev.foreground)
    &&& (prev.background.is_some() ==> next.background == prev.background)
}

/// The attributes present in `next` but absent from `prev`: what must
/// still be switched on when `next` extends `prev`.
pub open spec fn spec_delta(prev: Style, next: Style) -> Style {
    Style {
        is_bold: next.is_bold && !prev.is_bold,
        is_dimmed: next.is_dimmed && !prev.is_dimmed,
        is_italic: next.is_italic && !prev.is_italic,
        is_underline: next.is_underline && !prev.is_underline,
        is_blink: next.is_blink && !prev.is_blink,
        is_reverse: next.is_reverse && !prev.is_reverse,
        is_hidden: next.is_hidden && !prev.is_hidden,
        is_strikethrough: next.is_strikethrough && !prev.is_strikethrough,
        foreground: if next.foreground == prev.foreground {
            None
        } else {
            next.foreground
        },
        background: if next.background == prev.background {
            None
        } else {
            next.background
        },
    }
}

/// The decision rule: identical styles need no transition; a strict
/// extension needs only the added attributes; everything else — a
/// cleared flag, an emptied or changed colour slot, or incomparable
/// styles — needs a full reset.
pub open spec fn spec_between(prev: Style, next: Style) -> Difference {
    if next == prev {
        Difference::NoDifference
    } else if covers(prev, next) {
        Difference::ExtraStyles(spec_delta(prev, next))
    } else {
        Difference::Reset
    }
}

impl Difference {
    /// Classifies the minimal transition between a fragment rendered
    /// with `prev` and the following fragment rendered with `next`.
    pub fn between(prev: &Style, next: &Style) -> (r: Difference)
        ensures
            r == spec_between(*prev, *next),
    {
        if *next == *prev {
            return Difference::NoDifference;
        }
        let fits = (!prev.is_bold || next.is_bold) && (!prev.is_dimmed || next.is_dimmed)
            && (!prev.is_italic || next.is_italic) && (!prev.is_underline || next.is_underline)
            && (!prev.is_blink || next.is_blink) && (!prev.is_reverse || next.is_reverse)
            && (!prev.is_hidden || next.is_hidden)
            && (!prev.is_strikethrough || next.is_strikethrough)
            && (prev.foreground.is_none() || next.foreground == prev.foreground)
            && (prev.background.is_none() || next.background == prev.background);
        if fits {
            Difference::ExtraStyles(
                Style {
                    is_bold: next.is_bold && !prev.is_bold,
                    is_dimmed: next.is_dimmed && !prev.is_dimmed,
                    is_italic: next.is_italic && !prev.is_italic,
                    is_underline: next.is_underline && !prev.is_underline,
                    is_blink: next.is_blink && !prev.is_blink,
                    is_reverse: next.is_reverse && !prev.is_reverse,
                    is_hidden: next.is_hidden && !prev.is_hidden,
                    is_strikethrough: next.is_strikethrough && !prev.is_strikethrough,
                    foreground: if next.foreground == prev.foreground {
                        None
                    } else {
                        next.foreground
                    },
                    background: if next.background == prev.background {
                        None
                    } else {
                        next.background
                    },
                },
            )
        } else {
            Difference::Reset
        }
    }
}

/// Two styles carrying the same attribute set are the same style.
pub proof fn lemma_attr_set_determines_style(a: Style, b: Style)
    requires
        attr_set(a) == attr_set(b),
    ensures
        a == b,
{
    assert(a.is_bold == b.is_bold) by {
        assert(attr_set(a).contains(Attr::Bold) == has_attr(a, Attr::Bold));
        assert(attr_set(b).contains(Attr::Bold) == has_attr(b, Attr::Bold));
    }
    assert(a.is_dimmed == b.is_dimmed) by {
        assert(attr_set(a).contains(Attr::Dimmed) == has_attr(a, Attr::Dimmed));
        assert(attr_set(b).contains(Attr::Dimmed) == has_attr(b, Attr::Dimmed));
    }
    assert(a.is_italic == b.is_italic) by {
        assert(attr_set(a).contains(Attr::Italic) == has_attr(a, Attr::Italic));
        assert(attr_set(b).contains(Attr::Italic) == has_attr(b, Attr::Italic));
    }
    assert(a.is_underline == b.is_underline) by {
        assert(attr_set(a).contains(Attr::Underline) == has_attr(a, Attr::Underline));
        assert(attr_set(b).contains(Attr::Underline) == has_attr(b, Attr::Underline));
    }
    assert(a.is_blink == b.is_blink) by {
        assert(attr_set(a).contains(Attr::Blink) == has_attr(a, Attr::Blink));
        assert(attr_set(b).contains(Attr::Blink) == has_attr(b, Attr::Blink));
    }
    assert(a.is_reverse == b.is_reverse) by {
        assert(attr_set(a).contains(Attr::Reverse) == has_attr(a, Attr::Reverse));
        assert(attr_set(b).contains(Attr::Reverse) == has_attr(b, Attr::Reverse));
    }
    assert(a.is_hidden == b.is_hidden) by {
        assert(attr_set(a).contains(Attr::Hidden) == has_attr(a, Attr::Hidden));
        assert(attr_set(b).contains(Attr::Hidden) == has_attr(b, Attr::Hidden));
    }
    assert(a.is_strikethrough == b.is_strikethrough) by {
        assert(attr_set(a).contains(Attr::Strikethrough) == has_attr(a, Attr::Strikethrough));
        assert(attr_set(b).contains(Attr::Strikethrough) == has_attr(b, Attr::Strikethrough));
    }
    match a.foreground {
        Some(c) => {
            assert(attr_set(a).contains(Attr::Foreground(c)));
            assert(has_attr(b, Attr::Foreground(c)));
        },
        None => {
            match b.foreground {
                Some(c) => {
                    assert(attr_set(b).contains(Attr::Foreground(c)));
                    assert(has_attr(a, Attr::Foreground(c)));
                },
                None => {},
            }
        },
    }
    match a.background {
        Some(c) => {
            assert(attr_set(a).contains(Attr::Background(c)));
            assert(has_attr(b, Attr::Background(c)));
        },
        None => {
            match b.background {
                Some(c) => {
                    assert(attr_set(b).contains(Attr::Background(c)));
                    assert(has_attr(a, Attr::Background(c)));
                },
                None => {},
            }
        },
    }
    assert(a =~= b);
}

/// `covers` is the pointwise form of attribute-set inclusion.
pub proof fn lemma_covers_iff_subset(prev: Style, next: Style)
    ensures
        covers(prev, next) <==> attr_set(prev).subset_of(attr_set(next)),
{
    if covers(prev, next) {
        assert forall|a: Attr| attr_set(prev).contains(a) implies attr_set(next).contains(a) by {
            assert(has_attr(prev, a));
        }
    }
    if attr_set(prev).subset_of(attr_set(next)) {
        assert(attr_set(prev).contains(Attr::Bold) ==> attr_set(next).contains(Attr::Bold));
        assert(attr_set(prev).contains(Attr::Dimmed) ==> attr_set(next).contains(Attr::Dimmed));
        assert(attr_set(prev).contains(Attr::Italic) ==> attr_set(next).contains(Attr::Italic));
        assert(attr_set(prev).contains(Attr::Underline) ==> attr_set(next).contains(
            Attr::Underline,
        ));
        assert(attr_set(prev).contains(Attr::Blink) ==> attr_set(next).contains(Attr::Blink));
        assert(attr_set(prev).contains(Attr::Reverse) ==> attr_set(next).contains(Attr::Reverse));
        assert(attr_set(prev).contains(Attr::Hidden) ==> attr_set(next).contains(Attr::Hidden));
        assert(attr_set(prev).contains(Attr::Strikethrough) ==> attr_set(next).contains(
            Attr::Strikethrough,
        ));
        match prev.foreground {
            Some(c) => {
                assert(attr_set(prev).contains(Attr::Foreground(c)));
                assert(attr_set(next).contains(Attr::Foreground(c)));
            },
            None => {},
        }
        match prev.background {
            Some(c) => {
                assert(attr_set(prev).contains(Attr::Background(c)));
                assert(attr_set(next).contains(Attr::Background(c)));
            },
            None => {},
        }
    }
}

/// Law: a style compared with itself needs no transition.
pub proof fn lemma_between_same(s: Style)
    ensures
        spec_between(s, s) == Difference::NoDifference,
{
}

/// Law: when `next`'s attribute set strictly extends `prev`'s, the
/// transition is `ExtraStyles` carrying exactly the added attributes:
/// the set difference of the two attribute sets.
pub proof fn lemma_between_superset(prev: Style, next: Style)
    requires
        attr_set(prev).subset_of(attr_set(next)),
        attr_set(prev) != attr_set(next),
    ensures
        spec_between(prev, next) == Difference::ExtraStyles(spec_delta(prev, next)),
        attr_set(spec_delta(prev, next)) == attr_set(next).difference(attr_set(prev)),
{
    lemma_covers_iff_subset(prev, next);
    if next == prev {
        assert(attr_set(prev) == attr_set(next));
    }
    let d = spec_delta(prev, next);
    assert forall|a: Attr|
        attr_set(d).contains(a) == attr_set(next).difference(attr_set(prev)).contains(a) by {
        assert(attr_set(d).contains(a) == has_attr(d, a));
        assert(attr_set(next).contains(a) == has_attr(next, a));
        assert(attr_set(prev).contains(a) == has_attr(prev, a));
    }
    assert(attr_set(d) =~= attr_set(next).difference(attr_set(prev)));
}

/// Law: `ExtraStyles` never carries a plain style — an empty transition
/// is classified as `NoDifference`, never as a no-op `ExtraStyles`.
pub proof fn lemma_extra_styles_never_plain(prev: Style, next: Style)
    ensures
        spec_between(prev, next) matches Difference::ExtraStyles(d) ==> !d.spec_is_plain(),
{
    match spec_between(prev, next) {
        Difference::ExtraStyles(d) => {
            if d.spec_is_plain() {
                assert(next =~= prev);
            }
        },
        _ => {},
    }
}

/// Law: when `next` lacks some attribute of `prev` — a cleared flag, an
/// emptied colour slot, or a changed colour — the transition is a full
/// reset.
pub proof fn lemma_between_drop(prev: Style, next: Style)
    requires
        !attr_set(prev).subset_of(attr_set(next)),
    ensures
        spec_between(prev, next) == Difference::Reset,
{
    lemma_covers_iff_subset(prev, next);
    if next == prev {
        assert(attr_set(prev).subset_of(attr_set(next)));
    }
}

} // verus!
