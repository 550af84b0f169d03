//! Styled fragments and the streaming renderer: one borrowed value
//! paired with a style, and an ordered view over many of them that is
//! rendered with as few control bytes as possible.

use vstd::prelude::*;

use crate::difference::{spec_between, Difference};
use crate::style::{reset_seq, Colour, Style, RESET};

verus! {

/// One fragment of output: a borrowed piece of text paired with the
/// style it is to be painted with.
#[derive(Clone, Copy, Debug)]
pub struct ANSIDisplay<'a> {
    pub style: Style,
    pub display: &'a str,
}

/// An ordered, non-owning view over several fragments, rendered
/// together so that consecutive fragments share escape codes.
#[derive(Clone, Copy, Debug)]
pub struct ANSIDisplaySlice<'a>(pub &'a [ANSIDisplay<'a>]);

/// What is emitted between a fragment rendered with `prev` and the next
/// fragment rendered with `next`: nothing for identical styles, only
/// the added attributes' prefix for a strict extension, and the
/// universal reset followed by `next`'s full prefix otherwise.
pub open spec fn transition_seq(prev: Style, next: Style) -> Seq<char> {
    match spec_between(prev, next) {
        Difference::NoDifference => Seq::<char>::empty(),
        Difference::ExtraStyles(extra) => extra.spec_prefix(),
        Difference::Reset => reset_seq() + next.spec_prefix(),
    }
}

/// The output for fragments `1 .. i` of `items`: each one's transition
/// from its predecessor, followed by its text.
pub open spec fn spec_render_mid<'a>(items: Seq<ANSIDisplay<'a>>, i: int) -> Seq<char>
    decreases i,
{
    if i <= 1 {
        Seq::<char>::empty()
    } else {
        spec_render_mid(items, i - 1) + transition_seq(items[i - 2].style, items[i - 1].style)
            + items[i - 1].display@
    }
}

/// The whole rendered output: nothing for an empty sequence; otherwise
/// the first fragment's prefix and text, the diff-driven transitions
/// and texts of the remaining fragments, and a single trailing reset
/// when the last fragment's style left anything open.
pub open spec fn spec_render_all<'a>(items: Seq<ANSIDisplay<'a>>) -> Seq<char> {
    if items.len() == 0 {
        Seq::<char>::empty()
    } else {
        items[0].style.spec_prefix() + items[0].display@ + spec_render_mid(
            items,
            items.len() as int,
        ) + items[items.len() - 1].style.spec_suffix()
    }
}

impl<'a> ANSIDisplay<'a> {
    /// The output for this fragment rendered in isolation: its style's
    /// prefix, its text, and its style's suffix, so that no styling
    /// leaks past the end.
    pub open spec fn spec_render(self) -> Seq<char> {
        self.style.spec_prefix() + self.display@ + self.style.spec_suffix()
    }

    /// Directly access the style.
    pub fn style_ref(&self) -> (r: &Style)
        ensures
            *r == self.style,
    {
        &self.style
    }

    /// Directly access the style mutably.
    pub fn style_ref_mut(&mut self) -> (r: &mut Style)
        ensures
            *r == old(self).style,
            final(self).style == *final(r),
            final(self).display == old(self).display,
    {
        &mut self.style
    }

    /// The borrowed text this fragment displays.
    pub fn value_ref(&self) -> (r: &'a str)
        ensures
            r == self.display,
    {
        self.display
    }

    /// Renders this fragment in isolation.
    pub fn render(&self) -> (r: String)
        ensures
            r@ == self.spec_render(),
    {
        let mut out = self.style.prefix();
        out.append(self.display);
        let suffix = self.style.suffix();
        out.append(suffix.as_str());
        out
    }
}

impl<'a> From<&'a str> for ANSIDisplay<'a> {
    /// Wraps a borrowed text in the plain style.
    fn from(input: &'a str) -> Self {
        ANSIDisplay { style: Style::new(), display: input }
    }
}

impl<'a> vstd::std_specs::convert::FromSpecImpl<&'a str> for ANSIDisplay<'a> {
    open spec fn obeys_from_spec() -> bool {
        true
    }

    open spec fn from_spec(t: &'a str) -> Self {
        ANSIDisplay { style: Style::spec_plain(), display: t }
    }
}

impl Style {
    /// Paints the given text with this style.
    pub fn paint<'a>(self, input: &'a str) -> (r: ANSIDisplay<'a>)
        ensures
            r == (ANSIDisplay { style: self, display: input }),
    {
        ANSIDisplay { style: self, display: input }
    }
}

impl Colour {
    /// Paints the given text with this colour as the foreground, a
    /// short-cut past building the style first.
    pub fn paint<'a>(self, input: &'a str) -> (r: ANSIDisplay<'a>)
        ensures
            r == (ANSIDisplay {
                style: Style { foreground: Some(self), ..Style::spec_plain() },
                display: input,
            }),
    {
        ANSIDisplay { style: self.normal(), display: input }
    }
}

impl<'a> ANSIDisplaySlice<'a> {
    /// Streams the rendered sequence onto the end of `out`, strictly
    /// left to right: the first fragment's prefix and text, then for
    /// every later fragment the minimal transition from its
    /// predecessor's style and its text, and a single trailing reset if
    /// the last style was not plain. Earlier content of `out` is kept.
    pub fn render_to(&self, out: &mut String)
        ensures
            final(out)@ == old(out)@ + spec_render_all(self.0@),
    {
        let items: &[ANSIDisplay<'a>] = self.0;
        let n = items.len();
        if n == 0 {
            proof {
                assert(old(out)@ + spec_render_all(self.0@) =~= old(out)@);
            }
            return ;
        }
        let first_prefix = items[0].style.prefix();
        out.append(first_prefix.as_str());
        out.append(items[0].display);
        let mut i: usize = 1;
        while i < n
            invariant
                1 <= i <= n,
                n == items@.len(),
                out@ == old(out)@ + items@[0].style.spec_prefix() + items@[0].display@
                    + spec_render_mid(items@, i as int),
            decreases n - i,
        {
            let d = Difference::between(&items[i - 1].style, &items[i].style);
            match d {
                Difference::ExtraStyles(extra) => {
                    let p = extra.prefix();
                    out.append(p.as_str());
                },
                Difference::Reset => {
                    out.append(RESET);
                    let p = items[i].style.prefix();
                    out.append(p.as_str());
                },
                Difference::NoDifference => {},
            }
            out.append(items[i].display);
            proof {
                assert(out@ =~= old(out)@ + items@[0].style.spec_prefix() + items@[0].display@
                    + spec_render_mid(items@, i as int + 1));
            }
            i = i + 1;
        }
        if !items[n - 1].style.is_plain() {
            out.append(RESET);
        }
        proof {
            assert(out@ =~= old(out)@ + spec_render_all(items@));
        }
    }

    /// Renders the whole sequence into a fresh string.
    pub fn render(&self) -> (r: String)
        ensures
            r@ == spec_render_all(self.0@),
    {
        let mut out = String::new();
        self.render_to(&mut out);
        proof {
            assert(Seq::<char>::empty() + spec_render_all(self.0@) =~= spec_render_all(self.0@));
        }
        out
    }
}

/// Law: rendering an empty sequence produces empty output.
pub proof fn lemma_render_empty<'a>(items: Seq<ANSIDisplay<'a>>)
    requires
        items.len() == 0,
    ensures
        spec_render_all(items) == Seq::<char>::empty(),
{
}

/// Law: a sequence of one fragment renders exactly as that fragment
/// rendered in isolation: prefix, text, suffix.
pub proof fn lemma_render_single<'a>(items: Seq<ANSIDisplay<'a>>)
    requires
        items.len() == 1,
    ensures
        spec_render_all(items) == items[0].spec_render(),
{
    assert(spec_render_mid(items, 1) == Seq::<char>::empty());
    assert(spec_render_all(items) =~= items[0].spec_render());
}

/// Law: a single plain fragment renders as exactly its text — no
/// control bytes, in particular no reset, are added around it.
pub proof fn lemma_render_single_plain<'a>(items: Seq<ANSIDisplay<'a>>)
    requires
        items.len() == 1,
        items[0].style.spec_is_plain(),
    ensures
        spec_render_all(items) == items[0].display@,
{
    lemma_render_single(items);
    assert(spec_render_all(items) =~= items[0].display@);
}

/// Law: a single styled fragment's rendering ends with the universal
/// reset, so no styling leaks past the end of the output.
pub proof fn lemma_render_single_styled_ends_reset<'a>(items: Seq<ANSIDisplay<'a>>)
    requires
        items.len() == 1,
        !items[0].style.spec_is_plain(),
    ensures
        spec_render_all(items).len() >= reset_seq().len(),
        spec_render_all(items).skip(
            spec_render_all(items).len() - reset_seq().len(),
        ) == reset_seq(),
{
    lemma_render_single(items);
    assert(spec_render_all(items).skip(spec_render_all(items).len() - reset_seq().len())
        =~= reset_seq());
}

/// Law: two fragments with identical plain styles render as exactly the
/// concatenation of their texts, with zero control bytes.
pub proof fn lemma_render_two_plain<'a>(items: Seq<ANSIDisplay<'a>>)
    requires
        items.len() == 2,
        items[0].style.spec_is_plain(),
        items[1].style.spec_is_plain(),
    ensures
        spec_render_all(items) == items[0].display@ + items[1].display@,
{
    assert(items[0].style == items[1].style);
    assert(spec_between(items[0].style, items[1].style) == Difference::NoDifference);
    assert(transition_seq(items[0].style, items[1].style) == Seq::<char>::empty());
    assert(spec_render_mid(items, 1) == Seq::<char>::empty());
    assert(spec_render_mid(items, 2) =~= items[1].display@);
    assert(spec_render_all(items) =~= items[0].display@ + items[1].display@);
}

} // verus!
