//! Section numbers for the headings inside a chapter, continuing the
//! chapter's own mdBook number (`2.3.` is followed by `2.3.1.`, `2.3.2.`, ...).

use vstd::prelude::*;
use crate::book::ChapterInfo;
use crate::text::{decimal, push_char, push_decimal};

verus! {

/// The deepest heading level a number can have.
pub const MAX_HEADING_DEPTH: usize = 6;

/// `x` clamped to `[lo, hi]`.
pub open spec fn clamp(x: int, lo: int, hi: int) -> int {
    if x < lo { lo } else if x > hi { hi } else { x }
}

/// The dotted text of a section number: `[2, 3]` is `2.3.`, and the empty
/// number is `0`.
pub open spec fn section_text(c: Seq<u32>) -> Seq<char> {
    if c.len() == 0 { seq!['0'] } else { dotted(c) }
}

/// Each component in decimal, each followed by a dot.
pub open spec fn dotted(c: Seq<u32>) -> Seq<char>
    decreases c.len(),
{
    if c.len() == 0 {
        Seq::empty()
    } else {
        dotted(c.drop_last()) + decimal(c.last() as nat).push('.')
    }
}

/// The level of the number given to a Markdown heading of `markdown_level`
/// in a chapter numbered with `base_len` components whose first heading
/// level is `first_level`.
pub open spec fn heading_level_for(base_len: nat, first_level: nat, markdown_level: nat) -> nat {
    let rel = clamp(markdown_level as int, 1, 6) - first_level;
    let rel = if rel < 0 { 0 } else { rel };
    clamp(base_len + rel, 1, 6) as nat
}

/// The counters after moving to a heading of `level`: none at level 0;
/// else cut back to `level` components and count the last one up, or go
/// deeper with new components starting at 1.
pub open spec fn advance(c: Seq<u32>, level: nat) -> Seq<u32> {
    if level == 0 {
        seq![]
    } else if c.len() >= level {
        let t = c.take(level as int);
        t.update(level - 1, (t[level - 1] + 1) as u32)
    } else {
        c + Seq::new((level - c.len()) as nat, |i: int| 1u32)
    }
}

/// `advance(c, level)` stays within `u32`.
pub open spec fn can_advance(c: Seq<u32>, level: nat) -> bool {
    1 <= level <= c.len() ==> c[level - 1] < u32::MAX
}

/// `a` comes strictly before `b` in the order of section numbers
/// (lexicographic, a number before its subsections).
pub open spec fn number_before(a: Seq<u32>, b: Seq<u32>) -> bool {
    ||| exists|k: int|
        0 <= k < a.len() && k < b.len() && a.take(k) == b.take(k) && #[trigger] a[k] < b[k]
    ||| (a.len() < b.len() && b.take(a.len() as int) == a)
}

/// A heading's number and the heading level it belongs to.
#[derive(Clone, Debug, PartialEq, Eq)]
pub struct HeadingNumber {
    pub level: usize,
    pub text: String,
}

/// Hands out the section numbers of a chapter's headings in document order.
#[derive(Clone, Debug)]
pub struct HeadingNumberer {
    base: Vec<u32>,
    first_markdown_level: usize,
    counters: Vec<u32>,
    seen_heading: bool,
}

impl HeadingNumberer {
    /// The chapter's number, at most six components.
    pub closed spec fn base(self) -> Seq<u32> {
        self.base@
    }

    /// The number of the latest heading (the chapter's number before the first).
    pub closed spec fn counters(self) -> Seq<u32> {
        self.counters@
    }

    /// The Markdown level of the chapter's top headings, in `[1, 6]`.
    pub closed spec fn first_level(self) -> nat {
        self.first_markdown_level as nat
    }

    /// Whether a heading has been numbered yet.
    pub closed spec fn seen(self) -> bool {
        self.seen_heading
    }

    pub closed spec fn wf(self) -> bool {
        &&& 1 <= self.base@.len() <= 6
        &&& 1 <= self.first_markdown_level <= 6
        &&& 1 <= self.counters@.len() <= 6
        &&& !self.seen_heading ==> self.counters@ == self.base@
    }

    /// A numberer for `chapter`, or `None` when the chapter has no number.
    /// `first_markdown_level` (clamped to `[1, 6]`) is the Markdown level of
    /// the chapter's top headings, which get the chapter's own number.
    pub fn new(chapter: &ChapterInfo, first_markdown_level: usize) -> (r: Option<Self>)
        ensures
            match chapter.number {
                None => r is None,
                Some(n) => if n@.len() == 0 {
                    r is None
                } else {
                    r matches Some(h) && h.wf() && !h.seen()
                        && h.base() == n@.take(clamp(n@.len() as int, 0, 6))
                        && h.counters() == h.base()
                        && h.first_level() == clamp(first_markdown_level as int, 1, 6)
                },
            },
    {
        match &chapter.number {
            None => None,
            Some(n) => {
                if n.len() == 0 {
                    return None;
                }
                let take = if n.len() > MAX_HEADING_DEPTH { MAX_HEADING_DEPTH } else { n.len() };
                let mut base: Vec<u32> = Vec::new();
                let mut i: usize = 0;
                while i < take
                    invariant
                        take <= n.len(),
                        i <= take,
                        base@ == n@.take(i as int),
                    decreases take - i,
                {
                    base.push(n[i]);
                    i += 1;
                    assert(base@ =~= n@.take(i as int));
                }
                let first = if first_markdown_level < 1 {
                    1
                } else if first_markdown_level > MAX_HEADING_DEPTH {
                    MAX_HEADING_DEPTH
                } else {
                    first_markdown_level
                };
                let counters = base.clone();
                Some(HeadingNumberer { base, first_markdown_level: first, counters, seen_heading: false })
            },
        }
    }

    /// Whether the next heading of `markdown_level` can be numbered without
    /// a component passing `u32::MAX`.
    pub open spec fn can_number(self, markdown_level: usize) -> bool {
        self.seen() ==> can_advance(
            self.counters(),
            heading_level_for(self.base().len(), self.first_level(), markdown_level as nat),
        )
    }

    /// The number of the next heading, whose Markdown level is
    /// `markdown_level`. The first heading gets the chapter's number; each
    /// later one moves on from the previous number with `advance`.
    pub fn next(&mut self, markdown_level: usize) -> (r: HeadingNumber)
        requires
            old(self).wf(),
            old(self).can_number(markdown_level),
        ensures
            final(self).wf(),
            final(self).seen(),
            final(self).base() == old(self).base(),
            final(self).first_level() == old(self).first_level(),
            r.level as nat == heading_level_for(
                old(self).base().len(),
                old(self).first_level(),
                markdown_level as nat,
            ),
            1 <= r.level <= 6,
            final(self).counters() == if old(self).seen() {
                advance(old(self).counters(), r.level as nat)
            } else {
                old(self).base()
            },
            r.text@ == section_text(final(self).counters()),
            old(self).seen() ==> final(self).counters().len() == r.level,
            old(self).seen() ==> number_before(old(self).counters(), final(self).counters()),
    {
        let md = if markdown_level < 1 {
            1
        } else if markdown_level > MAX_HEADING_DEPTH {
            MAX_HEADING_DEPTH
        } else {
            markdown_level
        };
        let relative_depth = if md >= self.first_markdown_level { md - self.first_markdown_level } else { 0 };
        let sum = self.base.len() + relative_depth;
        let level = if sum < 1 { 1 } else if sum > MAX_HEADING_DEPTH { MAX_HEADING_DEPTH } else { sum };
        let ghost old_counters = self.counters@;
        if self.seen_heading {
            self.advance_to(level);
            proof { lemma_advance_is_later(old_counters, level as nat); }
        } else {
            self.counters = self.base.clone();
            self.seen_heading = true;
        }
        let text = format_section_components(&self.counters);
        HeadingNumber { level, text }
    }

    /// Moves the counters to the next heading of `level` (see `advance`).
    pub fn advance_to(&mut self, level: usize)
        requires
            can_advance(old(self).counters(), level as nat),
        ensures
            final(self).counters() == advance(old(self).counters(), level as nat),
            final(self).base() == old(self).base(),
            final(self).first_level() == old(self).first_level(),
            final(self).seen() == old(self).seen(),
    {
        let ghost c = self.counters@;
        if level == 0 {
            self.counters.truncate(0);
            assert(self.counters@ =~= advance(c, 0));
            return;
        }
        if self.counters.len() >= level {
            self.counters.truncate(level);
            let last = self.counters[level - 1];
            self.counters.set(level - 1, last + 1);
            assert(self.counters@ =~= advance(c, level as nat));
            return;
        }
        while self.counters.len() < level
            invariant
                c.len() < level,
                c.len() <= self.counters@.len() <= level,
                self.base == old(self).base,
                self.first_markdown_level == old(self).first_markdown_level,
                self.seen_heading == old(self).seen_heading,
                self.counters@ =~= c + Seq::new((self.counters@.len() - c.len()) as nat, |i: int| 1u32),
            decreases level - self.counters.len(),
        {
            self.counters.push(1);
        }
    }
}

/// Moving to a heading with `advance` always gives a later number.
pub proof fn lemma_advance_is_later(c: Seq<u32>, level: nat)
    requires
        1 <= level,
        1 <= c.len(),
        can_advance(c, level),
    ensures
        number_before(c, advance(c, level)),
{
    let a = advance(c, level);
    if c.len() >= level {
        let k = level - 1;
        assert(c.take(k) =~= a.take(k));
        assert(c[k] < a[k]);
    } else {
        assert(a.take(c.len() as int) =~= c);
    }
}

/// The dotted text of a section number (`2.3.`), or `0` when it is empty.
pub fn format_section_components(components: &[u32]) -> (r: String)
    ensures
        r@ == section_text(components@),
{
    let mut out = String::new();
    if components.len() == 0 {
        push_char(&mut out, '0');
        assert(out@ =~= seq!['0']);
        return out;
    }
    let mut i: usize = 0;
    while i < components.len()
        invariant
            i <= components.len(),
            out@ == dotted(components@.take(i as int)),
        decreases components.len() - i,
    {
        let ghost before = out@;
        push_decimal(&mut out, components[i] as u64);
        push_char(&mut out, '.');
        proof {
            let t = components@.take(i + 1);
            assert(t.drop_last() =~= components@.take(i as int));
            assert(out@ =~= dotted(t));
        }
        i += 1;
    }
    assert(components@.take(components.len() as int) =~= components@);
    out
}

/// The chapter's number in dotted form (at most six components), or `None`
/// when it has no number.
pub fn chapter_number_text(chapter: &ChapterInfo) -> (r: Option<String>)
    ensures
        match chapter.number {
            Some(n) => if n@.len() == 0 {
                r is None
            } else {
                r matches Some(t) && t@ == section_text(n@.take(clamp(n@.len() as int, 0, 6)))
            },
            None => r is None,
        },
{
    match &chapter.number {
        None => None,
        Some(n) => {
            if n.len() == 0 {
                return None;
            }
            let take = if n.len() > MAX_HEADING_DEPTH { MAX_HEADING_DEPTH } else { n.len() };
            let mut c: Vec<u32> = Vec::new();
            let mut i: usize = 0;
            while i < take
                invariant
                    take <= n.len(),
                    i <= take,
                    c@ == n@.take(i as int),
                decreases take - i,
            {
                c.push(n[i]);
                i += 1;
                assert(c@ =~= n@.take(i as int));
            }
            Some(format_section_components(&c))
        },
    }
}

/// The heading level of the chapter itself: its number's length in `[1, 6]`,
/// or 1 without a number.
pub fn chapter_level(chapter: &ChapterInfo) -> (r: usize)
    ensures
        r == match chapter.number {
            Some(n) => clamp(n@.len() as int, 1, 6),
            None => 1,
        },
{
    match &chapter.number {
        None => 1,
        Some(n) => if n.len() < 1 { 1 } else if n.len() > MAX_HEADING_DEPTH { MAX_HEADING_DEPTH } else { n.len() },
    }
}

} // verus!
