//! The colors of the layers.

use crate::display::{fresh, Display};
use crate::geometry::Color;
use crate::text::chars_of;
use vstd::prelude::*;
use vstd::string::*;

verus! {

/// The small letter of an ASCII capital; any other character itself.
pub open spec fn ascii_small(c: char) -> char {
    if 'A' as int <= c as int <= 'Z' as int {
        (c as int + 32) as char
    } else {
        c
    }
}

/// Whether two texts differ in nothing but the case of ASCII letters.
pub open spec fn same_but_case(a: Seq<char>, b: Seq<char>) -> bool {
    a.len() == b.len() && forall|i: int|
        0 <= i < a.len() ==> ascii_small(#[trigger] a[i]) == ascii_small(b[i])
}

/// Whether `part` occurs in `s`.
pub open spec fn occurs_in(part: Seq<char>, s: Seq<char>) -> bool {
    exists|i: int| #[trigger] occurs_at(part, s, i)
}

/// Whether `part` occurs in `s` at `i`.
pub open spec fn occurs_at(part: Seq<char>, s: Seq<char>, i: int) -> bool {
    0 <= i <= s.len() - part.len() && s.subrange(i, i + part.len()) == part
}

fn small(c: char) -> (r: char)
    ensures
        r == ascii_small(c),
{
    if c >= 'A' && c <= 'Z' {
        let n = c as u8;
        (n + 32) as char
    } else {
        c
    }
}

/// Decides [`same_but_case`].
fn equal_but_case(a: &str, b: &str) -> (r: bool)
    ensures
        r == same_but_case(a@, b@),
{
    let x = chars_of(a);
    let y = chars_of(b);
    if x.len() != y.len() {
        return false;
    }
    let mut i: usize = 0;
    while i < x.len()
        invariant
            x@ == a@,
            y@ == b@,
            i <= x@.len() == y@.len(),
            forall|j: int| 0 <= j < i ==> ascii_small(#[trigger] x@[j]) == ascii_small(y@[j]),
        decreases x@.len() - i,
    {
        if small(x[i]) != small(y[i]) {
            return false;
        }
        i += 1;
    }
    true
}

/// Decides [`occurs_at`].
fn found_at(part: &Vec<char>, s: &Vec<char>, i: usize) -> (r: bool)
    requires
        i + part@.len() <= s@.len(),
    ensures
        r == occurs_at(part@, s@, i as int),
{
    let mut j: usize = 0;
    while j < part.len()
        invariant
            i + part@.len() <= s@.len(),
            j <= part@.len(),
            forall|k: int| 0 <= k < j ==> #[trigger] part@[k] == s@[i + k],
        decreases part@.len() - j,
    {
        assert(i + j < s.len());
        if s[i + j] != part[j] {
            assert(s@.subrange(i as int, i + part@.len())[j as int] != part@[j as int]);
            return false;
        }
        j += 1;
    }
    assert(s@.subrange(i as int, i + part@.len()) =~= part@);
    true
}

/// Decides [`occurs_in`].
fn contains_text(s: &str, part: &str) -> (r: bool)
    ensures
        r == occurs_in(part@, s@),
{
    let whole = chars_of(s);
    let sought = chars_of(part);
    let mut i: usize = 0;
    while i < whole.len() && whole.len() - i > sought.len()
        invariant
            whole@ == s@,
            sought@ == part@,
            i <= whole@.len(),
            forall|j: int| 0 <= j < i ==> !#[trigger] occurs_at(part@, s@, j),
        decreases whole@.len() - i,
    {
        if found_at(&sought, &whole, i) {
            return true;
        }
        i += 1;
    }
    whole.len() - i >= sought.len() && found_at(&sought, &whole, i)
}

/// How many colors a terminal has that describes itself by `colorterm` and
/// `term`.
pub open spec fn color_count(colorterm: Option<Seq<char>>, term: Option<Seq<char>>) -> int {
    if colorterm matches Some(c) && (same_but_case(c, "truecolor"@) || same_but_case(c, "24bit"@)) {
        0x1000000
    } else if term matches Some(t) && occurs_in("256color"@, t) {
        256
    } else if term matches Some(t) && occurs_in("16color"@, t) {
        16
    } else {
        8
    }
}

/// The characters of a string that may be missing.
pub open spec fn text_of(s: Option<String>) -> Option<Seq<char>> {
    match s {
        Some(s) => Some(s@),
        None => None,
    }
}

/// Computes [`color_count`] from the values of `COLORTERM` and `TERM`.
pub fn detect_color_count(colorterm: Option<String>, term: Option<String>) -> (n: usize)
    ensures
        n == color_count(text_of(colorterm), text_of(term)),
{
    if let Some(c) = &colorterm {
        if equal_but_case(c.as_str(), "truecolor") || equal_but_case(c.as_str(), "24bit") {
            return 0x1000000;
        }
    }
    if let Some(t) = &term {
        if contains_text(t.as_str(), "256color") {
            return 256;
        }
        if contains_text(t.as_str(), "16color") {
            return 16;
        }
    }
    8
}

/// The colors of the layers on a terminal with `color_count` colors: six, a
/// gray that is dark where there are more than eight, and black.
pub open spec fn palette_of(color_count: int) -> Seq<Color> {
    seq![
        Color::Blue,
        Color::Magenta,
        Color::Cyan,
        Color::Green,
        Color::Yellow,
        Color::Red,
        if color_count <= 8 {
            Color::Gray
        } else {
            Color::DarkGray
        },
        Color::Black,
    ]
}

/// Computes [`palette_of`].
pub fn palette_for(color_count: usize) -> (p: Vec<Color>)
    ensures
        p@ == palette_of(color_count as int),
{
    let mut p: Vec<Color> = Vec::new();
    p.push(Color::Blue);
    p.push(Color::Magenta);
    p.push(Color::Cyan);
    p.push(Color::Green);
    p.push(Color::Yellow);
    p.push(Color::Red);
    p.push(
        if color_count <= 8 {
            Color::Gray
        } else {
            Color::DarkGray
        },
    );
    p.push(Color::Black);
    assert(p@ =~= palette_of(color_count as int));
    p
}

impl<W> Display<W> {
    /// A display with the log and the input line alone, in the colors of a
    /// terminal that describes itself by `COLORTERM` and `TERM`.
    pub fn new(colorterm: Option<String>, term: Option<String>) -> (d: Display<W>)
        ensures
            d.wf(),
            fresh(d),
            d.palette@ == palette_of(color_count(text_of(colorterm), text_of(term))),
    {
        Display::with_palette(palette_for(detect_color_count(colorterm, term)))
    }
}

} // verus!
