//! Colour markup: `#[name]` makes a registered colour the foreground of the
//! text that follows, `#[]` (or an unknown name) goes back to the default
//! foreground, and a `#[` with no `]` after it is plain text.
use vstd::prelude::*;

use crate::color::{Color, DEFAULT_FORE};
use crate::console::{lemma_same_cells, Console, ConsoleView};

verus! {

/// Where printed text is placed relative to the given column.
#[derive(Clone, Copy, PartialEq, Eq, Debug)]
pub enum TextAlign {
    /// The text starts at the column.
    Left,
    /// The text ends at the column.
    Right,
    /// The text is centred on the column.
    Center,
}

/// The index of the first `]` in `t` at or after `j`, or `t.len()` if none.
pub open spec fn close_from(t: Seq<char>, j: int) -> int
    decreases t.len() - j,
{
    if j >= t.len() {
        t.len() as int
    } else if t[j] == ']' {
        j
    } else {
        close_from(t, j + 1)
    }
}

/// Whether a colour tag `#[...]` starts at `i`: the two opening characters
/// and a closing `]` after them.
pub open spec fn opens_tag(t: Seq<char>, i: int) -> bool {
    &&& 0 <= i
    &&& i + 1 < t.len()
    &&& t[i] == '#'
    &&& t[i + 1] == '['
    &&& i + 2 <= close_from(t, i + 2) < t.len()
}

/// The foreground that the tag naming `name` selects.
pub open spec fn tag_color(colors: Map<Seq<char>, Color>, name: Seq<char>) -> Color {
    if name.len() > 0 && colors.contains_key(name) {
        colors[name]
    } else {
        DEFAULT_FORE
    }
}

/// The visible characters of `t` from index `i` on, each with the foreground
/// it is printed in, when `active` is the foreground at `i`.
pub open spec fn glyphs_from(t: Seq<char>, i: int, colors: Map<Seq<char>, Color>, active: Color) -> Seq<(char, Color)>
    decreases t.len() - i,
{
    if i < 0 || i >= t.len() {
        Seq::empty()
    } else if opens_tag(t, i) {
        let k = close_from(t, i + 2);
        glyphs_from(t, k + 1, colors, tag_color(colors, t.subrange(i + 2, k)))
    } else {
        seq![(t[i], active)] + glyphs_from(t, i + 1, colors, active)
    }
}

/// The visible characters of a markup text, each with its foreground.
pub open spec fn visible(t: Seq<char>, colors: Map<Seq<char>, Color>) -> Seq<(char, Color)> {
    glyphs_from(t, 0, colors, DEFAULT_FORE)
}

/// The glyph code a character is printed as.
pub open spec fn glyph_code(c: char) -> u16 {
    (c as u32) as u16
}

/// How many visible characters are printed: all of them, or at most
/// `max_width`.
pub open spec fn shown_len(len: nat, max_width: Option<u32>) -> nat {
    match max_width {
        Some(m) => if len <= m { len } else { m as nat },
        None => len,
    }
}

/// The column of the first of `n` characters aligned on column `x`.
pub open spec fn print_start(x: int, n: nat, align: TextAlign) -> int {
    match align {
        TextAlign::Left => x,
        TextAlign::Right => x - n + 1,
        TextAlign::Center => x - (n as int) / 2,
    }
}

impl ConsoleView {
    /// `after` is `self` with the characters of `shown` written from column
    /// `x` of row `y` on, where they fall in the grid: glyph and foreground
    /// replaced, background kept.
    pub open spec fn printed(self, after: ConsoleView, x: int, y: int, shown: Seq<(char, Color)>) -> bool {
        &&& after.position == self.position
        &&& after.width == self.width
        &&& after.height == self.height
        &&& after.cells.len() == self.cells.len()
        &&& after.colors == self.colors
        &&& forall|px: int, py: int|
            after.in_bounds(px, py) ==> #[trigger] after.at(px, py) == if py == y && x <= px < x
                + shown.len() {
                crate::console::Cell {
                    glyph: glyph_code(shown[px - x].0),
                    fore: shown[px - x].1,
                    back: self.at(px, py).back,
                }
            } else {
                self.at(px, py)
            }
    }
}

proof fn lemma_close_from_bounds(t: Seq<char>, j: int)
    requires
        0 <= j,
    ensures
        j <= close_from(t, j) || close_from(t, j) == t.len(),
        close_from(t, j) <= t.len() || j > t.len(),
        close_from(t, j) < t.len() ==> t[close_from(t, j)] == ']',
    decreases t.len() - j,
{
    if j < t.len() && t[j] != ']' {
        lemma_close_from_bounds(t, j + 1);
    }
}

/// The characters of `s`.
pub(crate) fn chars_of(s: &str) -> (r: Vec<char>)
    ensures
        r@ == s@,
{
    let n = s.unicode_len();
    let mut r: Vec<char> = Vec::new();
    let mut i: usize = 0;
    while i < n
        invariant
            n == s@.len(),
            i <= n,
            r@ == s@.take(i as int),
        decreases n - i,
    {
        r.push(s.get_char(i));
        i = i + 1;
        assert(r@ =~= s@.take(i as int));
    }
    assert(s@.take(n as int) =~= s@);
    r
}

/// The index of the first `]` in `v` at or after `j`, or `v.len()`.
fn find_close(v: &Vec<char>, j: usize) -> (r: usize)
    ensures
        r as int == close_from(v@, j as int),
{
    let mut k: usize = j;
    if k >= v.len() {
        return v.len();
    }
    while k < v.len()
        invariant
            j <= k <= v@.len(),
            close_from(v@, k as int) == close_from(v@, j as int),
        decreases v@.len() - k,
    {
        if v[k] == ']' {
            return k;
        }
        k = k + 1;
    }
    k
}

impl Console {
    /// The visible characters of `text`, each with the foreground it is
    /// printed in.
    pub fn color_spans(&self, text: &str) -> (r: Vec<(char, Color)>)
        ensures
            r@ == visible(text@, self@.colors),
    {
        let v = chars_of(text);
        let n = v.len();
        let ghost t = text@;
        let mut out: Vec<(char, Color)> = Vec::new();
        let mut active: Color = DEFAULT_FORE;
        let mut i: usize = 0;
        while i < n
            invariant
                n == t.len(),
                v@ == t,
                t == text@,
                i <= n,
                out@ + glyphs_from(t, i as int, self@.colors, active) == visible(t, self@.colors),
            decreases n - i,
        {
            if i + 1 < n && v[i] == '#' && v[i + 1] == '[' {
                let k = find_close(&v, i + 2);
                proof {
                    lemma_close_from_bounds(t, i + 2);
                }
                if k < n {
                    let name = text.substring_char(i + 2, k);
                    let found = self.lookup_color(name);
                    let c = match found {
                        Some(c) => if k > i + 2 { c } else { DEFAULT_FORE },
                        None => DEFAULT_FORE,
                    };
                    assert(opens_tag(t, i as int));
                    assert(c == tag_color(self@.colors, t.subrange(i + 2, k as int)));
                    active = c;
                    i = k + 1;
                    continue;
                }
            }
            let ghost rest = glyphs_from(t, i as int + 1, self@.colors, active);
            let ghost prev = out@;
            assert(!opens_tag(t, i as int));
            out.push((v[i], active));
            assert(prev + (seq![(t[i as int], active)] + rest) =~= out@ + rest);
            i = i + 1;
        }
        assert(out@ + glyphs_from(t, i as int, self@.colors, active) =~= out@);
        out
    }
    /// The number of visible characters of `text`: its length without the
    /// colour tags.
    pub fn text_color_len(&self, text: &str) -> (r: usize)
        ensures
            r == visible(text@, self@.colors).len(),
    {
        let spans = self.color_spans(text);
        spans.len()
    }

    /// Prints markup `text` on row `y`, aligned on column `x`. Only the first
    /// `max_width` visible characters are printed when a width is given.
    /// Each printed cell takes the character as its glyph and the active
    /// markup colour as its foreground; backgrounds are kept, and characters
    /// that fall outside the grid are dropped.
    pub fn print_color(&mut self, x: i32, y: i32, text: &str, align: TextAlign, max_width: Option<u32>)
        requires
            old(self).wf(),
        ensures
            final(self).wf(),
            ({
                let g = visible(text@, old(self)@.colors);
                let n = shown_len(g.len(), max_width);
                old(self)@.printed(final(self)@, print_start(x as int, n, align), y as int, g.take(n as int))
            }),
    {
        let ghost orig = self@;
        let spans = self.color_spans(text);
        let ghost g = spans@;
        let len = spans.len();
        let n: usize = match max_width {
            Some(m) => if (len as u64) <= (m as u64) { len } else { m as usize },
            None => len,
        };
        let start: i128 = match align {
            TextAlign::Left => x as i128,
            TextAlign::Right => x as i128 - n as i128 + 1,
            TextAlign::Center => x as i128 - (n as i128) / 2,
        };
        let ghost shown = g.take(n as int);
        assert(orig.printed(self@, start as int, y as int, shown.take(0)));
        let mut k: usize = 0;
        while k < n
            invariant
                self.wf(),
                k <= n,
                n <= g.len(),
                g == spans@,
                shown == g.take(n as int),
                start == print_start(x as int, n as nat, align),
                self@.width == orig.width,
                self@.height == orig.height,
                orig.printed(self@, start as int, y as int, shown.take(k as int)),
            decreases n - k,
        {
            let ghost before = self@;
            let px: i128 = start + k as i128;
            let (ch, col) = spans[k];
            if 0 <= px && px < self.get_width() as i128 && 0 <= y && (y as u32) < self.get_height() {
                self.paint_at(px as u32, y as u32, Some((ch as u32) as u16), Some(col), None);
            }
            proof {
                let prev = shown.take(k as int);
                let next = shown.take(k as int + 1);
                assert forall|qx: int, qy: int| self@.in_bounds(qx, qy) implies #[trigger] self@.at(qx, qy)
                    == if qy == y && start <= qx < start + next.len() {
                    crate::console::Cell {
                        glyph: glyph_code(next[qx - start].0),
                        fore: next[qx - start].1,
                        back: orig.at(qx, qy).back,
                    }
                } else {
                    orig.at(qx, qy)
                } by {
                    assert(before.at(qx, qy) == if qy == y && start <= qx < start + prev.len() {
                        crate::console::Cell {
                            glyph: glyph_code(prev[qx - start].0),
                            fore: prev[qx - start].1,
                            back: orig.at(qx, qy).back,
                        }
                    } else {
                        orig.at(qx, qy)
                    });
                    if qx == px && qy == y {
                        assert(next[qx - start] == g[k as int]);
                    } else if qy == y && start <= qx < start + prev.len() {
                        assert(next[qx - start] == prev[qx - start]);
                    }
                }
            }
            k = k + 1;
        }
        assert(shown.take(n as int) =~= shown);
    }
}

proof fn lemma_close_from_shift(p: Seq<char>, t: Seq<char>, j: int)
    requires
        0 <= j,
    ensures
        close_from(p + t, p.len() + j) == p.len() + close_from(t, j),
    decreases t.len() - j,
{
    if j < t.len() {
        assert((p + t)[p.len() + j] == t[j]);
        if t[j] != ']' {
            lemma_close_from_shift(p, t, j + 1);
        }
    }
}

/// What follows index `i` of `t` is read the same whatever stands before `t`.
proof fn lemma_glyphs_suffix(p: Seq<char>, t: Seq<char>, i: int, colors: Map<Seq<char>, Color>, active: Color)
    requires
        0 <= i,
    ensures
        glyphs_from(p + t, p.len() + i, colors, active) == glyphs_from(t, i, colors, active),
    decreases t.len() - i,
{
    let u = p + t;
    let q = p.len() + i;
    if i < t.len() {
        lemma_close_from_shift(p, t, i + 2);
        lemma_close_from_bounds(t, i + 2);
        assert(u[q] == t[i]);
        if i + 1 < t.len() {
            assert(u[q + 1] == t[i + 1]);
        }
        assert(opens_tag(u, q) == opens_tag(t, i));
        if opens_tag(t, i) {
            let k = close_from(t, i + 2);
            assert(u.subrange(q + 2, p.len() + k) =~= t.subrange(i + 2, k));
            lemma_glyphs_suffix(p, t, k + 1, colors, tag_color(colors, t.subrange(i + 2, k)));
        } else {
            lemma_glyphs_suffix(p, t, i + 1, colors, active);
        }
    }
}

/// The number of visible characters does not depend on the colour.
proof fn lemma_glyphs_len(t: Seq<char>, i: int, colors: Map<Seq<char>, Color>, a: Color, b: Color)
    ensures
        glyphs_from(t, i, colors, a).len() == glyphs_from(t, i, colors, b).len(),
    decreases t.len() - i,
{
    if 0 <= i < t.len() && !opens_tag(t, i) {
        lemma_glyphs_len(t, i + 1, colors, a, b);
    }
}

proof fn lemma_close_skips(t: Seq<char>, j: int, k: int)
    requires
        0 <= j <= k <= t.len(),
        forall|m: int| j <= m < k ==> t[m] != ']',
    ensures
        close_from(t, j) == close_from(t, k),
    decreases k - j,
{
    if j < k {
        lemma_close_skips(t, j + 1, k);
    }
}

/// A colour tag in front of a text adds no visible characters: the text is
/// centred on the same columns with the tag as without it.
pub proof fn lemma_tag_keeps_center(name: Seq<char>, t: Seq<char>, colors: Map<Seq<char>, Color>, x: int)
    requires
        forall|m: int| 0 <= m < name.len() ==> name[m] != ']',
    ensures
        ({
            let tagged = seq!['#', '['] + name + seq![']'] + t;
            &&& visible(tagged, colors).len() == visible(t, colors).len()
            &&& print_start(x, visible(tagged, colors).len(), TextAlign::Center) == x - (visible(t, colors).len() as int) / 2
        }),
{
    let head = seq!['#', '['] + name + seq![']'];
    let tagged = head + t;
    assert(seq!['#', '['] + name + seq![']'] + t =~= tagged);
    let n = name.len() as int;
    assert(tagged[0] == '#');
    assert(tagged[1] == '[');
    assert forall|m: int| 2 <= m < 2 + n implies tagged[m] != ']' by {
        assert(tagged[m] == name[m - 2]);
    }
    assert(tagged[2 + n] == ']');
    lemma_close_skips(tagged, 2, 2 + n);
    assert(close_from(tagged, 2) == 2 + n);
    assert(opens_tag(tagged, 0));
    let col = tag_color(colors, tagged.subrange(2, 2 + n));
    assert(visible(tagged, colors) == glyphs_from(tagged, 3 + n, colors, col));
    lemma_glyphs_suffix(head, t, 0, colors, col);
    assert(head.len() == 3 + n);
    lemma_glyphs_len(t, 0, colors, col, crate::color::DEFAULT_FORE);
}

/// A print on a row outside the grid leaves the console unchanged.
pub proof fn lemma_print_outside_keeps_grid(
    before: ConsoleView,
    after: ConsoleView,
    x: int,
    y: int,
    shown: Seq<(char, Color)>,
)
    requires
        before.cells.len() == before.width * before.height,
        !(0 <= y < before.height),
        before.printed(after, x, y, shown),
    ensures
        after == before,
{
    assert forall|px: int, py: int| after.in_bounds(px, py) implies #[trigger] after.at(px, py) == before.at(px, py) by {}
    lemma_same_cells(after, before);
}

} // verus!
