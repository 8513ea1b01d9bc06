use vstd::prelude::*;
use vstd::std_specs::iter::IteratorSpec;
use crate::model::{ButtonV, ContainerV, InputV, TextV, WidgetV, position_of};
use crate::container::blank_border_set;

verus! {

broadcast use vstd::seq::axiom_seq_index_decreases;

/// Cap on the draw cursor while walking a text: far beyond any
/// drawable column, so clamping there never changes what is written.
pub const CURSOR_CAP: usize = 2_000_000;

/// A character sequence of a string, one code point per element.
pub fn chars_of(s: &str) -> (v: Vec<char>)
    ensures
        v@ == s@,
{
    broadcast use vstd::string::next_postcondition;
    broadcast use vstd::string::axiom_spec_iter;

    let mut it = s.chars();
    let mut v: Vec<char> = Vec::new();
    loop
        invariant
            IteratorSpec::obeys_prophetic_iter_laws(&it),
            IteratorSpec::decrease(&it) is Some,
            v@ + IteratorSpec::remaining(&it) == s@,
        ensures
            v@ == s@,
        decreases IteratorSpec::decrease(&it)->0,
    {
        match it.next() {
            Option::Some(c) => {
                v.push(c);
            },
            Option::None => {
                proof {
                    assert(IteratorSpec::remaining(&it).len() == 0);
                    assert(v@ =~= v@ + IteratorSpec::remaining(&it));
                }
                break;
            },
        }
    }
    v
}

/// Relies on String::push: appends one character at the end of the
/// string's character sequence.
#[verifier::external_body]
pub(crate) fn push_char(s: &mut String, c: char)
    ensures
        final(s)@ == old(s)@.push(c),
{
    s.push(c);
}

/// Relies on String::pop: removes the last character if the string is
/// not empty, and leaves an empty string unchanged.
#[verifier::external_body]
pub(crate) fn pop_char(s: &mut String)
    ensures
        old(s)@.len() == 0 ==> final(s)@ == old(s)@,
        old(s)@.len() > 0 ==> final(s)@ == old(s)@.drop_last(),
{
    s.pop();
}

/// A copy of an optional string.
pub fn clone_opt(o: &Option<String>) -> (r: Option<String>)
    ensures
        r == *o,
{
    match o {
        Option::Some(s) => Option::Some(s.clone()),
        Option::None => Option::None,
    }
}

/// An all-blank character grid of `h` rows by `w` columns.
pub(crate) fn make_blank_grid(w: usize, h: usize) -> (g: Vec<Vec<char>>)
    ensures
        g.deep_view() == blank_grid(w as int, h as int),
{
    let mut g: Vec<Vec<char>> = Vec::new();
    let mut y: usize = 0;
    while y < h
        invariant
            y <= h,
            g.deep_view().len() == y,
            forall|yy: int|
                0 <= yy < y ==> g.deep_view()[yy] == Seq::new(w as nat, |x: int| ' '),
        decreases h - y,
    {
        let mut row: Vec<char> = Vec::new();
        let mut x: usize = 0;
        while x < w
            invariant
                x <= w,
                row@.len() == x,
                forall|xx: int| 0 <= xx < x ==> row@[xx] == ' ',
            decreases w - x,
        {
            row.push(' ');
            x = x + 1;
        }
        let ghost gd0 = g.deep_view();
        g.push(row);
        y = y + 1;
        proof {
            assert forall|yy: int| 0 <= yy < y implies g.deep_view()[yy] == Seq::new(
                w as nat,
                |x: int| ' ',
            ) by {
                if yy < y - 1 {
                    assert(g.deep_view()[yy] == gd0[yy]);
                } else {
                    assert(g.deep_view()[yy] =~= Seq::new(w as nat, |x: int| ' '));
                }
            }
        }
    }
    proof {
        assert(g.deep_view() =~~= blank_grid(w as int, h as int));
    }
    g
}

/// Overwrites one cell of a grid.
pub(crate) fn grid_write(g: &mut Vec<Vec<char>>, x: usize, y: usize, c: char)
    requires
        (y as int) < old(g)@.len(),
        (x as int) < old(g)@[y as int]@.len(),
    ensures
        final(g).deep_view() == grid_set(old(g).deep_view(), x as int, y as int, c),
        final(g)@.len() == old(g)@.len(),
        forall|yy: int|
            0 <= yy < final(g)@.len() ==> final(g)@[yy]@.len() == old(g)@[yy]@.len(),
{
    let mut row = g.remove(y);
    row[x] = c;
    g.insert(y, row);
    proof {
        assert(g@ =~= old(g)@.update(y as int, row));
        assert(g.deep_view() =~~= grid_set(old(g).deep_view(), x as int, y as int, c));
    }
}

/// The draw cursor advanced by `d` cells, clamped at `CURSOR_CAP`.
fn adv(v: usize, d: usize) -> (r: usize)
    requires
        v <= CURSOR_CAP,
        d <= 4,
    ensures
        r as int == advance(v as int, d as int),
        r <= CURSOR_CAP,
{
    if v + d > CURSOR_CAP {
        CURSOR_CAP
    } else {
        v + d
    }
}

/// Walks `chars` over the grid from `(x0, y0)`, writing each plain
/// character inside the `(lim_x, lim_y)` clip; returns the final
/// cursor.
pub(crate) fn place_chars(
    g: &mut Vec<Vec<char>>,
    chars: &Vec<char>,
    x0: usize,
    y0: usize,
    lim_x: u64,
    lim_y: u64,
    mask: Option<char>,
) -> (r: (usize, usize))
    requires
        x0 <= CURSOR_CAP,
        y0 <= CURSOR_CAP,
        lim_y as int <= old(g)@.len(),
        forall|yy: int| 0 <= yy < old(g)@.len() ==> lim_x as int <= #[trigger] old(g)@[yy]@.len(),
    ensures
        ({
            let p = place_upto(
                old(g).deep_view(),
                chars@,
                chars@.len() as int,
                x0 as int,
                y0 as int,
                lim_x as int,
                lim_y as int,
                mask,
            );
            &&& final(g).deep_view() == p.0
            &&& r.0 as int == p.1
            &&& r.1 as int == p.2
        }),
        final(g)@.len() == old(g)@.len(),
        forall|yy: int|
            0 <= yy < final(g)@.len() ==> final(g)@[yy]@.len() == old(g)@[yy]@.len(),
{
    let ghost g0 = old(g).deep_view();
    let n = chars.len();
    let mut x: usize = x0;
    let mut y: usize = y0;
    let mut i: usize = 0;
    while i < n
        invariant
            n == chars@.len(),
            i <= n,
            x <= CURSOR_CAP,
            y <= CURSOR_CAP,
            lim_y as int <= g@.len(),
            forall|yy: int| 0 <= yy < g@.len() ==> lim_x as int <= #[trigger] g@[yy]@.len(),
            g@.len() == old(g)@.len(),
            forall|yy: int| 0 <= yy < g@.len() ==> g@[yy]@.len() == old(g)@[yy]@.len(),
            g0 == old(g).deep_view(),
            ({
                let p = place_upto(
                    g0,
                    chars@,
                    i as int,
                    x0 as int,
                    y0 as int,
                    lim_x as int,
                    lim_y as int,
                    mask,
                );
                g.deep_view() == p.0 && x as int == p.1 && y as int == p.2
            }),
        decreases n - i,
    {
        let c = chars[i];
        if c == '\n' {
            y = adv(y, 1);
            x = 0;
        } else if c == '\t' {
            x = adv(x, crate::widget::TAB_WIDTH);
        } else {
            let shown = match mask {
                Option::Some(mc) => mc,
                Option::None => c,
            };
            if (x as u64) < lim_x && (y as u64) < lim_y {
                grid_write(g, x, y, shown);
            }
            x = adv(x, 1);
        }
        i = i + 1;
    }
    (x, y)
}

// ---------------------------------------------------------------------
// Grid model
// ---------------------------------------------------------------------

/// An all-blank grid of the given extents (empty when either is 0).
pub open spec fn blank_grid(w: int, h: int) -> Seq<Seq<char>> {
    Seq::new(if h >= 0 { h as nat } else { 0 }, |y: int| Seq::new(if w >= 0 { w as nat } else { 0 }, |x: int| ' '))
}

/// One cell overwritten.
pub open spec fn grid_set(g: Seq<Seq<char>>, x: int, y: int, c: char) -> Seq<Seq<char>> {
    g.update(y, g[y].update(x, c))
}

/// The draw cursor advanced by `d`, clamped at `CURSOR_CAP`.
pub open spec fn advance(v: int, d: int) -> int {
    if v + d > CURSOR_CAP { CURSOR_CAP as int } else { v + d }
}

/// The grid and cursor after walking the first `n` characters:
/// newline starts the next row, tab advances four columns without
/// writing, any other character lands at the cursor when that cell
/// lies inside `(lim_x, lim_y)` — masked if a mask is set — and the
/// cursor steps right.
pub open spec fn place_upto(
    g0: Seq<Seq<char>>,
    chars: Seq<char>,
    n: int,
    x0: int,
    y0: int,
    lim_x: int,
    lim_y: int,
    mask: Option<char>,
) -> (Seq<Seq<char>>, int, int)
    decreases n,
{
    if n <= 0 {
        (g0, x0, y0)
    } else {
        let prev = place_upto(g0, chars, n - 1, x0, y0, lim_x, lim_y, mask);
        let g = prev.0;
        let x = prev.1;
        let y = prev.2;
        let c = chars[n - 1];
        if c == '\n' {
            (g, 0, advance(y, 1))
        } else if c == '\t' {
            (g, advance(x, crate::widget::TAB_WIDTH as int), y)
        } else {
            let shown = match mask {
                Option::Some(mc) => mc,
                Option::None => c,
            };
            if x < lim_x && y < lim_y {
                (grid_set(g, x, y, shown), advance(x, 1), y)
            } else {
                (g, advance(x, 1), y)
            }
        }
    }
}

/// The grid a text renders to: its characters over a blank grid of
/// its own size.
pub open spec fn text_grid(t: TextV) -> Seq<Seq<char>> {
    place_upto(
        blank_grid(t.size.x as int, t.size.y as int),
        t.text,
        t.text.len() as int,
        0,
        0,
        t.size.x as int,
        t.size.y as int,
        Option::None,
    ).0
}

/// The one-cell-wide ring of a button: `#` while selected, `+`
/// otherwise.
pub open spec fn button_ring(sx: int, sy: int, selected: bool) -> Seq<Seq<char>> {
    Seq::new(
        if sy >= 0 { sy as nat } else { 0 },
        |y: int|
            Seq::new(
                if sx >= 0 { sx as nat } else { 0 },
                |x: int|
                    if y == 0 || y == sy - 1 || x == 0 || x == sx - 1 {
                        if selected { '#' } else { '+' }
                    } else {
                        ' '
                    },
            ),
    )
}

/// The grid a button renders to: its label inside its ring, inset one
/// cell.
pub open spec fn button_grid(b: ButtonV) -> Seq<Seq<char>> {
    let lx: int = if b.size.x >= 1 { b.size.x as int - 1 } else { 0 };
    let ly: int = if b.size.y >= 1 { b.size.y as int - 1 } else { 0 };
    place_upto(
        button_ring(b.size.x as int, b.size.y as int, b.selected),
        b.text,
        b.text.len() as int,
        1,
        1,
        lx,
        ly,
        Option::None,
    ).0
}

/// The grid an input renders to: its text (or placeholder while
/// empty), masked when in password mode, with a cursor block after
/// the text while selected and the cursor is enabled.
pub open spec fn input_grid(i: InputV) -> Seq<Seq<char>> {
    let shown = if i.text.len() > 0 { i.text } else { i.placeholder };
    let mask = if i.is_password { Option::Some('*') } else { Option::<char>::None };
    let r = place_upto(
        blank_grid(i.size.x as int, i.size.y as int),
        shown,
        shown.len() as int,
        0,
        0,
        i.size.x as int,
        i.size.y as int,
        mask,
    );
    if i.selected && i.cursor && r.2 < i.size.y as int && r.1 < i.size.x as int {
        grid_set(r.0, r.1, r.2, '▉')
    } else {
        r.0
    }
}

/// Reads one cell of a button ring.
pub proof fn lemma_ring_cell(sx: int, sy: int, selected: bool, i: int, j: int)
    requires
        0 <= i < sy,
        0 <= j < sx,
    ensures
        button_ring(sx, sy, selected)[i][j] == (if i == 0 || i == sy - 1 || j == 0 || j == sx
            - 1 {
            if selected { '#' } else { '+' }
        } else { ' ' }),
{
}

/// Builds a button's ring grid.
pub(crate) fn make_button_ring(sx: usize, sy: usize, selected: bool) -> (g: Vec<Vec<char>>)
    ensures
        g.deep_view() == button_ring(sx as int, sy as int, selected),
{
    let edge = if selected { '#' } else { '+' };
    let mut g: Vec<Vec<char>> = Vec::new();
    let mut y: usize = 0;
    while y < sy
        invariant
            edge == (if selected { '#' } else { '+' }),
            y <= sy,
            g.deep_view().len() == y,
            forall|yy: int|
                0 <= yy < y ==> g.deep_view()[yy] == button_ring(sx as int, sy as int, selected)[yy],
        decreases sy - y,
    {
        let mut row: Vec<char> = Vec::new();
        let mut x: usize = 0;
        while x < sx
            invariant
                edge == (if selected { '#' } else { '+' }),
                x <= sx,
                y < sy,
                row@.len() == x,
                forall|xx: int| #![trigger row@[xx]]
                    0 <= xx < x ==> row@[xx] == button_ring(sx as int, sy as int, selected)[y as int][xx],
            decreases sx - x,
        {
            let ghost r0 = row@;
            if y == 0 || y == sy - 1 || x == 0 || x == sx - 1 {
                row.push(edge);
            } else {
                row.push(' ');
            }
            x = x + 1;
            proof {
                lemma_ring_cell(sx as int, sy as int, selected, y as int, x as int - 1);
                assert forall|xx: int|
                    0 <= xx < x implies row@[xx] == button_ring(sx as int, sy as int, selected)[
                    y as int
                ][xx] by {
                    lemma_ring_cell(sx as int, sy as int, selected, y as int, xx);
                    if xx < x - 1 {
                        assert(row@[xx] == r0[xx]);
                        assert(r0[xx] == button_ring(sx as int, sy as int, selected)[y as int][xx]);
                    } else {
                        assert(row@[xx] == (if y == 0 || y as int == sy as int - 1 || xx == 0
                            || xx == sx as int - 1 {
                            edge
                        } else {
                            ' '
                        }));
                    }
                }
            }
        }
        let ghost gd0 = g.deep_view();
        g.push(row);
        y = y + 1;
        proof {
            assert forall|yy: int|
                0 <= yy < y implies g.deep_view()[yy] == button_ring(
                sx as int,
                sy as int,
                selected,
            )[yy] by {
                if yy < y - 1 {
                    assert(g.deep_view()[yy] == gd0[yy]);
                } else {
                    assert(g.deep_view()[yy] =~= button_ring(sx as int, sy as int, selected)[
                        yy
                    ]);
                }
            }
        }
    }
    proof {
        assert(g.deep_view() =~~= button_ring(sx as int, sy as int, selected));
    }
    g
}

/// `img` copied over `base` at offset `(px, py)`; writes falling
/// outside `base` are dropped silently.
pub open spec fn blit(base: Seq<Seq<char>>, img: Seq<Seq<char>>, px: int, py: int) -> Seq<
    Seq<char>,
> {
    Seq::new(
        base.len(),
        |y: int|
            Seq::new(
                base[y].len(),
                |x: int|
                    if py <= y < py + img.len() && px <= x && x - px < img[y - py].len() {
                        img[y - py][x - px]
                    } else {
                        base[y][x]
                    },
            ),
    )
}

/// Copies `img` over `g` at offset `(px, py)`, dropping writes that
/// fall outside `g`.
pub(crate) fn blit_onto(g: &mut Vec<Vec<char>>, img: &Vec<Vec<char>>, px: u64, py: u64)
    requires
        px <= crate::POS_LIMIT,
        py <= crate::POS_LIMIT,
        img@.len() <= crate::MAX_CELL,
        forall|yy: int| 0 <= yy < img@.len() ==> #[trigger] img@[yy]@.len() <= crate::MAX_CELL,
    ensures
        final(g).deep_view() == blit(old(g).deep_view(), img.deep_view(), px as int, py as int),
        final(g)@.len() == old(g)@.len(),
        forall|yy: int|
            0 <= yy < final(g)@.len() ==> final(g)@[yy]@.len() == old(g)@[yy]@.len(),
{
    let ghost g0 = old(g).deep_view();
    let ghost target = blit(old(g).deep_view(), img.deep_view(), px as int, py as int);
    let rows = img.len();
    let mut y: usize = 0;
    while y < rows
        invariant
            rows == img@.len(),
            y <= rows,
            px <= crate::POS_LIMIT,
            py <= crate::POS_LIMIT,
            img@.len() <= crate::MAX_CELL,
            forall|yy: int| 0 <= yy < img@.len() ==> #[trigger] img@[yy]@.len()
                <= crate::MAX_CELL,
            g0 == old(g).deep_view(),
            target == blit(g0, img.deep_view(), px as int, py as int),
            g@.len() == old(g)@.len(),
            forall|yy: int| 0 <= yy < g@.len() ==> g@[yy]@.len() == old(g)@[yy]@.len(),
            g.deep_view().len() == g0.len(),
            forall|ty: int, tx: int|
                #![trigger g.deep_view()[ty][tx]]
                0 <= ty < g0.len() && 0 <= tx < g0[ty].len() ==> g.deep_view()[ty][tx] == (
                if py <= ty < py + y && px <= tx && tx - px < img.deep_view()[ty - py as int].len() {
                    img.deep_view()[ty - py as int][tx - px as int]
                } else {
                    g0[ty][tx]
                }),
        decreases rows - y,
    {
        let row_len = img[y].len();
        let mut x: usize = 0;
        while x < row_len
            invariant
                rows == img@.len(),
                y < rows,
                row_len == img@[y as int]@.len(),
                x <= row_len,
                px <= crate::POS_LIMIT,
                py <= crate::POS_LIMIT,
                img@.len() <= crate::MAX_CELL,
                forall|yy: int| 0 <= yy < img@.len() ==> #[trigger] img@[yy]@.len()
                    <= crate::MAX_CELL,
                g0 == old(g).deep_view(),
                g@.len() == old(g)@.len(),
                forall|yy: int| 0 <= yy < g@.len() ==> g@[yy]@.len() == old(g)@[yy]@.len(),
                g.deep_view().len() == g0.len(),
                forall|ty: int, tx: int|
                    #![trigger g.deep_view()[ty][tx]]
                    0 <= ty < g0.len() && 0 <= tx < g0[ty].len() ==> g.deep_view()[ty][tx] == (
                    if py <= ty < py + y && px <= tx && tx - px < img.deep_view()[ty
                        - py as int].len() {
                        img.deep_view()[ty - py as int][tx - px as int]
                    } else if ty == py + y && px <= tx && tx - px < x {
                        img.deep_view()[ty - py as int][tx - px as int]
                    } else {
                        g0[ty][tx]
                    }),
            decreases row_len - x,
        {
            let ty = py + y as u64;
            let tx = px + x as u64;
            if ty < g.len() as u64 {
                let tyu = ty as usize;
                let grow_len = g[tyu].len();
                if tx < grow_len as u64 {
                    let c = img[y][x];
                    grid_write(g, tx as usize, tyu, c);
                }
            }
            x = x + 1;
        }
        y = y + 1;
        proof {
            assert forall|ty: int, tx: int|
                #![trigger g.deep_view()[ty][tx]]
                0 <= ty < g0.len() && 0 <= tx < g0[ty].len() implies g.deep_view()[ty][tx] == (
                if py <= ty < py + y && px <= tx && tx - px < img.deep_view()[ty - py as int].len() {
                    img.deep_view()[ty - py as int][tx - px as int]
                } else {
                    g0[ty][tx]
                }) by {
                assert(g.deep_view()[ty][tx] == g.deep_view()[ty][tx]);
            }
        }
    }
    proof {
        assert(g.deep_view() =~~= target);
    }
}

/// Overwrites the outer ring of `g` with one 6-glyph border subset.
pub(crate) fn apply_border_exec(g: &mut Vec<Vec<char>>, b: &[char; 12], focused: bool)
    requires
        old(g)@.len() >= 1,
        forall|yy: int| 0 <= yy < old(g)@.len() ==> #[trigger] old(g)@[yy]@.len() == old(
            g,
        )@[0]@.len(),
        old(g)@[0]@.len() >= 1,
    ensures
        final(g).deep_view() == apply_border(old(g).deep_view(), b@, focused),
{
    let ghost g0 = old(g).deep_view();
    let ghost target = apply_border(old(g).deep_view(), b@, focused);
    let off: usize = if focused { 0 } else { 6 };
    let h = g.len();
    let w = g[0].len();
    let ye = h - 1;
    let xe = w - 1;
    let mut y: usize = 0;
    while y < h
        invariant
            h == g@.len(),
            h >= 1,
            w >= 1,
            ye == h - 1,
            xe == w - 1,
            off == (if focused { 0int } else { 6int }),
            y <= h,
            g0 == old(g).deep_view(),
            target == apply_border(g0, b@, focused),
            g@.len() == old(g)@.len(),
            forall|yy: int| 0 <= yy < g@.len() ==> g@[yy]@.len() == old(g)@[yy]@.len(),
            forall|yy: int| 0 <= yy < old(g)@.len() ==> #[trigger] old(g)@[yy]@.len() == w,
            forall|ty: int, tx: int|
                #![trigger g.deep_view()[ty][tx]]
                0 <= ty < g0.len() && 0 <= tx < g0[ty].len() ==> g.deep_view()[ty][tx] == (
                if ty < y { target[ty][tx] } else { g0[ty][tx] }),
        decreases h - y,
    {
        let mut x: usize = 0;
        while x < w
            invariant
                h == g@.len(),
                h >= 1,
                w >= 1,
                ye == h - 1,
                xe == w - 1,
                off == (if focused { 0int } else { 6int }),
                y < h,
                x <= w,
                g0 == old(g).deep_view(),
                target == apply_border(g0, b@, focused),
                g@.len() == old(g)@.len(),
                forall|yy: int| 0 <= yy < g@.len() ==> g@[yy]@.len() == old(g)@[yy]@.len(),
                forall|yy: int| 0 <= yy < old(g)@.len() ==> #[trigger] old(g)@[yy]@.len() == w,
                forall|ty: int, tx: int|
                    #![trigger g.deep_view()[ty][tx]]
                    0 <= ty < g0.len() && 0 <= tx < g0[ty].len() ==> g.deep_view()[ty][tx] == (
                    if ty < y || (ty == y && tx < x) { target[ty][tx] } else { g0[ty][tx] }),
            decreases w - x,
        {
            if y == 0 || y == ye || x == 0 || x == xe {
                let glyph: char = if y == ye && x == 0 {
                    b[3 + off]
                } else if y == ye && x == xe {
                    b[2 + off]
                } else if y == 0 && x == xe {
                    b[1 + off]
                } else if y == 0 && x == 0 {
                    b[0 + off]
                } else if y == 0 || y == ye {
                    b[4 + off]
                } else {
                    b[5 + off]
                };
                grid_write(g, x, y, glyph);
            }
            x = x + 1;
        }
        y = y + 1;
        proof {
            assert forall|ty: int, tx: int|
                #![trigger g.deep_view()[ty][tx]]
                0 <= ty < g0.len() && 0 <= tx < g0[ty].len() implies g.deep_view()[ty][tx] == (
                if ty < y { target[ty][tx] } else { g0[ty][tx] }) by {
                assert(g.deep_view()[ty][tx] == g.deep_view()[ty][tx]);
            }
        }
    }
    proof {
        assert(g.deep_view() =~~= target);
    }
}

/// Is the glyph set the all-blank sentinel that disables borders?
pub open spec fn borders_blank(b: Seq<char>) -> bool {
    b == blank_border_set()
}

/// The outer ring of `g` overwritten with one 6-glyph subset:
/// corners, then horizontal edges, then vertical edges.
pub open spec fn apply_border(g: Seq<Seq<char>>, b: Seq<char>, focused: bool) -> Seq<Seq<char>> {
    let off: int = if focused { 0 } else { 6 };
    let ye = g.len() as int - 1;
    let xe = g[0].len() as int - 1;
    Seq::new(
        g.len(),
        |y: int|
            Seq::new(
                g[y].len(),
                |x: int|
                    if y == ye && x == 0 {
                        b[3 + off]
                    } else if y == ye && x == xe {
                        b[2 + off]
                    } else if y == 0 && x == xe {
                        b[1 + off]
                    } else if y == 0 && x == 0 {
                        b[0 + off]
                    } else if y == 0 || y == ye {
                        b[4 + off]
                    } else if x == 0 || x == xe {
                        b[5 + off]
                    } else {
                        g[y][x]
                    },
            ),
    )
}

/// The first `i` children of a container blitted, in order, over its
/// blank grid; later children overdraw earlier ones.
pub open spec fn blit_upto(c: ContainerV, i: int) -> Seq<Seq<char>>
    decreases c, i,
{
    if i <= 0 || i > c.content.len() {
        blank_grid(c.size.x as int, c.size.y as int)
    } else {
        proof {
            assert(decreases_to!(c => c.content));
            assert(decreases_to!(c.content => c.content[i - 1]));
            assert(decreases_to!(c => c.content[i - 1]));
        }
        let g = blit_upto(c, i - 1);
        let w = c.content[i - 1];
        blit(g, widget_grid(w), position_of(w).x as int, position_of(w).y as int)
    }
}

/// The grid a container renders to: children composited over a blank
/// grid, the border ring applied unless the glyph set is the blank
/// sentinel, and nothing at all when either extent is below one.
pub open spec fn container_grid(c: ContainerV) -> Seq<Seq<char>>
    decreases c, c.content.len() + 1,
{
    if c.size.x >= 1 && c.size.y >= 1 {
        let base = blit_upto(c, c.content.len() as int);
        if !borders_blank(c.borders) {
            apply_border(base, c.borders, c.selected || c.always_selected)
        } else {
            base
        }
    } else {
        seq![]
    }
}

/// The grid any widget renders to.
pub open spec fn widget_grid(w: WidgetV) -> Seq<Seq<char>>
    decreases w, 0int,
{
    match w {
        WidgetV::Text(t) => text_grid(t),
        WidgetV::Button(b) => button_grid(b),
        WidgetV::Input(i) => input_grid(i),
        WidgetV::Container(c) => container_grid(c),
    }
}

/// Walking characters over a grid never changes its shape.
pub proof fn lemma_place_dims(
    g0: Seq<Seq<char>>,
    chars: Seq<char>,
    n: int,
    x0: int,
    y0: int,
    lim_x: int,
    lim_y: int,
    mask: Option<char>,
)
    requires
        x0 >= 0,
        y0 >= 0,
        lim_y <= g0.len(),
        forall|y: int| 0 <= y < g0.len() ==> lim_x <= #[trigger] g0[y].len(),
    ensures
        place_upto(g0, chars, n, x0, y0, lim_x, lim_y, mask).1 >= 0,
        place_upto(g0, chars, n, x0, y0, lim_x, lim_y, mask).2 >= 0,
        place_upto(g0, chars, n, x0, y0, lim_x, lim_y, mask).0.len() == g0.len(),
        forall|y: int|
            0 <= y < g0.len() ==> #[trigger] place_upto(
                g0,
                chars,
                n,
                x0,
                y0,
                lim_x,
                lim_y,
                mask,
            ).0[y].len() == g0[y].len(),
    decreases n,
{
    if n > 0 {
        lemma_place_dims(g0, chars, n - 1, x0, y0, lim_x, lim_y, mask);
    }
}

/// Compositing children never changes a container grid's shape: it
/// stays the container's own extent.
pub proof fn lemma_blit_upto_dims(c: ContainerV, i: int)
    ensures
        blit_upto(c, i).len() == c.size.y as int,
        forall|y: int| 0 <= y < c.size.y as int ==> #[trigger] blit_upto(c, i)[y].len()
            == c.size.x as int,
    decreases i,
{
    if i > 0 && i <= c.content.len() {
        lemma_blit_upto_dims(c, i - 1);
    }
}

/// Every grid a widget renders to stays within `MAX_CELL` on both
/// axes.
pub proof fn lemma_widget_grid_dims(w: WidgetV)
    requires
        crate::model::size_of(w).x <= crate::MAX_CELL,
        crate::model::size_of(w).y <= crate::MAX_CELL,
    ensures
        widget_grid(w).len() <= crate::MAX_CELL,
        forall|y: int| 0 <= y < widget_grid(w).len() ==> #[trigger] widget_grid(w)[y].len()
            <= crate::MAX_CELL,
{
    match w {
        WidgetV::Text(t) => {
            lemma_place_dims(
                blank_grid(t.size.x as int, t.size.y as int),
                t.text,
                t.text.len() as int,
                0,
                0,
                t.size.x as int,
                t.size.y as int,
                Option::None,
            );
        },
        WidgetV::Button(b) => {
            let lx: int = if b.size.x >= 1 { b.size.x as int - 1 } else { 0 };
            let ly: int = if b.size.y >= 1 { b.size.y as int - 1 } else { 0 };
            lemma_place_dims(
                button_ring(b.size.x as int, b.size.y as int, b.selected),
                b.text,
                b.text.len() as int,
                1,
                1,
                lx,
                ly,
                Option::None,
            );
        },
        WidgetV::Input(i) => {
            let shown = if i.text.len() > 0 { i.text } else { i.placeholder };
            let mask = if i.is_password { Option::Some('*') } else { Option::<char>::None };
            lemma_place_dims(
                blank_grid(i.size.x as int, i.size.y as int),
                shown,
                shown.len() as int,
                0,
                0,
                i.size.x as int,
                i.size.y as int,
                mask,
            );
        },
        WidgetV::Container(c) => {
            lemma_blit_upto_dims(c, c.content.len() as int);
        },
    }
}

} // verus!
