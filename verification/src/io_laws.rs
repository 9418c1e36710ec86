//! Laws of the display list: how text and typed keys accumulate, how it is
//! trimmed, how it is drawn in graphics mode, and how colours are matched
//! to the palette.

use vstd::prelude::*;
use crate::io::{
    distance, nearest_entry, palette, palette_distance, rgba, Color, MAX_DISTANCE, PALETTE_LEN,
    add_text, backspace, graphics_item, render_item, Layout, graphics_spec, joins, text_of, trimmed, typed, with_text, Col,
    DrawCommand, Shape,
};

verus! {

/// Printing `a` and then `b` in the same colours gives the display list
/// that printing `a + b` at once gives.
pub proof fn law_printing_concatenates(objects: Seq<Shape>, a: Seq<char>, b: Seq<char>, fg: Col, bg: Col, user: bool)
    ensures
        add_text(add_text(objects, a, fg, bg, user), b, fg, bg, user) == add_text(objects, a + b, fg, bg, user),
{
    let o1 = add_text(objects, a, fg, bg, user);
    if objects.len() > 0 && joins(objects.last(), user, fg, bg) {
        let last = objects.last();
        assert(o1.drop_last() =~= objects.drop_last());
        assert(text_of(last) + a + b =~= text_of(last) + (a + b));
        assert(with_text(with_text(last, text_of(last) + a), text_of(last) + a + b) == with_text(
            last,
            text_of(last) + (a + b),
        ));
    } else {
        assert(o1.drop_last() =~= objects);
    }
    assert(add_text(o1, b, fg, bg, user) =~= add_text(objects, a + b, fg, bg, user));
}

/// Backspace undoes a key typed in the same colours: the display list is
/// as before.  The input line is as before where the key joined the line
/// being typed, and is empty where the key started a new one.  (Where the
/// last entry is typed text of these colours, that text is not empty.)
pub proof fn law_backspace_undoes_a_key(objects: Seq<Shape>, input: Seq<char>, ch: char, fg: Col, bg: Col)
    requires
        ch != backspace(),
        objects.len() > 0 && joins(objects.last(), true, fg, bg) ==> text_of(objects.last()).len() > 0,
    ensures
        ({
            let (o1, i1) = typed(objects, input, ch, fg, bg);
            let (o2, i2) = typed(o1, i1, backspace(), fg, bg);
            &&& o2 == objects
            &&& i2 == if objects.len() > 0 && joins(objects.last(), true, fg, bg) {
                input
            } else {
                Seq::<char>::empty()
            }
        }),
{
    let (o1, i1) = typed(objects, input, ch, fg, bg);
    if objects.len() > 0 && joins(objects.last(), true, fg, bg) {
        let last = objects.last();
        let text = text_of(last);
        assert(o1.drop_last() =~= objects.drop_last());
        assert(o1.last() == with_text(last, text.push(ch)));
        assert(text.push(ch).drop_last() =~= text);
        assert(i1.drop_last() =~= input);
        assert(with_text(with_text(last, text.push(ch)), text) == last);
        assert(objects.drop_last().push(last) =~= objects);
    } else {
        assert(o1.drop_last() =~= objects);
        assert(seq![ch].drop_last() =~= Seq::<char>::empty());
    }
}

/// Trimming keeps the display list to at most 200 entries, keeps a list of
/// up to 200 entries as it is, and trimming twice trims no more than once.
pub proof fn law_trimming_bounds_the_list(objs: Seq<Shape>)
    ensures
        trimmed(objs).len() <= 200,
        objs.len() <= 200 ==> trimmed(objs) == objs,
        trimmed(trimmed(objs)) == trimmed(objs),
{
}

/// In graphics mode each entry is drawn on its own: two display lists one
/// after the other can be drawn when each can, and draw the calls of the
/// first and then those of the second.
pub proof fn law_graphics_entries_are_independent(a: Seq<Shape>, b: Seq<Shape>)
    ensures
        graphics_spec(a + b).ok == (graphics_spec(a).ok && graphics_spec(b).ok),
        graphics_spec(a + b).ok ==> graphics_spec(a + b).cmds == graphics_spec(a).cmds + graphics_spec(b).cmds,
    decreases a.len(),
{
    reveal(graphics_spec);
    if a.len() == 0 {
        assert(a + b =~= b);
        assert(Seq::<crate::io::DrawCommand>::empty() + graphics_spec(b).cmds =~= graphics_spec(b).cmds);
    } else {
        law_graphics_entries_are_independent(a.drop_first(), b);
        assert((a + b).drop_first() =~= a.drop_first() + b);
        assert((a + b)[0] == a[0]);
        let c = graphics_item(a[0]).cmds;
        assert(c + (graphics_spec(a.drop_first()).cmds + graphics_spec(b).cmds) =~= (c + graphics_spec(
            a.drop_first(),
        ).cmds) + graphics_spec(b).cmds);
    }
}

/// The position of a colour in the palette.
pub open spec fn palette_index(col: Col) -> int {
    match col {
        Col::Black => 0,
        Col::White => 1,
        Col::Red => 2,
        Col::Cyan => 3,
        Col::Violet => 4,
        Col::Green => 5,
        Col::Blue => 6,
        Col::Yellow => 7,
        Col::Orange => 8,
        Col::Brown => 9,
        Col::LightRed => 10,
        Col::DarkGrey => 11,
        Col::Grey => 12,
        Col::LightGreen => 13,
        Col::LightBlue => 14,
        Col::LightGrey => 15,
        Col::Blank => 16,
    }
}

proof fn lemma_distance_nonnegative(c: Color, d: Color)
    ensures
        distance(c, d) >= 0,
        distance(c, d) == 0 <==> (c.r == d.r && c.g == d.g && c.b == d.b),
{
    reveal(distance);
    let (x, y, z) = (c.r - d.r, c.g - d.g, c.b - d.b);
    assert(x * x >= 0 && y * y >= 0 && z * z >= 0) by (nonlinear_arith);
    assert(x * x == 0 <==> x == 0) by (nonlinear_arith);
    assert(y * y == 0 <==> y == 0) by (nonlinear_arith);
    assert(z * z == 0 <==> z == 0) by (nonlinear_arith);
}

/// An opaque enough colour is never matched to `Blank`: some palette entry
/// is nearer than [`MAX_DISTANCE`] (black or white), and the first entry
/// of least distance is never `Blank`, which has black's red, green and
/// blue and comes after it.
pub proof fn law_opaque_colours_are_never_blank(c: Color)
    ensures
        exists|i: int| 0 <= i < PALETTE_LEN && #[trigger] palette_distance(c, i) < MAX_DISTANCE,
        forall|k: int| #[trigger] nearest_entry(c, k) ==> palette(k) != Col::Blank,
{
    reveal(palette);
    reveal(rgba);
    reveal(distance);
    let (r, g, b) = (c.r as int, c.g as int, c.b as int);
    assert(r * r <= 65025 && g * g <= 65025 && b * b <= 65025) by (nonlinear_arith)
        requires
            0 <= r <= 255,
            0 <= g <= 255,
            0 <= b <= 255,
    ;
    if r == 255 && g == 255 && b == 255 {
        assert(palette(1) == Col::White);
        assert(rgba(Col::White) == (Color { r: 255, g: 255, b: 255, a: 255 }));
        lemma_distance_nonnegative(c, rgba(Col::White));
        assert(palette_distance(c, 1) == 0);
    } else {
        assert(r * r + g * g + b * b < 195075) by (nonlinear_arith)
            requires
                0 <= r <= 255,
                0 <= g <= 255,
                0 <= b <= 255,
                !(r == 255 && g == 255 && b == 255),
        ;
        assert(palette_distance(c, 0) == r * r + g * g + b * b);
    }
    assert forall|k: int| #[trigger] nearest_entry(c, k) implies palette(k) != Col::Blank by {
        if k == 16 {
            assert(palette_distance(c, 16) == palette_distance(c, 0));
        }
    }
}

/// Every palette colour but `Blank` is matched back to itself: its own
/// entry, at distance 0, is the first entry of least distance and the only
/// one; `Blank` alone is transparent enough to be matched to `Blank`.
pub proof fn law_palette_round_trip(col: Col)
    ensures
        (rgba(col).a < 128) == (col == Col::Blank),
        palette(palette_index(col)) == col,
        col != Col::Blank ==> nearest_entry(rgba(col), palette_index(col)),
        col != Col::Blank ==> forall|k: int| #[trigger] nearest_entry(rgba(col), k) ==> k == palette_index(col),
{
    reveal(palette);
    reveal(rgba);
    let k = palette_index(col);
    if col != Col::Blank {
        let c = rgba(col);
        assert forall|i: int| 0 <= i < PALETTE_LEN implies 0 <= #[trigger] palette_distance(c, i) by {
            lemma_distance_nonnegative(c, rgba(palette(i)));
        }
        lemma_distance_nonnegative(c, rgba(palette(k)));
        assert forall|i: int| 0 <= i < k implies 0 < #[trigger] palette_distance(c, i) by {
            lemma_distance_nonnegative(c, rgba(palette(i)));
        }
        assert(nearest_entry(c, k));
        assert forall|k2: int| #[trigger] nearest_entry(c, k2) implies k2 == k by {
            if k2 < k {
                assert(palette_distance(c, k2) > 0);
            } else if k2 > k {
                assert(palette_distance(c, k2) < palette_distance(c, k));
            }
        }
    }
}

/// In graphics mode a rectangle, circle or line entry is drawn as one call
/// of its own kind, at the entry's own coordinates and sizes and in its own
/// colour; shift and move entries draw nothing.
pub proof fn law_graphics_shapes_are_drawn_as_given(s: Shape)
    ensures
        s is Image ==> !graphics_spec(seq![s]).ok,
        !(s is Image) && !(s is CharSeq) ==> graphics_spec(seq![s]).ok,
        match s {
            Shape::Rectangle { x, y, w, h, col } => graphics_spec(seq![s]).cmds == seq![
                DrawCommand::Rectangle { x: x as i32, y: y as i32, w: w as i32, h: h as i32, col },
            ],
            Shape::Circle { x, y, r, col } => graphics_spec(seq![s]).cmds == seq![
                DrawCommand::Circle { x: x as i32, y: y as i32, r: r as i32, col },
            ],
            Shape::Line { x0, y0, x1, y1, col } => graphics_spec(seq![s]).cmds == seq![
                DrawCommand::Line { x0: x0 as i32, y0: y0 as i32, x1: x1 as i32, y1: y1 as i32, col },
            ],
            Shape::Shift { .. } => graphics_spec(seq![s]).cmds.len() == 0,
            Shape::Move { .. } => graphics_spec(seq![s]).cmds.len() == 0,
            _ => true,
        },
{
    reveal(graphics_spec);
    let one = seq![s];
    assert(one.drop_first() =~= Seq::<Shape>::empty());
    assert(graphics_spec(one.drop_first()) == (Layout { cmds: Seq::empty(), x: 0, y: 0, ok: true }));
    let c = graphics_item(s).cmds;
    assert(c + Seq::<DrawCommand>::empty() =~= c);
}

/// In text mode a rectangle entry is drawn as one rectangle call at the pen,
/// with the entry's own width, height and colour (its own coordinates are
/// not used), and a circle likewise with its own radius and colour.
pub proof fn law_text_mode_shapes_keep_their_sizes(s: Shape, x: int, y: int, base_x: int)
    requires
        render_item(s, x, y, base_x).ok,
    ensures
        match s {
            Shape::Rectangle { w, h, col, .. } => render_item(s, x, y, base_x).cmds == seq![
                DrawCommand::Rectangle { x: x as i32, y: y as i32, w: w as i32, h: h as i32, col },
            ],
            Shape::Circle { r, col, .. } => render_item(s, x, y, base_x).cmds == seq![
                DrawCommand::Circle { x: x as i32, y: y as i32, r: r as i32, col },
            ],
            Shape::Line { x0, y0, x1, y1, col } => render_item(s, x, y, base_x).cmds == seq![
                DrawCommand::Line { x0: x0 as i32, y0: y0 as i32, x1: x1 as i32, y1: y1 as i32, col },
            ],
            _ => true,
        },
{
}

/// The palette's colours, in order, and their red, green, blue and alpha
/// values.
pub proof fn law_palette_table()
    ensures
        palette(0) == Col::Black && rgba(Col::Black) == (Color { r: 0, g: 0, b: 0, a: 255 }),
        palette(1) == Col::White && rgba(Col::White) == (Color { r: 255, g: 255, b: 255, a: 255 }),
        palette(2) == Col::Red && rgba(Col::Red) == (Color { r: 136, g: 0, b: 0, a: 255 }),
        palette(3) == Col::Cyan && rgba(Col::Cyan) == (Color { r: 170, g: 255, b: 238, a: 255 }),
        palette(4) == Col::Violet && rgba(Col::Violet) == (Color { r: 204, g: 67, b: 204, a: 255 }),
        palette(5) == Col::Green && rgba(Col::Green) == (Color { r: 0, g: 204, b: 85, a: 255 }),
        palette(6) == Col::Blue && rgba(Col::Blue) == (Color { r: 0, g: 0, b: 170, a: 255 }),
        palette(7) == Col::Yellow && rgba(Col::Yellow) == (Color { r: 238, g: 238, b: 119, a: 255 }),
        palette(8) == Col::Orange && rgba(Col::Orange) == (Color { r: 221, g: 136, b: 85, a: 255 }),
        palette(9) == Col::Brown && rgba(Col::Brown) == (Color { r: 102, g: 68, b: 0, a: 255 }),
        palette(10) == Col::LightRed && rgba(Col::LightRed) == (Color { r: 255, g: 119, b: 119, a: 255 }),
        palette(11) == Col::DarkGrey && rgba(Col::DarkGrey) == (Color { r: 51, g: 51, b: 51, a: 255 }),
        palette(12) == Col::Grey && rgba(Col::Grey) == (Color { r: 119, g: 119, b: 119, a: 255 }),
        palette(13) == Col::LightGreen && rgba(Col::LightGreen) == (Color { r: 170, g: 255, b: 102, a: 255 }),
        palette(14) == Col::LightBlue && rgba(Col::LightBlue) == (Color { r: 0, g: 136, b: 255, a: 255 }),
        palette(15) == Col::LightGrey && rgba(Col::LightGrey) == (Color { r: 187, g: 187, b: 187, a: 255 }),
        palette(16) == Col::Blank && rgba(Col::Blank) == (Color { r: 0, g: 0, b: 0, a: 0 }),
{
    reveal(palette);
    reveal(rgba);
}

} // verus!
