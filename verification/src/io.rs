//! The display list of the graphical terminal: what the running program has
//! printed or drawn, the keyboard input it has received, and the colours it
//! draws with.
use vstd::prelude::*;
use vstd::string::*;

verus! {

broadcast use vstd::string::group_string_axioms;

/// The sixteen-colour palette, plus a transparent colour.
#[derive(Clone, Copy, Debug, PartialEq, Eq, Structural)]
pub enum Col {
    Black,
    White,
    Red,
    Cyan,
    Violet,
    Green,
    Blue,
    Yellow,
    Orange,
    Brown,
    LightRed,
    DarkGrey,
    Grey,
    LightGreen,
    LightBlue,
    LightGrey,
    Blank,
}

/// An RGBA colour.
#[derive(Clone, Copy, Debug, PartialEq, Eq, Structural)]
pub struct Color {
    pub r: u8,
    pub g: u8,
    pub b: u8,
    pub a: u8,
}

/// The number of palette entries that [`Col::from_color`] chooses from.
pub const PALETTE_LEN: usize = 17;

/// The palette in order.
#[verifier::opaque]
pub open spec fn palette(i: int) -> Col {
    if i == 0 {
        Col::Black
    } else if i == 1 {
        Col::White
    } else if i == 2 {
        Col::Red
    } else if i == 3 {
        Col::Cyan
    } else if i == 4 {
        Col::Violet
    } else if i == 5 {
        Col::Green
    } else if i == 6 {
        Col::Blue
    } else if i == 7 {
        Col::Yellow
    } else if i == 8 {
        Col::Orange
    } else if i == 9 {
        Col::Brown
    } else if i == 10 {
        Col::LightRed
    } else if i == 11 {
        Col::DarkGrey
    } else if i == 12 {
        Col::Grey
    } else if i == 13 {
        Col::LightGreen
    } else if i == 14 {
        Col::LightBlue
    } else if i == 15 {
        Col::LightGrey
    } else {
        Col::Blank
    }
}

/// The RGBA value of a palette colour.
#[verifier::opaque]
pub open spec fn rgba(c: Col) -> Color {
    match c {
        Col::Black => Color { r: 0, g: 0, b: 0, a: 255 },
        Col::White => Color { r: 255, g: 255, b: 255, a: 255 },
        Col::Red => Color { r: 136, g: 0, b: 0, a: 255 },
        Col::Cyan => Color { r: 170, g: 255, b: 238, a: 255 },
        Col::Violet => Color { r: 204, g: 67, b: 204, a: 255 },
        Col::Green => Color { r: 0, g: 204, b: 85, a: 255 },
        Col::Blue => Color { r: 0, g: 0, b: 170, a: 255 },
        Col::Yellow => Color { r: 238, g: 238, b: 119, a: 255 },
        Col::Orange => Color { r: 221, g: 136, b: 85, a: 255 },
        Col::Brown => Color { r: 102, g: 68, b: 0, a: 255 },
        Col::LightRed => Color { r: 255, g: 119, b: 119, a: 255 },
        Col::DarkGrey => Color { r: 51, g: 51, b: 51, a: 255 },
        Col::Grey => Color { r: 119, g: 119, b: 119, a: 255 },
        Col::LightGreen => Color { r: 170, g: 255, b: 102, a: 255 },
        Col::LightBlue => Color { r: 0, g: 136, b: 255, a: 255 },
        Col::LightGrey => Color { r: 187, g: 187, b: 187, a: 255 },
        Col::Blank => Color { r: 0, g: 0, b: 0, a: 0 },
    }
}

/// The squared distance between two colours' red, green and blue parts.
#[verifier::opaque]
pub open spec fn distance(c: Color, d: Color) -> int {
    (c.r - d.r) * (c.r - d.r) + (c.g - d.g) * (c.g - d.g) + (c.b - d.b) * (c.b - d.b)
}

/// The largest distance there is, which no palette entry has to beat.
pub const MAX_DISTANCE: i32 = 195075;

/// Palette entry `i`.
pub fn color_at(i: usize) -> (r: Col)
    requires
        i < PALETTE_LEN,
    ensures
        r == palette(i as int),
{
    reveal(palette);
    if i == 0 {
        Col::Black
    } else if i == 1 {
        Col::White
    } else if i == 2 {
        Col::Red
    } else if i == 3 {
        Col::Cyan
    } else if i == 4 {
        Col::Violet
    } else if i == 5 {
        Col::Green
    } else if i == 6 {
        Col::Blue
    } else if i == 7 {
        Col::Yellow
    } else if i == 8 {
        Col::Orange
    } else if i == 9 {
        Col::Brown
    } else if i == 10 {
        Col::LightRed
    } else if i == 11 {
        Col::DarkGrey
    } else if i == 12 {
        Col::Grey
    } else if i == 13 {
        Col::LightGreen
    } else if i == 14 {
        Col::LightBlue
    } else if i == 15 {
        Col::LightGrey
    } else {
        Col::Blank
    }
}

fn channel_distance(a: u8, b: u8) -> (r: i32)
    ensures
        r == (a - b) * (a - b),
        0 <= r <= 65025,
{
    let d = a as i32 - b as i32;
    proof {
        assert(0 <= d * d <= 65025) by (nonlinear_arith)
            requires
                -255 <= d <= 255,
        ;
    }
    d * d
}

impl Col {
    /// The RGBA value of the colour.
    pub fn as_color(&self) -> (r: Color)
        ensures
            r == rgba(*self),
    {
        reveal(rgba);
        match self {
            Col::Black => Color { r: 0, g: 0, b: 0, a: 255 },
            Col::White => Color { r: 255, g: 255, b: 255, a: 255 },
            Col::Red => Color { r: 136, g: 0, b: 0, a: 255 },
            Col::Cyan => Color { r: 170, g: 255, b: 238, a: 255 },
            Col::Violet => Color { r: 204, g: 67, b: 204, a: 255 },
            Col::Green => Color { r: 0, g: 204, b: 85, a: 255 },
            Col::Blue => Color { r: 0, g: 0, b: 170, a: 255 },
            Col::Yellow => Color { r: 238, g: 238, b: 119, a: 255 },
            Col::Orange => Color { r: 221, g: 136, b: 85, a: 255 },
            Col::Brown => Color { r: 102, g: 68, b: 0, a: 255 },
            Col::LightRed => Color { r: 255, g: 119, b: 119, a: 255 },
            Col::DarkGrey => Color { r: 51, g: 51, b: 51, a: 255 },
            Col::Grey => Color { r: 119, g: 119, b: 119, a: 255 },
            Col::LightGreen => Color { r: 170, g: 255, b: 102, a: 255 },
            Col::LightBlue => Color { r: 0, g: 136, b: 255, a: 255 },
            Col::LightGrey => Color { r: 187, g: 187, b: 187, a: 255 },
            Col::Blank => Color { r: 0, g: 0, b: 0, a: 0 },
        }
    }

    /// The palette colour nearest to `c`: the first entry of least distance,
    /// when that distance is below [`MAX_DISTANCE`]; `Blank` when `c` is
    /// mostly transparent (alpha below 128) or no entry is that near, which
    /// never happens to an opaque enough colour.
    pub fn from_color(c: &Color) -> (r: Col)
        ensures
            c.a < 128 ==> r == Col::Blank,
            c.a >= 128 && (forall|i: int| 0 <= i < PALETTE_LEN ==> #[trigger] palette_distance(*c, i)
                >= MAX_DISTANCE) ==> r == Col::Blank,
            c.a >= 128 && (exists|i: int| 0 <= i < PALETTE_LEN && #[trigger] palette_distance(*c, i)
                < MAX_DISTANCE) ==> exists|k: int| #[trigger] nearest_entry(*c, k) && r == palette(k),
            c.a >= 128 ==> r != Col::Blank,
    {
        let mut min_delta: i32 = MAX_DISTANCE;
        let mut min_color = Col::Blank;
        if c.a < 128 {
            return min_color;
        }
        let ghost mut best: int = -1;
        let mut i: usize = 0;
        while i < PALETTE_LEN
            invariant
                i <= PALETTE_LEN,
                -1 <= best < i,
                best == -1 ==> min_color == Col::Blank && min_delta == MAX_DISTANCE,
                best == -1 ==> forall|j: int| 0 <= j < i ==> #[trigger] palette_distance(*c, j) >= MAX_DISTANCE,
                best >= 0 ==> min_color == palette(best) && min_delta == palette_distance(*c, best)
                    && min_delta < MAX_DISTANCE,
                best >= 0 ==> forall|j: int| 0 <= j < i ==> min_delta <= #[trigger] palette_distance(*c, j),
                best >= 0 ==> forall|j: int| 0 <= j < best ==> min_delta < #[trigger] palette_distance(*c, j),
            decreases PALETTE_LEN - i,
        {
            let col = color_at(i);
            let c2 = col.as_color();
            let delt = channel_distance(c.r, c2.r) + channel_distance(c.g, c2.g) + channel_distance(c.b, c2.b);
            assert(delt == palette_distance(*c, i as int)) by {
                reveal(distance);
            }
            if delt < min_delta {
                min_delta = delt;
                min_color = col;
                proof {
                    best = i as int;
                }
            }
            i = i + 1;
        }
        proof {
            crate::io_laws::law_opaque_colours_are_never_blank(*c);
            if best >= 0 {
                assert(nearest_entry(*c, best));
            }
        }
        min_color
    }
}

/// The distance from `c` to palette entry `i`.
pub open spec fn palette_distance(c: Color, i: int) -> int {
    distance(c, rgba(palette(i)))
}

/// Palette entry `k` is the first of least distance to `c`, and that
/// distance is below [`MAX_DISTANCE`].
pub open spec fn nearest_entry(c: Color, k: int) -> bool {
    &&& 0 <= k < PALETTE_LEN
    &&& palette_distance(c, k) < MAX_DISTANCE
    &&& forall|i: int| 0 <= i < PALETTE_LEN ==> palette_distance(c, k) <= #[trigger] palette_distance(c, i)
    &&& forall|i: int| 0 <= i < k ==> palette_distance(c, k) < #[trigger] palette_distance(c, i)
}

/// A 16-bit image handle.
#[derive(Clone, Copy, Debug)]
pub struct Image {
    pub inner: u32,
}

/// One entry of the display list.
#[derive(Clone, Debug)]
pub enum Drawbject {
    /// Continue the text layout `dx` columns and `dy` lines further on.
    Shift { dx: i16, dy: i16 },
    /// Continue the text layout at column `x`, line `y`.
    Move { x: i16, y: i16 },
    /// Text; `user_input` marks what the user typed.
    CharSeq {
        x: i16,
        y: i16,
        max_w: i16,
        user_input: bool,
        fg_color: Col,
        bg_color: Col,
        seq: String,
    },
    Rectangle { x: i16, y: i16, w: i16, h: i16, col: Col },
    Circle { x: i16, y: i16, r: i16, col: Col },
    Image { x: i16, y: i16, w: i16, h: i16, img: Image },
    Line { x0: i16, y0: i16, x1: i16, y1: i16, col: Col },
}

/// The mathematical model of a [`Drawbject`]: text is a sequence of chars.
pub enum Shape {
    Shift { dx: i16, dy: i16 },
    Move { x: i16, y: i16 },
    CharSeq {
        x: i16,
        y: i16,
        max_w: i16,
        user_input: bool,
        fg_color: Col,
        bg_color: Col,
        seq: Seq<char>,
    },
    Rectangle { x: i16, y: i16, w: i16, h: i16, col: Col },
    Circle { x: i16, y: i16, r: i16, col: Col },
    Image { x: i16, y: i16, w: i16, h: i16, img: u32 },
    Line { x0: i16, y0: i16, x1: i16, y1: i16, col: Col },
}

impl View for Drawbject {
    type V = Shape;

    open spec fn view(&self) -> Shape {
        match self {
            Drawbject::Shift { dx, dy } => Shape::Shift { dx: *dx, dy: *dy },
            Drawbject::Move { x, y } => Shape::Move { x: *x, y: *y },
            Drawbject::CharSeq { x, y, max_w, user_input, fg_color, bg_color, seq } => Shape::CharSeq {
                x: *x,
                y: *y,
                max_w: *max_w,
                user_input: *user_input,
                fg_color: *fg_color,
                bg_color: *bg_color,
                seq: seq@,
            },
            Drawbject::Rectangle { x, y, w, h, col } => Shape::Rectangle { x: *x, y: *y, w: *w, h: *h, col: *col },
            Drawbject::Circle { x, y, r, col } => Shape::Circle { x: *x, y: *y, r: *r, col: *col },
            Drawbject::Image { x, y, w, h, img } => Shape::Image { x: *x, y: *y, w: *w, h: *h, img: img.inner },
            Drawbject::Line { x0, y0, x1, y1, col } => Shape::Line {
                x0: *x0,
                y0: *y0,
                x1: *x1,
                y1: *y1,
                col: *col,
            },
        }
    }
}

/// The models of a display list.
pub open spec fn shapes(objects: Seq<Drawbject>) -> Seq<Shape> {
    objects.map_values(|d: Drawbject| d@)
}

/// Whether the entry is text of the given kind and colours.
pub open spec fn joins(s: Shape, user: bool, fg: Col, bg: Col) -> bool {
    match s {
        Shape::CharSeq { user_input, fg_color, bg_color, .. } => user_input == user && fg_color == fg
            && bg_color == bg,
        _ => false,
    }
}

/// The text of a text entry.
pub open spec fn text_of(s: Shape) -> Seq<char> {
    match s {
        Shape::CharSeq { seq, .. } => seq,
        _ => Seq::empty(),
    }
}

/// A text entry with its text replaced.
pub open spec fn with_text(s: Shape, t: Seq<char>) -> Shape {
    match s {
        Shape::CharSeq { x, y, max_w, user_input, fg_color, bg_color, .. } => Shape::CharSeq {
            x,
            y,
            max_w,
            user_input,
            fg_color,
            bg_color,
            seq: t,
        },
        other => other,
    }
}

/// A new text entry at the origin.
pub open spec fn new_text(text: Seq<char>, fg: Col, bg: Col, user: bool) -> Shape {
    Shape::CharSeq { x: 0, y: 0, max_w: 0, user_input: user, fg_color: fg, bg_color: bg, seq: text }
}

/// The display list after adding `text`: it joins the last entry when that
/// is text of the same kind (typed or printed) and the same colours, and is
/// a new text entry at the end otherwise.
pub open spec fn add_text(objects: Seq<Shape>, text: Seq<char>, fg: Col, bg: Col, user: bool) -> Seq<Shape> {
    if objects.len() > 0 && joins(objects.last(), user, fg, bg) {
        objects.drop_last().push(with_text(objects.last(), text_of(objects.last()) + text))
    } else {
        objects.push(new_text(text, fg, bg, user))
    }
}

/// The character that the terminal reads as Backspace.
pub open spec fn backspace() -> char {
    127 as char
}

/// The display list and the input line after the key `ch` is typed in
/// colours `fg`, `bg`.  When the last entry is typed text of these colours,
/// Backspace removes its last character (and the entry once empty) and the
/// last character of the input line, and any other key is added to both.
/// Otherwise any key but Backspace starts a new typed entry and a new input
/// line holding just that key, and Backspace does nothing.
pub open spec fn typed(objects: Seq<Shape>, input: Seq<char>, ch: char, fg: Col, bg: Col) -> (Seq<Shape>, Seq<char>) {
    if objects.len() > 0 && joins(objects.last(), true, fg, bg) {
        let text = text_of(objects.last());
        if ch == backspace() {
            let shorter = if text.len() > 0 {
                text.drop_last()
            } else {
                text
            };
            (
                if shorter.len() > 0 {
                    objects.drop_last().push(with_text(objects.last(), shorter))
                } else {
                    objects.drop_last()
                },
                if input.len() > 0 {
                    input.drop_last()
                } else {
                    input
                },
            )
        } else {
            (objects.drop_last().push(with_text(objects.last(), text.push(ch))), input.push(ch))
        }
    } else if ch == backspace() {
        (objects, input)
    } else {
        (add_text(objects, seq![ch], fg, bg, true), seq![ch])
    }
}

/// Appends `c` to `s` with std's `String::push`.  Trusted: its contract
/// claims that the characters of `s` afterwards are those before, then `c`.
#[verifier::external_body]
fn string_push(s: &mut String, c: char)
    ensures
        final(s)@ == old(s)@.push(c),
{
    s.push(c);
}

/// Removes the last character of `s` with std's `String::pop`.  Trusted:
/// its contract claims that an empty string stays empty and gives `None`,
/// and that otherwise the last character is removed and given back.
#[verifier::external_body]
fn string_pop(s: &mut String) -> (r: Option<char>)
    ensures
        old(s)@.len() == 0 ==> r is None && final(s)@ == old(s)@,
        old(s)@.len() > 0 ==> r == Some(old(s)@.last()) && final(s)@ == old(s)@.drop_last(),
{
    s.pop()
}

fn char_string(c: char) -> (r: String)
    ensures
        r@ == seq![c],
{
    let mut s = String::new();
    string_push(&mut s, c);
    s
}

proof fn lemma_shapes_push(s: Seq<Drawbject>, d: Drawbject)
    ensures
        shapes(s.push(d)) == shapes(s).push(d@),
{
    assert(shapes(s.push(d)) =~= shapes(s).push(d@));
}

proof fn lemma_shapes_pop(s: Seq<Drawbject>)
    requires
        s.len() > 0,
    ensures
        shapes(s.drop_last()) == shapes(s).drop_last(),
        shapes(s).last() == s.last()@,
{
    assert(shapes(s.drop_last()) =~= shapes(s).drop_last());
}

fn push_object(objects: &mut Vec<Drawbject>, d: Drawbject)
    ensures
        shapes(final(objects)@) == shapes(old(objects)@).push(d@),
{
    proof {
        lemma_shapes_push(objects@, d);
    }
    objects.push(d);
}

fn pop_object(objects: &mut Vec<Drawbject>) -> (r: Option<Drawbject>)
    ensures
        old(objects)@.len() == 0 ==> r is None && final(objects)@ == old(objects)@,
        old(objects)@.len() > 0 ==> r is Some && r->Some_0@ == shapes(old(objects)@).last() && shapes(
            final(objects)@,
        ) == shapes(old(objects)@).drop_last(),
{
    proof {
        if objects@.len() > 0 {
            lemma_shapes_pop(objects@);
        }
    }
    objects.pop()
}

/// Adds the text `chars` to the display list (see [`add_text`]).
pub fn add_char_seq(objects: &mut Vec<Drawbject>, chars: &str, ifg_color: Col, ibg_color: Col, is_user_input: bool)
    ensures
        shapes(final(objects)@) == add_text(shapes(old(objects)@), chars@, ifg_color, ibg_color, is_user_input),
{
    let ghost before = shapes(objects@);
    match pop_object(objects) {
        Some(x) => {
            match x {
                Drawbject::CharSeq { x, y, max_w, user_input, fg_color, bg_color, seq } => {
                    if user_input == is_user_input && fg_color == ifg_color && bg_color == ibg_color {
                        let mut seq = seq;
                        seq.append(chars);
                        push_object(objects, Drawbject::CharSeq { x, y, max_w, user_input, fg_color, bg_color, seq });
                    } else {
                        push_object(objects, Drawbject::CharSeq { x, y, max_w, user_input, fg_color, bg_color, seq });
                        proof {
                            assert(shapes(objects@).drop_last() =~= before.drop_last());
                            assert(before.drop_last().push(before.last()) =~= before);
                        }
                        push_object(
                            objects,
                            Drawbject::CharSeq {
                                x: 0,
                                y: 0,
                                max_w: 0,
                                user_input: is_user_input,
                                fg_color: ifg_color,
                                bg_color: ibg_color,
                                seq: String::from_str(chars),
                            },
                        );
                    }
                },
                other => {
                    push_object(objects, other);
                    proof {
                        assert(before.drop_last().push(before.last()) =~= before);
                    }
                    push_object(
                        objects,
                        Drawbject::CharSeq {
                            x: 0,
                            y: 0,
                            max_w: 0,
                            user_input: is_user_input,
                            fg_color: ifg_color,
                            bg_color: ibg_color,
                            seq: String::from_str(chars),
                        },
                    );
                },
            }
        },
        None => {
            push_object(
                objects,
                Drawbject::CharSeq {
                    x: 0,
                    y: 0,
                    max_w: 0,
                    user_input: is_user_input,
                    fg_color: ifg_color,
                    bg_color: ibg_color,
                    seq: String::from_str(chars),
                },
            );
        },
    }
}

/// Adds the character `ch` to the display list (see [`add_text`]).
pub fn add_char(objects: &mut Vec<Drawbject>, ch: char, ifg_color: Col, ibg_color: Col, is_user_input: bool)
    ensures
        shapes(final(objects)@) == add_text(shapes(old(objects)@), seq![ch], ifg_color, ibg_color, is_user_input),
{
    let ghost before = shapes(objects@);
    match pop_object(objects) {
        Some(x) => {
            match x {
                Drawbject::CharSeq { x, y, max_w, user_input, fg_color, bg_color, seq } => {
                    if user_input == is_user_input && fg_color == ifg_color && bg_color == ibg_color {
                        let mut seq = seq;
                        string_push(&mut seq, ch);
                        proof {
                            assert(seq@ =~= text_of(before.last()) + seq![ch]);
                        }
                        push_object(objects, Drawbject::CharSeq { x, y, max_w, user_input, fg_color, bg_color, seq });
                    } else {
                        push_object(objects, Drawbject::CharSeq { x, y, max_w, user_input, fg_color, bg_color, seq });
                        proof {
                            assert(before.drop_last().push(before.last()) =~= before);
                        }
                        push_object(
                            objects,
                            Drawbject::CharSeq {
                                x: 0,
                                y: 0,
                                max_w: 0,
                                user_input: is_user_input,
                                fg_color: ifg_color,
                                bg_color: ibg_color,
                                seq: char_string(ch),
                            },
                        );
                    }
                },
                other => {
                    push_object(objects, other);
                    proof {
                        assert(before.drop_last().push(before.last()) =~= before);
                    }
                    push_object(
                        objects,
                        Drawbject::CharSeq {
                            x: 0,
                            y: 0,
                            max_w: 0,
                            user_input: is_user_input,
                            fg_color: ifg_color,
                            bg_color: ibg_color,
                            seq: char_string(ch),
                        },
                    );
                },
            }
        },
        None => {
            push_object(
                objects,
                Drawbject::CharSeq {
                    x: 0,
                    y: 0,
                    max_w: 0,
                    user_input: is_user_input,
                    fg_color: ifg_color,
                    bg_color: ibg_color,
                    seq: char_string(ch),
                },
            );
        },
    }
}

/// Applies a typed key to the display list and the input line (see
/// [`typed`]).
pub fn handle_char_input(
    objects: &mut Vec<Drawbject>,
    ch: char,
    ifg_color: Col,
    ibg_color: Col,
    input_string: &mut String,
)
    ensures
        (shapes(final(objects)@), final(input_string)@) == typed(
            shapes(old(objects)@),
            old(input_string)@,
            ch,
            ifg_color,
            ibg_color,
        ),
{
    let ghost before = shapes(objects@);
    let bs = 127 as char;
    match pop_object(objects) {
        Some(c) => {
            match c {
                Drawbject::CharSeq { x, y, max_w, user_input, fg_color, bg_color, seq } => {
                    if user_input && fg_color == ifg_color && bg_color == ibg_color {
                        let mut seq = seq;
                        if ch == bs {
                            let _ = string_pop(&mut seq);
                            if !seq.as_str().is_empty() {
                                push_object(
                                    objects,
                                    Drawbject::CharSeq { x, y, max_w, user_input, fg_color, bg_color, seq },
                                );
                            }
                            let _ = string_pop(input_string);
                        } else {
                            string_push(input_string, ch);
                            string_push(&mut seq, ch);
                            push_object(objects, Drawbject::CharSeq { x, y, max_w, user_input, fg_color, bg_color, seq });
                        }
                    } else {
                        push_object(objects, Drawbject::CharSeq { x, y, max_w, user_input, fg_color, bg_color, seq });
                        proof {
                            assert(before.drop_last().push(before.last()) =~= before);
                        }
                        if ch != bs {
                            *input_string = char_string(ch);
                            add_char(objects, ch, ifg_color, ibg_color, true);
                        }
                    }
                },
                other => {
                    push_object(objects, other);
                    proof {
                        assert(before.drop_last().push(before.last()) =~= before);
                    }
                    if ch != bs {
                        *input_string = char_string(ch);
                        add_char(objects, ch, ifg_color, ibg_color, true);
                    }
                },
            }
        },
        None => {
            if ch != bs {
                *input_string = char_string(ch);
                add_char(objects, ch, ifg_color, ibg_color, true);
            }
        },
    }
}


// ---------------------------------------------------------------------------
// The frame buffer.

/// The display state: the text-mode display list (`objects`), the list
/// being built in graphics mode (`write_buffer`), which mode is on, the
/// colours text is added in, the keys typed and the line being typed.
#[derive(Debug)]
pub struct FrameBuffer {
    pub objects: Vec<Drawbject>,
    pub write_buffer: Vec<Drawbject>,
    pub terminal_mode: bool,
    /// Whether the window has been asked to close.
    pub window_should_close: bool,
    pub fg_color: Col,
    pub bg_color: Col,
    /// The last key typed, until it is taken.
    pub last_char: Option<char>,
    /// The key typed in the current frame.
    pub frame_char: Option<char>,
    pub input_string: String,
}

impl FrameBuffer {
    /// An empty display in text mode, green on black.
    pub fn new() -> (r: Self)
        ensures
            r.objects@.len() == 0,
            r.write_buffer@.len() == 0,
            r.terminal_mode,
            !r.window_should_close,
            r.fg_color == Col::Green,
            r.bg_color == Col::Black,
            r.last_char is None,
            r.frame_char is None,
            r.input_string@ == Seq::<char>::empty(),
    {
        FrameBuffer {
            objects: Vec::new(),
            write_buffer: Vec::new(),
            terminal_mode: true,
            window_should_close: false,
            fg_color: Col::Green,
            bg_color: Col::Black,
            last_char: None,
            frame_char: None,
            input_string: String::new(),
        }
    }

    /// Shows the list built in graphics mode and starts an empty one.
    pub fn swap_buffers(&mut self)
        ensures
            final(self).objects == old(self).write_buffer,
            final(self).write_buffer@.len() == 0,
            final(self).terminal_mode == old(self).terminal_mode,
            final(self).window_should_close == old(self).window_should_close,
            final(self).fg_color == old(self).fg_color,
            final(self).bg_color == old(self).bg_color,
            final(self).last_char == old(self).last_char,
            final(self).frame_char == old(self).frame_char,
            final(self).input_string == old(self).input_string,
    {
        std::mem::swap(&mut self.write_buffer, &mut self.objects);
        self.write_buffer.clear();
    }

    /// Takes in the input of one frame: whether the window was asked to
    /// close (once set, no later frame clears it), and, in text mode, the
    /// character key pressed, or else whether Backspace or else Enter was
    /// pressed.  A key is typed
    /// into the display (see [`handle_char_input`]) and remembered as the last
    /// key and the frame's key; with no key the frame's key is cleared.
    pub fn update_input(&mut self, close_requested: bool, pressed: Option<char>, backspace_pressed: bool, enter_pressed: bool)
        ensures
            final(self).window_should_close == (old(self).window_should_close || close_requested),
            old(self).window_should_close ==> final(self).window_should_close,
            final(self).write_buffer == old(self).write_buffer,
            final(self).terminal_mode == old(self).terminal_mode,
            final(self).fg_color == old(self).fg_color,
            final(self).bg_color == old(self).bg_color,
            ({
                let key: Option<char> = match pressed {
                    Some(c) => Some(c),
                    None => if backspace_pressed {
                        Some(backspace())
                    } else if enter_pressed {
                        Some('\n')
                    } else {
                        None
                    },
                };
                if !old(self).terminal_mode {
                    &&& final(self).objects == old(self).objects
                    &&& final(self).input_string == old(self).input_string
                    &&& final(self).last_char == old(self).last_char
                    &&& final(self).frame_char == old(self).frame_char
                } else {
                    match key {
                        Some(k) => {
                            &&& (shapes(final(self).objects@), final(self).input_string@) == typed(
                                shapes(old(self).objects@),
                                old(self).input_string@,
                                k,
                                old(self).fg_color,
                                old(self).bg_color,
                            )
                            &&& final(self).last_char == Some(k)
                            &&& final(self).frame_char == Some(k)
                        },
                        None => {
                            &&& final(self).objects == old(self).objects
                            &&& final(self).input_string == old(self).input_string
                            &&& final(self).last_char == old(self).last_char
                            &&& final(self).frame_char is None
                        },
                    }
                }
            }),
    {
        self.window_should_close = self.window_should_close || close_requested;
        if self.terminal_mode {
            let key = match pressed {
                Some(c) => Some(c),
                None => if backspace_pressed {
                    Some(127 as char)
                } else if enter_pressed {
                    Some('\n')
                } else {
                    None
                },
            };
            match key {
                Some(k) => {
                    let fg = self.fg_color;
                    let bg = self.bg_color;
                    handle_char_input(&mut self.objects, k, fg, bg, &mut self.input_string);
                    self.last_char = Some(k);
                    self.frame_char = Some(k);
                },
                None => {
                    self.frame_char = None;
                },
            }
        }
    }

    /// Takes the last key typed, for a reader that waits for one: `Some(0)`
    /// once the window is asked to close, the key's code when there is one
    /// (it is then taken), and `None` (wait and ask again) otherwise.
    pub fn poll_char(&mut self) -> (r: Option<i32>)
        ensures
            old(self).window_should_close ==> r == Some(0i32) && final(self).last_char == old(self).last_char,
            !old(self).window_should_close ==> match old(self).last_char {
                Some(c) => r == Some(c as i32) && final(self).last_char is None,
                None => r is None && final(self).last_char is None,
            },
            final(self).objects == old(self).objects,
            final(self).write_buffer == old(self).write_buffer,
            final(self).input_string == old(self).input_string,
            final(self).frame_char == old(self).frame_char,
            final(self).terminal_mode == old(self).terminal_mode,
            final(self).window_should_close == old(self).window_should_close,
    {
        if self.window_should_close {
            return Some(0);
        }
        match self.last_char.take() {
            Some(c) => Some(c as i32),
            None => None,
        }
    }

    /// Takes the first complete line typed, for a reader that waits for
    /// one: the empty line once the window is asked to close, the text
    /// before the first `'\n'` of the input (which keeps what follows it) when
    /// there is one, and `None` (wait and ask again) otherwise.
    pub fn poll_line(&mut self) -> (r: Option<String>)
        ensures
            old(self).window_should_close ==> r is Some && r->Some_0@ == Seq::<char>::empty()
                && final(self).input_string == old(self).input_string,
            !old(self).window_should_close && !old(self).input_string@.contains('\n') ==> r is None
                && final(self).input_string == old(self).input_string,
            !old(self).window_should_close && old(self).input_string@.contains('\n') ==> {
                let s = old(self).input_string@;
                let k = first_newline(s);
                &&& r is Some
                &&& r->Some_0@ == s.take(k)
                &&& final(self).input_string@ == s.skip(k + 1)
            },
            final(self).objects == old(self).objects,
            final(self).write_buffer == old(self).write_buffer,
            final(self).last_char == old(self).last_char,
            final(self).frame_char == old(self).frame_char,
            final(self).terminal_mode == old(self).terminal_mode,
            final(self).window_should_close == old(self).window_should_close,
    {
        if self.window_should_close {
            return Some(String::new());
        }
        let text = self.input_string.as_str();
        let n = text.unicode_len();
        let mut i: usize = 0;
        while i < n
            invariant
                *self == *old(self),
                !self.window_should_close,
                text@ == self.input_string@,
                n == text@.len(),
                i <= n,
                forall|j: int| 0 <= j < i ==> text@[j] != '\n',
            decreases n - i,
        {
            if text.get_char(i) == '\n' {
                proof {
                    assert(self.input_string@.contains('\n'));
                    assert(first_newline(self.input_string@) == i) by {
                        let k = first_newline(self.input_string@);
                        if k < i {
                        } else if k > i {
                        }
                    }
                }
                let before = String::from_str(text.substring_char(0, i));
                let after = String::from_str(text.substring_char(i + 1, n));
                proof {
                    assert(before@ =~= self.input_string@.take(i as int));
                    assert(after@ =~= self.input_string@.skip(i + 1));
                }
                self.input_string = after;
                return Some(before);
            }
            i = i + 1;
        }
        proof {
            if self.input_string@.contains('\n') {
                let w = choose|w: int| 0 <= w < self.input_string@.len() && self.input_string@[w] == '\n';
                assert(text@[w] != '\n');
            }
        }
        None
    }
}

/// The index of the first `'\n'` in `s` (meaningful when there is one).
pub open spec fn first_newline(s: Seq<char>) -> int {
    choose|k: int| 0 <= k < s.len() && s[k] == '\n' && forall|j: int| 0 <= j < k ==> s[j] != '\n'
}

/// Prints `s` in the current colours, in text mode; does nothing in
/// graphics mode.
pub fn put_str(frame: &mut FrameBuffer, s: &str)
    ensures
        old(frame).terminal_mode ==> shapes(final(frame).objects@) == add_text(
            shapes(old(frame).objects@),
            s@,
            old(frame).fg_color,
            old(frame).bg_color,
            false,
        ),
        !old(frame).terminal_mode ==> final(frame).objects == old(frame).objects,
        final(frame).write_buffer == old(frame).write_buffer,
        final(frame).terminal_mode == old(frame).terminal_mode,
        final(frame).window_should_close == old(frame).window_should_close,
        final(frame).fg_color == old(frame).fg_color,
        final(frame).bg_color == old(frame).bg_color,
        final(frame).last_char == old(frame).last_char,
        final(frame).frame_char == old(frame).frame_char,
        final(frame).input_string == old(frame).input_string,
{
    let fg = frame.fg_color;
    let bg = frame.bg_color;
    if frame.terminal_mode {
        add_char_seq(&mut frame.objects, s, fg, bg, false);
    }
}

/// Adds a `w` by `h` rectangle (each truncated to 16 bits) in text mode;
/// does nothing in graphics mode.
pub fn put_rect(frame: &mut FrameBuffer, w: i32, h: i32, col: Col)
    ensures
        old(frame).terminal_mode ==> shapes(final(frame).objects@) == shapes(old(frame).objects@).push(
            Shape::Rectangle { x: 0, y: 0, w: w as i16, h: h as i16, col },
        ),
        !old(frame).terminal_mode ==> final(frame).objects == old(frame).objects,
        final(frame).write_buffer == old(frame).write_buffer,
        final(frame).terminal_mode == old(frame).terminal_mode,
        final(frame).window_should_close == old(frame).window_should_close,
        final(frame).fg_color == old(frame).fg_color,
        final(frame).bg_color == old(frame).bg_color,
        final(frame).last_char == old(frame).last_char,
        final(frame).frame_char == old(frame).frame_char,
        final(frame).input_string == old(frame).input_string,
{
    if frame.terminal_mode {
        push_object(
            &mut frame.objects,
            Drawbject::Rectangle { x: 0, y: 0, w: #[verifier::truncate] (w as i16), h: #[verifier::truncate] (h as i16), col },
        );
    }
}

/// Whether the window has been asked to close.
pub fn window_should_close(frame: &FrameBuffer) -> (r: bool)
    ensures
        r == frame.window_should_close,
{
    frame.window_should_close
}

/// The code of the key typed in the current frame, 0 when none.
pub fn get_input_char(frame: &FrameBuffer) -> (r: i32)
    ensures
        r == match frame.frame_char {
            Some(c) => c as i32,
            None => 0,
        },
{
    match frame.frame_char {
        Some(x) => x as i32,
        None => 0,
    }
}

/// Switches to graphics mode.
pub fn display_set_graphics_modes(frame: &mut FrameBuffer)
    ensures
        *final(frame) == (FrameBuffer { terminal_mode: false, ..*old(frame) }),
{
    frame.terminal_mode = false;
}

/// Switches to text mode.
pub fn display_set_text_mode(frame: &mut FrameBuffer)
    ensures
        *final(frame) == (FrameBuffer { terminal_mode: true, ..*old(frame) }),
{
    frame.terminal_mode = true;
}

/// Shows the list built in graphics mode (see [`FrameBuffer::swap_buffers`]).
pub fn display_swap_buffers(frame: &mut FrameBuffer)
    ensures
        final(frame).objects == old(frame).write_buffer,
        final(frame).write_buffer@.len() == 0,
        final(frame).terminal_mode == old(frame).terminal_mode,
        final(frame).window_should_close == old(frame).window_should_close,
        final(frame).fg_color == old(frame).fg_color,
        final(frame).bg_color == old(frame).bg_color,
        final(frame).last_char == old(frame).last_char,
        final(frame).frame_char == old(frame).frame_char,
        final(frame).input_string == old(frame).input_string,
{
    frame.swap_buffers();
}

fn push_drawing(frame: &mut FrameBuffer, d: Drawbject)
    ensures
        shapes(final(frame).write_buffer@) == shapes(old(frame).write_buffer@).push(d@),
        final(frame).objects == old(frame).objects,
        final(frame).terminal_mode == old(frame).terminal_mode,
        final(frame).window_should_close == old(frame).window_should_close,
        final(frame).fg_color == old(frame).fg_color,
        final(frame).bg_color == old(frame).bg_color,
        final(frame).last_char == old(frame).last_char,
        final(frame).frame_char == old(frame).frame_char,
        final(frame).input_string == old(frame).input_string,
{
    push_object(&mut frame.write_buffer, d);
}

/// Adds text at `(x, y)`, `w` wide (each truncated to 16 bits), in the
/// current colours, to the graphics list.  Graphics mode only.
pub fn display_draw_text(frame: &mut FrameBuffer, text: &str, x: i32, y: i32, w: i32)
    requires
        !old(frame).terminal_mode,
    ensures
        shapes(final(frame).write_buffer@) == shapes(old(frame).write_buffer@).push(
            Shape::CharSeq {
                x: x as i16,
                y: y as i16,
                max_w: w as i16,
                user_input: false,
                fg_color: old(frame).fg_color,
                bg_color: old(frame).bg_color,
                seq: text@,
            },
        ),
        final(frame).objects == old(frame).objects,
        final(frame).terminal_mode == old(frame).terminal_mode,
        final(frame).fg_color == old(frame).fg_color,
        final(frame).bg_color == old(frame).bg_color,
        final(frame).window_should_close == old(frame).window_should_close,
        final(frame).last_char == old(frame).last_char,
        final(frame).frame_char == old(frame).frame_char,
        final(frame).input_string == old(frame).input_string,
{
    let fg = frame.fg_color;
    let bg = frame.bg_color;
    push_drawing(
        frame,
        Drawbject::CharSeq {
            x: #[verifier::truncate] (x as i16),
            y: #[verifier::truncate] (y as i16),
            max_w: #[verifier::truncate] (w as i16),
            user_input: false,
            fg_color: fg,
            bg_color: bg,
            seq: String::from_str(text),
        },
    );
}

/// Adds a rectangle to the graphics list.  Graphics mode only.
pub fn display_draw_rect(frame: &mut FrameBuffer, x: i32, y: i32, w: i32, h: i32, col: Col)
    requires
        !old(frame).terminal_mode,
    ensures
        shapes(final(frame).write_buffer@) == shapes(old(frame).write_buffer@).push(
            Shape::Rectangle { x: x as i16, y: y as i16, w: w as i16, h: h as i16, col },
        ),
        final(frame).objects == old(frame).objects,
        final(frame).terminal_mode == old(frame).terminal_mode,
        final(frame).fg_color == old(frame).fg_color,
        final(frame).bg_color == old(frame).bg_color,
        final(frame).window_should_close == old(frame).window_should_close,
        final(frame).last_char == old(frame).last_char,
        final(frame).frame_char == old(frame).frame_char,
        final(frame).input_string == old(frame).input_string,
{
    push_drawing(
        frame,
        Drawbject::Rectangle {
            x: #[verifier::truncate] (x as i16),
            y: #[verifier::truncate] (y as i16),
            w: #[verifier::truncate] (w as i16),
            h: #[verifier::truncate] (h as i16),
            col,
        },
    );
}

/// Adds a circle to the graphics list.  Graphics mode only.
pub fn display_draw_circle(frame: &mut FrameBuffer, x: i32, y: i32, r: i32, col: Col)
    requires
        !old(frame).terminal_mode,
    ensures
        shapes(final(frame).write_buffer@) == shapes(old(frame).write_buffer@).push(
            Shape::Circle { x: x as i16, y: y as i16, r: r as i16, col },
        ),
        final(frame).objects == old(frame).objects,
        final(frame).terminal_mode == old(frame).terminal_mode,
        final(frame).fg_color == old(frame).fg_color,
        final(frame).bg_color == old(frame).bg_color,
        final(frame).window_should_close == old(frame).window_should_close,
        final(frame).last_char == old(frame).last_char,
        final(frame).frame_char == old(frame).frame_char,
        final(frame).input_string == old(frame).input_string,
{
    push_drawing(
        frame,
        Drawbject::Circle {
            x: #[verifier::truncate] (x as i16),
            y: #[verifier::truncate] (y as i16),
            r: #[verifier::truncate] (r as i16),
            col,
        },
    );
}

/// Adds a line to the graphics list.  Graphics mode only.
pub fn display_draw_line(frame: &mut FrameBuffer, x0: i32, y0: i16, x1: i16, y1: i16, col: Col)
    requires
        !old(frame).terminal_mode,
    ensures
        shapes(final(frame).write_buffer@) == shapes(old(frame).write_buffer@).push(
            Shape::Line { x0: x0 as i16, y0, x1, y1, col },
        ),
        final(frame).objects == old(frame).objects,
        final(frame).terminal_mode == old(frame).terminal_mode,
        final(frame).fg_color == old(frame).fg_color,
        final(frame).bg_color == old(frame).bg_color,
        final(frame).window_should_close == old(frame).window_should_close,
        final(frame).last_char == old(frame).last_char,
        final(frame).frame_char == old(frame).frame_char,
        final(frame).input_string == old(frame).input_string,
{
    push_drawing(frame, Drawbject::Line { x0: #[verifier::truncate] (x0 as i16), y0, x1, y1, col });
}


// ---------------------------------------------------------------------------
// Rendering: what the display list draws.

/// One drawing call on the 640 by 480 screen.
#[derive(Clone, Copy, Debug, PartialEq, Eq, Structural)]
pub enum DrawCommand {
    Line { x0: i32, y0: i32, x1: i32, y1: i32, col: Col },
    /// The character `c`, 16 pixels high, with its top left corner at `(x, y)`.
    Glyph { c: char, x: i32, y: i32, col: Col },
    Rectangle { x: i32, y: i32, w: i32, h: i32, col: Col },
    Circle { x: i32, y: i32, r: i32, col: Col },
}

/// Whether a value fits in an `i32`.
pub open spec fn fits(v: int) -> bool {
    i32::MIN <= v <= i32::MAX
}

/// The remainder of division rounding toward zero (it takes the sign of `v`).
pub open spec fn trem(v: int, m: int) -> int {
    if v >= 0 {
        v % m
    } else {
        -((-v) % m)
    }
}

/// How far the layout moves right past an item `v` pixels wide.
pub open spec fn w_round(v: int) -> int {
    if trem(v, 8) != 0 {
        v + 8 - trem(v, 80)
    } else {
        v
    }
}

/// `v` rounded up to whole lines of 20 pixels.
pub open spec fn h_round(v: int) -> int {
    if trem(v, 20) != 0 {
        v + 20 - trem(v, 20)
    } else {
        v
    }
}

fn w_round_exec(v: i32) -> (r: i32)
    requires
        -40000 <= v <= 40000,
    ensures
        r == w_round(v as int),
{
    if v % 8 != 0 {
        v + 8 - v % 80
    } else {
        v
    }
}

fn h_round_exec(v: i32) -> (r: i32)
    requires
        -40000 <= v <= 40000,
    ensures
        r == h_round(v as int),
{
    if v % 20 != 0 {
        v + 20 - v % 20
    } else {
        v
    }
}

/// A run of drawing calls, where the pen ends, and whether the run could be
/// laid out at all (`ok` is false where drawing it panics: a coordinate
/// leaving the `i32` range, or an image entry).
#[verifier::ext_equal]
pub struct Layout {
    pub cmds: Seq<DrawCommand>,
    pub x: int,
    pub y: int,
    pub ok: bool,
}

/// The failed layout.
pub open spec fn failed() -> Layout {
    Layout { cmds: Seq::empty(), x: 0, y: 0, ok: false }
}

/// `cmds` drawn before the layout `l`.
pub open spec fn prefixed(cmds: Seq<DrawCommand>, l: Layout) -> Layout {
    Layout { cmds: cmds + l.cmds, ..l }
}

/// Text laid out from the pen at `(x, y)`: each character but a line break
/// is drawn there and moves the pen 8 pixels right, wrapping to `base_x` and
/// down a line of 20 pixels at 640; a line break wraps without drawing.
#[verifier::opaque]
pub open spec fn glyph_run(text: Seq<char>, x: int, y: int, base_x: int, col: Col) -> Layout
    decreases text.len(),
{
    if text.len() == 0 {
        Layout { cmds: Seq::empty(), x, y, ok: true }
    } else if text[0] == '\n' {
        if fits(y + 20) {
            glyph_run(text.drop_first(), base_x, y + 20, base_x, col)
        } else {
            failed()
        }
    } else if !fits(x + 8) {
        failed()
    } else {
        let g = DrawCommand::Glyph { c: text[0], x: x as i32, y: y as i32, col };
        if x + 8 >= 640 {
            if fits(y + 20) {
                prefixed(seq![g], glyph_run(text.drop_first(), base_x, y + 20, base_x, col))
            } else {
                failed()
            }
        } else {
            prefixed(seq![g], glyph_run(text.drop_first(), x + 8, y, base_x, col))
        }
    }
}

/// The pen after moving by `(dx, dy)`, wrapping to `base_x` and down a line
/// when it passes 640; `None` on leaving the `i32` range.
pub open spec fn pen_moved(x: int, y: int, dx: int, dy: int, base_x: int) -> Option<(int, int)> {
    if !fits(x + dx) || !fits(y + dy) {
        None
    } else if x + dx > 640 {
        if fits(y + dy + 20) {
            Some((base_x, y + dy + 20))
        } else {
            None
        }
    } else {
        Some((x + dx, y + dy))
    }
}

/// One display list entry laid out in text mode from the pen at `(x, y)`.
pub open spec fn render_item(s: Shape, x: int, y: int, base_x: int) -> Layout {
    match s {
        Shape::Shift { .. } => Layout { cmds: Seq::empty(), x, y, ok: true },
        Shape::Move { .. } => Layout { cmds: Seq::empty(), x, y, ok: true },
        Shape::Line { x0, y0, x1, y1, col } => Layout {
            cmds: seq![DrawCommand::Line { x0: x0 as i32, y0: y0 as i32, x1: x1 as i32, y1: y1 as i32, col }],
            x,
            y,
            ok: true,
        },
        Shape::CharSeq { fg_color, seq, .. } => glyph_run(seq, x, y, base_x, fg_color),
        Shape::Rectangle { w, h, col, .. } => match pen_moved(x, y, w_round(w as int), h_round(h - 20), base_x) {
            Some((nx, ny)) => Layout {
                cmds: seq![DrawCommand::Rectangle { x: x as i32, y: y as i32, w: w as i32, h: h as i32, col }],
                x: nx,
                y: ny,
                ok: true,
            },
            None => failed(),
        },
        Shape::Circle { r, col, .. } => match pen_moved(x, y, w_round(r as int), h_round(r as int), base_x) {
            Some((nx, ny)) => Layout {
                cmds: seq![DrawCommand::Circle { x: x as i32, y: y as i32, r: r as i32, col }],
                x: nx,
                y: ny,
                ok: true,
            },
            None => failed(),
        },
        Shape::Image { .. } => failed(),
    }
}

/// Entries laid out one after the other in text mode.
#[verifier::opaque]
pub open spec fn render_batch(objs: Seq<Shape>, x: int, y: int, base_x: int) -> Layout
    decreases objs.len(),
{
    if objs.len() == 0 {
        Layout { cmds: Seq::empty(), x, y, ok: true }
    } else {
        let first = render_item(objs[0], x, y, base_x);
        if first.ok {
            prefixed(first.cmds, render_batch(objs.drop_first(), first.x, first.y, base_x))
        } else {
            failed()
        }
    }
}

/// Where [`FrameBuffer::render_out`] starts the pen on the y axis: a
/// layout ending `end_y - base_y > 480` pixels down is moved up to keep its
/// end on screen.  `None` where the arithmetic overflows.
pub open spec fn render_start_y(base_y: int, end_y: int) -> Option<int> {
    let d = end_y - base_y;
    if !fits(d) {
        None
    } else {
        let y0 = if d > 480 {
            base_y - (d - 460)
        } else {
            base_y
        };
        if fits(y0) {
            Some(y0)
        } else {
            None
        }
    }
}

/// What [`FrameBuffer::render_out`] draws, where it can (`ok`).
pub open spec fn render_out_spec(objs: Seq<Shape>, base_x: int, base_y: int, end_y: int) -> Layout {
    match render_start_y(base_y, end_y) {
        Some(y0) => render_batch(objs, base_x, y0, base_x),
        None => failed(),
    }
}

fn chars_of(s: &String) -> (v: Vec<char>)
    ensures
        v@ == s@,
{
    let mut v: Vec<char> = Vec::new();
    for c in it: s.as_str().chars()
        invariant
            v@ == it.seq().take(it.index() as int),
            it.seq() == s@,
    {
        v.push(c);
    }
    v
}

proof fn lemma_skip_push<A>(s: Seq<A>, k: int, g: A)
    requires
        0 <= k <= s.len(),
    ensures
        s.push(g).skip(k) == s.skip(k).push(g),
{
    assert(s.push(g).skip(k) =~= s.skip(k).push(g));
}

proof fn lemma_push_concat<A>(start: Seq<A>, done: Seq<A>, g: A)
    ensures
        start + done.push(g) == (start + done).push(g),
{
    assert(start + done.push(g) =~= (start + done).push(g));
}

proof fn lemma_single_concat<A>(done: Seq<A>, g: A)
    ensures
        done + seq![g] == done.push(g),
{
    assert(done + seq![g] =~= done.push(g));
}

proof fn lemma_concat_assoc<A>(a: Seq<A>, b: Seq<A>, c: Seq<A>)
    ensures
        a + (b + c) == (a + b) + c,
{
    assert(a + (b + c) =~= (a + b) + c);
}

proof fn lemma_concat_empty<A>(a: Seq<A>)
    ensures
        a + Seq::<A>::empty() == a,
        Seq::<A>::empty() + a == a,
{
    assert(a + Seq::<A>::empty() =~= a);
    assert(Seq::<A>::empty() + a =~= a);
}

proof fn lemma_skip_append<A>(s: Seq<A>, k: int, t: Seq<A>)
    requires
        0 <= k <= s.len(),
    ensures
        (s + t).skip(k) == s.skip(k) + t,
{
    assert((s + t).skip(k) =~= s.skip(k) + t);
}

/// One step of [`glyph_run`].
proof fn lemma_glyph_unfold(text: Seq<char>, x: int, y: int, base_x: int, col: Col)
    requires
        text.len() > 0,
    ensures
        glyph_run(text, x, y, base_x, col) == if text[0] == '\n' {
            if fits(y + 20) {
                glyph_run(text.drop_first(), base_x, y + 20, base_x, col)
            } else {
                failed()
            }
        } else if !fits(x + 8) {
            failed()
        } else if x + 8 >= 640 {
            if fits(y + 20) {
                prefixed(
                    seq![DrawCommand::Glyph { c: text[0], x: x as i32, y: y as i32, col }],
                    glyph_run(text.drop_first(), base_x, y + 20, base_x, col),
                )
            } else {
                failed()
            }
        } else {
            prefixed(
                seq![DrawCommand::Glyph { c: text[0], x: x as i32, y: y as i32, col }],
                glyph_run(text.drop_first(), x + 8, y, base_x, col),
            )
        },
{
    reveal(glyph_run);
}

proof fn lemma_glyph_step(text: Seq<char>, x: int, y: int, base_x: int, col: Col, done: Seq<DrawCommand>, whole: Layout)
    requires
        text.len() > 0,
        whole == prefixed(done, glyph_run(text, x, y, base_x, col)),
        whole.ok,
    ensures
        text[0] == '\n' ==> fits(y + 20) && whole == prefixed(
            done,
            glyph_run(text.drop_first(), base_x, y + 20, base_x, col),
        ),
        text[0] != '\n' ==> {
            let g = DrawCommand::Glyph { c: text[0], x: x as i32, y: y as i32, col };
            &&& fits(x + 8)
            &&& x + 8 >= 640 ==> fits(y + 20) && whole == prefixed(
                done.push(g),
                glyph_run(text.drop_first(), base_x, y + 20, base_x, col),
            )
            &&& x + 8 < 640 ==> whole == prefixed(done.push(g), glyph_run(text.drop_first(), x + 8, y, base_x, col))
        },
{
    lemma_glyph_unfold(text, x, y, base_x, col);
    if text[0] != '\n' {
        let g = DrawCommand::Glyph { c: text[0], x: x as i32, y: y as i32, col };
        if x + 8 >= 640 {
            lemma_prefix_push(done, g, glyph_run(text.drop_first(), base_x, y + 20, base_x, col));
        } else {
            lemma_prefix_push(done, g, glyph_run(text.drop_first(), x + 8, y, base_x, col));
        }
    }
}

proof fn lemma_prefix_push(done: Seq<DrawCommand>, g: DrawCommand, rr: Layout)
    ensures
        prefixed(done, prefixed(seq![g], rr)) == prefixed(done.push(g), rr),
{
    lemma_concat_assoc(done, seq![g], rr.cmds);
    lemma_single_concat(done, g);
}

/// Lays out `text` (see [`glyph_run`]), adding its drawing calls to `out`.
fn run_glyphs(text: &Vec<char>, x: i32, y: i32, base_x: i32, col: Col, out: &mut Vec<DrawCommand>) -> (r: (i32, i32))
    requires
        glyph_run(text@, x as int, y as int, base_x as int, col).ok,
    ensures
        ({
            let l = glyph_run(text@, x as int, y as int, base_x as int, col);
            final(out)@ == old(out)@ + l.cmds && r.0 == l.x && r.1 == l.y
        }),
{
    let mut cx = x;
    let mut cy = y;
    let mut j: usize = 0;
    let ghost start = out@;
    let ghost whole = glyph_run(text@, x as int, y as int, base_x as int, col);
    proof {
        assert(text@.skip(0) =~= text@);
        assert(out@.skip(start.len() as int) =~= Seq::<DrawCommand>::empty());
        assert(start + Seq::<DrawCommand>::empty() =~= start);
        lemma_concat_empty(whole.cmds);
    }
    while j < text.len()
        invariant
            j <= text@.len(),
            start.len() <= out@.len(),
            out@ == start + out@.skip(start.len() as int),
            whole == glyph_run(text@, x as int, y as int, base_x as int, col),
            whole.ok,
            whole == prefixed(
                out@.skip(start.len() as int),
                glyph_run(text@.skip(j as int), cx as int, cy as int, base_x as int, col),
            ),
        decreases text@.len() - j,
    {
        let c = text[j];
        proof {
            let rest = text@.skip(j as int);
            assert(rest.drop_first() =~= text@.skip(j + 1));
            assert(rest[0] == c);
            lemma_glyph_step(rest, cx as int, cy as int, base_x as int, col, out@.skip(start.len() as int), whole);
        }
        if c == '\n' {
            cx = base_x;
            cy = cy + 20;
        } else {
            let g = DrawCommand::Glyph { c, x: cx, y: cy, col };
            proof {
                lemma_skip_push(out@, start.len() as int, g);
                lemma_push_concat(start, out@.skip(start.len() as int), g);
            }
            out.push(g);
            if cx + 8 >= 640 {
                cx = base_x;
                cy = cy + 20;
            } else {
                cx = cx + 8;
            }
        }
        j = j + 1;
    }
    proof {
        let done = out@.skip(start.len() as int);
        assert(text@.skip(j as int) =~= Seq::<char>::empty());
        reveal(glyph_run);
        lemma_concat_empty(done);
    }
    (cx, cy)
}


proof fn lemma_batch_unfold(objs: Seq<Shape>, x: int, y: int, base_x: int)
    ensures
        objs.len() == 0 ==> render_batch(objs, x, y, base_x) == (Layout { cmds: Seq::empty(), x, y, ok: true }),
        objs.len() > 0 ==> render_batch(objs, x, y, base_x) == ({
            let first = render_item(objs[0], x, y, base_x);
            if first.ok {
                prefixed(first.cmds, render_batch(objs.drop_first(), first.x, first.y, base_x))
            } else {
                failed()
            }
        }),
{
    reveal(render_batch);
}

proof fn lemma_prefix_concat(done: Seq<DrawCommand>, c: Seq<DrawCommand>, rr: Layout)
    ensures
        prefixed(done, prefixed(c, rr)) == prefixed(done + c, rr),
{
    lemma_concat_assoc(done, c, rr.cmds);
}

proof fn lemma_batch_step(objs: Seq<Shape>, x: int, y: int, base_x: int, done: Seq<DrawCommand>, whole: Layout)
    requires
        objs.len() > 0,
        whole == prefixed(done, render_batch(objs, x, y, base_x)),
        whole.ok,
    ensures
        render_item(objs[0], x, y, base_x).ok,
        whole == prefixed(
            done + render_item(objs[0], x, y, base_x).cmds,
            render_batch(
                objs.drop_first(),
                render_item(objs[0], x, y, base_x).x,
                render_item(objs[0], x, y, base_x).y,
                base_x,
            ),
        ),
{
    lemma_batch_unfold(objs, x, y, base_x);
    let first = render_item(objs[0], x, y, base_x);
    lemma_prefix_concat(done, first.cmds, render_batch(objs.drop_first(), first.x, first.y, base_x));
}

fn pen_move(x: i32, y: i32, dx: i32, dy: i32, base_x: i32) -> (r: (i32, i32))
    requires
        pen_moved(x as int, y as int, dx as int, dy as int, base_x as int) is Some,
    ensures
        pen_moved(x as int, y as int, dx as int, dy as int, base_x as int) == Some((r.0 as int, r.1 as int)),
{
    let nx = x + dx;
    let ny = y + dy;
    if nx > 640 {
        (base_x, ny + 20)
    } else {
        (nx, ny)
    }
}

/// Lays out one display list entry in text mode (see [`render_item`]).
fn render_item_exec(d: &Drawbject, x: i32, y: i32, base_x: i32, out: &mut Vec<DrawCommand>) -> (r: (i32, i32))
    requires
        render_item(d@, x as int, y as int, base_x as int).ok,
    ensures
        ({
            let l = render_item(d@, x as int, y as int, base_x as int);
            final(out)@ == old(out)@ + l.cmds && r.0 == l.x && r.1 == l.y
        }),
{
    let ghost start = out@;
    match d {
        Drawbject::Shift { .. } => {
            assert(out@ =~= start + Seq::<DrawCommand>::empty());
            (x, y)
        },
        Drawbject::Move { .. } => {
            assert(out@ =~= start + Seq::<DrawCommand>::empty());
            (x, y)
        },
        Drawbject::Line { x0, y0, x1, y1, col } => {
            let c = DrawCommand::Line { x0: *x0 as i32, y0: *y0 as i32, x1: *x1 as i32, y1: *y1 as i32, col: *col };
            out.push(c);
            proof {
                lemma_single_concat(start, c);
            }
            (x, y)
        },
        Drawbject::CharSeq { fg_color, seq, .. } => {
            let text = chars_of(seq);
            run_glyphs(&text, x, y, base_x, *fg_color, out)
        },
        Drawbject::Rectangle { w, h, col, .. } => {
            let c = DrawCommand::Rectangle { x, y, w: *w as i32, h: *h as i32, col: *col };
            out.push(c);
            proof {
                lemma_single_concat(start, c);
            }
            let dx = w_round_exec(*w as i32);
            let dy = h_round_exec(*h as i32 - 20);
            pen_move(x, y, dx, dy, base_x)
        },
        Drawbject::Circle { r, col, .. } => {
            let c = DrawCommand::Circle { x, y, r: *r as i32, col: *col };
            out.push(c);
            proof {
                lemma_single_concat(start, c);
            }
            let dx = w_round_exec(*r as i32);
            let dy = h_round_exec(*r as i32);
            pen_move(x, y, dx, dy, base_x)
        },
        Drawbject::Image { .. } => (x, y),
    }
}

/// Lays out entries one after the other in text mode (see [`render_batch`]).
fn render_batch_exec(objs: &Vec<Drawbject>, x: i32, y: i32, base_x: i32, out: &mut Vec<DrawCommand>) -> (r: (i32, i32))
    requires
        render_batch(shapes(objs@), x as int, y as int, base_x as int).ok,
    ensures
        ({
            let l = render_batch(shapes(objs@), x as int, y as int, base_x as int);
            final(out)@ == old(out)@ + l.cmds && r.0 == l.x && r.1 == l.y
        }),
{
    let mut cx = x;
    let mut cy = y;
    let mut i: usize = 0;
    let ghost start = out@;
    let ghost all = shapes(objs@);
    let ghost whole = render_batch(all, x as int, y as int, base_x as int);
    proof {
        assert(all.skip(0) =~= all);
        assert(out@.skip(start.len() as int) =~= Seq::<DrawCommand>::empty());
        lemma_concat_empty(start);
        lemma_concat_empty(whole.cmds);
    }
    while i < objs.len()
        invariant
            i <= objs@.len(),
            all == shapes(objs@),
            start.len() <= out@.len(),
            out@ == start + out@.skip(start.len() as int),
            whole.ok,
            whole == prefixed(out@.skip(start.len() as int), render_batch(all.skip(i as int), cx as int, cy as int, base_x as int)),
        decreases objs@.len() - i,
    {
        let ghost done = out@.skip(start.len() as int);
        let ghost rest = all.skip(i as int);
        proof {
            assert(rest.drop_first() =~= all.skip(i + 1));
            assert(rest[0] == objs@[i as int]@);
            lemma_batch_step(rest, cx as int, cy as int, base_x as int, done, whole);
        }
        let ghost mid = out@;
        let (nx, ny) = render_item_exec(&objs[i], cx, cy, base_x, out);
        proof {
            let item = render_item(rest[0], cx as int, cy as int, base_x as int);
            lemma_skip_append(mid, start.len() as int, item.cmds);
            lemma_concat_assoc(start, done, item.cmds);
        }
        cx = nx;
        cy = ny;
        i = i + 1;
    }
    proof {
        let done = out@.skip(start.len() as int);
        assert(all.skip(i as int) =~= Seq::<Shape>::empty());
        lemma_batch_unfold(all.skip(i as int), cx as int, cy as int, base_x as int);
        lemma_concat_empty(done);
    }
    (cx, cy)
}

impl FrameBuffer {
    /// Draws the entries laid out in text mode from `(base_x, base_y)` (see
    /// [`render_out_spec`]).
    pub fn render_out(&self, objects: &Vec<Drawbject>, base_x: i32, base_y: i32, end_x: i32, end_y: i32) -> (r: Vec<
        DrawCommand,
    >)
        requires
            render_out_spec(shapes(objects@), base_x as int, base_y as int, end_y as int).ok,
        ensures
            r@ == render_out_spec(shapes(objects@), base_x as int, base_y as int, end_y as int).cmds,
    {
        render_out_of(objects, base_x, base_y, end_y)
    }
}


// ---------------------------------------------------------------------------
// Text mode: the whole display list.

/// The state of the text-mode layout pass: the entries of the batch not yet
/// drawn, the batch's origin, the pen, and the drawing calls so far.
#[verifier::ext_equal]
pub struct Pass {
    pub current: Seq<Shape>,
    pub base_x: int,
    pub base_y: int,
    pub cx: int,
    pub cy: int,
    pub cmds: Seq<DrawCommand>,
    pub ok: bool,
}

/// The failed pass.
pub open spec fn failed_pass() -> Pass {
    Pass { current: Seq::empty(), base_x: 0, base_y: 0, cx: 0, cy: 0, cmds: Seq::empty(), ok: false }
}

/// The pen after a circle's move: right first, wrapping at 640, then down.
pub open spec fn circle_moved(x: int, y: int, dx: int, dy: int, base_x: int) -> Option<(int, int)> {
    if !fits(x + dx) {
        None
    } else if x + dx > 640 {
        if fits(y + 20) && fits(y + 20 + dy) {
            Some((base_x, y + 20 + dy))
        } else {
            None
        }
    } else if fits(y + dy) {
        Some((x + dx, y + dy))
    } else {
        None
    }
}

/// The pass with the batch so far drawn (the layout of the batch ends at
/// `end_y`), and a new batch started at `(nbx, nby)`.
pub open spec fn flushed(p: Pass, nbx: int, nby: int, end_y: int) -> Pass {
    let r = render_out_spec(p.current, p.base_x, p.base_y, end_y);
    if r.ok {
        Pass { current: Seq::empty(), base_x: nbx, base_y: nby, cmds: p.cmds + r.cmds, ..p }
    } else {
        failed_pass()
    }
}

/// The pen moved to `m` (when it can be), and the entry `s` added to the
/// batch.
pub open spec fn advanced(p: Pass, m: Option<(int, int)>, s: Shape) -> Pass {
    match m {
        Some((nx, ny)) => Pass { current: p.current.push(s), cx: nx, cy: ny, ..p },
        None => failed_pass(),
    }
}

/// One entry of the text-mode pass.  `Shift` draws the batch and starts the
/// next one where the pen is, moved `dx` columns and `dy` lines; `Move` puts
/// the base (and the pen) at column `x`, line `y`, and draws the batch from
/// there; any other entry joins the batch and moves the pen past it.
pub open spec fn pass_step(p: Pass, s: Shape) -> Pass {
    match s {
        Shape::Shift { dx, dy } => if fits(p.cx + dx * 8) && fits(p.cy + dy * 20) {
            flushed(p, p.cx + dx * 8, p.cy + dy * 20, p.cy)
        } else {
            failed_pass()
        },
        Shape::Move { x, y } => {
            let q = Pass { cx: x * 8, cy: y * 20, base_x: x * 8, base_y: y * 20, ..p };
            flushed(q, x * 8, y * 20, y * 20)
        },
        Shape::CharSeq { seq, fg_color, .. } => {
            let l = glyph_run(seq, p.cx, p.cy, p.base_x, fg_color);
            advanced(
                p,
                if l.ok {
                    Some((l.x, l.y))
                } else {
                    None
                },
                s,
            )
        },
        Shape::Rectangle { w, h, .. } => advanced(p, pen_moved(p.cx, p.cy, w_round(w as int), h_round(h - 20), p.base_x), s),
        Shape::Line { .. } => Pass { current: p.current.push(s), ..p },
        Shape::Circle { r, .. } => advanced(p, circle_moved(p.cx, p.cy, w_round(r as int), h_round(r as int), p.base_x), s),
        Shape::Image { w, h, .. } => advanced(p, pen_moved(p.cx, p.cy, w_round(w as int), h_round(h as int), p.base_x), s),
    }
}

/// The pass over the first `n` entries.
pub open spec fn pass_over(objs: Seq<Shape>, n: nat) -> Pass
    decreases n,
{
    if n == 0 {
        Pass { current: Seq::empty(), base_x: 0, base_y: 0, cx: 0, cy: 0, cmds: Seq::empty(), ok: true }
    } else {
        let p = pass_over(objs, (n - 1) as nat);
        if p.ok && n <= objs.len() {
            pass_step(p, objs[n - 1])
        } else {
            failed_pass()
        }
    }
}

/// What the display list draws in text mode: the pass over every entry,
/// then the last batch drawn.  `ok` is false where drawing panics.
pub open spec fn terminal_spec(objs: Seq<Shape>) -> Layout {
    let p = flushed(pass_over(objs, objs.len()), 0, 0, pass_over(objs, objs.len()).cy);
    if pass_over(objs, objs.len()).ok && p.ok {
        Layout { cmds: p.cmds, x: 0, y: 0, ok: true }
    } else {
        failed()
    }
}

impl Drawbject {
    /// A copy of the entry.
    pub fn duplicate(&self) -> (r: Drawbject)
        ensures
            r@ == self@,
    {
        match self {
            Drawbject::Shift { dx, dy } => Drawbject::Shift { dx: *dx, dy: *dy },
            Drawbject::Move { x, y } => Drawbject::Move { x: *x, y: *y },
            Drawbject::CharSeq { x, y, max_w, user_input, fg_color, bg_color, seq } => Drawbject::CharSeq {
                x: *x,
                y: *y,
                max_w: *max_w,
                user_input: *user_input,
                fg_color: *fg_color,
                bg_color: *bg_color,
                seq: seq.clone(),
            },
            Drawbject::Rectangle { x, y, w, h, col } => Drawbject::Rectangle { x: *x, y: *y, w: *w, h: *h, col: *col },
            Drawbject::Circle { x, y, r, col } => Drawbject::Circle { x: *x, y: *y, r: *r, col: *col },
            Drawbject::Image { x, y, w, h, img } => Drawbject::Image {
                x: *x,
                y: *y,
                w: *w,
                h: *h,
                img: Image { inner: img.inner },
            },
            Drawbject::Line { x0, y0, x1, y1, col } => Drawbject::Line {
                x0: *x0,
                y0: *y0,
                x1: *x1,
                y1: *y1,
                col: *col,
            },
        }
    }
}

fn circle_move(x: i32, y: i32, dx: i32, dy: i32, base_x: i32) -> (r: (i32, i32))
    requires
        circle_moved(x as int, y as int, dx as int, dy as int, base_x as int) is Some,
    ensures
        circle_moved(x as int, y as int, dx as int, dy as int, base_x as int) == Some((r.0 as int, r.1 as int)),
{
    let nx = x + dx;
    if nx > 640 {
        (base_x, y + 20 + dy)
    } else {
        (nx, y + dy)
    }
}

proof fn lemma_pass_ok_prefix(objs: Seq<Shape>, n: nat, m: nat)
    requires
        m <= n,
        pass_over(objs, n).ok,
    ensures
        pass_over(objs, m).ok,
    decreases n - m,
{
    if m < n {
        lemma_pass_ok_prefix(objs, (n - 1) as nat, m);
    }
}

/// The executable state of the text-mode pass (see [`Pass`]).
struct PassState {
    current: Vec<Drawbject>,
    base_x: i32,
    base_y: i32,
    cx: i32,
    cy: i32,
    out: Vec<DrawCommand>,
}

impl View for PassState {
    type V = Pass;

    closed spec fn view(&self) -> Pass {
        Pass {
            current: shapes(self.current@),
            base_x: self.base_x as int,
            base_y: self.base_y as int,
            cx: self.cx as int,
            cy: self.cy as int,
            cmds: self.out@,
            ok: true,
        }
    }
}

fn pass_flush(st: &mut PassState, nbx: i32, nby: i32, end_y: i32)
    requires
        flushed(old(st)@, nbx as int, nby as int, end_y as int).ok,
    ensures
        final(st)@ == flushed(old(st)@, nbx as int, nby as int, end_y as int),
{
    let fb_drawn = render_out_of(&st.current, st.base_x, st.base_y, end_y);
    let mut drawn = fb_drawn;
    st.out.append(&mut drawn);
    st.current = Vec::new();
    st.base_x = nbx;
    st.base_y = nby;
    proof {
        assert(shapes(st.current@) =~= Seq::<Shape>::empty());
    }
}

fn pass_advance(st: &mut PassState, nx: i32, ny: i32, d: &Drawbject)
    ensures
        final(st)@ == (Pass { current: old(st)@.current.push(d@), cx: nx as int, cy: ny as int, ..old(st)@ }),
{
    st.cx = nx;
    st.cy = ny;
    let e = d.duplicate();
    proof {
        lemma_shapes_push(st.current@, e);
    }
    st.current.push(e);
}

fn pass_step_exec(st: &mut PassState, d: &Drawbject)
    requires
        pass_step(old(st)@, d@).ok,
    ensures
        final(st)@ == pass_step(old(st)@, d@),
{
    match d {
        Drawbject::Shift { dx, dy } => {
            let nbx = st.cx + (*dx as i32) * 8;
            let nby = st.cy + (*dy as i32) * 20;
            let end_y = st.cy;
            pass_flush(st, nbx, nby, end_y);
        },
        Drawbject::Move { x, y } => {
            let nbx = (*x as i32) * 8;
            let nby = (*y as i32) * 20;
            st.cx = nbx;
            st.cy = nby;
            st.base_x = nbx;
            st.base_y = nby;
            pass_flush(st, nbx, nby, nby);
        },
        Drawbject::CharSeq { seq, fg_color, .. } => {
            let text = chars_of(seq);
            let mut scratch: Vec<DrawCommand> = Vec::new();
            let (nx, ny) = run_glyphs(&text, st.cx, st.cy, st.base_x, *fg_color, &mut scratch);
            pass_advance(st, nx, ny, d);
        },
        Drawbject::Rectangle { w, h, .. } => {
            let dx = w_round_exec(*w as i32);
            let dy = h_round_exec(*h as i32 - 20);
            let (nx, ny) = pen_move(st.cx, st.cy, dx, dy, st.base_x);
            pass_advance(st, nx, ny, d);
        },
        Drawbject::Line { .. } => {
            let (nx, ny) = (st.cx, st.cy);
            pass_advance(st, nx, ny, d);
        },
        Drawbject::Circle { r, .. } => {
            let dx = w_round_exec(*r as i32);
            let dy = h_round_exec(*r as i32);
            let (nx, ny) = circle_move(st.cx, st.cy, dx, dy, st.base_x);
            pass_advance(st, nx, ny, d);
        },
        Drawbject::Image { w, h, .. } => {
            let dx = w_round_exec(*w as i32);
            let dy = h_round_exec(*h as i32);
            let (nx, ny) = pen_move(st.cx, st.cy, dx, dy, st.base_x);
            pass_advance(st, nx, ny, d);
        },
    }
}

/// Draws the entries laid out in text mode from `(base_x, base_y)` (see
/// [`render_out_spec`]).
fn render_out_of(objects: &Vec<Drawbject>, base_x: i32, base_y: i32, end_y: i32) -> (r: Vec<DrawCommand>)
    requires
        render_out_spec(shapes(objects@), base_x as int, base_y as int, end_y as int).ok,
    ensures
        r@ == render_out_spec(shapes(objects@), base_x as int, base_y as int, end_y as int).cmds,
{
    let d = end_y - base_y;
    let y0 = if d > 480 {
        base_y - (d - 460)
    } else {
        base_y
    };
    let mut out: Vec<DrawCommand> = Vec::new();
    let _ = render_batch_exec(objects, base_x, y0, base_x, &mut out);
    proof {
        lemma_concat_empty(out@);
    }
    out
}

impl FrameBuffer {
    /// What the display list draws in text mode (see [`terminal_spec`]).
    pub fn terminal_commands(&self) -> (r: Vec<DrawCommand>)
        requires
            terminal_spec(shapes(self.objects@)).ok,
        ensures
            r@ == terminal_spec(shapes(self.objects@)).cmds,
    {
        let ghost all = shapes(self.objects@);
        let n = self.objects.len();
        let mut st = PassState {
            current: Vec::new(),
            base_x: 0,
            base_y: 0,
            cx: 0,
            cy: 0,
            out: Vec::new(),
        };
        let mut i: usize = 0;
        proof {
            lemma_pass_ok_prefix(all, all.len(), 0);
            assert(shapes(st.current@) =~= Seq::<Shape>::empty());
            assert(st@ =~= pass_over(all, 0));
        }
        while i < n
            invariant
                n == self.objects@.len(),
                all == shapes(self.objects@),
                i <= n,
                pass_over(all, all.len()).ok,
                st@ == pass_over(all, i as nat),
            decreases n - i,
        {
            proof {
                lemma_pass_ok_prefix(all, all.len(), (i + 1) as nat);
                assert(all[i as int] == self.objects@[i as int]@);
            }
            pass_step_exec(&mut st, &self.objects[i]);
            i = i + 1;
        }
        let end_y = st.cy;
        pass_flush(&mut st, 0, 0, end_y);
        st.out
    }
}


// ---------------------------------------------------------------------------
// Graphics mode.

/// Whether a value fits in an `i16`.
pub open spec fn fits16(v: int) -> bool {
    i16::MIN <= v <= i16::MAX
}

/// Text drawn in graphics mode from `(dx, dy)`: every character (a line
/// break too) is drawn, and moves the pen 8 right and 20 down; past `max_x`
/// the pen goes back to `x` and a further 20 down.  Coordinates are 16-bit.
#[verifier::opaque]
pub open spec fn box_run(text: Seq<char>, dx: int, dy: int, x: int, max_x: int, col: Col) -> Layout
    decreases text.len(),
{
    if text.len() == 0 {
        Layout { cmds: Seq::empty(), x: dx, y: dy, ok: true }
    } else if !fits16(dx + 8) || !fits16(dy + 20) {
        failed()
    } else {
        let g = DrawCommand::Glyph { c: text[0], x: dx as i32, y: dy as i32, col };
        if dx + 8 > max_x {
            if fits16(dy + 40) {
                prefixed(seq![g], box_run(text.drop_first(), x, dy + 40, x, max_x, col))
            } else {
                failed()
            }
        } else {
            prefixed(seq![g], box_run(text.drop_first(), dx + 8, dy + 20, x, max_x, col))
        }
    }
}

/// One display list entry drawn in graphics mode.
pub open spec fn graphics_item(s: Shape) -> Layout {
    match s {
        Shape::Shift { .. } => Layout { cmds: Seq::empty(), x: 0, y: 0, ok: true },
        Shape::Move { .. } => Layout { cmds: Seq::empty(), x: 0, y: 0, ok: true },
        Shape::Line { x0, y0, x1, y1, col } => Layout {
            cmds: seq![DrawCommand::Line { x0: x0 as i32, y0: y0 as i32, x1: x1 as i32, y1: y1 as i32, col }],
            x: 0,
            y: 0,
            ok: true,
        },
        Shape::CharSeq { x, y, max_w, fg_color, seq, .. } => if fits16(x + max_w) {
            box_run(seq, x as int, y as int, x as int, x + max_w, fg_color)
        } else {
            failed()
        },
        Shape::Rectangle { x, y, w, h, col } => Layout {
            cmds: seq![DrawCommand::Rectangle { x: x as i32, y: y as i32, w: w as i32, h: h as i32, col }],
            x: 0,
            y: 0,
            ok: true,
        },
        Shape::Circle { x, y, r, col } => Layout {
            cmds: seq![DrawCommand::Circle { x: x as i32, y: y as i32, r: r as i32, col }],
            x: 0,
            y: 0,
            ok: true,
        },
        Shape::Image { .. } => failed(),
    }
}

/// What the display list draws in graphics mode: each entry in turn.
#[verifier::opaque]
pub open spec fn graphics_spec(objs: Seq<Shape>) -> Layout
    decreases objs.len(),
{
    if objs.len() == 0 {
        Layout { cmds: Seq::empty(), x: 0, y: 0, ok: true }
    } else {
        let first = graphics_item(objs[0]);
        if first.ok {
            prefixed(first.cmds, graphics_spec(objs.drop_first()))
        } else {
            failed()
        }
    }
}

proof fn lemma_box_step(text: Seq<char>, dx: int, dy: int, x: int, max_x: int, col: Col, done: Seq<DrawCommand>, whole: Layout)
    requires
        text.len() > 0,
        whole == prefixed(done, box_run(text, dx, dy, x, max_x, col)),
        whole.ok,
    ensures
        fits16(dx + 8),
        fits16(dy + 20),
        dx + 8 > max_x ==> fits16(dy + 40),
        ({
            let g = DrawCommand::Glyph { c: text[0], x: dx as i32, y: dy as i32, col };
            &&& dx + 8 > max_x ==> whole == prefixed(done.push(g), box_run(text.drop_first(), x, dy + 40, x, max_x, col))
            &&& dx + 8 <= max_x ==> whole == prefixed(
                done.push(g),
                box_run(text.drop_first(), dx + 8, dy + 20, x, max_x, col),
            )
        }),
{
    reveal(box_run);
    if fits16(dx + 8) && fits16(dy + 20) {
        let g = DrawCommand::Glyph { c: text[0], x: dx as i32, y: dy as i32, col };
        if dx + 8 > max_x {
            lemma_prefix_push(done, g, box_run(text.drop_first(), x, dy + 40, x, max_x, col));
        } else {
            lemma_prefix_push(done, g, box_run(text.drop_first(), dx + 8, dy + 20, x, max_x, col));
        }
    }
}

/// Draws text in graphics mode (see [`box_run`]), adding to `out`.
fn run_box(text: &Vec<char>, x: i16, y: i16, max_x: i16, col: Col, out: &mut Vec<DrawCommand>)
    requires
        box_run(text@, x as int, y as int, x as int, max_x as int, col).ok,
    ensures
        final(out)@ == old(out)@ + box_run(text@, x as int, y as int, x as int, max_x as int, col).cmds,
{
    let mut dx: i16 = x;
    let mut dy: i16 = y;
    let mut j: usize = 0;
    let ghost start = out@;
    let ghost whole = box_run(text@, x as int, y as int, x as int, max_x as int, col);
    proof {
        assert(text@.skip(0) =~= text@);
        assert(out@.skip(start.len() as int) =~= Seq::<DrawCommand>::empty());
        lemma_concat_empty(start);
        lemma_concat_empty(whole.cmds);
    }
    while j < text.len()
        invariant
            j <= text@.len(),
            start.len() <= out@.len(),
            out@ == start + out@.skip(start.len() as int),
            whole.ok,
            whole == prefixed(
                out@.skip(start.len() as int),
                box_run(text@.skip(j as int), dx as int, dy as int, x as int, max_x as int, col),
            ),
        decreases text@.len() - j,
    {
        let c = text[j];
        proof {
            let rest = text@.skip(j as int);
            assert(rest.drop_first() =~= text@.skip(j + 1));
            assert(rest[0] == c);
            lemma_box_step(rest, dx as int, dy as int, x as int, max_x as int, col, out@.skip(start.len() as int), whole);
        }
        let g = DrawCommand::Glyph { c, x: dx as i32, y: dy as i32, col };
        proof {
            lemma_skip_push(out@, start.len() as int, g);
            lemma_push_concat(start, out@.skip(start.len() as int), g);
        }
        out.push(g);
        dx = dx + 8;
        dy = dy + 20;
        if dx > max_x {
            dx = x;
            dy = dy + 20;
        }
        j = j + 1;
    }
    proof {
        let done = out@.skip(start.len() as int);
        assert(text@.skip(j as int) =~= Seq::<char>::empty());
        reveal(box_run);
        lemma_concat_empty(done);
    }
}

/// Draws one entry in graphics mode (see [`graphics_item`]).
fn graphics_item_exec(d: &Drawbject, out: &mut Vec<DrawCommand>)
    requires
        graphics_item(d@).ok,
    ensures
        final(out)@ == old(out)@ + graphics_item(d@).cmds,
{
    let ghost start = out@;
    match d {
        Drawbject::Shift { .. } => {
            assert(out@ =~= start + Seq::<DrawCommand>::empty());
        },
        Drawbject::Move { .. } => {
            assert(out@ =~= start + Seq::<DrawCommand>::empty());
        },
        Drawbject::Line { x0, y0, x1, y1, col } => {
            let c = DrawCommand::Line { x0: *x0 as i32, y0: *y0 as i32, x1: *x1 as i32, y1: *y1 as i32, col: *col };
            out.push(c);
            proof {
                lemma_single_concat(start, c);
            }
        },
        Drawbject::CharSeq { x, y, max_w, fg_color, seq, .. } => {
            let max_x = *x + *max_w;
            let text = chars_of(seq);
            run_box(&text, *x, *y, max_x, *fg_color, out);
        },
        Drawbject::Rectangle { x, y, w, h, col } => {
            let c = DrawCommand::Rectangle { x: *x as i32, y: *y as i32, w: *w as i32, h: *h as i32, col: *col };
            out.push(c);
            proof {
                lemma_single_concat(start, c);
            }
        },
        Drawbject::Circle { x, y, r, col } => {
            let c = DrawCommand::Circle { x: *x as i32, y: *y as i32, r: *r as i32, col: *col };
            out.push(c);
            proof {
                lemma_single_concat(start, c);
            }
        },
        Drawbject::Image { .. } => {},
    }
}

proof fn lemma_graphics_step(objs: Seq<Shape>, done: Seq<DrawCommand>, whole: Layout)
    requires
        objs.len() > 0,
        whole == prefixed(done, graphics_spec(objs)),
        whole.ok,
    ensures
        graphics_item(objs[0]).ok,
        whole == prefixed(done + graphics_item(objs[0]).cmds, graphics_spec(objs.drop_first())),
{
    reveal(graphics_spec);
    lemma_prefix_concat(done, graphics_item(objs[0]).cmds, graphics_spec(objs.drop_first()));
}

impl FrameBuffer {
    /// What the display list draws in graphics mode (see [`graphics_spec`]).
    pub fn graphics_commands(&self) -> (r: Vec<DrawCommand>)
        requires
            graphics_spec(shapes(self.objects@)).ok,
        ensures
            r@ == graphics_spec(shapes(self.objects@)).cmds,
    {
        let ghost all = shapes(self.objects@);
        let ghost whole = graphics_spec(all);
        let mut out: Vec<DrawCommand> = Vec::new();
        let n = self.objects.len();
        let mut i: usize = 0;
        proof {
            assert(all.skip(0) =~= all);
            lemma_concat_empty(whole.cmds);
        }
        while i < n
            invariant
                n == self.objects@.len(),
                all == shapes(self.objects@),
                i <= n,
                whole.ok,
                whole == prefixed(out@, graphics_spec(all.skip(i as int))),
            decreases n - i,
        {
            proof {
                let rest = all.skip(i as int);
                assert(rest.drop_first() =~= all.skip(i + 1));
                assert(rest[0] == self.objects@[i as int]@);
                lemma_graphics_step(rest, out@, whole);
            }
            graphics_item_exec(&self.objects[i], &mut out);
            i = i + 1;
        }
        proof {
            assert(all.skip(i as int) =~= Seq::<Shape>::empty());
            reveal(graphics_spec);
            lemma_concat_empty(out@);
        }
        out
    }
}

// ---------------------------------------------------------------------------
// Trimming the text-mode list.

/// The length in bytes of the UTF-8 encoding of `text`, as `str::len`
/// reports it.
pub open spec fn byte_len(text: Seq<char>) -> int {
    (vstd::utf8::encode_utf8(text).len() as usize) as int
}

/// Text longer than 4000 bytes (in UTF-8) keeps only the characters whose
/// position is past its byte length less 2000.
pub open spec fn trim_text(text: Seq<char>) -> Seq<char> {
    let l = byte_len(text);
    if l > 4000 {
        text.skip(if l - 1999 < text.len() {
            l - 1999
        } else {
            text.len() as int
        })
    } else {
        text
    }
}

/// An entry with its text trimmed.
pub open spec fn trim_entry(s: Shape) -> Shape {
    match s {
        Shape::CharSeq { .. } => with_text(s, trim_text(text_of(s))),
        _ => s,
    }
}

/// A display list of more than 200 entries keeps its last 99 entries, their
/// texts trimmed; a shorter list is kept as it is.
pub open spec fn trimmed(objs: Seq<Shape>) -> Seq<Shape> {
    if objs.len() > 200 {
        objs.skip(objs.len() - 99).map_values(|s: Shape| trim_entry(s))
    } else {
        objs
    }
}

fn trim_string(s: &String) -> (r: String)
    ensures
        r@ == trim_text(s@),
{
    let st = s.as_str();
    let l = st.len();
    assert(st@ == s@);
    assert(l as int == byte_len(s@));
    if l > 4000 {
        let n = s.as_str().unicode_len();
        let from = if l - 1999 < n {
            l - 1999
        } else {
            n
        };
        let r = String::from_str(s.as_str().substring_char(from, n));
        assert(r@ =~= s@.skip(from as int));
        r
    } else {
        s.clone()
    }
}

impl FrameBuffer {
    /// Trims the text-mode list (see [`trimmed`]).
    pub fn trim_objects(&mut self)
        ensures
            shapes(final(self).objects@) == trimmed(shapes(old(self).objects@)),
            final(self).write_buffer == old(self).write_buffer,
            final(self).terminal_mode == old(self).terminal_mode,
            final(self).window_should_close == old(self).window_should_close,
            final(self).fg_color == old(self).fg_color,
            final(self).bg_color == old(self).bg_color,
            final(self).last_char == old(self).last_char,
            final(self).frame_char == old(self).frame_char,
            final(self).input_string == old(self).input_string,
    {
        let n = self.objects.len();
        if n <= 200 {
            return;
        }
        let ghost all = shapes(self.objects@);
        let min = n - 100;
        let mut kept: Vec<Drawbject> = Vec::new();
        let mut i: usize = min + 1;
        while i < n
            invariant
                n == self.objects@.len(),
                all == shapes(self.objects@),
                n > 200,
                min == n - 100,
                min + 1 <= i <= n,
                shapes(kept@) == all.skip(n - 99).take(i - (min + 1)).map_values(|s: Shape| trim_entry(s)),
            decreases n - i,
        {
            let e = match &self.objects[i] {
                Drawbject::CharSeq { x, y, max_w, user_input, fg_color, bg_color, seq } => Drawbject::CharSeq {
                    x: *x,
                    y: *y,
                    max_w: *max_w,
                    user_input: *user_input,
                    fg_color: *fg_color,
                    bg_color: *bg_color,
                    seq: trim_string(seq),
                },
                other => other.duplicate(),
            };
            proof {
                lemma_shapes_push(kept@, e);
                assert(all[i as int] == self.objects@[i as int]@);
                assert(all.skip(n - 99).take(i + 1 - (min + 1)) =~= all.skip(n - 99).take(i - (min + 1)).push(
                    all[i as int],
                ));
                assert(all.skip(n - 99).take(i + 1 - (min + 1)).map_values(|s: Shape| trim_entry(s)) =~= all.skip(
                    n - 99,
                ).take(i - (min + 1)).map_values(|s: Shape| trim_entry(s)).push(trim_entry(all[i as int])));
            }
            kept.push(e);
            i = i + 1;
        }
        proof {
            assert(all.skip(n - 99).take(n - (min + 1)) =~= all.skip(n - 99));
        }
        self.objects = kept;
    }
}

// ---------------------------------------------------------------------------
// Whether the display list can be drawn.

/// The end of a layout: whether it could be made, and where the pen stops.
pub open spec fn ends(l: Layout) -> (bool, int, int) {
    (l.ok, l.x, l.y)
}

/// `r` is where the layout `l` leaves the pen, or `None` where `l` cannot be
/// made.
pub open spec fn lands(r: Option<(i32, i32)>, l: Layout) -> bool {
    match r {
        Some((a, b)) => l.ok && l.x == a && l.y == b,
        None => !l.ok,
    }
}

fn fits_i32(v: i64) -> (r: Option<i32>)
    ensures
        match r {
            Some(x) => fits(v as int) && x == v,
            None => !fits(v as int),
        },
{
    if (i32::MIN as i64) <= v && v <= (i32::MAX as i64) {
        Some(v as i32)
    } else {
        None
    }
}

/// Where laying out `text` (see [`glyph_run`]) leaves the pen, if it can.
fn glyph_check(text: &Vec<char>, x: i32, y: i32, base_x: i32, col: Col) -> (r: Option<(i32, i32)>)
    ensures
        lands(r, glyph_run(text@, x as int, y as int, base_x as int, col)),
{
    let ghost whole = glyph_run(text@, x as int, y as int, base_x as int, col);
    let mut cx = x;
    let mut cy = y;
    let mut j: usize = 0;
    proof {
        assert(text@.skip(0) =~= text@);
    }
    while j < text.len()
        invariant
            j <= text@.len(),
            whole == glyph_run(text@, x as int, y as int, base_x as int, col),
            ends(whole) == ends(glyph_run(text@.skip(j as int), cx as int, cy as int, base_x as int, col)),
        decreases text@.len() - j,
    {
        let c = text[j];
        let ghost rest = text@.skip(j as int);
        proof {
            assert(rest.drop_first() =~= text@.skip(j + 1));
            assert(rest[0] == c);
            lemma_glyph_unfold(rest, cx as int, cy as int, base_x as int, col);
        }
        if c == '\n' {
            match fits_i32(cy as i64 + 20) {
                Some(ny) => {
                    cx = base_x;
                    cy = ny;
                },
                None => {
                    return None;
                },
            }
        } else {
            match fits_i32(cx as i64 + 8) {
                Some(nx) => {
                    if nx >= 640 {
                        match fits_i32(cy as i64 + 20) {
                            Some(ny) => {
                                cx = base_x;
                                cy = ny;
                            },
                            None => {
                                return None;
                            },
                        }
                    } else {
                        cx = nx;
                    }
                },
                None => {
                    return None;
                },
            }
        }
        j = j + 1;
    }
    proof {
        assert(text@.skip(j as int) =~= Seq::<char>::empty());
        reveal(glyph_run);
    }
    Some((cx, cy))
}

/// The pen moved as [`pen_moved`] says, if it can be.
fn pen_check(x: i32, y: i32, dx: i32, dy: i32, base_x: i32) -> (r: Option<(i32, i32)>)
    ensures
        match pen_moved(x as int, y as int, dx as int, dy as int, base_x as int) {
            Some((a, b)) => r == Some((a as i32, b as i32)) && fits(a) && fits(b),
            None => r is None,
        },
{
    let nx = match fits_i32(x as i64 + dx as i64) {
        Some(v) => v,
        None => {
            return None;
        },
    };
    let ny = match fits_i32(y as i64 + dy as i64) {
        Some(v) => v,
        None => {
            return None;
        },
    };
    if nx > 640 {
        match fits_i32(ny as i64 + 20) {
            Some(v) => Some((base_x, v)),
            None => None,
        }
    } else {
        Some((nx, ny))
    }
}

/// The pen moved as [`circle_moved`] says, if it can be.
fn circle_check(x: i32, y: i32, dx: i32, dy: i32, base_x: i32) -> (r: Option<(i32, i32)>)
    ensures
        match circle_moved(x as int, y as int, dx as int, dy as int, base_x as int) {
            Some((a, b)) => r == Some((a as i32, b as i32)) && fits(a) && fits(b),
            None => r is None,
        },
{
    let nx = match fits_i32(x as i64 + dx as i64) {
        Some(v) => v,
        None => {
            return None;
        },
    };
    if nx > 640 {
        let down = match fits_i32(y as i64 + 20) {
            Some(v) => v,
            None => {
                return None;
            },
        };
        match fits_i32(down as i64 + dy as i64) {
            Some(v) => Some((base_x, v)),
            None => None,
        }
    } else {
        match fits_i32(y as i64 + dy as i64) {
            Some(v) => Some((nx, v)),
            None => None,
        }
    }
}

/// Where laying out one entry (see [`render_item`]) leaves the pen, if it
/// can.
fn item_check(d: &Drawbject, x: i32, y: i32, base_x: i32) -> (r: Option<(i32, i32)>)
    ensures
        lands(r, render_item(d@, x as int, y as int, base_x as int)),
{
    match d {
        Drawbject::CharSeq { fg_color, seq, .. } => {
            let text = chars_of(seq);
            glyph_check(&text, x, y, base_x, *fg_color)
        },
        Drawbject::Rectangle { w, h, .. } => {
            let dx = w_round_exec(*w as i32);
            let dy = h_round_exec(*h as i32 - 20);
            pen_check(x, y, dx, dy, base_x)
        },
        Drawbject::Circle { r, .. } => {
            let dx = w_round_exec(*r as i32);
            let dy = h_round_exec(*r as i32);
            pen_check(x, y, dx, dy, base_x)
        },
        Drawbject::Image { .. } => None,
        _ => Some((x, y)),
    }
}

/// Where laying out entries one after the other (see [`render_batch`])
/// leaves the pen, if it can.
fn batch_check(objs: &Vec<Drawbject>, x: i32, y: i32, base_x: i32) -> (r: Option<(i32, i32)>)
    ensures
        lands(r, render_batch(shapes(objs@), x as int, y as int, base_x as int)),
{
    let ghost all = shapes(objs@);
    let ghost whole = render_batch(all, x as int, y as int, base_x as int);
    let mut cx = x;
    let mut cy = y;
    let mut i: usize = 0;
    proof {
        assert(all.skip(0) =~= all);
    }
    while i < objs.len()
        invariant
            i <= objs@.len(),
            all == shapes(objs@),
            whole == render_batch(all, x as int, y as int, base_x as int),
            ends(whole) == ends(render_batch(all.skip(i as int), cx as int, cy as int, base_x as int)),
        decreases objs@.len() - i,
    {
        let ghost rest = all.skip(i as int);
        proof {
            assert(rest.drop_first() =~= all.skip(i + 1));
            assert(rest[0] == objs@[i as int]@);
            lemma_batch_unfold(rest, cx as int, cy as int, base_x as int);
        }
        match item_check(&objs[i], cx, cy, base_x) {
            Some((nx, ny)) => {
                cx = nx;
                cy = ny;
            },
            None => {
                return None;
            },
        }
        i = i + 1;
    }
    proof {
        assert(all.skip(i as int) =~= Seq::<Shape>::empty());
        lemma_batch_unfold(all.skip(i as int), cx as int, cy as int, base_x as int);
    }
    Some((cx, cy))
}

/// Whether [`render_out_spec`] can lay out the entries.
fn out_check(objs: &Vec<Drawbject>, base_x: i32, base_y: i32, end_y: i32) -> (r: bool)
    ensures
        r == render_out_spec(shapes(objs@), base_x as int, base_y as int, end_y as int).ok,
{
    let d = match fits_i32(end_y as i64 - base_y as i64) {
        Some(v) => v,
        None => {
            return false;
        },
    };
    let y0 = if d > 480 {
        match fits_i32(base_y as i64 - (d as i64 - 460)) {
            Some(v) => v,
            None => {
                return false;
            },
        }
    } else {
        base_y
    };
    match batch_check(objs, base_x, y0, base_x) {
        Some(_) => true,
        None => false,
    }
}

/// The executable state of the text-mode pass without its drawing calls.
struct PassCheck {
    current: Vec<Drawbject>,
    base_x: i32,
    base_y: i32,
    cx: i32,
    cy: i32,
}

impl View for PassCheck {
    type V = Pass;

    closed spec fn view(&self) -> Pass {
        Pass {
            current: shapes(self.current@),
            base_x: self.base_x as int,
            base_y: self.base_y as int,
            cx: self.cx as int,
            cy: self.cy as int,
            cmds: Seq::empty(),
            ok: true,
        }
    }
}

/// The pass `p` without its drawing calls.
pub open spec fn bare(p: Pass) -> Pass {
    Pass { cmds: Seq::empty(), ..p }
}

proof fn lemma_step_bare(p: Pass, s: Shape)
    ensures
        bare(pass_step(p, s)) == bare(pass_step(bare(p), s)),
{
    assert(bare(pass_step(p, s)) =~= bare(pass_step(bare(p), s)));
}

fn check_advance(st: &mut PassCheck, nx: i32, ny: i32, d: &Drawbject)
    ensures
        final(st)@ == (Pass { current: old(st)@.current.push(d@), cx: nx as int, cy: ny as int, ..old(st)@ }),
{
    st.cx = nx;
    st.cy = ny;
    let e = d.duplicate();
    proof {
        lemma_shapes_push(st.current@, e);
    }
    st.current.push(e);
}

fn check_restart(st: &mut PassCheck, nbx: i32, nby: i32)
    ensures
        final(st)@ == (Pass { current: Seq::empty(), base_x: nbx as int, base_y: nby as int, ..old(st)@ }),
{
    st.current = Vec::new();
    st.base_x = nbx;
    st.base_y = nby;
    proof {
        assert(shapes(st.current@) =~= Seq::<Shape>::empty());
    }
}

/// One step of the pass, where it can be taken.
fn pass_check_step(st: &mut PassCheck, d: &Drawbject) -> (ok: bool)
    ensures
        ok == pass_step(old(st)@, d@).ok,
        ok ==> final(st)@ == bare(pass_step(old(st)@, d@)),
{
    match d {
        Drawbject::Shift { dx, dy } => {
            let nbx = match fits_i32(st.cx as i64 + (*dx as i64) * 8) {
                Some(v) => v,
                None => {
                    return false;
                },
            };
            let nby = match fits_i32(st.cy as i64 + (*dy as i64) * 20) {
                Some(v) => v,
                None => {
                    return false;
                },
            };
            if !out_check(&st.current, st.base_x, st.base_y, st.cy) {
                return false;
            }
            check_restart(st, nbx, nby);
            true
        },
        Drawbject::Move { x, y } => {
            let nbx = (*x as i32) * 8;
            let nby = (*y as i32) * 20;
            if !out_check(&st.current, nbx, nby, nby) {
                return false;
            }
            st.cx = nbx;
            st.cy = nby;
            check_restart(st, nbx, nby);
            true
        },
        Drawbject::CharSeq { seq, fg_color, .. } => {
            let text = chars_of(seq);
            match glyph_check(&text, st.cx, st.cy, st.base_x, *fg_color) {
                Some((nx, ny)) => {
                    check_advance(st, nx, ny, d);
                    true
                },
                None => false,
            }
        },
        Drawbject::Rectangle { w, h, .. } => {
            let dx = w_round_exec(*w as i32);
            let dy = h_round_exec(*h as i32 - 20);
            match pen_check(st.cx, st.cy, dx, dy, st.base_x) {
                Some((nx, ny)) => {
                    check_advance(st, nx, ny, d);
                    true
                },
                None => false,
            }
        },
        Drawbject::Line { .. } => {
            let (nx, ny) = (st.cx, st.cy);
            check_advance(st, nx, ny, d);
            true
        },
        Drawbject::Circle { r, .. } => {
            let dx = w_round_exec(*r as i32);
            let dy = h_round_exec(*r as i32);
            match circle_check(st.cx, st.cy, dx, dy, st.base_x) {
                Some((nx, ny)) => {
                    check_advance(st, nx, ny, d);
                    true
                },
                None => false,
            }
        },
        Drawbject::Image { w, h, .. } => {
            let dx = w_round_exec(*w as i32);
            let dy = h_round_exec(*h as i32);
            match pen_check(st.cx, st.cy, dx, dy, st.base_x) {
                Some((nx, ny)) => {
                    check_advance(st, nx, ny, d);
                    true
                },
                None => false,
            }
        },
    }
}

/// Whether text drawn in graphics mode (see [`box_run`]) can be laid out.
fn box_check(text: &Vec<char>, x: i16, y: i16, max_x: i16, col: Col) -> (r: bool)
    ensures
        r == box_run(text@, x as int, y as int, x as int, max_x as int, col).ok,
{
    let ghost whole = box_run(text@, x as int, y as int, x as int, max_x as int, col);
    let mut dx: i32 = x as i32;
    let mut dy: i32 = y as i32;
    let mut j: usize = 0;
    proof {
        assert(text@.skip(0) =~= text@);
    }
    while j < text.len()
        invariant
            j <= text@.len(),
            fits16(dx as int),
            fits16(dy as int),
            whole == box_run(text@, x as int, y as int, x as int, max_x as int, col),
            whole.ok == box_run(text@.skip(j as int), dx as int, dy as int, x as int, max_x as int, col).ok,
        decreases text@.len() - j,
    {
        let ghost rest = text@.skip(j as int);
        proof {
            assert(rest.drop_first() =~= text@.skip(j + 1));
            reveal(box_run);
        }
        if dx + 8 > 32767 || dy + 20 > 32767 {
            return false;
        }
        if dx + 8 > max_x as i32 {
            if dy + 40 > 32767 {
                return false;
            }
            dx = x as i32;
            dy = dy + 40;
        } else {
            dx = dx + 8;
            dy = dy + 20;
        }
        j = j + 1;
    }
    proof {
        assert(text@.skip(j as int) =~= Seq::<char>::empty());
        reveal(box_run);
    }
    true
}

/// Whether one entry can be drawn in graphics mode.
fn graphics_item_check(d: &Drawbject) -> (r: bool)
    ensures
        r == graphics_item(d@).ok,
{
    match d {
        Drawbject::CharSeq { x, y, max_w, fg_color, seq, .. } => {
            let m = *x as i32 + *max_w as i32;
            if m < -32768 || m > 32767 {
                return false;
            }
            let text = chars_of(seq);
            box_check(&text, *x, *y, m as i16, *fg_color)
        },
        Drawbject::Image { .. } => false,
        _ => true,
    }
}

proof fn lemma_graphics_unfold(objs: Seq<Shape>)
    requires
        objs.len() > 0,
    ensures
        graphics_spec(objs).ok == (graphics_item(objs[0]).ok && graphics_spec(objs.drop_first()).ok),
{
    reveal(graphics_spec);
}

impl FrameBuffer {
    /// Whether [`FrameBuffer::render_out`] can lay out `objects` from
    /// `(base_x, base_y)` with the layout ending at `end_y`: `false` where it
    /// panics.
    pub fn can_render_out(&self, objects: &Vec<Drawbject>, base_x: i32, base_y: i32, end_y: i32) -> (r: bool)
        ensures
            r == render_out_spec(shapes(objects@), base_x as int, base_y as int, end_y as int).ok,
    {
        out_check(objects, base_x, base_y, end_y)
    }

    /// Whether the display list can be drawn in text mode: `false` where
    /// drawing it panics (see [`FrameBuffer::terminal_commands`]).
    pub fn can_draw_text(&self) -> (r: bool)
        ensures
            r == terminal_spec(shapes(self.objects@)).ok,
    {
        let ghost all = shapes(self.objects@);
        let n = self.objects.len();
        let mut st = PassCheck { current: Vec::new(), base_x: 0, base_y: 0, cx: 0, cy: 0 };
        let mut i: usize = 0;
        proof {
            assert(shapes(st.current@) =~= Seq::<Shape>::empty());
            assert(st@ =~= bare(pass_over(all, 0)));
        }
        while i < n
            invariant
                n == self.objects@.len(),
                all == shapes(self.objects@),
                i <= n,
                pass_over(all, i as nat).ok,
                st@ == bare(pass_over(all, i as nat)),
            decreases n - i,
        {
            proof {
                assert(all[i as int] == self.objects@[i as int]@);
                lemma_step_bare(pass_over(all, i as nat), all[i as int]);
                assert(bare(pass_over(all, i as nat)) == st@);
            }
            if !pass_check_step(&mut st, &self.objects[i]) {
                proof {
                    if pass_over(all, all.len()).ok {
                        lemma_pass_ok_prefix(all, all.len(), (i + 1) as nat);
                    }
                }
                return false;
            }
            i = i + 1;
        }
        out_check(&st.current, st.base_x, st.base_y, st.cy)
    }

    /// Whether the display list can be drawn in graphics mode: `false` where
    /// drawing it panics (see [`FrameBuffer::graphics_commands`]).
    pub fn can_draw_graphics(&self) -> (r: bool)
        ensures
            r == graphics_spec(shapes(self.objects@)).ok,
    {
        let ghost all = shapes(self.objects@);
        let n = self.objects.len();
        let mut i: usize = 0;
        proof {
            assert(all.skip(0) =~= all);
        }
        while i < n
            invariant
                n == self.objects@.len(),
                all == shapes(self.objects@),
                i <= n,
                graphics_spec(all).ok == graphics_spec(all.skip(i as int)).ok,
            decreases n - i,
        {
            proof {
                let rest = all.skip(i as int);
                assert(rest.drop_first() =~= all.skip(i + 1));
                assert(rest[0] == self.objects@[i as int]@);
                lemma_graphics_unfold(rest);
            }
            if !graphics_item_check(&self.objects[i]) {
                return false;
            }
            i = i + 1;
        }
        proof {
            assert(all.skip(i as int) =~= Seq::<Shape>::empty());
            reveal(graphics_spec);
        }
        true
    }
}


// ---------------------------------------------------------------------------
// Which characters a layout draws.

/// The characters of `text` that are not line breaks, in order.
pub open spec fn visible(text: Seq<char>) -> Seq<char>
    decreases text.len(),
{
    if text.len() == 0 {
        Seq::empty()
    } else if text[0] == '\n' {
        visible(text.drop_first())
    } else {
        seq![text[0]] + visible(text.drop_first())
    }
}

/// Whether every drawing call is a character.
pub open spec fn all_glyphs(cmds: Seq<DrawCommand>) -> bool {
    forall|i: int| 0 <= i < cmds.len() ==> #[trigger] cmds[i] is Glyph
}

/// The characters that the calls draw.
pub open spec fn glyph_chars(cmds: Seq<DrawCommand>) -> Seq<char> {
    cmds.map_values(
        |d: DrawCommand|
            match d {
                DrawCommand::Glyph { c, .. } => c,
                _ => '\0',
            },
    )
}

proof fn lemma_glyph_chars_cons(g: DrawCommand, c: char, rest: Seq<DrawCommand>)
    requires
        g is Glyph,
        g->Glyph_c == c,
        all_glyphs(rest),
    ensures
        all_glyphs(seq![g] + rest),
        glyph_chars(seq![g] + rest) == seq![c] + glyph_chars(rest),
{
    let all = seq![g] + rest;
    assert forall|i: int| 0 <= i < all.len() implies #[trigger] all[i] is Glyph by {
        if i > 0 {
            assert(all[i] == rest[i - 1]);
        }
    }
    assert(glyph_chars(all) =~= seq![c] + glyph_chars(rest));
}

proof fn lemma_glyph_cons(text: Seq<char>, x: int, y: int, base_x: int, col: Col, c: char, nx: int, ny: int)
    requires
        text.len() > 0,
        text[0] == c,
        c != '\n',
        glyph_run(text, x, y, base_x, col).ok,
        x + 8 >= 640 ==> nx == base_x && ny == y + 20,
        x + 8 < 640 ==> nx == x + 8 && ny == y,
        all_glyphs(glyph_run(text.drop_first(), nx, ny, base_x, col).cmds),
        glyph_chars(glyph_run(text.drop_first(), nx, ny, base_x, col).cmds) == visible(text.drop_first()),
    ensures
        all_glyphs(glyph_run(text, x, y, base_x, col).cmds),
        glyph_chars(glyph_run(text, x, y, base_x, col).cmds) == visible(text),
{
    lemma_glyph_unfold(text, x, y, base_x, col);
    let g = DrawCommand::Glyph { c, x: x as i32, y: y as i32, col };
    let rest = glyph_run(text.drop_first(), nx, ny, base_x, col);
    lemma_glyph_chars_cons(g, c, rest.cmds);
    assert(glyph_run(text, x, y, base_x, col).cmds == seq![g] + rest.cmds);
    assert(visible(text) == seq![c] + visible(text.drop_first()));
}

/// Text laid out in text mode draws each of its characters but the line
/// breaks once, in order, and nothing else.
pub proof fn law_text_draws_its_visible_characters(text: Seq<char>, x: int, y: int, base_x: int, col: Col)
    requires
        glyph_run(text, x, y, base_x, col).ok,
    ensures
        all_glyphs(glyph_run(text, x, y, base_x, col).cmds),
        glyph_chars(glyph_run(text, x, y, base_x, col).cmds) == visible(text),
    decreases text.len(),
{
    if text.len() == 0 {
        reveal(glyph_run);
        assert(glyph_chars(Seq::<DrawCommand>::empty()) =~= Seq::<char>::empty());
    } else {
        lemma_glyph_unfold(text, x, y, base_x, col);
        let rest = text.drop_first();
        if text[0] == '\n' {
            law_text_draws_its_visible_characters(rest, base_x, y + 20, base_x, col);
        } else if x + 8 >= 640 {
            law_text_draws_its_visible_characters(rest, base_x, y + 20, base_x, col);
            lemma_glyph_cons(text, x, y, base_x, col, text[0], base_x, y + 20);
        } else {
            law_text_draws_its_visible_characters(rest, x + 8, y, base_x, col);
            lemma_glyph_cons(text, x, y, base_x, col, text[0], x + 8, y);
        }
    }
}

proof fn lemma_box_cons(text: Seq<char>, dx: int, dy: int, x: int, max_x: int, col: Col, c: char, ndx: int, ndy: int)
    requires
        text.len() > 0,
        text[0] == c,
        box_run(text, dx, dy, x, max_x, col).ok,
        dx + 8 > max_x ==> ndx == x && ndy == dy + 40,
        dx + 8 <= max_x ==> ndx == dx + 8 && ndy == dy + 20,
        all_glyphs(box_run(text.drop_first(), ndx, ndy, x, max_x, col).cmds),
        glyph_chars(box_run(text.drop_first(), ndx, ndy, x, max_x, col).cmds) == text.drop_first(),
    ensures
        all_glyphs(box_run(text, dx, dy, x, max_x, col).cmds),
        glyph_chars(box_run(text, dx, dy, x, max_x, col).cmds) == text,
{
    reveal(box_run);
    let g = DrawCommand::Glyph { c, x: dx as i32, y: dy as i32, col };
    let rest = box_run(text.drop_first(), ndx, ndy, x, max_x, col);
    lemma_glyph_chars_cons(g, c, rest.cmds);
    assert(box_run(text, dx, dy, x, max_x, col).cmds == seq![g] + rest.cmds);
    assert(seq![c] + text.drop_first() =~= text);
}

/// Text drawn in graphics mode draws every one of its characters, line
/// breaks included, once and in order.
pub proof fn law_graphics_text_draws_every_character(text: Seq<char>, dx: int, dy: int, x: int, max_x: int, col: Col)
    requires
        box_run(text, dx, dy, x, max_x, col).ok,
    ensures
        all_glyphs(box_run(text, dx, dy, x, max_x, col).cmds),
        glyph_chars(box_run(text, dx, dy, x, max_x, col).cmds) == text,
    decreases text.len(),
{
    reveal(box_run);
    if text.len() == 0 {
        assert(glyph_chars(Seq::<DrawCommand>::empty()) =~= text);
    } else {
        let rest = text.drop_first();
        if dx + 8 > max_x {
            law_graphics_text_draws_every_character(rest, x, dy + 40, x, max_x, col);
            lemma_box_cons(text, dx, dy, x, max_x, col, text[0], x, dy + 40);
        } else {
            law_graphics_text_draws_every_character(rest, dx + 8, dy + 20, x, max_x, col);
            lemma_box_cons(text, dx, dy, x, max_x, col, text[0], dx + 8, dy + 20);
        }
    }
}

/// Whether every entry is text.
pub open spec fn only_text(objs: Seq<Shape>) -> bool {
    forall|i: int| 0 <= i < objs.len() ==> #[trigger] objs[i] is CharSeq
}

/// The texts of the entries, one after the other.
pub open spec fn all_text(objs: Seq<Shape>) -> Seq<char>
    decreases objs.len(),
{
    if objs.len() == 0 {
        Seq::empty()
    } else {
        text_of(objs[0]) + all_text(objs.drop_first())
    }
}

proof fn lemma_visible_concat(a: Seq<char>, b: Seq<char>)
    ensures
        visible(a + b) == visible(a) + visible(b),
    decreases a.len(),
{
    if a.len() == 0 {
        assert(a + b =~= b);
        assert(Seq::<char>::empty() + visible(b) =~= visible(b));
    } else {
        lemma_visible_concat(a.drop_first(), b);
        assert((a + b).drop_first() =~= a.drop_first() + b);
        assert((a + b)[0] == a[0]);
        if a[0] != '\n' {
            lemma_visible_cons(a + b, a[0]);
            lemma_visible_cons(a, a[0]);
            assert(seq![a[0]] + (visible(a.drop_first()) + visible(b)) =~= (seq![a[0]] + visible(
                a.drop_first(),
            )) + visible(b));
        }
    }
}

proof fn lemma_visible_cons(t: Seq<char>, c: char)
    requires
        t.len() > 0,
        t[0] == c,
        c != '\n',
    ensures
        visible(t) == seq![c] + visible(t.drop_first()),
{
}

proof fn lemma_glyph_chars_concat(a: Seq<DrawCommand>, b: Seq<DrawCommand>)
    requires
        all_glyphs(a),
        all_glyphs(b),
    ensures
        all_glyphs(a + b),
        glyph_chars(a + b) == glyph_chars(a) + glyph_chars(b),
{
    assert forall|i: int| 0 <= i < (a + b).len() implies #[trigger] (a + b)[i] is Glyph by {
        if i < a.len() {
            assert((a + b)[i] == a[i]);
        } else {
            assert((a + b)[i] == b[i - a.len()]);
        }
    }
    assert(glyph_chars(a + b) =~= glyph_chars(a) + glyph_chars(b));
}

proof fn lemma_batch_of_text(objs: Seq<Shape>, x: int, y: int, base_x: int)
    requires
        only_text(objs),
        render_batch(objs, x, y, base_x).ok,
    ensures
        all_glyphs(render_batch(objs, x, y, base_x).cmds),
        glyph_chars(render_batch(objs, x, y, base_x).cmds) == visible(all_text(objs)),
    decreases objs.len(),
{
    lemma_batch_unfold(objs, x, y, base_x);
    if objs.len() == 0 {
        assert(glyph_chars(Seq::<DrawCommand>::empty()) =~= Seq::<char>::empty());
    } else {
        let rest = objs.drop_first();
        assert(objs[0] is CharSeq);
        assert forall|i: int| 0 <= i < rest.len() implies #[trigger] rest[i] is CharSeq by {
            assert(rest[i] == objs[i + 1]);
        }
        let first = render_item(objs[0], x, y, base_x);
        lemma_batch_of_text(rest, first.x, first.y, base_x);
        law_text_draws_its_visible_characters(text_of(objs[0]), x, y, base_x, objs[0]->CharSeq_fg_color);
        lemma_glyph_chars_concat(first.cmds, render_batch(rest, first.x, first.y, base_x).cmds);
        lemma_visible_concat(text_of(objs[0]), all_text(rest));
    }
}

proof fn lemma_pass_of_text(objs: Seq<Shape>, n: nat)
    requires
        only_text(objs),
        n <= objs.len(),
        pass_over(objs, n).ok,
    ensures
        pass_over(objs, n).current == objs.take(n as int),
        pass_over(objs, n).base_x == 0,
        pass_over(objs, n).base_y == 0,
        pass_over(objs, n).cmds == Seq::<DrawCommand>::empty(),
    decreases n,
{
    if n == 0 {
        assert(objs.take(0) =~= Seq::<Shape>::empty());
    } else {
        lemma_pass_ok_prefix(objs, n, (n - 1) as nat);
        lemma_pass_of_text(objs, (n - 1) as nat);
        assert(objs[n - 1] is CharSeq);
        assert(objs.take(n - 1).push(objs[n - 1]) =~= objs.take(n as int));
    }
}

/// In text mode a display list of text draws each of its characters but
/// the line breaks, once and in order: what is printed is what is shown.
pub proof fn law_text_mode_shows_what_was_printed(objs: Seq<Shape>)
    requires
        only_text(objs),
        terminal_spec(objs).ok,
    ensures
        all_glyphs(terminal_spec(objs).cmds),
        glyph_chars(terminal_spec(objs).cmds) == visible(all_text(objs)),
{
    let p = pass_over(objs, objs.len());
    lemma_pass_of_text(objs, objs.len());
    assert(objs.take(objs.len() as int) =~= objs);
    let y0 = render_start_y(p.base_y, p.cy)->Some_0;
    lemma_batch_of_text(objs, 0, y0, 0);
    assert(Seq::<DrawCommand>::empty() + render_batch(objs, 0, y0, 0).cmds =~= render_batch(objs, 0, y0, 0).cmds);
}

} // verus!
