//! Colors and styled text units, and how a single unit renders.

use vstd::prelude::*;
use vstd::string::StrSliceExecFns;
use vstd::string::StringExecFns;

verus! {

/// Possible terminal colors.
#[derive(Clone, Copy, Debug, PartialEq, Eq, Structural)]
pub enum Color {
    Plain,
    Black,
    Red,
    Green,
    Yellow,
    Blue,
    Purple,
    Cyan,
    White,
}

impl Default for Color {
    /// The default color is `Plain`: no color at all.
    fn default() -> (r: Color)
        ensures
            r == Color::Plain,
    {
        Color::Plain
    }
}

/// The palette index of a color, if it has one: the ANSI foreground code is
/// 30 plus the index, the background code 40 plus the index.
pub open spec fn ansi_index(c: Color) -> Option<u8> {
    match c {
        Color::Plain => None,
        Color::Black => Some(0u8),
        Color::Red => Some(1u8),
        Color::Green => Some(2u8),
        Color::Yellow => Some(3u8),
        Color::Blue => Some(4u8),
        Color::Purple => Some(5u8),
        Color::Cyan => Some(6u8),
        Color::White => Some(7u8),
    }
}

impl Color {
    /// The palette index of the color, or `None` for `Plain`.
    fn to_ansi(&self) -> (r: Option<u8>)
        ensures
            r == ansi_index(*self),
    {
        match self {
            Color::Plain => None,
            Color::Black => Some(0u8),
            Color::Red => Some(1u8),
            Color::Green => Some(2u8),
            Color::Yellow => Some(3u8),
            Color::Blue => Some(4u8),
            Color::Purple => Some(5u8),
            Color::Cyan => Some(6u8),
            Color::White => Some(7u8),
        }
    }
}

/// The mathematical value of a [`Text`]: its characters and style flags.
pub struct TextV {
    pub t: Seq<char>,
    pub b: bool,
    pub i: bool,
    pub c: Color,
    pub bg: Color,
}

/// The digit character of a palette index between 0 and 7.
pub open spec fn palette_digit(n: u8) -> char {
    if n == 0 {
        '0'
    } else if n == 1 {
        '1'
    } else if n == 2 {
        '2'
    } else if n == 3 {
        '3'
    } else if n == 4 {
        '4'
    } else if n == 5 {
        '5'
    } else if n == 6 {
        '6'
    } else {
        '7'
    }
}

/// The attribute code strings of a style, in the order the escape prefix
/// lists them: bold, italic, background color, foreground color.
pub open spec fn style_codes(b: bool, i: bool, fg: Option<u8>, bg: Option<u8>) -> Seq<Seq<char>> {
    (if b {
        seq![seq!['1']]
    } else {
        Seq::<Seq<char>>::empty()
    }) + (if i {
        seq![seq!['3']]
    } else {
        Seq::<Seq<char>>::empty()
    }) + (match bg {
        Some(n) => seq![seq!['4', palette_digit(n)]],
        None => Seq::<Seq<char>>::empty(),
    }) + (match fg {
        Some(n) => seq![seq!['3', palette_digit(n)]],
        None => Seq::<Seq<char>>::empty(),
    })
}

/// Code strings joined with semicolons.
pub open spec fn join_codes(l: Seq<Seq<char>>) -> Seq<char>
    decreases l.len(),
{
    if l.len() <= 0 {
        Seq::empty()
    } else if l.len() == 1 {
        l[0]
    } else {
        l[0] + seq![';'] + join_codes(l.drop_first())
    }
}

/// Characters written for a styled piece of text: the escape prefix, the text
/// itself, and the reset suffix; exactly the bare text when every attribute
/// is off.
pub open spec fn styled_chars(
    b: bool,
    i: bool,
    fg: Option<u8>,
    bg: Option<u8>,
    t: Seq<char>,
) -> Seq<char> {
    if !b && !i && fg is None && bg is None {
        t
    } else {
        seq!['\x1b', '['] + join_codes(style_codes(b, i, fg, bg)) + seq!['m'] + t + seq![
            '\x1b',
            '[',
            '0',
            'm',
        ]
    }
}

/// How one text unit renders.
pub open spec fn painted_unit(u: TextV) -> Seq<char> {
    styled_chars(u.b, u.i, ansi_index(u.c), ansi_index(u.bg), u.t)
}

/// The same unit with every style flag back at its default.
pub open spec fn cleared_unit(u: TextV) -> TextV {
    TextV { t: u.t, b: false, i: false, c: Color::Plain, bg: Color::Plain }
}

/// An all-default text unit renders to exactly its own characters, with no
/// escape sequence around them.
pub proof fn lemma_plain_unit_renders_bare(u: TextV)
    requires
        u.b == false,
        u.i == false,
        u.c == Color::Plain,
        u.bg == Color::Plain,
    ensures
        painted_unit(u) == u.t,
{
}

/// Styling disabled degrades to plain output: a unit whose style has been
/// cleared renders to exactly its raw characters, whatever its flags were.
pub proof fn lemma_unstyled_unit_degrades(u: TextV)
    ensures
        painted_unit(cleared_unit(u)) == u.t,
{
}

/// Clearing a unit's style is idempotent, never touches the text, and leaves
/// every flag at its default whatever it was before.
pub proof fn lemma_cleared_unit(u: TextV)
    ensures
        cleared_unit(cleared_unit(u)) == cleared_unit(u),
        cleared_unit(u).t == u.t,
        cleared_unit(u).b == false,
        cleared_unit(u).i == false,
        cleared_unit(u).c == Color::Plain,
        cleared_unit(u).bg == Color::Plain,
{
}

/// Relies on `ansi_term::Style::paint` and the `Display` of the styled string
/// it returns: the escape prefix `ESC [ codes m` lists the set attributes in
/// the fixed order bold (`1`), italic (`3`), background (`4` plus the palette
/// digit), foreground (`3` plus the palette digit), separated by semicolons;
/// after the text follows the reset suffix `ESC [ 0 m`; and a style with no
/// attribute set writes the bare text with no escape at all.
#[verifier::external_body]
fn styled_string(b: bool, i: bool, fg: Option<u8>, bg: Option<u8>, t: &str) -> (r: String)
    requires
        match fg {
            Some(n) => n < 8,
            None => true,
        },
        match bg {
            Some(n) => n < 8,
            None => true,
        },
    ensures
        r@ == styled_chars(b, i, fg, bg, t@),
{
    let palette = [
        ansi_term::Colour::Black, ansi_term::Colour::Red, ansi_term::Colour::Green,
        ansi_term::Colour::Yellow, ansi_term::Colour::Blue, ansi_term::Colour::Purple,
        ansi_term::Colour::Cyan, ansi_term::Colour::White,
    ];
    let style = ansi_term::Style {
        is_bold: b,
        is_italic: i,
        foreground: fg.map(|n| palette[n as usize]),
        background: bg.map(|n| palette[n as usize]),
        ..ansi_term::Style::default()
    };
    format!("{}", style.paint(t))
}

/// A piece of text together with its style: bold and italic flags, a
/// foreground and a background color.
#[derive(Debug, PartialEq, Eq)]
pub struct Text {
    t: String,  // the text itself
    b: bool,  // bold
    i: bool,  // italic
    c: Color,  // foreground color
    bg: Color,  // background color
}

impl View for Text {
    type V = TextV;

    closed spec fn view(&self) -> TextV {
        TextV { t: self.t@, b: self.b, i: self.i, c: self.c, bg: self.bg }
    }
}

impl Text {
    /// A plain text unit: the given text with every style flag at its
    /// default.
    pub fn new(t: String) -> (r: Text)
        ensures
            r@ == (TextV { t: t@, b: false, i: false, c: Color::Plain, bg: Color::Plain }),
    {
        Text { t, b: false, i: false, c: Color::default(), bg: Color::default() }
    }

    /// The same text, styled bold.
    pub fn bold(self) -> (r: Text)
        ensures
            r@ == (TextV { t: self@.t, b: true, i: self@.i, c: self@.c, bg: self@.bg }),
    {
        let mut s = self;
        s.b = true;
        s
    }

    /// The same text, styled italic.
    pub fn italic(self) -> (r: Text)
        ensures
            r@ == (TextV { t: self@.t, b: self@.b, i: true, c: self@.c, bg: self@.bg }),
    {
        let mut s = self;
        s.i = true;
        s
    }

    /// The same text with the given foreground color.
    pub fn color(self, color: Color) -> (r: Text)
        ensures
            r@ == (TextV { t: self@.t, b: self@.b, i: self@.i, c: color, bg: self@.bg }),
    {
        let mut s = self;
        s.c = color;
        s
    }

    /// The same text with the given background color.
    pub fn background(self, color: Color) -> (r: Text)
        ensures
            r@ == (TextV { t: self@.t, b: self@.b, i: self@.i, c: self@.c, bg: color }),
    {
        let mut s = self;
        s.bg = color;
        s
    }

    /// Paint the unit: append its styled characters to the sink.
    pub fn paint(&self, w: &mut String)
        ensures
            final(w)@ == old(w)@ + painted_unit(self@),
    {
        let fg = self.c.to_ansi();
        let bg = self.bg.to_ansi();
        let s = styled_string(self.b, self.i, fg, bg, self.t.as_str());
        w.append(s.as_str());
    }

    /// Whether the text is styled bold.
    pub fn is_bold(&self) -> (r: bool)
        ensures
            r == self@.b,
    {
        self.b
    }

    /// Whether the text is styled italic.
    pub fn is_italic(&self) -> (r: bool)
        ensures
            r == self@.i,
    {
        self.i
    }

    /// Whether the text has no foreground color.
    pub fn is_plain(&self) -> (r: bool)
        ensures
            r == (self@.c == Color::Plain),
    {
        self.c == Color::Plain
    }

    /// The foreground color.
    pub fn get_color(&self) -> (r: Color)
        ensures
            r == self@.c,
    {
        self.c
    }

    /// Clears all formatting: every style flag goes back to its default, the
    /// text itself stays.
    pub fn set_plain(&mut self)
        ensures
            final(self)@ == cleared_unit(old(self)@),
    {
        self.b = false;
        self.i = false;
        self.c = Color::Plain;
        self.bg = Color::Plain;
    }

    /// The display width of the unit: the number of its characters.
    pub(crate) fn width(&self) -> (r: usize)
        ensures
            r == self@.t.len(),
    {
        self.t.as_str().unicode_len()
    }

    /// An identical copy of the unit.
    pub(crate) fn copy_of(&self) -> (r: Text)
        ensures
            r@ == self@,
    {
        Text { t: self.t.clone(), b: self.b, i: self.i, c: self.c, bg: self.bg }
    }

    /// A cleared copy: the same text with every style flag at its default.
    pub(crate) fn plain_copy(&self) -> (r: Text)
        ensures
            r@ == cleared_unit(self@),
    {
        Text { t: self.t.clone(), b: false, i: false, c: Color::Plain, bg: Color::Plain }
    }
}

} // verus!


