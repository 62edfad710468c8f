//! Screen presets: grid size, fonts, palette, display parser, input mode and name.

use vstd::prelude::*;

verus! {

/// How typed characters are translated for the host.
#[derive(Clone, Copy, Debug, PartialEq, Eq, Structural)]
pub enum BufferInputMode {
    CP437,
    PETSCII,
    ATASCII,
    VT500,
    VIEWDATA,
}

/// A screen preset: size, palette, fonts and display parser.
#[derive(Clone, Copy, Debug, PartialEq, Eq, Structural)]
pub enum ScreenMode {
    /// A DOS screen of the given width and height.
    DOS(i32, i32),
    C64,
    /// A C128 screen of the given number of columns.
    C128(i32),
    Atari,
    AtariXep80,
    VT500,
    Viewdata,
}

/// The display parser that a screen mode uses.
#[derive(Clone, Copy, Debug, PartialEq, Eq, Structural)]
pub enum ParserKind {
    Avatar,
    Petscii,
    Atascii,
    Ansi,
    Viewdata,
}

/// The palette that a screen mode uses.
#[derive(Clone, Copy, Debug, PartialEq, Eq, Structural)]
pub enum PaletteKind {
    Dos,
    C64,
    Atari,
    Viewdata,
}

/// The fonts that a screen mode loads.
#[derive(Clone, Copy, Debug, PartialEq, Eq, Structural)]
pub enum FontKind {
    IbmVga,
    IbmVga50,
    C64Unshifted,
    C64Shifted,
    AtariAtascii,
    Viewdata,
}

/// How far back the view may scroll: between 0 and the lines above the visible screen.
pub open spec fn scroll_spec(current: i32, delta: i32, total_lines: i32, height: i32) -> int {
    let top = total_lines - height;
    let want = current + delta;
    let m = if top < want { top } else { want };
    if m < 0 {
        0
    } else {
        m
    }
}

/// The scroll-back position after scrolling by `delta` lines from `current`, in a buffer
/// of `total_lines` lines of which `height` are visible.
pub fn scroll_position(current: i32, delta: i32, total_lines: i32, height: i32) -> (r: i64)
    ensures
        r == scroll_spec(current, delta, total_lines, height),
        r >= 0,
{
    let top = total_lines as i64 - height as i64;
    let want = current as i64 + delta as i64;
    let m = if top < want { top } else { want };
    if m < 0 {
        0
    } else {
        m
    }
}

pub open spec fn input_mode_of(m: ScreenMode) -> BufferInputMode {
    match m {
        ScreenMode::DOS(_, _) => BufferInputMode::CP437,
        ScreenMode::C64 | ScreenMode::C128(_) => BufferInputMode::PETSCII,
        ScreenMode::Atari | ScreenMode::AtariXep80 => BufferInputMode::ATASCII,
        ScreenMode::VT500 => BufferInputMode::VT500,
        ScreenMode::Viewdata => BufferInputMode::VIEWDATA,
    }
}

/// Width and height of the character grid.
pub open spec fn size_of(m: ScreenMode) -> (i32, i32) {
    match m {
        ScreenMode::DOS(w, h) => (w, h),
        ScreenMode::C64 => (40, 25),
        ScreenMode::C128(col) => (col, 25),
        ScreenMode::Atari => (40, 24),
        ScreenMode::AtariXep80 => (80, 25),
        ScreenMode::VT500 => (80, 25),
        ScreenMode::Viewdata => (40, 24),
    }
}

pub open spec fn parser_of(m: ScreenMode) -> ParserKind {
    match m {
        ScreenMode::DOS(_, _) => ParserKind::Avatar,
        ScreenMode::C64 | ScreenMode::C128(_) => ParserKind::Petscii,
        ScreenMode::Atari | ScreenMode::AtariXep80 => ParserKind::Atascii,
        ScreenMode::VT500 => ParserKind::Ansi,
        ScreenMode::Viewdata => ParserKind::Viewdata,
    }
}

pub open spec fn palette_of(m: ScreenMode) -> PaletteKind {
    match m {
        ScreenMode::DOS(_, _) | ScreenMode::VT500 => PaletteKind::Dos,
        ScreenMode::C64 | ScreenMode::C128(_) => PaletteKind::C64,
        ScreenMode::Atari | ScreenMode::AtariXep80 => PaletteKind::Atari,
        ScreenMode::Viewdata => PaletteKind::Viewdata,
    }
}

/// The fonts, in the order they are loaded; a DOS screen of 50 rows or more uses the
/// VGA50 font.
pub open spec fn fonts_of(m: ScreenMode) -> Seq<FontKind> {
    match m {
        ScreenMode::DOS(_, h) => if h >= 50 {
            seq![FontKind::IbmVga50]
        } else {
            seq![FontKind::IbmVga]
        },
        ScreenMode::C64 | ScreenMode::C128(_) => seq![
            FontKind::C64Unshifted,
            FontKind::C64Shifted,
        ],
        ScreenMode::Atari | ScreenMode::AtariXep80 => seq![FontKind::AtariAtascii],
        ScreenMode::VT500 => seq![FontKind::IbmVga],
        ScreenMode::Viewdata => seq![FontKind::Viewdata],
    }
}

/// The presets offered to the user, in menu order.
pub open spec fn default_modes_spec() -> Seq<ScreenMode> {
    seq![
        ScreenMode::DOS(80, 25),
        ScreenMode::DOS(80, 28),
        ScreenMode::DOS(80, 30),
        ScreenMode::DOS(80, 43),
        ScreenMode::DOS(80, 50),
        ScreenMode::DOS(80, 60),
        ScreenMode::DOS(132, 37),
        ScreenMode::DOS(132, 52),
        ScreenMode::DOS(132, 25),
        ScreenMode::DOS(132, 28),
        ScreenMode::DOS(132, 30),
        ScreenMode::DOS(132, 34),
        ScreenMode::DOS(132, 43),
        ScreenMode::DOS(132, 50),
        ScreenMode::DOS(132, 60),
        ScreenMode::C64,
        ScreenMode::C128(40),
        ScreenMode::C128(80),
        ScreenMode::Atari,
        ScreenMode::AtariXep80,
        ScreenMode::VT500,
        ScreenMode::Viewdata,
    ]
}

pub fn default_modes() -> (r: Vec<ScreenMode>)
    ensures
        r@ == default_modes_spec(),
{
    let r = vec![
        ScreenMode::DOS(80, 25),
        ScreenMode::DOS(80, 28),
        ScreenMode::DOS(80, 30),
        ScreenMode::DOS(80, 43),
        ScreenMode::DOS(80, 50),
        ScreenMode::DOS(80, 60),
        ScreenMode::DOS(132, 37),
        ScreenMode::DOS(132, 52),
        ScreenMode::DOS(132, 25),
        ScreenMode::DOS(132, 28),
        ScreenMode::DOS(132, 30),
        ScreenMode::DOS(132, 34),
        ScreenMode::DOS(132, 43),
        ScreenMode::DOS(132, 50),
        ScreenMode::DOS(132, 60),
        ScreenMode::C64,
        ScreenMode::C128(40),
        ScreenMode::C128(80),
        ScreenMode::Atari,
        ScreenMode::AtariXep80,
        ScreenMode::VT500,
        ScreenMode::Viewdata,
    ];
    proof {
        assert(r@ =~= default_modes_spec());
    }
    r
}

impl ScreenMode {
    pub fn get_input_mode(&self) -> (r: BufferInputMode)
        ensures
            r == input_mode_of(*self),
    {
        match self {
            ScreenMode::DOS(_, _) => BufferInputMode::CP437,
            ScreenMode::C64 | ScreenMode::C128(_) => BufferInputMode::PETSCII,
            ScreenMode::Atari | ScreenMode::AtariXep80 => BufferInputMode::ATASCII,
            ScreenMode::VT500 => BufferInputMode::VT500,
            ScreenMode::Viewdata => BufferInputMode::VIEWDATA,
        }
    }

    /// Width and height of the character grid.
    pub fn buffer_size(&self) -> (r: (i32, i32))
        ensures
            r == size_of(*self),
    {
        match self {
            ScreenMode::DOS(w, h) => (*w, *h),
            ScreenMode::C64 => (40, 25),
            ScreenMode::C128(col) => (*col, 25),
            ScreenMode::Atari => (40, 24),
            ScreenMode::AtariXep80 => (80, 25),
            ScreenMode::VT500 => (80, 25),
            ScreenMode::Viewdata => (40, 24),
        }
    }

    pub fn parser(&self) -> (r: ParserKind)
        ensures
            r == parser_of(*self),
    {
        match self {
            ScreenMode::DOS(_, _) => ParserKind::Avatar,
            ScreenMode::C64 | ScreenMode::C128(_) => ParserKind::Petscii,
            ScreenMode::Atari | ScreenMode::AtariXep80 => ParserKind::Atascii,
            ScreenMode::VT500 => ParserKind::Ansi,
            ScreenMode::Viewdata => ParserKind::Viewdata,
        }
    }

    pub fn palette(&self) -> (r: PaletteKind)
        ensures
            r == palette_of(*self),
    {
        match self {
            ScreenMode::DOS(_, _) | ScreenMode::VT500 => PaletteKind::Dos,
            ScreenMode::C64 | ScreenMode::C128(_) => PaletteKind::C64,
            ScreenMode::Atari | ScreenMode::AtariXep80 => PaletteKind::Atari,
            ScreenMode::Viewdata => PaletteKind::Viewdata,
        }
    }

    pub fn fonts(&self) -> (r: Vec<FontKind>)
        ensures
            r@ == fonts_of(*self),
    {
        let r = match self {
            ScreenMode::DOS(_, h) => if *h >= 50 {
                vec![FontKind::IbmVga50]
            } else {
                vec![FontKind::IbmVga]
            },
            ScreenMode::C64 | ScreenMode::C128(_) => vec![
                FontKind::C64Unshifted,
                FontKind::C64Shifted,
            ],
            ScreenMode::Atari | ScreenMode::AtariXep80 => vec![FontKind::AtariAtascii],
            ScreenMode::VT500 => vec![FontKind::IbmVga],
            ScreenMode::Viewdata => vec![FontKind::Viewdata],
        };
        proof {
            assert(r@ =~= fonts_of(*self));
        }
        r
    }
}

impl FontKind {
    /// The name under which the display engine knows the font.
    pub fn name(&self) -> (r: &'static str)
        ensures
            r@ == font_name_of(*self),
    {
        match self {
            FontKind::IbmVga => "IBM VGA",
            FontKind::IbmVga50 => "IBM VGA50",
            FontKind::C64Unshifted => "C64 PETSCII unshifted",
            FontKind::C64Shifted => "C64 PETSCII shifted",
            FontKind::AtariAtascii => "Atari ATASCII",
            FontKind::Viewdata => "Viewdata",
        }
    }
}

pub open spec fn font_name_of(f: FontKind) -> Seq<char> {
    match f {
        FontKind::IbmVga => "IBM VGA"@,
        FontKind::IbmVga50 => "IBM VGA50"@,
        FontKind::C64Unshifted => "C64 PETSCII unshifted"@,
        FontKind::C64Shifted => "C64 PETSCII shifted"@,
        FontKind::AtariAtascii => "Atari ATASCII"@,
        FontKind::Viewdata => "Viewdata"@,
    }
}

/// The decimal digits of `n`.
pub open spec fn decimal_chars(n: nat) -> Seq<char>
    decreases n,
{
    if n < 10 {
        seq![digit_char(n)]
    } else {
        decimal_chars(n / 10) + seq![digit_char(n % 10)]
    }
}

pub open spec fn digit_char(d: nat) -> char {
    if d == 0 { '0' }
    else if d == 1 { '1' }
    else if d == 2 { '2' }
    else if d == 3 { '3' }
    else if d == 4 { '4' }
    else if d == 5 { '5' }
    else if d == 6 { '6' }
    else if d == 7 { '7' }
    else if d == 8 { '8' }
    else { '9' }
}

/// An integer as text: a minus sign where it is negative, then its decimal digits.
pub open spec fn int_chars(i: int) -> Seq<char> {
    if i < 0 {
        seq!['-'] + decimal_chars((-i) as nat)
    } else {
        decimal_chars(i as nat)
    }
}

/// The name of a screen mode as the menus show it: `80x25`, `C64`, `C128 (40 col)`, ...
pub open spec fn mode_name(m: ScreenMode) -> Seq<char> {
    match m {
        ScreenMode::DOS(w, h) => int_chars(w as int) + seq!['x'] + int_chars(h as int),
        ScreenMode::C64 => "C64"@,
        ScreenMode::C128(col) => "C128 ("@ + int_chars(col as int) + " col)"@,
        ScreenMode::Atari => "Atari"@,
        ScreenMode::AtariXep80 => "Atari XEP80"@,
        ScreenMode::VT500 => "VT500"@,
        ScreenMode::Viewdata => "Viewdata"@,
    }
}

fn digit_str(d: u32) -> (r: &'static str)
    requires
        d < 10,
    ensures
        r@ == seq![digit_char(d as nat)],
{
    if d == 0 {
        proof { reveal_strlit("0"); }
        "0"
    } else if d == 1 {
        proof { reveal_strlit("1"); }
        "1"
    } else if d == 2 {
        proof { reveal_strlit("2"); }
        "2"
    } else if d == 3 {
        proof { reveal_strlit("3"); }
        "3"
    } else if d == 4 {
        proof { reveal_strlit("4"); }
        "4"
    } else if d == 5 {
        proof { reveal_strlit("5"); }
        "5"
    } else if d == 6 {
        proof { reveal_strlit("6"); }
        "6"
    } else if d == 7 {
        proof { reveal_strlit("7"); }
        "7"
    } else if d == 8 {
        proof { reveal_strlit("8"); }
        "8"
    } else {
        proof { reveal_strlit("9"); }
        "9"
    }
}

pub(crate) fn push_decimal(s: &mut String, n: u32)
    ensures
        final(s)@ == old(s)@ + decimal_chars(n as nat),
    decreases n,
{
    if n >= 10 {
        push_decimal(s, n / 10);
    }
    s.append(digit_str(n % 10));
}

fn push_int(s: &mut String, i: i32)
    ensures
        final(s)@ == old(s)@ + int_chars(i as int),
{
    if i < 0 {
        proof { reveal_strlit("-"); }
        s.append("-");
        let n: u32 = if i == i32::MIN { 0x8000_0000 } else { (-i) as u32 };
        push_decimal(s, n);
        proof {
            assert(final(s)@ =~= old(s)@ + int_chars(i as int));
        }
    } else {
        push_decimal(s, i as u32);
    }
}

impl BufferInputMode {
    /// What the Enter key sends in this input mode.
    pub fn enter_bytes(&self) -> (r: Vec<u8>)
        ensures
            r@ == enter_of(*self),
    {
        let r = match self {
            BufferInputMode::CP437 | BufferInputMode::PETSCII => vec![0x0du8],
            BufferInputMode::ATASCII => vec![155u8],
            BufferInputMode::VT500 => vec![0x0du8, 0x0au8],
            BufferInputMode::VIEWDATA => vec![0x5fu8],
        };
        proof {
            assert(r@ =~= enter_of(*self));
        }
        r
    }
}

/// What the Enter key sends: CR, ATASCII's end of line (155), CR LF on a VT500, `_` on
/// Viewdata.
pub open spec fn enter_of(m: BufferInputMode) -> Seq<u8> {
    match m {
        BufferInputMode::CP437 | BufferInputMode::PETSCII => seq![0x0du8],
        BufferInputMode::ATASCII => seq![155u8],
        BufferInputMode::VT500 => seq![0x0du8, 0x0au8],
        BufferInputMode::VIEWDATA => seq![0x5fu8],
    }
}

impl ScreenMode {
    /// The name of the mode as the menus show it.
    pub fn name(&self) -> (r: String)
        ensures
            r@ == mode_name(*self),
    {
        match self {
            ScreenMode::DOS(w, h) => {
                let mut s = String::new();
                push_int(&mut s, *w);
                proof { reveal_strlit("x"); }
                s.append("x");
                push_int(&mut s, *h);
                proof {
                    assert(s@ =~= mode_name(*self));
                }
                s
            },
            ScreenMode::C64 => String::from_str("C64"),
            ScreenMode::C128(col) => {
                let mut s = String::from_str("C128 (");
                push_int(&mut s, *col);
                s.append(" col)");
                proof {
                    assert(s@ =~= mode_name(*self));
                }
                s
            },
            ScreenMode::Atari => String::from_str("Atari"),
            ScreenMode::AtariXep80 => String::from_str("Atari XEP80"),
            ScreenMode::VT500 => String::from_str("VT500"),
            ScreenMode::Viewdata => String::from_str("Viewdata"),
        }
    }
}

} // verus!
