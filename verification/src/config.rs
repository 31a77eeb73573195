//! Color handling: RGB colors decoded from 6-hex-digit strings with an
//! optional leading `#`, the 13-field color scheme built from the textual
//! form of a scheme file, and the built-in default scheme.
use vstd::prelude::*;
use vstd::string::StrSliceExecFns;

verus! {

/// An RGB color, one byte per channel.
#[derive(Clone, Copy, PartialEq, Eq, Structural, Debug)]
pub struct Rgb {
    pub r: u8,
    pub g: u8,
    pub b: u8,
}

/// The textual form of a color-scheme file: its 13 string-valued fields,
/// each expected to hold a 6-hex-digit color.
pub struct SchemeText {
    pub buffer_fg: String,
    pub buffer_bg: String,
    pub cursor: String,
    pub statusline_fg: String,
    pub statusline_bg: String,
    pub filepicker_fg: String,
    pub filepicker_bg: String,
    pub filepicker_border: String,
    pub filepicker_selection: String,
    pub itempicker_fg: String,
    pub itempicker_bg: String,
    pub itempicker_border: String,
    pub itempicker_selection: String,
}

/// A fully decoded color scheme.
#[derive(Clone, Copy, PartialEq, Eq, Structural, Debug)]
pub struct ColorScheme {
    pub buffer_fg: Rgb,
    pub buffer_bg: Rgb,
    pub cursor: Rgb,
    pub statusline_fg: Rgb,
    pub statusline_bg: Rgb,
    pub filepicker_fg: Rgb,
    pub filepicker_bg: Rgb,
    pub filepicker_border: Rgb,
    pub filepicker_selection: Rgb,
    pub itempicker_fg: Rgb,
    pub itempicker_bg: Rgb,
    pub itempicker_border: Rgb,
    pub itempicker_selection: Rgb,
}

/// Why a single color string failed to decode.
#[derive(Clone, Copy, PartialEq, Eq, Structural, Debug)]
pub enum HexColorError {
    /// A character outside `0-9`, `a-f`, `A-F`.
    InvalidDigit,
    /// The string (after an optional `#`) was not 6 characters long.
    WrongLength { got: usize },
}

/// The scheme field a decode failure occurred in.
#[derive(Clone, Copy, PartialEq, Eq, Structural, Debug)]
pub enum SchemeField {
    BufferFg,
    BufferBg,
    Cursor,
    StatuslineFg,
    StatuslineBg,
    FilepickerFg,
    FilepickerBg,
    FilepickerBorder,
    FilepickerSelection,
    ItempickerFg,
    ItempickerBg,
    ItempickerBorder,
    ItempickerSelection,
}

/// The first failing field of a scheme, with the reason.
#[derive(Clone, Copy, PartialEq, Eq, Structural, Debug)]
pub struct SchemeError {
    pub field: SchemeField,
    pub cause: HexColorError,
}

/// `c` is a hexadecimal digit.
pub open spec fn is_hex_digit(c: char) -> bool {
    let u = c as u32;
    (48 <= u && u <= 57) || (65 <= u && u <= 70) || (97 <= u && u <= 102)
}

/// The value of a hexadecimal digit, upper or lower case.
pub open spec fn hex_val(c: char) -> int {
    let u = c as u32;
    if 48 <= u && u <= 57 {
        u - 48
    } else if 65 <= u && u <= 70 {
        u - 55
    } else if 97 <= u && u <= 102 {
        u - 87
    } else {
        0
    }
}

/// The string with one leading `#` removed, if present.
pub open spec fn spec_strip_hash(s: Seq<char>) -> Seq<char> {
    if s.len() > 0 && s[0] == '#' {
        s.drop_first()
    } else {
        s
    }
}

/// Every character of `s` is a hexadecimal digit.
pub open spec fn all_hex(s: Seq<char>) -> bool {
    forall|i: int| 0 <= i < s.len() ==> is_hex_digit(#[trigger] s[i])
}

/// What decoding a color string yields: after stripping an optional `#`,
/// anything but 6 characters is a length error, a non-hex character is a
/// digit error, and otherwise the three channel bytes read in order.
pub open spec fn hex_color_result(s: Seq<char>) -> Result<Rgb, HexColorError> {
    let t = spec_strip_hash(s);
    if t.len() != 6 {
        Err(HexColorError::WrongLength { got: t.len() as usize })
    } else if !all_hex(t) {
        Err(HexColorError::InvalidDigit)
    } else {
        Ok(
            Rgb {
                r: (16 * hex_val(t[0]) + hex_val(t[1])) as u8,
                g: (16 * hex_val(t[2]) + hex_val(t[3])) as u8,
                b: (16 * hex_val(t[4]) + hex_val(t[5])) as u8,
            },
        )
    }
}

/// Removes one leading `#`, if present.
pub fn strip_hash(color: &str) -> (r: String)
    ensures
        r@ == spec_strip_hash(color@),
{
    let n = color.unicode_len();
    if n > 0 && color.get_char(0) == '#' {
        let rest = color.substring_char(1, n);
        proof {
            assert(rest@ =~= color@.drop_first());
        }
        rest.to_owned()
    } else {
        color.to_owned()
    }
}

/// The value of one hexadecimal digit character, or nothing for any other
/// character.
fn hex_digit_value(c: char) -> (r: Option<u8>)
    ensures
        match r {
            Some(v) => is_hex_digit(c) && v as int == hex_val(c) && v < 16,
            None => !is_hex_digit(c),
        },
{
    let u = c as u32;
    if u >= 48 && u <= 57 {
        Some((u - 48) as u8)
    } else if u >= 65 && u <= 70 {
        Some((u - 55) as u8)
    } else if u >= 97 && u <= 102 {
        Some((u - 87) as u8)
    } else {
        None
    }
}

/// Decodes a 6-hex-digit color string with an optional leading `#`, as
/// `hex_color_result` describes: the length is checked first, then the
/// digits.
pub fn string_to_hex_color(color: &str) -> (r: Result<Rgb, HexColorError>)
    ensures
        r == hex_color_result(color@),
{
    let nohash = strip_hash(color);
    let m = nohash.as_str().unicode_len();
    if m != 6 {
        return Err(HexColorError::WrongLength { got: m });
    }
    let digits: [Option<u8>; 6] = [
        hex_digit_value(nohash.as_str().get_char(0)),
        hex_digit_value(nohash.as_str().get_char(1)),
        hex_digit_value(nohash.as_str().get_char(2)),
        hex_digit_value(nohash.as_str().get_char(3)),
        hex_digit_value(nohash.as_str().get_char(4)),
        hex_digit_value(nohash.as_str().get_char(5)),
    ];
    let mut vals: [u8; 6] = [0, 0, 0, 0, 0, 0];
    let mut k: usize = 0;
    while k < 6
        invariant
            k <= 6,
            nohash@ == spec_strip_hash(color@),
            nohash@.len() == 6,
            forall|i: int|
                0 <= i < 6 ==> match #[trigger] digits@[i] {
                    Some(v) => is_hex_digit(nohash@[i]) && v as int == hex_val(nohash@[i]) && v
                        < 16,
                    None => !is_hex_digit(nohash@[i]),
                },
            forall|i: int|
                0 <= i < k ==> is_hex_digit(#[trigger] nohash@[i]) && vals@[i] as int == hex_val(
                    nohash@[i],
                ) && vals@[i] < 16,
        decreases 6 - k,
    {
        match digits[k] {
            Some(v) => {
                vals[k] = v;
            },
            None => {
                return Err(HexColorError::InvalidDigit);
            },
        }
        k = k + 1;
    }
    Ok(Rgb { r: vals[0] * 16 + vals[1], g: vals[2] * 16 + vals[3], b: vals[4] * 16 + vals[5] })
}

/// The hexadecimal digit character of a value below 16, upper case.
pub open spec fn hex_digit_char(v: int) -> char {
    if v == 0 {
        '0'
    } else if v == 1 {
        '1'
    } else if v == 2 {
        '2'
    } else if v == 3 {
        '3'
    } else if v == 4 {
        '4'
    } else if v == 5 {
        '5'
    } else if v == 6 {
        '6'
    } else if v == 7 {
        '7'
    } else if v == 8 {
        '8'
    } else if v == 9 {
        '9'
    } else if v == 10 {
        'A'
    } else if v == 11 {
        'B'
    } else if v == 12 {
        'C'
    } else if v == 13 {
        'D'
    } else if v == 14 {
        'E'
    } else {
        'F'
    }
}

/// The two hexadecimal digits of a byte.
pub open spec fn hex_of_byte(b: u8) -> Seq<char> {
    seq![hex_digit_char(b as int / 16), hex_digit_char(b as int % 16)]
}

/// The 6-hex-digit form of a color, upper case and without a `#`.
pub open spec fn hex_string_of(c: Rgb) -> Seq<char> {
    hex_of_byte(c.r) + hex_of_byte(c.g) + hex_of_byte(c.b)
}

/// The hexadecimal digit character of a value below 16.
fn hex_digit_char_exec(v: u8) -> (r: char)
    requires
        v < 16,
    ensures
        r == hex_digit_char(v as int),
{
    match v {
        0 => '0',
        1 => '1',
        2 => '2',
        3 => '3',
        4 => '4',
        5 => '5',
        6 => '6',
        7 => '7',
        8 => '8',
        9 => '9',
        10 => 'A',
        11 => 'B',
        12 => 'C',
        13 => 'D',
        14 => 'E',
        _ => 'F',
    }
}

/// Writes a color as its 6 upper-case hexadecimal digits.
pub fn hex_to_string_color(color: &Rgb) -> (r: String)
    ensures
        r@ == hex_string_of(*color),
{
    let mut r = String::new();
    r.push(hex_digit_char_exec(color.r / 16));
    r.push(hex_digit_char_exec(color.r % 16));
    r.push(hex_digit_char_exec(color.g / 16));
    r.push(hex_digit_char_exec(color.g % 16));
    r.push(hex_digit_char_exec(color.b / 16));
    r.push(hex_digit_char_exec(color.b % 16));
    proof {
        assert(r@ =~= hex_string_of(*color));
    }
    r
}

/// Each hexadecimal digit character reads back as its value, and none of
/// them is the hash mark.
proof fn lemma_hex_digit_char_val(v: int)
    requires
        0 <= v < 16,
    ensures
        is_hex_digit(hex_digit_char(v)),
        hex_val(hex_digit_char(v)) == v,
        hex_digit_char(v) != '#',
{
}

/// Writing a color as hex and decoding it again yields the color back.
pub proof fn lemma_hex_round_trip(c: Rgb)
    ensures
        hex_color_result(hex_string_of(c)) == Ok::<Rgb, HexColorError>(c),
{
    let s = hex_string_of(c);
    assert(s[0] == hex_digit_char(c.r as int / 16));
    assert(s[1] == hex_digit_char(c.r as int % 16));
    assert(s[2] == hex_digit_char(c.g as int / 16));
    assert(s[3] == hex_digit_char(c.g as int % 16));
    assert(s[4] == hex_digit_char(c.b as int / 16));
    assert(s[5] == hex_digit_char(c.b as int % 16));
    lemma_hex_digit_char_val(c.r as int / 16);
    lemma_hex_digit_char_val(c.r as int % 16);
    lemma_hex_digit_char_val(c.g as int / 16);
    lemma_hex_digit_char_val(c.g as int % 16);
    lemma_hex_digit_char_val(c.b as int / 16);
    lemma_hex_digit_char_val(c.b as int % 16);
    assert(spec_strip_hash(s) == s);
    assert(all_hex(s));
    vstd::arithmetic::div_mod::lemma_fundamental_div_mod(c.r as int, 16);
    vstd::arithmetic::div_mod::lemma_fundamental_div_mod(c.g as int, 16);
    vstd::arithmetic::div_mod::lemma_fundamental_div_mod(c.b as int, 16);
}

/// What decoding all 13 fields of a scheme yields: the first failing
/// field's error, in the order the fields are read, or the fully decoded
/// scheme.
pub open spec fn scheme_of_text(t: SchemeText) -> Result<ColorScheme, SchemeError> {
    let buffer_fg = hex_color_result(t.buffer_fg@);
    let buffer_bg = hex_color_result(t.buffer_bg@);
    let cursor = hex_color_result(t.cursor@);
    let statusline_bg = hex_color_result(t.statusline_bg@);
    let statusline_fg = hex_color_result(t.statusline_fg@);
    let filepicker_fg = hex_color_result(t.filepicker_fg@);
    let filepicker_bg = hex_color_result(t.filepicker_bg@);
    let filepicker_border = hex_color_result(t.filepicker_border@);
    let filepicker_selection = hex_color_result(t.filepicker_selection@);
    let itempicker_fg = hex_color_result(t.itempicker_fg@);
    let itempicker_bg = hex_color_result(t.itempicker_bg@);
    let itempicker_border = hex_color_result(t.itempicker_border@);
    let itempicker_selection = hex_color_result(t.itempicker_selection@);
    if buffer_fg is Err {
        Err(SchemeError { field: SchemeField::BufferFg, cause: buffer_fg->Err_0 })
    } else if buffer_bg is Err {
        Err(SchemeError { field: SchemeField::BufferBg, cause: buffer_bg->Err_0 })
    } else if cursor is Err {
        Err(SchemeError { field: SchemeField::Cursor, cause: cursor->Err_0 })
    } else if statusline_bg is Err {
        Err(SchemeError { field: SchemeField::StatuslineBg, cause: statusline_bg->Err_0 })
    } else if statusline_fg is Err {
        Err(SchemeError { field: SchemeField::StatuslineFg, cause: statusline_fg->Err_0 })
    } else if filepicker_fg is Err {
        Err(SchemeError { field: SchemeField::FilepickerFg, cause: filepicker_fg->Err_0 })
    } else if filepicker_bg is Err {
        Err(SchemeError { field: SchemeField::FilepickerBg, cause: filepicker_bg->Err_0 })
    } else if filepicker_border is Err {
        Err(SchemeError { field: SchemeField::FilepickerBorder, cause: filepicker_border->Err_0 })
    } else if filepicker_selection is Err {
        Err(
            SchemeError {
                field: SchemeField::FilepickerSelection,
                cause: filepicker_selection->Err_0,
            },
        )
    } else if itempicker_fg is Err {
        Err(SchemeError { field: SchemeField::ItempickerFg, cause: itempicker_fg->Err_0 })
    } else if itempicker_bg is Err {
        Err(SchemeError { field: SchemeField::ItempickerBg, cause: itempicker_bg->Err_0 })
    } else if itempicker_border is Err {
        Err(SchemeError { field: SchemeField::ItempickerBorder, cause: itempicker_border->Err_0 })
    } else if itempicker_selection is Err {
        Err(
            SchemeError {
                field: SchemeField::ItempickerSelection,
                cause: itempicker_selection->Err_0,
            },
        )
    } else {
        Ok(
            ColorScheme {
                buffer_fg: buffer_fg->Ok_0,
                buffer_bg: buffer_bg->Ok_0,
                cursor: cursor->Ok_0,
                statusline_fg: statusline_fg->Ok_0,
                statusline_bg: statusline_bg->Ok_0,
                filepicker_fg: filepicker_fg->Ok_0,
                filepicker_bg: filepicker_bg->Ok_0,
                filepicker_border: filepicker_border->Ok_0,
                filepicker_selection: filepicker_selection->Ok_0,
                itempicker_fg: itempicker_fg->Ok_0,
                itempicker_bg: itempicker_bg->Ok_0,
                itempicker_border: itempicker_border->Ok_0,
                itempicker_selection: itempicker_selection->Ok_0,
            },
        )
    }
}

impl ColorScheme {
    /// Decodes the 13 fields of a scheme's textual form, reporting the
    /// first failing field, as `scheme_of_text` describes.
    pub fn json_to_cs(csj: &SchemeText) -> (r: Result<ColorScheme, SchemeError>)
        ensures
            r == scheme_of_text(*csj),
    {
        let buffer_fg = match string_to_hex_color(csj.buffer_fg.as_str()) {
            Ok(c) => c,
            Err(e) => {
                return Err(SchemeError { field: SchemeField::BufferFg, cause: e });
            },
        };
        let buffer_bg = match string_to_hex_color(csj.buffer_bg.as_str()) {
            Ok(c) => c,
            Err(e) => {
                return Err(SchemeError { field: SchemeField::BufferBg, cause: e });
            },
        };
        let cursor = match string_to_hex_color(csj.cursor.as_str()) {
            Ok(c) => c,
            Err(e) => {
                return Err(SchemeError { field: SchemeField::Cursor, cause: e });
            },
        };
        let statusline_bg = match string_to_hex_color(csj.statusline_bg.as_str()) {
            Ok(c) => c,
            Err(e) => {
                return Err(SchemeError { field: SchemeField::StatuslineBg, cause: e });
            },
        };
        let statusline_fg = match string_to_hex_color(csj.statusline_fg.as_str()) {
            Ok(c) => c,
            Err(e) => {
                return Err(SchemeError { field: SchemeField::StatuslineFg, cause: e });
            },
        };
        let filepicker_fg = match string_to_hex_color(csj.filepicker_fg.as_str()) {
            Ok(c) => c,
            Err(e) => {
                return Err(SchemeError { field: SchemeField::FilepickerFg, cause: e });
            },
        };
        let filepicker_bg = match string_to_hex_color(csj.filepicker_bg.as_str()) {
            Ok(c) => c,
            Err(e) => {
                return Err(SchemeError { field: SchemeField::FilepickerBg, cause: e });
            },
        };
        let filepicker_border = match string_to_hex_color(csj.filepicker_border.as_str()) {
            Ok(c) => c,
            Err(e) => {
                return Err(SchemeError { field: SchemeField::FilepickerBorder, cause: e });
            },
        };
        let filepicker_selection = match string_to_hex_color(csj.filepicker_selection.as_str()) {
            Ok(c) => c,
            Err(e) => {
                return Err(SchemeError { field: SchemeField::FilepickerSelection, cause: e });
            },
        };
        let itempicker_fg = match string_to_hex_color(csj.itempicker_fg.as_str()) {
            Ok(c) => c,
            Err(e) => {
                return Err(SchemeError { field: SchemeField::ItempickerFg, cause: e });
            },
        };
        let itempicker_bg = match string_to_hex_color(csj.itempicker_bg.as_str()) {
            Ok(c) => c,
            Err(e) => {
                return Err(SchemeError { field: SchemeField::ItempickerBg, cause: e });
            },
        };
        let itempicker_border = match string_to_hex_color(csj.itempicker_border.as_str()) {
            Ok(c) => c,
            Err(e) => {
                return Err(SchemeError { field: SchemeField::ItempickerBorder, cause: e });
            },
        };
        let itempicker_selection = match string_to_hex_color(csj.itempicker_selection.as_str()) {
            Ok(c) => c,
            Err(e) => {
                return Err(SchemeError { field: SchemeField::ItempickerSelection, cause: e });
            },
        };
        Ok(
            ColorScheme {
                buffer_fg,
                buffer_bg,
                cursor,
                statusline_fg,
                statusline_bg,
                filepicker_fg,
                filepicker_bg,
                filepicker_border,
                filepicker_selection,
                itempicker_fg,
                itempicker_bg,
                itempicker_border,
                itempicker_selection,
            },
        )
    }
}

/// The built-in scheme the editor starts with.
pub fn default_scheme() -> (r: ColorScheme)
    ensures
        r == (ColorScheme {
            buffer_fg: Rgb { r: 255, g: 255, b: 255 },
            buffer_bg: Rgb { r: 44, g: 50, b: 60 },
            cursor: Rgb { r: 30, g: 144, b: 255 },
            statusline_fg: Rgb { r: 255, g: 255, b: 255 },
            statusline_bg: Rgb { r: 205, g: 133, b: 63 },
            filepicker_fg: Rgb { r: 255, g: 255, b: 255 },
            filepicker_bg: Rgb { r: 105, g: 105, b: 105 },
            filepicker_border: Rgb { r: 47, g: 79, b: 79 },
            filepicker_selection: Rgb { r: 47, g: 79, b: 79 },
            itempicker_fg: Rgb { r: 255, g: 255, b: 255 },
            itempicker_bg: Rgb { r: 105, g: 105, b: 105 },
            itempicker_border: Rgb { r: 47, g: 79, b: 79 },
            itempicker_selection: Rgb { r: 47, g: 79, b: 79 },
        }),
{
    let white = Rgb { r: 255, g: 255, b: 255 };
    let bright_gray = Rgb { r: 44, g: 50, b: 60 };
    let blue = Rgb { r: 30, g: 144, b: 255 };
    let brown = Rgb { r: 205, g: 133, b: 63 };
    let dim_gray = Rgb { r: 105, g: 105, b: 105 };
    let slate = Rgb { r: 47, g: 79, b: 79 };
    ColorScheme {
        buffer_fg: white,
        buffer_bg: bright_gray,
        cursor: blue,
        statusline_fg: white,
        statusline_bg: brown,
        filepicker_fg: white,
        filepicker_bg: dim_gray,
        filepicker_border: slate,
        filepicker_selection: slate,
        itempicker_fg: white,
        itempicker_bg: dim_gray,
        itempicker_border: slate,
        itempicker_selection: slate,
    }
}

} // verus!
