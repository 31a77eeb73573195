use slush::config::ColorScheme;
use slush::config::HexColorError;
use slush::config::Rgb;
use slush::config::SchemeField;
use slush::config::SchemeText;
use slush::config::default_scheme;
use slush::config::hex_to_string_color;
use slush::config::string_to_hex_color;
use slush::config::strip_hash;
use slush::file_assist::list_color_schemes;

fn str_hex(s: &str) -> Rgb {
    string_to_hex_color(s).unwrap()
}

#[test]
fn string_to_hex_ok_test() {
    assert_eq!(Rgb { r: 90, g: 97, b: 122 }, str_hex("5a617a"));
    assert_eq!(Rgb { r: 90, g: 97, b: 122 }, str_hex("#5a617a"));
    assert_eq!(Rgb { r: 13, g: 28, b: 40 }, str_hex("0d1c28"));
    assert_eq!(Rgb { r: 13, g: 28, b: 40 }, str_hex("0D1C28"));
    assert_eq!(Rgb { r: 0, g: 0, b: 0 }, str_hex("000000"));
    assert_eq!(Rgb { r: 255, g: 255, b: 255 }, str_hex("FFFFFF"));
}

#[test]
fn hex_to_string_ok_test() {
    assert_eq!(hex_to_string_color(&Rgb { r: 90, g: 97, b: 122 }), "5A617A");
    assert_eq!(hex_to_string_color(&Rgb { r: 13, g: 28, b: 40 }), "0D1C28");
    assert_eq!(hex_to_string_color(&Rgb { r: 0, g: 0, b: 0 }), "000000");
    assert_eq!(hex_to_string_color(&Rgb { r: 255, g: 255, b: 255 }), "FFFFFF");
}

#[test]
fn bad_digit_is_a_decode_error() {
    assert_eq!(string_to_hex_color("5G617a"), Err(HexColorError::InvalidDigit));
}

#[test]
fn bad_length_is_a_length_error() {
    assert_eq!(string_to_hex_color("123456789"), Err(HexColorError::WrongLength { got: 9 }));
    assert_eq!(string_to_hex_color(""), Err(HexColorError::WrongLength { got: 0 }));
    assert_eq!(string_to_hex_color("#12345"), Err(HexColorError::WrongLength { got: 5 }));
}

#[test]
fn encoding_then_decoding_restores_the_color() {
    for c in [
        Rgb { r: 90, g: 97, b: 122 },
        Rgb { r: 0, g: 0, b: 0 },
        Rgb { r: 255, g: 1, b: 16 },
    ] {
        assert_eq!(string_to_hex_color(&hex_to_string_color(&c)), Ok(c));
    }
}

#[test]
fn strip_hash_removes_one_leading_hash() {
    assert_eq!(strip_hash("#abc"), "abc");
    assert_eq!(strip_hash("abc"), "abc");
    assert_eq!(strip_hash(""), "");
}

fn scheme_text(bad_field: Option<usize>) -> SchemeText {
    let mut fields = vec![String::from("5a617a"); 13];
    if let Some(i) = bad_field {
        fields[i] = String::from("xyz");
    }
    SchemeText {
        buffer_fg: fields[0].clone(),
        buffer_bg: fields[1].clone(),
        cursor: fields[2].clone(),
        statusline_fg: fields[3].clone(),
        statusline_bg: fields[4].clone(),
        filepicker_fg: fields[5].clone(),
        filepicker_bg: fields[6].clone(),
        filepicker_border: fields[7].clone(),
        filepicker_selection: fields[8].clone(),
        itempicker_fg: fields[9].clone(),
        itempicker_bg: fields[10].clone(),
        itempicker_border: fields[11].clone(),
        itempicker_selection: fields[12].clone(),
    }
}

#[test]
fn scheme_decodes_when_all_fields_are_valid() {
    let cs = ColorScheme::json_to_cs(&scheme_text(None)).unwrap();
    let c = Rgb { r: 90, g: 97, b: 122 };
    assert_eq!(cs.buffer_fg, c);
    assert_eq!(cs.itempicker_selection, c);
}

#[test]
fn scheme_reports_first_failing_field() {
    let err = ColorScheme::json_to_cs(&scheme_text(Some(0))).unwrap_err();
    assert_eq!(err.field, SchemeField::BufferFg);
    assert_eq!(err.cause, HexColorError::WrongLength { got: 3 });
    let err = ColorScheme::json_to_cs(&scheme_text(Some(2))).unwrap_err();
    assert_eq!(err.field, SchemeField::Cursor);
}

#[test]
fn default_scheme_has_the_builtin_colors() {
    let cs = default_scheme();
    assert_eq!(cs.buffer_fg, Rgb { r: 255, g: 255, b: 255 });
    assert_eq!(cs.buffer_bg, Rgb { r: 44, g: 50, b: 60 });
    assert_eq!(cs.cursor, Rgb { r: 30, g: 144, b: 255 });
    assert_eq!(cs.statusline_bg, Rgb { r: 205, g: 133, b: 63 });
    assert_eq!(cs.filepicker_bg, Rgb { r: 105, g: 105, b: 105 });
    assert_eq!(cs.filepicker_border, Rgb { r: 47, g: 79, b: 79 });
}

#[test]
fn list_color_schemes_picks_json_files_and_strips_prefix() {
    let paths = vec![
        String::from("./colors/dark.json"),
        String::from("./colors/readme.txt"),
        String::from("light.json"),
    ];
    let names = list_color_schemes(&paths);
    assert_eq!(names, vec!["dark.json", "light.json"]);
}
