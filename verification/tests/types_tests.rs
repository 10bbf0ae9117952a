use rhotic::basic::Or;
use rhotic::font::{Style, StringToStyleError, TomlToUnderlineError, Underline};
use rhotic::image::{ColorRect, Image, ImageHandle};
use rhotic::input::ButtonState;
use rhotic::theme::DiredTheme;
use rhotic::types::{
    blend_color, hex_code_to_u4, hex_code_to_u8, CharsToRgbaError, Color, DisplayPosition,
    DisplayRect, DisplaySized, Point, Rgba,
};
use rhotic::widgets::{Background, Button};

#[test]
fn test_array_cast() {
    let color = Rgba::new(0, 1, 2, 3);

    let refer = color.value;
    assert_eq!(refer, [0, 1, 2, 3])
}

#[test]
fn channel_access_follows_the_layout() {
    let c = Rgba::new(10, 20, 30, 40);
    assert_eq!(c.channel(Color::Red), 10);
    assert_eq!(c.channel(Color::Green), 20);
    assert_eq!(c.channel(Color::Blue), 30);
    assert_eq!(c.channel(Color::Alpha), 40);
    assert_eq!(Rgba::default().value, [0, 0, 0, 255]);
}

#[test]
fn channel_arithmetic_saturates() {
    let a = Rgba::new(200, 10, 0, 255);
    let b = Rgba::new(100, 5, 1, 1);
    assert_eq!(a.add(b).value, [255, 15, 1, 255]);
    assert_eq!(b.sub(a).value, [0, 0, 1, 0]);
    assert_eq!(Rgba::new(100, 2, 255, 1).mul(3).value, [255, 6, 255, 3]);
    assert_eq!(Rgba::new(100, 7, 255, 3).div(2).value, [50, 3, 127, 1]);
}

#[test]
fn blending_mixes_in_proportion() {
    // (255·255 + 0·0 + 1) / 256
    assert_eq!(blend_color(0, 255, 255), 254);
    // (200·0 + 100·255 + 1) / 256
    assert_eq!(blend_color(100, 200, 0), 99);
    let a = Rgba::new(0, 100, 255, 7);
    let b = Rgba::new(255, 200, 0, 1);
    let m = a.blend(b, 0);
    assert_eq!(m.value, [0, 99, 254, 7]);
}

#[test]
fn packing_to_a_word_and_back() {
    let c = Rgba::new(1, 2, 3, 4);
    assert_eq!(c.to_u32(), 0x04010203);
    let back = Rgba::from_u32(0x04010203);
    assert_eq!(back.value, [1, 2, 3, 4]);
    assert_eq!(Rgba::new_opaque(0x60, 0xAF, 0xFF).to_u32(), 0xFF60AFFF);
}

#[test]
fn hex_digits_decode() {
    assert_eq!(hex_code_to_u4('0'), Some(0));
    assert_eq!(hex_code_to_u4('a'), Some(10));
    assert_eq!(hex_code_to_u4('F'), Some(15));
    assert_eq!(hex_code_to_u4('g'), None);
    assert_eq!(hex_code_to_u8(['6', '0']), Some(0x60));
    assert_eq!(hex_code_to_u8(['F', 'f']), Some(0xFF));
    assert_eq!(hex_code_to_u8(['x', '0']), None);
}

#[test]
fn hex_colors_parse_with_optional_alpha() {
    assert_eq!(Rgba::from_hex_str("60AFff").unwrap().value, [0x60, 0xAF, 0xFF, 0xFF]);
    assert_eq!(Rgba::from_hex_str("01020304").unwrap().value, [1, 2, 3, 4]);
    // a broken alpha pair falls back to full opacity
    assert_eq!(Rgba::from_hex_str("010203zz").unwrap().value, [1, 2, 3, 255]);
    // a seventh character alone is ignored
    assert_eq!(Rgba::from_hex_str("0102033").unwrap().value, [1, 2, 3, 255]);
}

#[test]
fn hex_colors_report_failures() {
    match Rgba::from_hex_str("6") {
        Err(CharsToRgbaError::InsufficientLength(n)) => assert_eq!(n, 1),
        other => panic!("expected a length failure, got {:?}", other),
    }
    match Rgba::from_hex_str("60AF1") {
        Err(CharsToRgbaError::InsufficientLength(n)) => assert_eq!(n, 5),
        other => panic!("expected a length failure, got {:?}", other),
    }
    match Rgba::from_hex_str("xxAFff") {
        Err(CharsToRgbaError::InvalidStr(s)) => assert_eq!(s, "xx"),
        other => panic!("expected a digit failure, got {:?}", other),
    }
}

#[test]
fn area_iterator_walks_rows_inclusively() {
    let mut it = Point::new(1u32, 1u32).iter();
    assert_eq!(it.next(), Some(Point::new(0, 0)));
    assert_eq!(it.next(), Some(Point::new(1, 0)));
    assert_eq!(it.next(), Some(Point::new(0, 1)));
    assert_eq!(it.next(), Some(Point::new(1, 1)));
    assert_eq!(it.next(), None);
    assert_eq!(it.next(), None);
}

#[test]
fn rectangles_report_position_size_and_contents() {
    let b = Button::new_u32(4, 2, 10, 20);
    assert_eq!(b.get_size(), Point::new(4, 2));
    assert_eq!(b.get_position(), Point::new(10, 20));
    assert_eq!(b.get_area(), 8);
    assert!(b.contains(Point::new(12, 21)));
    assert!(!b.contains(Point::new(3, 21)));
    let mut it = b.rect_iter();
    assert_eq!(it.next(), Some(Point::new(10, 20)));
    assert_eq!(it.next(), Some(Point::new(11, 20)));

    let mut bg = Background::default();
    assert_eq!(bg.get_size(), Point::new(0, 0));
    bg.fit_to_window(Point::new(640, 480));
    assert_eq!(bg.get_size(), Point::new(640, 480));
    assert_eq!(bg.get_position(), Point::new(0, 0));
}

#[test]
fn button_states_advance_and_report() {
    assert!(ButtonState::Pressed.is_pressed());
    assert!(!ButtonState::Released.is_pressed());
    assert!(!ButtonState::Depressed.is_pressed());
    assert!(matches!(ButtonState::Pressed.advance_state(), ButtonState::Held(_)));
    assert!(matches!(ButtonState::Released.advance_state(), ButtonState::Depressed));
    assert!(matches!(ButtonState::Depressed.advance_state(), ButtonState::Depressed));
    let held = ButtonState::Pressed.advance_state();
    assert!(held.is_pressed());
    assert_eq!(held.advance_state(), held);
}

#[test]
fn image_handles_give_out_loaded_pixels() {
    let handle = ImageHandle::Handle { path: "a.png" };
    assert!(handle.get_image().is_none());
    assert!(handle.image_ref().is_none());
    assert!(handle.to_image().is_none());

    let px = vec![Rgba::new(1, 2, 3, 4), Rgba::new(5, 6, 7, 8)];
    let handle = ImageHandle::Image { vector: px.clone(), width: 2, height: 1 };
    let img = handle.get_image().unwrap();
    assert_eq!(img.width, 2);
    assert_eq!(img.height, 1);
    assert_eq!(img.bytes, px);
    let r = handle.image_ref().unwrap();
    assert_eq!(r.bytes, px.as_slice());
    let owned = handle.to_image().unwrap();
    assert_eq!(owned.bytes, px);
    let view = owned.get_ref();
    assert_eq!(view.width, 2);
    assert_eq!(ColorRect::<Rgba>::get_width(&owned), 2);
    assert_eq!(ColorRect::<Rgba>::get_height(&owned), 1);
}

#[test]
fn or_distinguishes_its_kinds() {
    let a: Or<u32, &str> = Or::First(3);
    let b: Or<u32, &str> = Or::Second("x");
    assert!(a.is_first());
    assert!(!b.is_first());
}

#[test]
fn theme_defaults_match_the_palette() {
    let t = DiredTheme::default();
    assert_eq!(t.file_color, Rgba::new_opaque(255, 255, 255));
    assert_eq!(t.directory_color, Rgba::new_opaque(0, 255, 0));
    assert_eq!(t.select_color, Rgba::new_opaque(0x60, 0xAF, 0xFF));
}

#[test]
fn styles_parse_their_exact_words() {
    assert_eq!(Style::try_from_string("none".to_string()).unwrap(), Style::Plain);
    assert_eq!(Style::try_from_string("bold".to_string()).unwrap(), Style::Bold);
    assert_eq!(Style::try_from_string("italic_bold".to_string()).unwrap(), Style::BoldItalic);
    assert_eq!(Style::try_from_string("oblique".to_string()).unwrap(), Style::Oblique);
    // matching is exact: an upper-case word is not recognised
    match Style::try_from_string("Bold".to_string()) {
        Err(StringToStyleError(w)) => assert_eq!(w, "Bold"),
        Ok(other) => panic!("expected a rejection, got {:?}", other),
    }
    assert_eq!(Style::default(), Style::Plain);
}

#[test]
fn underlines_parse_their_kind_and_color() {
    let c = Rgba::new_opaque(1, 2, 3);
    assert_eq!(Underline::from_parts("none", c).unwrap(), Underline::Plain);
    assert_eq!(Underline::from_parts("normal", c).unwrap(), Underline::Normal(c));
    assert_eq!(Underline::from_parts("squiggly", c).unwrap(), Underline::Squiggly(c));
    assert!(matches!(
        Underline::from_parts("wavy", c),
        Err(TomlToUnderlineError::TypeParseError)
    ));
    assert_eq!(Underline::default(), Underline::Plain);
}

#[test]
fn toml_wrapper_keeps_the_file_name() {
    let t = rhotic::config::Toml::new(toml::map::Map::new(), "init.toml".to_string());
    assert_eq!(t.get_file_name().as_str(), "init.toml");
}
