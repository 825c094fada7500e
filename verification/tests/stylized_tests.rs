use rsearch::stylized::{rgb_to_ansi256, Colour, Coloured, Style};

#[test]
fn ansi256_grey_ramp_and_corners() {
    assert_eq!(rgb_to_ansi256(0, 0, 0), 16);
    assert_eq!(rgb_to_ansi256(5, 5, 5), 16);
    assert_eq!(rgb_to_ansi256(255, 255, 255), 231);
    assert_eq!(rgb_to_ansi256(250, 250, 250), 231);
    assert_eq!(rgb_to_ansi256(8, 8, 8), 232);
    assert_eq!(rgb_to_ansi256(128, 128, 128), 244);
    assert_eq!(rgb_to_ansi256(248, 248, 248), 255);
}

#[test]
fn ansi256_colour_cube() {
    assert_eq!(rgb_to_ansi256(255, 0, 0), 196);
    assert_eq!(rgb_to_ansi256(0, 255, 0), 46);
    assert_eq!(rgb_to_ansi256(0, 0, 255), 21);
    assert_eq!(rgb_to_ansi256(33, 222, 137), 79);
}

#[test]
fn as_ansi_renders_decimal() {
    assert_eq!(Colour::RGB(255, 0, 0).as_ansi(), "196");
    assert_eq!(Colour::RGB(0, 0, 0).as_ansi(), "16");
    assert_eq!(Colour::RGB(255, 255, 255).as_ansi(), "231");
}

#[test]
fn named_colours() {
    assert_eq!(Colour::red(), Colour::RGB(255, 0, 0));
    assert_eq!(Colour::grey(), Colour::RGB(128, 128, 128));
    assert_eq!(Colour::white(), Colour::RGB(255, 255, 255));
}

#[test]
fn simple_styles_wrap_in_codes() {
    assert_eq!("hello".bold(), "\x1b[1mhello\x1b[0m");
    assert_eq!("hello".faint(), "\x1b[2mhello\x1b[0m");
    assert_eq!("hello".italic(), "\x1b[3mhello\x1b[0m");
    assert_eq!("hello".underline(), "\x1b[4mhello\x1b[0m");
    assert_eq!("hello".inverse_colour(), "\x1b[7mhello\x1b[0m");
    assert_eq!("hello".conceal(), "\x1b[8mhello\x1b[0m");
}

#[test]
fn colours_wrap_in_palette_codes() {
    assert_eq!("hi".red(), "\x1b[38;5;196mhi\x1b[0m");
    assert_eq!("hi".background_red(), "\x1b[48;5;196mhi\x1b[0m");
    assert_eq!(
        "hi".colour(Colour::RGB(33, 222, 137)),
        "\x1b[38;5;79mhi\x1b[0m"
    );
    assert_eq!(
        "hi".to_string().background_colour(Colour::RGB(0, 0, 0)),
        "\x1b[48;5;16mhi\x1b[0m"
    );
}

#[test]
fn reset_is_not_doubled() {
    let once = "x".bold();
    assert_eq!(once, "\x1b[1mx\x1b[0m");
    let twice = once.red();
    assert_eq!(twice, "\x1b[38;5;196m\x1b[1mx\x1b[0m");
}

#[test]
fn string_and_str_style_alike() {
    assert_eq!("abc".bold(), "abc".to_string().bold());
    assert_eq!("abc".green(), "abc".to_string().green());
}

#[test]
fn interpolate_walks_the_line() {
    let black = Colour::RGB(0, 0, 0);
    let white = Colour::RGB(255, 255, 255);
    assert_eq!(black.interpolate(&white, 0, 2), Colour::RGB(0, 0, 0));
    assert_eq!(black.interpolate(&white, 1, 2), Colour::RGB(127, 127, 127));
    let red = Colour::RGB(255, 0, 0);
    let blue = Colour::RGB(0, 0, 255);
    assert_eq!(red.interpolate(&blue, 1, 2), Colour::RGB(128, 0, 127));
}

#[test]
fn gradient_colours_each_character() {
    let styled = "ab"
        .to_string()
        .style(Style::Gradient(Colour::RGB(0, 0, 0), Colour::RGB(255, 255, 255)));
    assert_eq!(styled, "\x1b[38;5;16ma\x1b[38;5;244mb\x1b[0m");
}

#[test]
fn gradient_of_empty_text_is_a_reset() {
    let styled = ""
        .to_string()
        .style(Style::Gradient(Colour::RGB(0, 0, 0), Colour::RGB(255, 255, 255)));
    assert_eq!(styled, "\x1b[0m");
}
