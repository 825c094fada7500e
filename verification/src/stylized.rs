//! Terminal text styling: wraps text in ANSI escape codes for styles,
//! 256-colour foregrounds and backgrounds, and per-character gradients.

use vstd::prelude::*;

verus! {

use vstd::string::StringExecFns;
use vstd::string::StrSliceExecFns;

/// A colour given by its red, green and blue components.
#[derive(Clone, Copy, PartialEq, Eq, Structural, Debug)]
pub enum Colour {
    RGB(u8, u8, u8),
}

/// A way of rendering a piece of text.
#[derive(Clone, Copy, PartialEq, Eq, Structural, Debug)]
pub enum Style {
    Bold,
    Faint,
    Italic,
    Underline,
    InverseColoured,
    Conceal,
    Colour(Colour),
    Background(Colour),
    Gradient(Colour, Colour),
}

// ---------------------------------------------------------------------------
// Mapping an RGB triple onto the 256-colour ANSI palette.
// ---------------------------------------------------------------------------

/// Nearest step on the 24-entry grey ramp for a grey level `v` (8 <= v <= 248):
/// the rounded value of (v - 8) * 24 / 247, computed exactly over the integers.
pub open spec fn grey_ramp_step(v: u8) -> int {
    ((v - 8) * 48 + 247) / 494
}

/// Nearest step on one axis of the 6x6x6 colour cube for a component `v`:
/// the rounded value of v * 5 / 255, computed exactly over the integers.
pub open spec fn cube_step(v: u8) -> int {
    (v * 10 + 255) / 510
}

/// The 256-colour palette entry for an RGB triple: greys go to the grey ramp
/// (or to the cube's black and white corners at the extremes), everything
/// else to the 6x6x6 colour cube starting at entry 16.
pub open spec fn ansi256_of(r: u8, g: u8, b: u8) -> u8 {
    if r == g && g == b {
        if r < 8 {
            16
        } else if r > 248 {
            231
        } else {
            (232 + grey_ramp_step(r)) as u8
        }
    } else {
        (16 + 36 * cube_step(r) + 6 * cube_step(g) + cube_step(b)) as u8
    }
}

/// Maps an RGB triple onto the 256-colour ANSI palette.
pub fn rgb_to_ansi256(r: u8, g: u8, b: u8) -> (n: u8)
    ensures
        n == ansi256_of(r, g, b),
{
    if r == g && g == b {
        if r < 8 {
            return 16;
        }
        if r > 248 {
            return 231;
        }
        return (((r as u32 - 8) * 48 + 247) / 494) as u8 + 232;
    }
    let rr = ((r as u32 * 10 + 255) / 510) as u8;
    let gg = ((g as u32 * 10 + 255) / 510) as u8;
    let bb = ((b as u32 * 10 + 255) / 510) as u8;
    16 + 36 * rr + 6 * gg + bb
}

// ---------------------------------------------------------------------------
// Decimal rendering of a palette entry.
// ---------------------------------------------------------------------------

/// The character for one decimal digit.
pub open spec fn digit_char(d: int) -> char {
    if d == 0 {
        '0'
    } else if d == 1 {
        '1'
    } else if d == 2 {
        '2'
    } else if d == 3 {
        '3'
    } else if d == 4 {
        '4'
    } else if d == 5 {
        '5'
    } else if d == 6 {
        '6'
    } else if d == 7 {
        '7'
    } else if d == 8 {
        '8'
    } else {
        '9'
    }
}

/// The decimal digits of a non-negative number, most significant first.
pub open spec fn dec_digits(n: int) -> Seq<char>
    decreases n,
{
    if n < 10 {
        seq![digit_char(n)]
    } else {
        dec_digits(n / 10).push(digit_char(n % 10))
    }
}

fn digit_of(d: u8) -> (c: char)
    requires
        d < 10,
    ensures
        c == digit_char(d as int),
{
    if d == 0 {
        '0'
    } else if d == 1 {
        '1'
    } else if d == 2 {
        '2'
    } else if d == 3 {
        '3'
    } else if d == 4 {
        '4'
    } else if d == 5 {
        '5'
    } else if d == 6 {
        '6'
    } else if d == 7 {
        '7'
    } else if d == 8 {
        '8'
    } else {
        '9'
    }
}

/// Relies on String::push: appends the given character to the end of the string.
#[verifier::external_body]
fn push_char(s: &mut String, c: char)
    ensures
        final(s)@ == old(s)@.push(c),
{
    s.push(c)
}

/// Renders a byte as its decimal digits.
pub fn decimal_string(n: u8) -> (r: String)
    ensures
        r@ == dec_digits(n as int),
{
    let mut s = String::new();
    if n >= 100 {
        push_char(&mut s, digit_of(n / 100));
    }
    if n >= 10 {
        push_char(&mut s, digit_of((n / 10) % 10));
    }
    push_char(&mut s, digit_of(n % 10));
    proof {
        reveal_with_fuel(dec_digits, 4);
        assert(s@ =~= dec_digits(n as int));
    }
    s
}

// ---------------------------------------------------------------------------
// The escape sequences a styled string is made of.
// ---------------------------------------------------------------------------

/// The escape sequence that resets all styling.
pub open spec fn reset_code() -> Seq<char> {
    "\x1b[0m"@
}

/// The code that introduces a simple (non-colour) style.
pub open spec fn simple_code(style: Style) -> Seq<char> {
    match style {
        Style::Bold => "\x1b[1m"@,
        Style::Faint => "\x1b[2m"@,
        Style::Italic => "\x1b[3m"@,
        Style::Underline => "\x1b[4m"@,
        Style::InverseColoured => "\x1b[7m"@,
        Style::Conceal => "\x1b[8m"@,
        _ => Seq::empty(),
    }
}

/// The palette entry of a colour.
pub open spec fn palette_of(c: Colour) -> int {
    match c {
        Colour::RGB(r, g, b) => ansi256_of(r, g, b) as int,
    }
}

/// The escape sequence selecting a foreground colour.
pub open spec fn fg_code(c: Colour) -> Seq<char> {
    "\x1b[38;5;"@ + dec_digits(palette_of(c)) + "m"@
}

/// The escape sequence selecting a background colour.
pub open spec fn bg_code(c: Colour) -> Seq<char> {
    "\x1b[48;5;"@ + dec_digits(palette_of(c)) + "m"@
}

/// Whether the text already ends with the reset sequence.
pub open spec fn ends_with_reset(s: Seq<char>) -> bool {
    s.len() >= reset_code().len() && s.subrange(
        s.len() - reset_code().len(),
        s.len() as int,
    ) == reset_code()
}

/// The text followed by the reset sequence, unless it already ends with it.
pub open spec fn with_reset(s: Seq<char>) -> Seq<char> {
    if ends_with_reset(s) {
        s
    } else {
        s + reset_code()
    }
}

/// A style or colour code, then the text, reset-terminated.
pub open spec fn ansii_wrapped(text: Seq<char>, code: Seq<char>) -> Seq<char> {
    code + with_reset(text)
}

// ---------------------------------------------------------------------------
// Colour interpolation and gradients.
// ---------------------------------------------------------------------------

/// Linear interpolation between two colour components at position i of n,
/// with the fractional part dropped (truncation towards the start value).
pub open spec fn lerp(x: u8, y: u8, i: int, n: int) -> int {
    if y >= x {
        x + (y - x) * i / n
    } else {
        x - (x - y) * i / n
    }
}

/// The colour at position i of n on the straight line between two colours.
pub open spec fn interpolate_of(a: Colour, b: Colour, i: int, n: int) -> Colour {
    match (a, b) {
        (Colour::RGB(r1, g1, b1), Colour::RGB(r2, g2, b2)) => Colour::RGB(
            lerp(r1, r2, i, n) as u8,
            lerp(g1, g2, i, n) as u8,
            lerp(b1, b2, i, n) as u8,
        ),
    }
}

/// The escape-and-character piece that a gradient emits for position i.
pub open spec fn gradient_piece(text: Seq<char>, a: Colour, b: Colour, i: int) -> Seq<char> {
    "\x1b[38;5;"@ + dec_digits(palette_of(interpolate_of(a, b, i, text.len() as int))) + "m"@
        + seq![text[i]]
}

/// The first k gradient pieces of the text, in order.
pub open spec fn gradient_prefix(text: Seq<char>, a: Colour, b: Colour, k: int) -> Seq<char>
    decreases k,
{
    if k <= 0 {
        Seq::empty()
    } else {
        gradient_prefix(text, a, b, k - 1) + gradient_piece(text, a, b, k - 1)
    }
}

/// A whole gradient-styled text: every character under its own interpolated
/// colour, then a reset.
pub open spec fn gradient_styled(text: Seq<char>, a: Colour, b: Colour) -> Seq<char> {
    gradient_prefix(text, a, b, text.len() as int) + reset_code()
}

/// What styling a text with a given style produces.
pub open spec fn styled(text: Seq<char>, style: Style) -> Seq<char> {
    match style {
        Style::Colour(c) => ansii_wrapped(text, fg_code(c)),
        Style::Background(c) => ansii_wrapped(text, bg_code(c)),
        Style::Gradient(a, b) => gradient_styled(text, a, b),
        _ => ansii_wrapped(text, simple_code(style)),
    }
}

// ---------------------------------------------------------------------------
// Colours.
// ---------------------------------------------------------------------------

impl Colour {
    pub fn red() -> (c: Colour)
        ensures
            c == Colour::RGB(255, 0, 0),
    {
        Colour::RGB(255, 0, 0)
    }

    pub fn blue() -> (c: Colour)
        ensures
            c == Colour::RGB(0, 0, 255),
    {
        Colour::RGB(0, 0, 255)
    }

    pub fn green() -> (c: Colour)
        ensures
            c == Colour::RGB(0, 255, 0),
    {
        Colour::RGB(0, 255, 0)
    }

    pub fn yellow() -> (c: Colour)
        ensures
            c == Colour::RGB(255, 255, 0),
    {
        Colour::RGB(255, 255, 0)
    }

    pub fn purple() -> (c: Colour)
        ensures
            c == Colour::RGB(255, 0, 255),
    {
        Colour::RGB(255, 0, 255)
    }

    pub fn cyan() -> (c: Colour)
        ensures
            c == Colour::RGB(0, 255, 255),
    {
        Colour::RGB(0, 255, 255)
    }

    pub fn orange() -> (c: Colour)
        ensures
            c == Colour::RGB(255, 165, 0),
    {
        Colour::RGB(255, 165, 0)
    }

    pub fn pink() -> (c: Colour)
        ensures
            c == Colour::RGB(255, 192, 203),
    {
        Colour::RGB(255, 192, 203)
    }

    pub fn black() -> (c: Colour)
        ensures
            c == Colour::RGB(0, 0, 0),
    {
        Colour::RGB(0, 0, 0)
    }

    pub fn white() -> (c: Colour)
        ensures
            c == Colour::RGB(255, 255, 255),
    {
        Colour::RGB(255, 255, 255)
    }

    pub fn magenta() -> (c: Colour)
        ensures
            c == Colour::RGB(255, 0, 255),
    {
        Colour::RGB(255, 0, 255)
    }

    pub fn brown() -> (c: Colour)
        ensures
            c == Colour::RGB(165, 42, 42),
    {
        Colour::RGB(165, 42, 42)
    }

    pub fn grey() -> (c: Colour)
        ensures
            c == Colour::RGB(128, 128, 128),
    {
        Colour::RGB(128, 128, 128)
    }

    /// Renders the colour's palette entry as a decimal string.
    pub fn as_ansi(&self) -> (r: String)
        ensures
            r@ == dec_digits(palette_of(*self)),
    {
        match self {
            Colour::RGB(r, g, b) => decimal_string(rgb_to_ansi256(*r, *g, *b)),
        }
    }

    /// The colour at position `index` of `len` on the straight line from
    /// `self` to `other`.
    pub fn interpolate(&self, other: &Colour, index: usize, len: usize) -> (c: Colour)
        requires
            index < len,
        ensures
            c == interpolate_of(*self, *other, index as int, len as int),
    {
        match (self, other) {
            (Colour::RGB(r1, g1, b1), Colour::RGB(r2, g2, b2)) => Colour::RGB(
                lerp_exec(*r1, *r2, index, len),
                lerp_exec(*g1, *g2, index, len),
                lerp_exec(*b1, *b2, index, len),
            ),
        }
    }
}

proof fn lemma_lerp_bounds(x: u8, y: u8, i: int, n: int)
    requires
        0 <= i < n,
    ensures
        0 <= lerp(x, y, i, n) <= 255,
{
    if y >= x {
        let d = (y - x) as int;
        assert(d * i >= 0) by (nonlinear_arith)
            requires
                d >= 0,
                i >= 0,
        ;
        assert(d * i <= d * n) by (nonlinear_arith)
            requires
                d >= 0,
                i <= n,
        ;
        vstd::arithmetic::div_mod::lemma_div_is_ordered(d * i, d * n, n);
        vstd::arithmetic::div_mod::lemma_div_multiples_vanish(d, n);
        assert(d * n == n * d) by (nonlinear_arith);
        assert(d * i / n <= d);
        vstd::arithmetic::div_mod::lemma_div_pos_is_pos(d * i, n);
    } else {
        let d = (x - y) as int;
        assert(d * i >= 0) by (nonlinear_arith)
            requires
                d >= 0,
                i >= 0,
        ;
        assert(d * i <= d * n) by (nonlinear_arith)
            requires
                d >= 0,
                i <= n,
        ;
        vstd::arithmetic::div_mod::lemma_div_is_ordered(d * i, d * n, n);
        vstd::arithmetic::div_mod::lemma_div_multiples_vanish(d, n);
        assert(d * n == n * d) by (nonlinear_arith);
        assert(d * i / n <= d);
        vstd::arithmetic::div_mod::lemma_div_pos_is_pos(d * i, n);
    }
}

fn lerp_exec(x: u8, y: u8, i: usize, n: usize) -> (r: u8)
    requires
        i < n,
    ensures
        r as int == lerp(x, y, i as int, n as int),
{
    proof {
        lemma_lerp_bounds(x, y, i as int, n as int);
    }
    if y >= x {
        let d = (y - x) as u128;
        proof {
            vstd::arithmetic::mul::lemma_mul_upper_bound(d as int, 255, i as int, usize::MAX as int);
        }
        x + ((d * (i as u128)) / (n as u128)) as u8
    } else {
        let d = (x - y) as u128;
        proof {
            vstd::arithmetic::mul::lemma_mul_upper_bound(d as int, 255, i as int, usize::MAX as int);
        }
        x - ((d * (i as u128)) / (n as u128)) as u8
    }
}

// ---------------------------------------------------------------------------
// The styling traits.
// ---------------------------------------------------------------------------

/// Attaching a raw ANSI code to a piece of text.
pub trait Ansii: Sized {
    /// The characters of the text being styled.
    spec fn text(&self) -> Seq<char>;

    /// Prepends the given ANSI code and terminates the text with a reset.
    fn add_ansii(self, ansii: String) -> (r: String)
        ensures
            r@ == ansii_wrapped(self.text(), ansii@),
    ;
}

/// Styling a piece of text with styles, colours and gradients.
pub trait Coloured: Ansii {
    fn style(self, style: Style) -> (r: String)
        ensures
            r@ == styled(self.text(), style),
    ;

    fn colour(self, colour: Colour) -> (r: String)
        ensures
            r@ == styled(self.text(), Style::Colour(colour)),
    ;

    fn background_colour(self, colour: Colour) -> (r: String)
        ensures
            r@ == styled(self.text(), Style::Background(colour)),
    ;

    fn bold(self) -> (r: String)
        ensures
            r@ == styled(self.text(), Style::Bold),
    {
        self.style(Style::Bold)
    }

    fn faint(self) -> (r: String)
        ensures
            r@ == styled(self.text(), Style::Faint),
    {
        self.style(Style::Faint)
    }

    fn italic(self) -> (r: String)
        ensures
            r@ == styled(self.text(), Style::Italic),
    {
        self.style(Style::Italic)
    }

    fn underline(self) -> (r: String)
        ensures
            r@ == styled(self.text(), Style::Underline),
    {
        self.style(Style::Underline)
    }

    fn inverse_colour(self) -> (r: String)
        ensures
            r@ == styled(self.text(), Style::InverseColoured),
    {
        self.style(Style::InverseColoured)
    }

    fn conceal(self) -> (r: String)
        ensures
            r@ == styled(self.text(), Style::Conceal),
    {
        self.style(Style::Conceal)
    }

    fn black(self) -> (r: String)
        ensures
            r@ == styled(self.text(), Style::Colour(Colour::RGB(0, 0, 0))),
    {
        self.colour(Colour::black())
    }

    fn background_black(self) -> (r: String)
        ensures
            r@ == styled(self.text(), Style::Background(Colour::RGB(0, 0, 0))),
    {
        self.background_colour(Colour::black())
    }

    fn red(self) -> (r: String)
        ensures
            r@ == styled(self.text(), Style::Colour(Colour::RGB(255, 0, 0))),
    {
        self.colour(Colour::red())
    }

    fn background_red(self) -> (r: String)
        ensures
            r@ == styled(self.text(), Style::Background(Colour::RGB(255, 0, 0))),
    {
        self.background_colour(Colour::red())
    }

    fn green(self) -> (r: String)
        ensures
            r@ == styled(self.text(), Style::Colour(Colour::RGB(0, 255, 0))),
    {
        self.colour(Colour::green())
    }

    fn background_green(self) -> (r: String)
        ensures
            r@ == styled(self.text(), Style::Background(Colour::RGB(0, 255, 0))),
    {
        self.background_colour(Colour::green())
    }

    fn yellow(self) -> (r: String)
        ensures
            r@ == styled(self.text(), Style::Colour(Colour::RGB(255, 255, 0))),
    {
        self.colour(Colour::yellow())
    }

    fn background_yellow(self) -> (r: String)
        ensures
            r@ == styled(self.text(), Style::Background(Colour::RGB(255, 255, 0))),
    {
        self.background_colour(Colour::yellow())
    }

    fn blue(self) -> (r: String)
        ensures
            r@ == styled(self.text(), Style::Colour(Colour::RGB(0, 0, 255))),
    {
        self.colour(Colour::blue())
    }

    fn background_blue(self) -> (r: String)
        ensures
            r@ == styled(self.text(), Style::Background(Colour::RGB(0, 0, 255))),
    {
        self.background_colour(Colour::blue())
    }

    fn magenta(self) -> (r: String)
        ensures
            r@ == styled(self.text(), Style::Colour(Colour::RGB(255, 0, 255))),
    {
        self.colour(Colour::magenta())
    }

    fn background_magenta(self) -> (r: String)
        ensures
            r@ == styled(self.text(), Style::Background(Colour::RGB(255, 0, 255))),
    {
        self.background_colour(Colour::magenta())
    }

    fn cyan(self) -> (r: String)
        ensures
            r@ == styled(self.text(), Style::Colour(Colour::RGB(0, 255, 255))),
    {
        self.colour(Colour::cyan())
    }

    fn background_cyan(self) -> (r: String)
        ensures
            r@ == styled(self.text(), Style::Background(Colour::RGB(0, 255, 255))),
    {
        self.background_colour(Colour::cyan())
    }

    fn grey(self) -> (r: String)
        ensures
            r@ == styled(self.text(), Style::Colour(Colour::RGB(128, 128, 128))),
    {
        self.colour(Colour::grey())
    }

    fn background_grey(self) -> (r: String)
        ensures
            r@ == styled(self.text(), Style::Background(Colour::RGB(128, 128, 128))),
    {
        self.background_colour(Colour::grey())
    }
}

/// Whether the string already ends with the reset sequence.
fn ends_in_reset(s: &String) -> (b: bool)
    ensures
        b == ends_with_reset(s@),
{
    proof {
        reveal_strlit("\x1b[0m");
    }
    let n = s.as_str().unicode_len();
    if n < 4 {
        return false;
    }
    let c0 = s.as_str().get_char(n - 4);
    let c1 = s.as_str().get_char(n - 3);
    let c2 = s.as_str().get_char(n - 2);
    let c3 = s.as_str().get_char(n - 1);
    let b = c0 == '\x1b' && c1 == '[' && c2 == '0' && c3 == 'm';
    proof {
        let sub = s@.subrange(s@.len() - 4, s@.len() as int);
        assert(sub[0] == c0 && sub[1] == c1 && sub[2] == c2 && sub[3] == c3);
        if b {
            assert(sub =~= reset_code());
        } else {
            assert(sub != reset_code());
        }
    }
    b
}

impl Ansii for String {
    open spec fn text(&self) -> Seq<char> {
        self@
    }

    fn add_ansii(self, ansii: String) -> (r: String) {
        let mut s = self;
        if !ends_in_reset(&s) {
            s.append("\x1b[0m");
        }
        let mut r = ansii;
        r.append(s.as_str());
        r
    }
}

impl Ansii for &str {
    open spec fn text(&self) -> Seq<char> {
        self@
    }

    fn add_ansii(self, ansii: String) -> (r: String) {
        String::from_str(self).add_ansii(ansii)
    }
}

impl Coloured for String {
    fn style(self, style: Style) -> (r: String) {
        match style {
            Style::Bold => self.add_ansii(String::from_str("\x1b[1m")),
            Style::Faint => self.add_ansii(String::from_str("\x1b[2m")),
            Style::Italic => self.add_ansii(String::from_str("\x1b[3m")),
            Style::Underline => self.add_ansii(String::from_str("\x1b[4m")),
            Style::InverseColoured => self.add_ansii(String::from_str("\x1b[7m")),
            Style::Conceal => self.add_ansii(String::from_str("\x1b[8m")),
            Style::Colour(colour) => {
                let mut code = String::from_str("\x1b[38;5;");
                code.append(colour.as_ansi().as_str());
                code.append("m");
                self.add_ansii(code)
            },
            Style::Background(colour) => {
                let mut code = String::from_str("\x1b[48;5;");
                code.append(colour.as_ansi().as_str());
                code.append("m");
                self.add_ansii(code)
            },
            Style::Gradient(start, end) => {
                let n = self.as_str().unicode_len();
                let mut out = String::new();
                let mut i: usize = 0;
                while i < n
                    invariant
                        i <= n,
                        n == self@.len(),
                        out@ == gradient_prefix(self@, start, end, i as int),
                    decreases n - i,
                {
                    let c = start.interpolate(&end, i, n);
                    out.append("\x1b[38;5;");
                    out.append(c.as_ansi().as_str());
                    out.append("m");
                    push_char(&mut out, self.as_str().get_char(i));
                    proof {
                        assert(out@ =~= gradient_prefix(self@, start, end, i + 1));
                    }
                    i += 1;
                }
                out.append("\x1b[0m");
                out
            },
        }
    }

    fn colour(self, colour: Colour) -> (r: String) {
        self.style(Style::Colour(colour))
    }

    fn background_colour(self, colour: Colour) -> (r: String) {
        self.style(Style::Background(colour))
    }
}

impl Coloured for &str {
    fn style(self, style: Style) -> (r: String) {
        String::from_str(self).style(style)
    }

    fn colour(self, colour: Colour) -> (r: String) {
        self.style(Style::Colour(colour))
    }

    fn background_colour(self, colour: Colour) -> (r: String) {
        self.style(Style::Background(colour))
    }
}

} // verus!
