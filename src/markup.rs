//! Lemonbar control sequences: alignment, screen selection and colors.

use vstd::prelude::*;

verus! {

/// The sixteen hexadecimal digits, upper case; the first ten are the decimal digits.
pub open spec fn digit_alphabet() -> Seq<char> {
    seq!['0', '1', '2', '3', '4', '5', '6', '7', '8', '9', 'A', 'B', 'C', 'D', 'E', 'F']
}

/// The last `width` hexadecimal digits of `n`, most significant first.
pub open spec fn hex_digits(n: nat, width: nat) -> Seq<char>
    decreases width,
{
    if width == 0 {
        Seq::empty()
    } else {
        hex_digits(n / 16, (width - 1) as nat).push(digit_alphabet()[(n % 16) as int])
    }
}

/// The decimal digits of `n`, most significant first, without leading zeros.
pub open spec fn decimal_digits(n: nat) -> Seq<char>
    decreases n,
{
    if n < 10 {
        seq![digit_alphabet()[n as int]]
    } else {
        decimal_digits(n / 10).push(digit_alphabet()[(n % 10) as int])
    }
}

pub open spec fn align_left_seq() -> Seq<char> {
    "%{l}"@
}

pub open spec fn align_center_seq() -> Seq<char> {
    "%{c}"@
}

pub open spec fn align_right_seq() -> Seq<char> {
    "%{r}"@
}

/// `%{F-}%{B-}`: both colors back to the bar's defaults.
pub open spec fn color_reset_seq() -> Seq<char> {
    "%{F-}"@ + "%{B-}"@
}

/// `%{F#AARRGGBB}`.
pub open spec fn foreground_seq(color: u32) -> Seq<char> {
    "%{F#"@ + hex_digits(color as nat, 8) + "}"@
}

/// `%{B#AARRGGBB}`.
pub open spec fn background_seq(color: u32) -> Seq<char> {
    "%{B#"@ + hex_digits(color as nat, 8) + "}"@
}

pub open spec fn color_seq(foreground: u32, background: u32) -> Seq<char> {
    foreground_seq(foreground) + background_seq(background)
}

/// `%{S<index>}`: what follows goes to the screen of that index.
pub open spec fn monitor_seq(index: nat) -> Seq<char> {
    "%{S"@ + decimal_digits(index) + "}"@
}

/// One digit as a one-character string.
fn digit(d: u32) -> (r: &'static str)
    requires
        d < 16,
    ensures
        r@ == seq![digit_alphabet()[d as int]],
{
    let all = "0123456789ABCDEF";
    proof {
        reveal_strlit("0123456789ABCDEF");
    }
    let r = all.substring_char(d as usize, d as usize + 1);
    assert(r@ =~= seq![digit_alphabet()[d as int]]);
    r
}

fn append_hex(out: &mut String, n: u32, width: u32)
    ensures
        final(out)@ == old(out)@ + hex_digits(n as nat, width as nat),
    decreases width,
{
    if width > 0 {
        append_hex(out, n / 16, width - 1);
        out.append(digit(n % 16));
        assert(final(out)@ =~= old(out)@ + hex_digits(n as nat, width as nat));
    }
}

fn append_decimal(out: &mut String, n: usize)
    ensures
        final(out)@ == old(out)@ + decimal_digits(n as nat),
    decreases n,
{
    if n < 10 {
        out.append(digit(n as u32));
    } else {
        append_decimal(out, n / 10);
        out.append(digit((n % 10) as u32));
        assert(final(out)@ =~= old(out)@ + decimal_digits(n as nat));
    }
}

pub fn lemonbar_align_left() -> (r: &'static str)
    ensures
        r@ == align_left_seq(),
{
    "%{l}"
}

pub fn lemonbar_align_center() -> (r: &'static str)
    ensures
        r@ == align_center_seq(),
{
    "%{c}"
}

pub fn lemonbar_align_right() -> (r: &'static str)
    ensures
        r@ == align_right_seq(),
{
    "%{r}"
}

pub fn lemonbar_foreground_reset() -> (r: &'static str)
    ensures
        r@ == "%{F-}"@,
{
    "%{F-}"
}

pub fn lemonbar_background_reset() -> (r: &'static str)
    ensures
        r@ == "%{B-}"@,
{
    "%{B-}"
}

pub fn lemonbar_color_reset() -> (r: String)
    ensures
        r@ == color_reset_seq(),
{
    let mut r = String::from_str(lemonbar_foreground_reset());
    r.append(lemonbar_background_reset());
    r
}

pub fn lemonbar_foreground(color: u32) -> (r: String)
    ensures
        r@ == foreground_seq(color),
{
    let mut r = String::from_str("%{F#");
    append_hex(&mut r, color, 8);
    r.append("}");
    r
}

pub fn lemonbar_background(color: u32) -> (r: String)
    ensures
        r@ == background_seq(color),
{
    let mut r = String::from_str("%{B#");
    append_hex(&mut r, color, 8);
    r.append("}");
    r
}

pub fn lemonbar_color(foreground: u32, background: u32) -> (r: String)
    ensures
        r@ == color_seq(foreground, background),
{
    let r = lemonbar_foreground(foreground);
    let b = lemonbar_background(background);
    r.concat(b.as_str())
}

pub fn lemonbar_monitor(index: usize) -> (r: String)
    ensures
        r@ == monitor_seq(index as nat),
{
    let mut r = String::from_str("%{S");
    append_decimal(&mut r, index);
    r.append("}");
    r
}

} // verus!
