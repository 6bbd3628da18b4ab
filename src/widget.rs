//! The widget algebra: a closed tree of renderable nodes and the combinators
//! that build it. Rendering is a pure function of the tree.

use vstd::prelude::*;
use crate::markup::{
    align_center_seq, align_left_seq, align_right_seq, color_reset_seq, color_seq, lemonbar_align_center,
    lemonbar_align_left, lemonbar_align_right, lemonbar_color, lemonbar_color_reset, lemonbar_monitor, monitor_seq,
};

verus! {

/// Where an aligned node is placed on its screen.
#[derive(Clone, Copy, Debug, PartialEq, Eq, Structural)]
pub enum Align {
    Left,
    Center,
    Right,
}

/// A renderable node.
pub enum Widget {
    /// Literal text.
    Text(String),
    /// The empty fragment.
    Empty,
    /// The first node's fragment followed by the second's.
    Pair(Box<Widget>, Box<Widget>),
    /// A screen selection, then the node.
    OnMonitor(usize, Box<Widget>),
    /// An alignment marker, then the node.
    Aligned(Align, Box<Widget>),
    /// Foreground and background colors, the node, then a color reset.
    Colored(u32, u32, Box<Widget>),
    /// `count` copies of the pad, the node, `count` copies of the pad.
    Padded(usize, Box<Widget>, Box<Widget>),
    /// `count` copies of the node.
    Repeat(usize, Box<Widget>),
    /// The node when the flag holds, else nothing.
    Conditional(bool, Box<Widget>),
}

/// `s` written `n` times in a row.
pub open spec fn repeat_seq(s: Seq<char>, n: nat) -> Seq<char>
    decreases n,
{
    if n == 0 {
        Seq::empty()
    } else {
        repeat_seq(s, (n - 1) as nat) + s
    }
}

pub open spec fn align_seq(a: Align) -> Seq<char> {
    match a {
        Align::Left => align_left_seq(),
        Align::Center => align_center_seq(),
        Align::Right => align_right_seq(),
    }
}

/// The text fragment of a node.
pub open spec fn rendered(w: Widget) -> Seq<char>
    decreases w,
{
    match w {
        Widget::Text(s) => s@,
        Widget::Empty => Seq::empty(),
        Widget::Pair(a, b) => rendered(*a) + rendered(*b),
        Widget::OnMonitor(i, d) => monitor_seq(i as nat) + rendered(*d),
        Widget::Aligned(a, d) => align_seq(a) + rendered(*d),
        Widget::Colored(f, b, d) => colored_seq(f, b, rendered(*d)),
        Widget::Padded(n, p, d) => repeat_seq(rendered(*p), n as nat) + rendered(*d)
            + repeat_seq(rendered(*p), n as nat),
        Widget::Repeat(n, d) => repeat_seq(rendered(*d), n as nat),
        Widget::Conditional(c, d) => if c {
            rendered(*d)
        } else {
            Seq::empty()
        },
    }
}

fn append_repeated(out: &mut String, s: &str, n: usize)
    ensures
        final(out)@ == old(out)@ + repeat_seq(s@, n as nat),
{
    let mut i: usize = 0;
    while i < n
        invariant
            i <= n,
            out@ == old(out)@ + repeat_seq(s@, i as nat),
        decreases n - i,
    {
        out.append(s);
        i = i + 1;
        assert(out@ =~= old(out)@ + repeat_seq(s@, i as nat));
    }
}

fn align_marker(a: Align) -> (r: &'static str)
    ensures
        r@ == align_seq(a),
{
    match a {
        Align::Left => lemonbar_align_left(),
        Align::Center => lemonbar_align_center(),
        Align::Right => lemonbar_align_right(),
    }
}

impl Widget {
    /// Renders the node to its text fragment.
    pub fn draw(&self) -> (r: String)
        ensures
            r@ == rendered(*self),
        decreases self,
    {
        match self {
            Widget::Text(s) => s.clone(),
            Widget::Empty => String::new(),
            Widget::Pair(a, b) => {
                let r = a.draw();
                r.concat(b.draw().as_str())
            },
            Widget::OnMonitor(i, d) => {
                let r = lemonbar_monitor(*i);
                r.concat(d.draw().as_str())
            },
            Widget::Aligned(a, d) => {
                let r = String::from_str(align_marker(*a));
                r.concat(d.draw().as_str())
            },
            Widget::Colored(f, b, d) => {
                let r = lemonbar_color(*f, *b);
                let r = r.concat(d.draw().as_str());
                let reset = lemonbar_color_reset();
                let r = r.concat(reset.as_str());
                assert(r@ =~= rendered(*self));
                r
            },
            Widget::Padded(n, p, d) => {
                let pad = p.draw();
                let mut r = String::new();
                append_repeated(&mut r, pad.as_str(), *n);
                r.append(d.draw().as_str());
                append_repeated(&mut r, pad.as_str(), *n);
                assert(r@ =~= rendered(*self));
                r
            },
            Widget::Repeat(n, d) => {
                let piece = d.draw();
                let mut r = String::new();
                append_repeated(&mut r, piece.as_str(), *n);
                assert(r@ =~= rendered(*self));
                r
            },
            Widget::Conditional(c, d) => {
                if *c {
                    d.draw()
                } else {
                    String::new()
                }
            },
        }
    }
}


/// Fully transparent: the color of the caps' surroundings.
pub const TRANSPARENT: u32 = 0x00000000;

/// `color_seq(fg, bg)`, `body`, then both colors reset.
pub open spec fn colored_seq(foreground: u32, background: u32, body: Seq<char>) -> Seq<char> {
    color_seq(foreground, background) + body + color_reset_seq()
}

/// `n` spaces, `body`, `n` spaces.
pub open spec fn spaced_seq(n: nat, body: Seq<char>) -> Seq<char> {
    repeat_seq(" "@, n) + body + repeat_seq(" "@, n)
}

/// A panel that opens with a cap on its left.
pub open spec fn right_panel_seq(foreground: u32, background: u32, cap: Seq<char>, body: Seq<char>) -> Seq<char> {
    colored_seq(background, TRANSPARENT, cap) + colored_seq(foreground, background, spaced_seq(1, body))
        + color_reset_seq()
}

/// A panel with a cap on each side.
pub open spec fn center_panel_seq(
    foreground: u32,
    background: u32,
    left_cap: Seq<char>,
    right_cap: Seq<char>,
    body: Seq<char>,
) -> Seq<char> {
    colored_seq(background, TRANSPARENT, left_cap) + colored_seq(foreground, background, spaced_seq(1, body))
        + colored_seq(background, TRANSPARENT, right_cap) + color_reset_seq()
}

/// A panel that closes with a cap on its right.
pub open spec fn left_panel_seq(foreground: u32, background: u32, cap: Seq<char>, body: Seq<char>) -> Seq<char> {
    colored_seq(foreground, background, spaced_seq(1, body)) + colored_seq(background, TRANSPARENT, cap)
        + color_reset_seq()
}

pub open spec fn right_arrow_seq() -> Seq<char> {
    seq!['\u{e0b0}']
}

pub open spec fn left_arrow_seq() -> Seq<char> {
    seq!['\u{e0b2}']
}

pub open spec fn left_angle_seq() -> Seq<char> {
    seq!['\u{e0be}']
}

pub open spec fn right_angle_seq() -> Seq<char> {
    seq!['\u{e0bc}']
}

pub open spec fn folder_seq() -> Seq<char> {
    seq!['\u{f115}']
}

pub open spec fn clock_seq() -> Seq<char> {
    seq!['\u{f64f}']
}

pub fn char_right_arrow() -> (r: &'static str)
    ensures
        r@ == right_arrow_seq(),
{
    proof {
        reveal_strlit("\u{e0b0}");
    }
    "\u{e0b0}"
}

pub fn char_left_arrow() -> (r: &'static str)
    ensures
        r@ == left_arrow_seq(),
{
    proof {
        reveal_strlit("\u{e0b2}");
    }
    "\u{e0b2}"
}

pub fn char_left_angle() -> (r: &'static str)
    ensures
        r@ == left_angle_seq(),
{
    proof {
        reveal_strlit("\u{e0be}");
    }
    "\u{e0be}"
}

pub fn char_right_angle() -> (r: &'static str)
    ensures
        r@ == right_angle_seq(),
{
    proof {
        reveal_strlit("\u{e0bc}");
    }
    "\u{e0bc}"
}

pub fn char_folder() -> (r: &'static str)
    ensures
        r@ == folder_seq(),
{
    proof {
        reveal_strlit("\u{f115}");
    }
    "\u{f115}"
}

pub fn char_space() -> (r: &'static str)
    ensures
        r@ == " "@,
{
    " "
}

pub fn char_clock() -> (r: &'static str)
    ensures
        r@ == clock_seq(),
{
    proof {
        reveal_strlit("\u{f64f}");
    }
    "\u{f64f}"
}

/// A literal node.
pub fn widget_text(s: &str) -> (r: Widget)
    ensures
        rendered(r) == s@,
{
    Widget::Text(String::from_str(s))
}

/// The concatenation of two nodes, in order.
pub fn widget_pair(a: Widget, b: Widget) -> (r: Widget)
    ensures
        rendered(r) == rendered(a) + rendered(b),
{
    Widget::Pair(Box::new(a), Box::new(b))
}

pub fn widget_on_monitor(index: usize, d: Widget) -> (r: Widget)
    ensures
        rendered(r) == monitor_seq(index as nat) + rendered(d),
{
    Widget::OnMonitor(index, Box::new(d))
}

pub fn widget_repeat(count: usize, d: Widget) -> (r: Widget)
    ensures
        rendered(r) == repeat_seq(rendered(d), count as nat),
{
    Widget::Repeat(count, Box::new(d))
}

pub fn widget_conditional(condition: bool, d: Widget) -> (r: Widget)
    ensures
        rendered(r) == (if condition {
            rendered(d)
        } else {
            Seq::<char>::empty()
        }),
{
    Widget::Conditional(condition, Box::new(d))
}

pub fn widget_padded(count: usize, pad: Widget, d: Widget) -> (r: Widget)
    ensures
        rendered(r) == repeat_seq(rendered(pad), count as nat) + rendered(d) + repeat_seq(
            rendered(pad),
            count as nat,
        ),
{
    Widget::Padded(count, Box::new(pad), Box::new(d))
}

/// `count` spaces on each side of the node.
pub fn widget_pad_whitespace(count: usize, d: Widget) -> (r: Widget)
    ensures
        rendered(r) == spaced_seq(count as nat, rendered(d)),
{
    widget_padded(count, widget_text(char_space()), d)
}

pub fn widget_align_left(d: Widget) -> (r: Widget)
    ensures
        rendered(r) == align_left_seq() + rendered(d),
{
    Widget::Aligned(Align::Left, Box::new(d))
}

pub fn widget_align_center(d: Widget) -> (r: Widget)
    ensures
        rendered(r) == align_center_seq() + rendered(d),
{
    Widget::Aligned(Align::Center, Box::new(d))
}

pub fn widget_align_right(d: Widget) -> (r: Widget)
    ensures
        rendered(r) == align_right_seq() + rendered(d),
{
    Widget::Aligned(Align::Right, Box::new(d))
}

pub fn widget_colored(foreground: u32, background: u32, d: Widget) -> (r: Widget)
    ensures
        rendered(r) == colored_seq(foreground, background, rendered(d)),
{
    Widget::Colored(foreground, background, Box::new(d))
}

fn widget_color_reset() -> (r: Widget)
    ensures
        rendered(r) == color_reset_seq(),
{
    Widget::Text(lemonbar_color_reset())
}

pub fn widget_right_panel(foreground: u32, background: u32, cap: Widget, d: Widget) -> (r: Widget)
    ensures
        rendered(r) == right_panel_seq(foreground, background, rendered(cap), rendered(d)),
{
    let r = widget_pair(
        widget_colored(background, TRANSPARENT, cap),
        widget_pair(
            widget_colored(foreground, background, widget_pad_whitespace(1, d)),
            widget_color_reset(),
        ),
    );
    assert(rendered(r) =~= right_panel_seq(foreground, background, rendered(cap), rendered(d)));
    r
}

pub fn widget_center_panel(
    foreground: u32,
    background: u32,
    left_cap: Widget,
    right_cap: Widget,
    d: Widget,
) -> (r: Widget)
    ensures
        rendered(r) == center_panel_seq(
            foreground,
            background,
            rendered(left_cap),
            rendered(right_cap),
            rendered(d),
        ),
{
    let r = widget_pair(
        widget_colored(background, TRANSPARENT, left_cap),
        widget_pair(
            widget_colored(foreground, background, widget_pad_whitespace(1, d)),
            widget_pair(widget_colored(background, TRANSPARENT, right_cap), widget_color_reset()),
        ),
    );
    assert(rendered(r) =~= center_panel_seq(
        foreground,
        background,
        rendered(left_cap),
        rendered(right_cap),
        rendered(d),
    ));
    r
}

pub fn widget_left_panel(foreground: u32, background: u32, right_cap: Widget, d: Widget) -> (r: Widget)
    ensures
        rendered(r) == left_panel_seq(foreground, background, rendered(right_cap), rendered(d)),
{
    let r = widget_pair(
        widget_colored(foreground, background, widget_pad_whitespace(1, d)),
        widget_pair(widget_colored(background, TRANSPARENT, right_cap), widget_color_reset()),
    );
    assert(rendered(r) =~= left_panel_seq(foreground, background, rendered(right_cap), rendered(d)));
    r
}

pub fn widget_left_arrow_panel(foreground: u32, background: u32, d: Widget) -> (r: Widget)
    ensures
        rendered(r) == left_panel_seq(foreground, background, right_arrow_seq(), rendered(d)),
{
    widget_left_panel(foreground, background, widget_text(char_right_arrow()), d)
}

pub fn widget_right_arrow_panel(foreground: u32, background: u32, d: Widget) -> (r: Widget)
    ensures
        rendered(r) == right_panel_seq(foreground, background, left_arrow_seq(), rendered(d)),
{
    widget_right_panel(foreground, background, widget_text(char_left_arrow()), d)
}

pub fn widget_angle_center_panel(foreground: u32, background: u32, d: Widget) -> (r: Widget)
    ensures
        rendered(r) == center_panel_seq(
            foreground,
            background,
            left_angle_seq(),
            right_angle_seq(),
            rendered(d),
        ),
{
    widget_center_panel(
        foreground,
        background,
        widget_text(char_left_angle()),
        widget_text(char_right_angle()),
        d,
    )
}

} // verus!
