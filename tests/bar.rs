use statusbar::bar::{render_bar, widget_bar, widget_bar_at, widget_desktops, Layout};
use statusbar::context::{find_key, find_name, Context, Event};
use statusbar::markup::{
    lemonbar_background, lemonbar_color, lemonbar_color_reset, lemonbar_foreground, lemonbar_monitor,
};
use statusbar::sources::{parse_record, parse_records, split_on, strip_terminator, RecordError, WmRecord};
use statusbar::widget::{
    widget_align_center, widget_colored, widget_conditional, widget_pad_whitespace, widget_padded, widget_pair, widget_repeat,
    widget_text, Widget,
};

const FG: &str = "%{F#FFF8F8F2}%{B#FF44475A}";
const CAP: &str = "%{F#FF44475A}%{B#00000000}";
const RESET: &str = "%{F-}%{B-}";

fn s(x: &str) -> String {
    x.to_string()
}

fn sample_context() -> Context {
    Context::new(
        vec![s("A"), s("B"), s("C")],
        vec![
            (s("A"), vec![s("I"), s("II")]),
            (s("B"), vec![s("III")]),
            (s("C"), vec![s("IV")]),
        ],
        vec![(s("A"), s("I")), (s("B"), s("III")), (s("C"), s("IV"))],
        s("A"),
        s("dev"),
        None,
    )
}

fn sample_layout() -> Layout {
    Layout { left: s("B"), center: s("A"), right: s("C") }
}

fn indicator(icon: &str, workspace: &str) -> String {
    format!("%{{c}}{CAP}\u{e0be}{RESET}{FG} {icon}{workspace} {RESET}{CAP}\u{e0bc}{RESET}{RESET}")
}

fn left_panel(body: &str) -> String {
    format!("{FG} {body} {RESET}{CAP}\u{e0b0}{RESET}{RESET}")
}

fn right_panel(body: &str) -> String {
    format!("{CAP}\u{e0b2}{RESET}{FG} {body} {RESET}{RESET}")
}

#[test]
fn color_sequences_are_fixed_width_hex() {
    assert_eq!(lemonbar_foreground(0xFF282A36), "%{F#FF282A36}");
    assert_eq!(lemonbar_background(0x0000000F), "%{B#0000000F}");
    assert_eq!(lemonbar_color(0xFFFFFFFF, 0), "%{F#FFFFFFFF}%{B#00000000}");
    assert_eq!(lemonbar_color_reset(), "%{F-}%{B-}");
}

#[test]
fn monitor_sequence_is_decimal() {
    assert_eq!(lemonbar_monitor(0), "%{S0}");
    assert_eq!(lemonbar_monitor(12), "%{S12}");
    assert_eq!(lemonbar_monitor(305), "%{S305}");
}

#[test]
fn padding_with_spaces_is_symmetric() {
    let w = widget_pad_whitespace(3, widget_text("x"));
    assert_eq!(w.draw(), "   x   ");
    let w = widget_pad_whitespace(0, widget_text("x"));
    assert_eq!(w.draw(), "x");
}

#[test]
fn padding_with_any_unit() {
    let w = widget_padded(2, widget_text("-="), widget_text("mid"));
    assert_eq!(w.draw(), "-=-=mid-=-=");
}

#[test]
fn repeat_and_conditional() {
    assert_eq!(widget_repeat(3, widget_text("ab")).draw(), "ababab");
    assert_eq!(widget_repeat(0, widget_text("ab")).draw(), "");
    assert_eq!(widget_conditional(true, widget_text("on")).draw(), "on");
    assert_eq!(widget_conditional(false, widget_text("on")).draw(), "");
    assert_eq!(Widget::Empty.draw(), "");
}

#[test]
fn colored_ends_with_reset() {
    let w = widget_colored(0xFF50FA7B, 0xFF282A36, widget_text("x"));
    assert_eq!(w.draw(), "%{F#FF50FA7B}%{B#FF282A36}x%{F-}%{B-}");
}

#[test]
fn sequence_and_alignment() {
    let w = widget_align_center(widget_pair(widget_text("a"), widget_text("b")));
    assert_eq!(w.draw(), "%{c}ab");
}

#[test]
fn desktop_list_marks_the_focused_one() {
    let w = widget_desktops(&vec![s("I"), s("II"), s("III")], "II");
    assert_eq!(w.draw(), " I [II] III ");
    assert_eq!(widget_desktops(&vec![], "I").draw(), "");
}

#[test]
fn lookups_take_the_first_entry() {
    let names = vec![s("x"), s("y"), s("x")];
    assert_eq!(find_name(&names, "x"), Some(0));
    assert_eq!(find_name(&names, "y"), Some(1));
    assert_eq!(find_name(&names, "z"), None);
    let entries = vec![(s("k"), 1u8), (s("k"), 2u8)];
    assert_eq!(find_key(&entries, "k"), Some(0));
    assert_eq!(find_key(&entries, "j"), None);
}

#[test]
fn end_to_end_scenario() {
    let ctx = sample_context();
    let line = render_bar(&ctx, &sample_layout(), "T").unwrap();
    let a = format!(
        "%{{S0}}%{{l}}{}{}%{{r}}{}",
        left_panel("[I] II "),
        indicator("\u{f115}", "dev"),
        right_panel("T \u{f64f}")
    );
    let b = format!("%{{S1}}%{{l}}{}", left_panel("[III]"));
    let c = format!("%{{S2}}%{{l}}{}", left_panel("[IV]"));
    assert_eq!(line, format!("{a}{b}{c}"));
    assert_eq!(line.matches("%{c}").count(), 1);
}

#[test]
fn indicator_follows_focus() {
    let mut ctx = sample_context();
    let layout = sample_layout();
    let line = ctx.step(Event::MonitorFocusChanged { monitor: s("C") }, &layout, "T").unwrap();
    let c = format!("%{{S2}}%{{l}}{}{}", left_panel("[IV]"), indicator("\u{f115}", "dev"));
    assert!(line.ends_with(&c));
    assert_eq!(line.matches("%{c}").count(), 1);
    let line = ctx.step(Event::MonitorFocusChanged { monitor: s("elsewhere") }, &layout, "T").unwrap();
    assert_eq!(line.matches("%{c}").count(), 0);
}

#[test]
fn icon_replaces_folder() {
    let mut ctx = sample_context();
    let line = ctx
        .step(
            Event::WorkspaceChanged { workspace: s("web"), icon: Some(s("@")) },
            &sample_layout(),
            "T",
        )
        .unwrap();
    assert!(line.contains(&indicator("@", "web")));
}

#[test]
fn same_workspace_twice_gives_same_icon() {
    let mut ctx = sample_context();
    ctx.workspace_icon = Some(s("old"));
    ctx.apply(Event::WorkspaceChanged { workspace: s("dev"), icon: None });
    assert_eq!(ctx.workspace_icon, None);
    ctx.apply(Event::WorkspaceChanged { workspace: s("dev"), icon: None });
    assert_eq!(ctx.workspace_icon, None);
    assert_eq!(ctx.workspace, "dev");
}

#[test]
fn rendering_is_deterministic() {
    let a = sample_context();
    let b = sample_context();
    let layout = sample_layout();
    assert_eq!(render_bar(&a, &layout, "T"), render_bar(&b, &layout, "T"));
    assert_eq!(render_bar(&a, &layout, "T"), render_bar(&a, &layout, "T"));
}

#[test]
fn one_line_per_event() {
    let mut ctx = sample_context();
    let layout = sample_layout();
    let events = vec![
        Event::Tick,
        Event::DesktopFocusChanged { monitor: s("A"), desktop: s("II") },
        Event::Tick,
        Event::MonitorFocusChanged { monitor: s("B") },
        Event::DesktopFocusChanged { monitor: s("D"), desktop: s("V") },
    ];
    let lines = ctx.process(events, &layout, "T");
    assert_eq!(lines.len(), 5);
    assert!(lines[0].as_ref().unwrap().contains(&left_panel("[I] II ")));
    assert!(lines[1].as_ref().unwrap().contains(&left_panel(" I [II]")));
    assert_eq!(lines[1], lines[2]);
    assert!(lines[3].as_ref().unwrap().contains(&format!("{}{}", left_panel("[III]"), indicator("\u{f115}", "dev"))));
    assert_eq!(lines[3], lines[4]);
    assert_eq!(ctx.monitor_focused_desktops.len(), 4);
    assert_eq!(ctx.focused_monitor, "B");
}

#[test]
fn desktop_focus_replaces_entry() {
    let mut ctx = sample_context();
    ctx.set_focused_desktop(s("B"), s("X"));
    assert_eq!(ctx.monitor_focused_desktops.len(), 3);
    assert_eq!(ctx.monitor_focused_desktops[1], (s("B"), s("X")));
}

#[test]
fn unknown_monitor_fails_rendering() {
    let ctx = sample_context();
    let layout = Layout { left: s("B"), center: s("A"), right: s("Z") };
    assert!(render_bar(&ctx, &layout, "T").is_none());
    assert!(widget_bar_at(&ctx, &layout, "T").is_none());
    assert!(widget_bar(&ctx, &layout).is_none());
}

#[test]
fn bar_with_the_clock() {
    let ctx = sample_context();
    let line = widget_bar(&ctx, &sample_layout()).unwrap();
    let empty_time = render_bar(&ctx, &sample_layout(), "").unwrap();
    assert!(line.len() > empty_time.len());
    assert!(line.starts_with("%{S0}%{l}"));
}

#[test]
fn terminator_is_stripped() {
    assert_eq!(strip_terminator("dev\n"), Some(s("dev")));
    assert_eq!(strip_terminator("\n"), Some(s("")));
    assert_eq!(strip_terminator("dev"), None);
    assert_eq!(strip_terminator(""), None);
    assert_eq!(strip_terminator("a\nb\n\n"), Some(s("a\nb\n")));
}

#[test]
fn splitting_keeps_empty_pieces() {
    assert_eq!(split_on("a b  c", ' '), vec![s("a"), s("b"), s(""), s("c")]);
    assert_eq!(split_on("", ' '), vec![s("")]);
    assert_eq!(split_on("x\n", '\n'), vec![s("x"), s("")]);
}

#[test]
fn records_are_parsed() {
    match parse_record("desktop_focus 0x1 0x2").unwrap() {
        Some(WmRecord::DesktopFocus { monitor_id, desktop_id }) => {
            assert_eq!(monitor_id, "0x1");
            assert_eq!(desktop_id, "0x2");
        }
        _ => panic!("expected a desktop focus record"),
    }
    assert!(parse_record("node_add 0x1").unwrap().is_none());
    assert!(parse_record("").unwrap().is_none());
    assert_eq!(parse_record("monitor_focus").err(), Some(RecordError::MissingArgument));
    assert_eq!(parse_record("desktop_focus 0x1").err(), Some(RecordError::MissingArgument));
}

#[test]
fn chunks_hold_several_records() {
    let r = parse_records("monitor_focus 0x5\nnode_add 1 2\n\ndesktop_focus 0x5 0x9\n").unwrap();
    assert_eq!(r.len(), 2);
    match &r[0] {
        WmRecord::MonitorFocus { monitor_id } => assert_eq!(monitor_id, "0x5"),
        _ => panic!("expected a monitor focus record"),
    }
    match &r[1] {
        WmRecord::DesktopFocus { monitor_id, desktop_id } => {
            assert_eq!(monitor_id, "0x5");
            assert_eq!(desktop_id, "0x9");
        }
        _ => panic!("expected a desktop focus record"),
    }
    assert!(parse_records("").unwrap().is_empty());
    assert_eq!(parse_records("monitor_focus 0x1\nmonitor_focus\n").err(), Some(RecordError::MissingArgument));
}

#[test]
fn last_event_that_sets_a_field_wins() {
    let mut ctx = sample_context();
    let layout = sample_layout();
    let events = vec![
        Event::MonitorFocusChanged { monitor: s("B") },
        Event::WorkspaceChanged { workspace: s("web"), icon: Some(s("@")) },
        Event::DesktopFocusChanged { monitor: s("A"), desktop: s("II") },
        Event::MonitorFocusChanged { monitor: s("C") },
        Event::Tick,
        Event::WorkspaceChanged { workspace: s("mail"), icon: None },
    ];
    ctx.process(events, &layout, "T");
    assert_eq!(ctx.focused_monitor, "C");
    assert_eq!(ctx.workspace, "mail");
    assert_eq!(ctx.workspace_icon, None);
    assert_eq!(ctx.monitor_focused_desktops[0], (s("A"), s("II")));
    assert_eq!(ctx.monitor_focused_desktops[1], (s("B"), s("III")));
    assert_eq!(ctx.monitors, vec![s("A"), s("B"), s("C")]);
}
