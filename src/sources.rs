//! What the bar's sources hand over as text: the workspace file, query
//! answers, and the window manager's event stream.

use vstd::prelude::*;
use crate::context::names_view;

verus! {

/// `s` without its last character, when that character is a newline.
pub open spec fn stripped(s: Seq<char>) -> Option<Seq<char>> {
    if s.len() > 0 && s.last() == '\n' {
        Some(s.drop_last())
    } else {
        None
    }
}

/// Removes the one newline that ends the text; `None` when there is none.
pub fn strip_terminator(s: &str) -> (r: Option<String>)
    ensures
        r matches Some(t) ==> stripped(s@) == Some(t@),
        r is None ==> stripped(s@) is None,
{
    let n = s.unicode_len();
    if n > 0 && s.get_char(n - 1) == '\n' {
        let t = s.substring_char(0, n - 1);
        assert(t@ =~= s@.drop_last());
        Some(String::from_str(t))
    } else {
        None
    }
}

/// The pieces of `s` between occurrences of `sep`; there is always at least one.
pub open spec fn split_seq(s: Seq<char>, sep: char) -> Seq<Seq<char>>
    decreases s.len(),
{
    if s.len() == 0 {
        seq![Seq::empty()]
    } else {
        let prev = split_seq(s.drop_last(), sep);
        if s.last() == sep {
            prev.push(Seq::empty())
        } else {
            prev.update(prev.len() - 1, prev.last().push(s.last()))
        }
    }
}

proof fn lemma_split_nonempty(s: Seq<char>, sep: char)
    ensures
        split_seq(s, sep).len() >= 1,
    decreases s.len(),
{
    if s.len() > 0 {
        lemma_split_nonempty(s.drop_last(), sep);
    }
}

/// Splits `s` at each `sep`.
pub fn split_on(s: &str, sep: char) -> (r: Vec<String>)
    ensures
        names_view(r@) == split_seq(s@, sep),
{
    let n = s.unicode_len();
    let mut parts: Vec<String> = Vec::new();
    let mut start: usize = 0;
    let mut i: usize = 0;
    assert(s@.take(0) =~= Seq::<char>::empty());
    assert(names_view(parts@).push(s@.subrange(0, 0)) =~= seq![Seq::<char>::empty()]);
    while i < n
        invariant
            n == s@.len(),
            start <= i <= n,
            names_view(parts@).push(s@.subrange(start as int, i as int)) == split_seq(s@.take(i as int), sep),
        decreases n - i,
    {
        let c = s.get_char(i);
        assert(s@.take(i + 1).last() == c);
        let ghost prev = split_seq(s@.take(i as int), sep);
        proof {
            lemma_split_nonempty(s@.take(i as int), sep);
        }
        assert(s@.take(i + 1).drop_last() =~= s@.take(i as int));
        if c == sep {
            let ghost old_parts = names_view(parts@);
            parts.push(String::from_str(s.substring_char(start, i)));
            assert(names_view(parts@) =~= old_parts.push(s@.subrange(start as int, i as int)));
            start = i + 1;
            i = i + 1;
            assert(s@.take(i as int).drop_last() =~= s@.take(i - 1));
            assert(split_seq(s@.take(i as int), sep) == prev.push(Seq::<char>::empty()));
            assert(s@.subrange(start as int, i as int) =~= Seq::<char>::empty());
            assert(names_view(parts@).push(s@.subrange(start as int, i as int)) =~= split_seq(
                s@.take(i as int),
                sep,
            ));
        } else {
            i = i + 1;
            assert(s@.subrange(start as int, i as int) =~= s@.subrange(start as int, i - 1).push(c));
            assert(names_view(parts@).push(s@.subrange(start as int, i as int)) =~= split_seq(
                s@.take(i as int),
                sep,
            ));
        }
    }
    parts.push(String::from_str(s.substring_char(start, n)));
    assert(s@.take(n as int) =~= s@);
    assert(names_view(parts@) =~= split_seq(s@, sep));
    parts
}

/// A window-manager event, still in the window manager's identifiers.
pub enum WmRecord {
    /// `desktop_id` now has focus on `monitor_id`.
    DesktopFocus { monitor_id: String, desktop_id: String },
    /// `monitor_id` now holds input focus.
    MonitorFocus { monitor_id: String },
}

pub enum WmRecordView {
    DesktopFocus { monitor_id: Seq<char>, desktop_id: Seq<char> },
    MonitorFocus { monitor_id: Seq<char> },
}

impl View for WmRecord {
    type V = WmRecordView;

    open spec fn view(&self) -> WmRecordView {
        match self {
            WmRecord::DesktopFocus { monitor_id, desktop_id } => WmRecordView::DesktopFocus {
                monitor_id: monitor_id@,
                desktop_id: desktop_id@,
            },
            WmRecord::MonitorFocus { monitor_id } => WmRecordView::MonitorFocus { monitor_id: monitor_id@ },
        }
    }
}

/// A record of a known kind that lacks one of its arguments.
#[derive(Clone, Copy, Debug, PartialEq, Eq, Structural)]
pub enum RecordError {
    MissingArgument,
}

/// What one line of the stream says, given its space-separated words:
/// a record of a known kind, `None` for any other kind.
pub open spec fn record_of(words: Seq<Seq<char>>) -> Result<Option<WmRecordView>, RecordError> {
    if words[0] == "desktop_focus"@ {
        if words.len() >= 3 {
            Ok(Some(WmRecordView::DesktopFocus { monitor_id: words[1], desktop_id: words[2] }))
        } else {
            Err(RecordError::MissingArgument)
        }
    } else if words[0] == "monitor_focus"@ {
        if words.len() >= 2 {
            Ok(Some(WmRecordView::MonitorFocus { monitor_id: words[1] }))
        } else {
            Err(RecordError::MissingArgument)
        }
    } else {
        Ok(None)
    }
}

/// The records of a sequence of lines, in order; the first malformed one fails all.
pub open spec fn records_of(lines: Seq<Seq<char>>) -> Result<Seq<WmRecordView>, RecordError>
    decreases lines.len(),
{
    if lines.len() == 0 {
        Ok(Seq::empty())
    } else {
        match records_of(lines.drop_last()) {
            Err(e) => Err(e),
            Ok(prev) => match record_of(split_seq(lines.last(), ' ')) {
                Err(e) => Err(e),
                Ok(None) => Ok(prev),
                Ok(Some(rec)) => Ok(prev.push(rec)),
            },
        }
    }
}

pub open spec fn record_result_view(r: Result<Option<WmRecord>, RecordError>) -> Result<
    Option<WmRecordView>,
    RecordError,
> {
    match r {
        Ok(Some(rec)) => Ok(Some(rec@)),
        Ok(None) => Ok(None),
        Err(e) => Err(e),
    }
}

pub open spec fn records_result_view(r: Result<Vec<WmRecord>, RecordError>) -> Result<
    Seq<WmRecordView>,
    RecordError,
> {
    match r {
        Ok(v) => Ok(v@.map_values(|rec: WmRecord| rec@)),
        Err(e) => Err(e),
    }
}

/// Reads one line of the event stream.
pub fn parse_record(line: &str) -> (r: Result<Option<WmRecord>, RecordError>)
    ensures
        record_result_view(r) == record_of(split_seq(line@, ' ')),
{
    let words = split_on(line, ' ');
    proof {
        lemma_split_nonempty(line@, ' ');
    }
    let desktop_focus = String::from_str("desktop_focus");
    let monitor_focus = String::from_str("monitor_focus");
    if words[0] == desktop_focus {
        if words.len() >= 3 {
            Ok(Some(WmRecord::DesktopFocus { monitor_id: words[1].clone(), desktop_id: words[2].clone() }))
        } else {
            Err(RecordError::MissingArgument)
        }
    } else if words[0] == monitor_focus {
        if words.len() >= 2 {
            Ok(Some(WmRecord::MonitorFocus { monitor_id: words[1].clone() }))
        } else {
            Err(RecordError::MissingArgument)
        }
    } else {
        Ok(None)
    }
}

/// Reads a chunk of the event stream: newline-separated lines, each of which
/// may be empty or of a kind that is skipped.
pub fn parse_records(chunk: &str) -> (r: Result<Vec<WmRecord>, RecordError>)
    ensures
        records_result_view(r) == records_of(split_seq(chunk@, '\n')),
{
    let lines = split_on(chunk, '\n');
    let ghost ls = names_view(lines@);
    let mut out: Vec<WmRecord> = Vec::new();
    let mut i: usize = 0;
    assert(ls.take(0) =~= Seq::<Seq<char>>::empty());
    assert(out@.map_values(|rec: WmRecord| rec@) =~= Seq::<WmRecordView>::empty());
    while i < lines.len()
        invariant
            i <= lines@.len(),
            ls == names_view(lines@),
            ls == split_seq(chunk@, '\n'),
            records_of(ls.take(i as int)) == Ok::<Seq<WmRecordView>, RecordError>(
                out@.map_values(|rec: WmRecord| rec@),
            ),
        decreases lines@.len() - i,
    {
        let parsed = parse_record(lines[i].as_str());
        assert(ls.take(i + 1).drop_last() =~= ls.take(i as int));
        match parsed {
            Err(e) => {
                assert(ls.take(i + 1).last() == lines@[i as int]@);
                assert(records_of(ls.take(i + 1)) == Err::<Seq<WmRecordView>, RecordError>(e));
                proof {
                    lemma_records_err_extends(ls, i as int + 1);
                }
                assert(ls.take(ls.len() as int) =~= ls);
                assert(ls == split_seq(chunk@, '\n'));
                assert(records_of(ls) == Err::<Seq<WmRecordView>, RecordError>(e));
                return Err(e);
            },
            Ok(None) => {
                assert(ls.take(i + 1).last() == lines@[i as int]@);
            },
            Ok(Some(rec)) => {
                assert(ls.take(i + 1).last() == lines@[i as int]@);
                out.push(rec);
            },
        }
        i = i + 1;
        assert(out@.map_values(|rec: WmRecord| rec@) =~= records_of(ls.take(i as int))->Ok_0);
    }
    assert(ls.take(ls.len() as int) =~= ls);
    Ok(out)
}

/// Once a prefix of the lines fails, every longer prefix fails the same way.
proof fn lemma_records_err_extends(ls: Seq<Seq<char>>, i: int)
    requires
        0 <= i <= ls.len(),
        records_of(ls.take(i)) is Err,
    ensures
        records_of(ls.take(ls.len() as int)) == records_of(ls.take(i)),
    decreases ls.len() - i,
{
    if i < ls.len() {
        assert(ls.take(i + 1).drop_last() =~= ls.take(i));
        lemma_records_err_extends(ls, i + 1);
    }
}

} // verus!
