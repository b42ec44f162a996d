//! The write-ahead log as text: one record per line.
//!
//! The log is a text file that holds one encoded entry per line, each line
//! closed by a line feed. Appending never rewrites what is there, so after
//! a crash the only damage the file can show is a last line that was cut
//! short. Replay therefore reads the lines in order, passes over blank
//! ones, and stops for good at the first line that cannot be read or
//! decoded: what came before it is the log, what comes after is not
//! trusted.
//!
//! Reading the file and decoding a line are left to the caller, who hands
//! over what each line gave.

use vstd::prelude::*;
use crate::entry::{entries_view, LogEntry, LogEntryView};

verus! {

/// Whether `c` is white space, as Unicode defines it (the code points with
/// the property `White_Space`).
pub open spec fn is_white_space(c: char) -> bool {
    let code = c as u32;
    ||| 0x09 <= code <= 0x0D
    ||| code == 0x20
    ||| code == 0x85
    ||| code == 0xA0
    ||| code == 0x1680
    ||| 0x2000 <= code <= 0x200A
    ||| code == 0x2028
    ||| code == 0x2029
    ||| code == 0x202F
    ||| code == 0x205F
    ||| code == 0x3000
}

/// Whether a line is blank: it holds nothing but white space.
pub open spec fn is_blank(text: Seq<char>) -> bool {
    forall|i: int| 0 <= i < text.len() ==> is_white_space(#[trigger] text[i])
}

/// What reading one line of the log gave.
#[derive(Debug)]
pub enum WalLine {
    /// The line could not be read.
    Unreadable,
    /// The line was read. `entry` is what decoding `text` gave, nothing
    /// where it does not decode.
    Text { text: String, entry: Option<LogEntry> },
}

/// The mathematical content of a [`WalLine`].
pub enum WalLineView {
    Unreadable,
    Text { text: Seq<char>, entry: Option<LogEntryView> },
}

impl View for WalLine {
    type V = WalLineView;

    open spec fn view(&self) -> WalLineView {
        match self {
            WalLine::Unreadable => WalLineView::Unreadable,
            WalLine::Text { text, entry } => WalLineView::Text {
                text: text@,
                entry: match entry {
                    Some(e) => Some(e@),
                    None => None,
                },
            },
        }
    }
}

/// The contents of a list of lines, in order.
pub open spec fn lines_view(lines: Seq<WalLine>) -> Seq<WalLineView> {
    lines.map_values(|l: WalLine| l@)
}

/// What replay does with one line.
pub enum LineVerdict {
    /// The line is blank: replay goes on to the next line.
    Skip,
    /// The line holds this entry: replay keeps it and goes on.
    Keep(LogEntryView),
    /// The line cannot be read or decoded: replay ends before it.
    Stop,
}

/// What replay does with `line`.
pub open spec fn line_verdict(line: WalLineView) -> LineVerdict {
    match line {
        WalLineView::Unreadable => LineVerdict::Stop,
        WalLineView::Text { text, entry } => if is_blank(text) {
            LineVerdict::Skip
        } else {
            match entry {
                Some(e) => LineVerdict::Keep(e),
                None => LineVerdict::Stop,
            }
        },
    }
}

/// The entries that replay takes from the lines of a log.
pub open spec fn replay(lines: Seq<WalLineView>) -> Seq<LogEntryView>
    decreases lines.len(),
{
    if lines.len() == 0 {
        Seq::empty()
    } else {
        match line_verdict(lines[0]) {
            LineVerdict::Skip => replay(lines.drop_first()),
            LineVerdict::Keep(e) => seq![e] + replay(lines.drop_first()),
            LineVerdict::Stop => Seq::empty(),
        }
    }
}

/// Whether replay reads the lines to the end: none of them stops it.
pub open spec fn is_intact(lines: Seq<WalLineView>) -> bool {
    forall|i: int| 0 <= i < lines.len() ==> !(line_verdict(#[trigger] lines[i]) is Stop)
}

/// Whether `c` is white space.
pub fn is_white_space_char(c: char) -> (white: bool)
    ensures
        white == is_white_space(c),
{
    let code: u32 = c as u32;
    (0x09 <= code && code <= 0x0D) || code == 0x20 || code == 0x85 || code == 0xA0 || code
        == 0x1680 || (0x2000 <= code && code <= 0x200A) || code == 0x2028 || code == 0x2029
        || code == 0x202F || code == 0x205F || code == 0x3000
}

/// Whether a line is blank: it holds nothing but white space.
pub fn is_blank_line(text: &str) -> (blank: bool)
    ensures
        blank == is_blank(text@),
{
    let mut blank = true;
    for c in it: text.chars()
        invariant
            it.seq() == text@,
            blank <==> forall|j: int| 0 <= j < it.index() ==> is_white_space(#[trigger] text@[j]),
    {
        if !is_white_space_char(c) {
            blank = false;
        }
    }
    blank
}

/// The record as it stands in the log: its text, closed by a line feed.
pub fn encode_line(record: &str) -> (line: String)
    ensures
        line@ == record@.push('\n'),
{
    proof {
        reveal_strlit("\n");
    }
    let line = String::from_str(record).concat("\n");
    assert(line@ =~= record@.push('\n'));
    line
}

/// Replays the lines of a log, given in the order in which they stand in
/// the file: returns the entries of the lines up to the first one that
/// cannot be read or decoded, blank lines passed over.
pub fn replay_wal(lines: &Vec<WalLine>) -> (entries: Vec<LogEntry>)
    ensures
        entries_view(entries@) == replay(lines_view(lines@)),
{
    let ghost all = lines_view(lines@);
    let mut entries: Vec<LogEntry> = Vec::new();
    let mut i: usize = 0;
    let mut stopped = false;
    proof {
        assert(all.skip(0) =~= all);
        assert(entries_view(entries@) + replay(all) =~= replay(all));
    }
    while i < lines.len() && !stopped
        invariant
            i <= lines.len(),
            all == lines_view(lines@),
            replay(all) == entries_view(entries@) + (if stopped {
                Seq::empty()
            } else {
                replay(all.skip(i as int))
            }),
        decreases lines.len() - i, if stopped { 0int } else { 1int },
    {
        let ghost rest = all.skip(i as int);
        let ghost kept = entries_view(entries@);
        assert(rest[0] == lines@[i as int]@);
        assert(rest.drop_first() =~= all.skip(i + 1));
        match &lines[i] {
            WalLine::Unreadable => {
                stopped = true;
            },
            WalLine::Text { text, entry } => {
                if is_blank_line(text.as_str()) {
                    i = i + 1;
                } else {
                    match entry {
                        Some(e) => {
                            entries.push(e.clone());
                            assert(entries_view(entries@) =~= kept.push(e@));
                            assert(kept.push(e@) + replay(all.skip(i + 1)) =~= kept + (seq![e@]
                                + replay(all.skip(i + 1))));
                            i = i + 1;
                        },
                        None => {
                            stopped = true;
                        },
                    }
                }
            },
        }
    }
    proof {
        if !stopped {
            assert(all.skip(i as int).len() == 0);
        }
        assert(replay(all) =~= entries_view(entries@));
    }
    entries
}

/// What replay takes from a log followed by more lines: where the log is
/// intact, what it takes from the log and then from the lines that follow;
/// otherwise what it takes from the log alone.
pub proof fn lemma_replay_concat(log: Seq<WalLineView>, more: Seq<WalLineView>)
    ensures
        replay(log + more) == (if is_intact(log) {
            replay(log) + replay(more)
        } else {
            replay(log)
        }),
    decreases log.len(),
{
    if log.len() == 0 {
        assert(log + more =~= more);
        assert(replay(log) + replay(more) =~= replay(more));
    } else {
        let rest = log.drop_first();
        assert((log + more).drop_first() =~= rest + more);
        assert((log + more)[0] == log[0]);
        lemma_replay_concat(rest, more);
        assert forall|i: int| 0 <= i < rest.len() implies rest[i] == log[i + 1] by {}
        if is_intact(log) {
            assert(!(line_verdict(log[0]) is Stop));
            assert(is_intact(rest));
            match line_verdict(log[0]) {
                LineVerdict::Keep(e) => {
                    assert(seq![e] + (replay(rest) + replay(more)) =~= (seq![e] + replay(rest))
                        + replay(more));
                },
                _ => {},
            }
        } else {
            let bad = choose|i: int| 0 <= i < log.len() && line_verdict(#[trigger] log[i]) is Stop;
            if bad > 0 {
                assert(rest[bad - 1] == log[bad]);
                assert(!is_intact(rest));
            }
        }
    }
}

/// An entry appended to an intact log is what replay returns last: it
/// returns what it returned before, and then the new entry.
pub proof fn lemma_appended_entry_is_replayed(
    log: Seq<WalLineView>,
    text: Seq<char>,
    entry: LogEntryView,
)
    requires
        is_intact(log),
        !is_blank(text),
    ensures
        replay(log.push(WalLineView::Text { text, entry: Some(entry) })) == replay(log).push(entry),
{
    let line = WalLineView::Text { text, entry: Some(entry) };
    lemma_replay_concat(log, seq![line]);
    assert(log.push(line) =~= log + seq![line]);
    let none = seq![line].drop_first();
    assert(none.len() == 0);
    assert(replay(none) =~= Seq::<LogEntryView>::empty());
    assert(replay(seq![line]) =~= seq![entry] + replay(none));
    assert(replay(seq![line]) =~= seq![entry]);
    assert(replay(log) + seq![entry] =~= replay(log).push(entry));
}

/// A last line that holds no entry adds nothing: where the last line of
/// a log was cut short, so that it is blank or does not decode, replay
/// returns what it returns of the lines before it.
pub proof fn lemma_torn_tail_is_dropped(log: Seq<WalLineView>, tail: WalLineView)
    requires
        !(line_verdict(tail) is Keep),
    ensures
        replay(log.push(tail)) == replay(log),
{
    lemma_replay_concat(log, seq![tail]);
    assert(log.push(tail) =~= log + seq![tail]);
    let none = seq![tail].drop_first();
    assert(none.len() == 0);
    assert(replay(none) =~= Seq::<LogEntryView>::empty());
    assert(replay(seq![tail]) =~= Seq::<LogEntryView>::empty());
    assert(replay(log) + Seq::<LogEntryView>::empty() =~= replay(log));
}

/// Replay never returns more entries than the log has lines.
pub proof fn lemma_replay_is_bounded(lines: Seq<WalLineView>)
    ensures
        replay(lines).len() <= lines.len(),
    decreases lines.len(),
{
    if lines.len() > 0 {
        lemma_replay_is_bounded(lines.drop_first());
    }
}

} // verus!
