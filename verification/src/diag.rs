//! The diagnostic ring-buffer log.
use crate::text;
use crate::text::push_decimal;
use std::collections::VecDeque;
use vstd::prelude::*;

verus! {

/// How many diagnostic messages are kept.
pub const DIAG_CAPACITY: usize = 200;

/// The most recent diagnostic messages.
pub struct DiagLog {
    entries: VecDeque<String>,
}

impl View for DiagLog {
    type V = Seq<String>;

    /// The messages, from the oldest on.
    closed spec fn view(&self) -> Seq<String> {
        self.entries@
    }
}

/// The messages kept once one more comes in: the oldest makes room for it when the log is full.
pub open spec fn logged(entries: Seq<String>, msg: String) -> Seq<String> {
    if entries.len() >= DIAG_CAPACITY {
        entries.skip(1).push(msg)
    } else {
        entries.push(msg)
    }
}

/// The log after a sequence of messages.
pub open spec fn logged_all(entries: Seq<String>, msgs: Seq<String>) -> Seq<String>
    decreases msgs.len(),
{
    if msgs.len() == 0 {
        entries
    } else {
        logged(logged_all(entries, msgs.drop_last()), msgs.last())
    }
}

impl DiagLog {
    pub fn new() -> (r: Self)
        ensures
            r@ == Seq::<String>::empty(),
    {
        DiagLog { entries: VecDeque::new() }
    }

    /// Push a diagnostic message.
    pub fn diag(&mut self, msg: String)
        ensures
            final(self)@ == logged(old(self)@, msg),
    {
        if self.entries.len() >= DIAG_CAPACITY {
            let _oldest = self.entries.pop_front();
            assert(self.entries@ =~= old(self).entries@.skip(1));
        }
        self.entries.push_back(msg);
    }

    /// The messages, from the oldest on.
    pub fn get_diagnostics(&self) -> (r: Vec<String>)
        ensures
            r@ == self@,
    {
        let mut list: Vec<String> = Vec::new();
        let mut i: usize = 0;
        while i < self.entries.len()
            invariant
                i <= self.entries@.len(),
                list@ == self.entries@.take(i as int),
            decreases self.entries@.len() - i,
        {
            list.push(self.entries[i].clone());
            assert(list@ =~= self.entries@.take(i + 1));
            i += 1;
        }
        assert(list@ =~= self.entries@);
        list
    }
}

/// The log holds the most recent messages, in order, up to its capacity.
pub proof fn lemma_most_recent(msgs: Seq<String>)
    ensures
        logged_all(Seq::empty(), msgs) == if msgs.len() <= DIAG_CAPACITY {
            msgs
        } else {
            msgs.skip(msgs.len() - DIAG_CAPACITY)
        },
    decreases msgs.len(),
{
    if msgs.len() > 0 {
        lemma_most_recent(msgs.drop_last());
        assert(msgs.drop_last().push(msgs.last()) =~= msgs);
        if msgs.len() > DIAG_CAPACITY {
            let kept = msgs.skip(msgs.len() - DIAG_CAPACITY);
            let before = logged_all(Seq::empty(), msgs.drop_last());
            assert(before.skip(1).push(msgs.last()) =~= kept);
        }
    } else {
        assert(msgs =~= Seq::empty());
    }
}

/// Where in the source a panic happened.
#[derive(Debug, Clone, PartialEq, Eq)]
pub struct PanicLocation {
    pub file: String,
    pub line: u32,
    pub column: u32,
}

/// Where in the source a panic happened, in text.
pub open spec fn location_text(location: Option<PanicLocation>) -> Seq<char> {
    match location {
        Some(l) => l.file@ + ":"@ + text::decimal(l.line as nat) + ":"@ + text::decimal(
            l.column as nat,
        ),
        None => "unknown location"@,
    }
}

/// The line of a panic in the crash log. What is not known about it is said to be unknown.
pub fn crash_message(
    epoch_secs: Option<u64>,
    location: &Option<PanicLocation>,
    payload: &Option<String>,
) -> (r: String)
    ensures
        r@ == "[epoch:"@ + (match epoch_secs {
            Some(secs) => text::decimal(secs as nat),
            None => "unknown"@,
        }) + "] PANIC at "@ + location_text(*location) + ": "@ + (match payload {
            Some(p) => p@,
            None => "Unknown panic payload"@,
        }) + "\n"@,
{
    let mut s = "[epoch:".to_string();
    match epoch_secs {
        Some(secs) => push_decimal(&mut s, secs),
        None => s.append("unknown"),
    }
    s.append("] PANIC at ");
    let ghost head = s@;
    match location {
        Some(l) => {
            s.append(l.file.as_str());
            s.append(":");
            push_decimal(&mut s, l.line as u64);
            s.append(":");
            push_decimal(&mut s, l.column as u64);
        },
        None => s.append("unknown location"),
    }
    assert(s@ =~= head + location_text(*location));
    s.append(": ");
    match payload {
        Some(p) => s.append(p.as_str()),
        None => s.append("Unknown panic payload"),
    }
    s.append("\n");
    s
}

/// The log keeps the last 200 messages.
pub proof fn lemma_last_messages(msgs: Seq<String>)
    ensures
        logged_all(Seq::empty(), msgs).len() <= 200,
        msgs.len() <= 200 ==> logged_all(Seq::empty(), msgs) == msgs,
        msgs.len() >= 200 ==> logged_all(Seq::empty(), msgs) == msgs.skip(msgs.len() - 200),
{
    lemma_most_recent(msgs);
    if msgs.len() == 200 {
        assert(msgs.skip(0) =~= msgs);
    }
}

/// A place in the source is told as the file, the line and the column, with colons in between.
pub proof fn lemma_location(l: PanicLocation)
    ensures
        location_text(None) == "unknown location"@,
        ({
            let s = location_text(Some(l));
            let n = l.file@.len() as int;
            let line = text::decimal(l.line as nat);
            &&& s.take(n) == l.file@
            &&& s[n] == ':'
            &&& text::decimal_value(s.subrange(n + 1, n + 1 + line.len())) == l.line
            &&& s[n + 1 + line.len()] == ':'
            &&& text::decimal_value(s.skip(n + 2 + line.len())) == l.column
        }),
{
    reveal_strlit(":");
    let s = location_text(Some(l));
    let n = l.file@.len() as int;
    let line = text::decimal(l.line as nat);
    text::lemma_decimal(l.line as nat);
    text::lemma_decimal(l.column as nat);
    assert(s.take(n) =~= l.file@);
    assert(s.subrange(n + 1, n + 1 + line.len()) =~= line);
    assert(s.skip(n + 2 + line.len()) =~= text::decimal(l.column as nat));
}

} // verus!
