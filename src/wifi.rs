//! The network name, read from a control-socket daemon's `STATUS` replies.

use vstd::prelude::*;
use crate::text::{has_prefix, starts_with, trim, trimmed};

verus! {

/// The request whose reply carries the connection status.
pub const STATUS_COMMAND: &'static str = "STATUS";

/// A message is unsolicited when it begins with `<` (a priority-tagged event)
/// or with `IFNAME=` (an event of a named interface).
pub open spec fn unsolicited(msg: Seq<char>) -> bool {
    has_prefix(msg, "<"@) || has_prefix(msg, "IFNAME="@)
}

/// Whether `msg` is an unsolicited event rather than a reply.
pub fn is_message_unsolicited(msg: &str) -> (r: bool)
    ensures
        r == unsolicited(msg@),
{
    starts_with(msg, "<") || starts_with(msg, "IFNAME=")
}

/// The index of the first newline at or after `from`, or the length of `s`.
pub open spec fn line_end(s: Seq<char>, from: int) -> int
    decreases s.len() - from,
{
    if from < 0 || from >= s.len() {
        s.len() as int
    } else if s[from] == '\n' {
        from
    } else {
        line_end(s, from + 1)
    }
}

/// Scanning `s` from `i` (`at_start`: `i` begins a line): the rest of the
/// first line that begins with `key`, after the key.
pub open spec fn field_scan(s: Seq<char>, key: Seq<char>, i: int, at_start: bool) -> Option<
    Seq<char>,
>
    decreases s.len() - i,
{
    if i < 0 || i >= s.len() {
        None
    } else if at_start && has_prefix(s.subrange(i, line_end(s, i)), key) {
        Some(s.subrange(i + key.len(), line_end(s, i)))
    } else {
        field_scan(s, key, i + 1, s[i] == '\n')
    }
}

/// The value of the `ssid=` line of a `STATUS` reply, trimmed; `None` when
/// no line begins with `ssid=`.
pub open spec fn status_ssid(msg: Seq<char>) -> Option<Seq<char>> {
    match field_scan(msg, "ssid="@, 0, true) {
        Some(v) => Some(trimmed(v)),
        None => None,
    }
}

proof fn lemma_line_end_bounds(s: Seq<char>, from: int)
    requires
        0 <= from <= s.len(),
    ensures
        from <= line_end(s, from) <= s.len(),
    decreases s.len() - from,
{
    if from < s.len() && s[from] != '\n' {
        lemma_line_end_bounds(s, from + 1);
    }
}

/// The end of the line that begins at `from`.
fn find_line_end(s: &str, n: usize, from: usize) -> (r: usize)
    requires
        n == s@.len(),
        from <= n,
    ensures
        r == line_end(s@, from as int),
        from <= r <= n,
{
    let mut j = from;
    while j < n
        invariant
            n == s@.len(),
            from <= j <= n,
            line_end(s@, from as int) == line_end(s@, j as int),
        decreases n - j,
    {
        if s.get_char(j) == '\n' {
            return j;
        }
        j = j + 1;
    }
    j
}

/// Whether the text of `s` from `start` to `end` begins with `key`.
fn range_has_prefix(s: &str, start: usize, end: usize, key: &str) -> (r: bool)
    requires
        start <= end <= s@.len(),
    ensures
        r == has_prefix(s@.subrange(start as int, end as int), key@),
{
    let k = key.unicode_len();
    if k > end - start {
        return false;
    }
    let ghost line = s@.subrange(start as int, end as int);
    let mut i: usize = 0;
    while i < k
        invariant
            k == key@.len(),
            k <= end - start,
            start <= end <= s@.len(),
            line == s@.subrange(start as int, end as int),
            i <= k,
            forall|j: int| 0 <= j < i ==> line[j] == key@[j],
        decreases k - i,
    {
        if s.get_char(start + i) != key.get_char(i) {
            assert(line.subrange(0, k as int)[i as int] != key@[i as int]);
            return false;
        }
        i = i + 1;
    }
    assert(line.subrange(0, k as int) =~= key@);
    true
}

/// The network name in a `STATUS` reply: the value of its first line that
/// begins with `ssid=`, trimmed.
pub fn ssid_of_status(msg: &str) -> (r: Option<String>)
    ensures
        match status_ssid(msg@) {
            Some(v) => r is Some && r->0@ == v,
            None => r is None,
        },
{
    let key = "ssid=";
    assert(key@ == "ssid="@);
    let n = msg.unicode_len();
    let mut i: usize = 0;
    let mut at_start = true;
    while i < n
        invariant
            n == msg@.len(),
            i <= n,
            key@ == "ssid="@,
            field_scan(msg@, key@, 0, true) == field_scan(msg@, key@, i as int, at_start),
        decreases n - i,
    {
        if at_start {
            let e = find_line_end(msg, n, i);
            if range_has_prefix(msg, i, e, key) {
                let value = msg.substring_char(i + key.unicode_len(), e);
                assert(field_scan(msg@, key@, i as int, at_start) == Some(value@));
                let t = trim(value);
                return Some(String::from_str(t));
            }
        }
        at_start = msg.get_char(i) == '\n';
        i = i + 1;
    }
    None
}

/// Decisions of the loop that follows the network name: which messages
/// publish a name, and when to ask for the status again.
pub struct StatusWatcher {
    saw_unsolicited: bool,
}

impl View for StatusWatcher {
    type V = bool;

    /// An unsolicited message has arrived during the current drain.
    closed spec fn view(&self) -> bool {
        self.saw_unsolicited
    }
}

impl StatusWatcher {
    /// A watcher at the start of a drain, with nothing seen.
    pub fn new() -> (r: StatusWatcher)
        ensures
            r@ == false,
    {
        StatusWatcher { saw_unsolicited: false }
    }

    /// Handles one drained message: an unsolicited one is noted, any other is
    /// a `STATUS` reply, whose network name is returned for publication.
    pub fn on_message(&mut self, msg: &str) -> (r: Option<Option<String>>)
        ensures
            unsolicited(msg@) ==> final(self)@ && r is None,
            !unsolicited(msg@) ==> final(self)@ == old(self)@ && r is Some && match status_ssid(
                msg@,
            ) {
                Some(v) => r->0 is Some && r->0->0@ == v,
                None => r->0 is None,
            },
    {
        if is_message_unsolicited(msg) {
            self.saw_unsolicited = true;
            None
        } else {
            Some(ssid_of_status(msg))
        }
    }

    /// Ends a drain: returns whether `STATUS` must be asked again, which is
    /// so when an unsolicited message arrived during it.
    pub fn end_of_drain(&mut self) -> (r: bool)
        ensures
            r == old(self)@,
            final(self)@ == false,
    {
        let r = self.saw_unsolicited;
        self.saw_unsolicited = false;
        r
    }
}

} // verus!
