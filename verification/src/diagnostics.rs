//! The safety diagnostic log: the bounded records written for lifecycle facts
//! and error codes (never scripts or typed text), their numbering and loss
//! count, and the trimming that keeps the log file small.

use vstd::prelude::*;
use crate::text::{push_char, str_chars, string_from_chars, string_from_str};

verus! {

/// How many records the log file keeps.
pub const MAX_DIAGNOSTIC_EVENTS: usize = 256;

/// How many bytes the log file keeps.
pub const MAX_DIAGNOSTIC_BYTES: usize = 65536;

/// How many caller fields a record keeps.
pub const MAX_RECORD_FIELDS: usize = 16;

/// How many characters of a field name a record keeps.
pub const MAX_FIELD_NAME_CHARS: usize = 64;

/// How many characters of a field value a record keeps.
pub const MAX_FIELD_VALUE_CHARS: usize = 512;

/// How many characters of an event name a record keeps.
pub const MAX_EVENT_CHARS: usize = 128;

/// A value in a diagnostic record.
#[derive(Debug, Clone, PartialEq, Eq)]
pub enum DiagnosticValue {
    Text(String),
    Number(u64),
}

/// The first `n` characters of a text.
pub open spec fn prefix_chars(s: Seq<char>, n: nat) -> Seq<char> {
    if s.len() <= n {
        s
    } else {
        s.subrange(0, n as int)
    }
}

/// At most the first `n` characters of a text.
pub fn take_chars(s: &str, n: usize) -> (r: String)
    ensures
        r@ == prefix_chars(s@, n as nat),
{
    let chars = str_chars(s);
    if chars.len() <= n {
        string_from_chars(chars.as_slice())
    } else {
        let mut out: Vec<char> = Vec::new();
        let mut i: usize = 0;
        while i < n
            invariant
                i <= n,
                n < chars@.len(),
                out@ == chars@.subrange(0, i as int),
            decreases n - i,
        {
            out.push(chars[i]);
            i = i + 1;
            assert(out@ =~= chars@.subrange(0, i as int));
        }
        string_from_chars(out.as_slice())
    }
}

/// The view of a record entry: its name, and its value as text or number.
pub open spec fn entry_view(e: (String, DiagnosticValue)) -> (Seq<char>, Option<Seq<char>>, Option<u64>) {
    (
        e.0@,
        match e.1 {
            DiagnosticValue::Text(t) => Some(t@),
            DiagnosticValue::Number(_) => None,
        },
        match e.1 {
            DiagnosticValue::Text(_) => None,
            DiagnosticValue::Number(n) => Some(n),
        },
    )
}

/// The views of a record's entries.
pub open spec fn entries_view(v: Seq<(String, DiagnosticValue)>) -> Seq<
    (Seq<char>, Option<Seq<char>>, Option<u64>),
> {
    v.map_values(|e: (String, DiagnosticValue)| entry_view(e))
}

/// The entries of a record in the order they are set on the JSON object: the
/// first sixteen caller fields, names cut to 64 characters and values to 512,
/// then the reserved metadata (time, event name cut to 128 characters,
/// sequence number and loss count), so that no caller field can replace it.
pub open spec fn record_entries(
    event: Seq<char>,
    fields: Seq<(Seq<char>, Seq<char>)>,
    timestamp_ms: u64,
    sequence: u64,
    lost: u64,
) -> Seq<(Seq<char>, Option<Seq<char>>, Option<u64>)> {
    let kept = if fields.len() <= 16 {
        fields
    } else {
        fields.subrange(0, 16)
    };
    kept.map_values(
        |f: (Seq<char>, Seq<char>)|
            (prefix_chars(f.0, 64), Some(prefix_chars(f.1, 512)), None::<u64>),
    ) + seq![
        ("timestamp_ms"@, None, Some(timestamp_ms)),
        ("event"@, Some(prefix_chars(event, 128)), None),
        ("sequence"@, None, Some(sequence)),
        ("lost_events"@, None, Some(lost)),
    ]
}

/// The JSON object that setting entries in order builds: a later entry with
/// the same name replaces an earlier one.
pub open spec fn json_object(entries: Seq<(Seq<char>, Option<Seq<char>>, Option<u64>)>) -> Map<
    Seq<char>,
    (Option<Seq<char>>, Option<u64>),
>
    decreases entries.len(),
{
    if entries.len() == 0 {
        Map::empty()
    } else {
        json_object(entries.drop_last()).insert(
            entries.last().0,
            (entries.last().1, entries.last().2),
        )
    }
}

/// Caller fields can never replace a record's reserved metadata: in the
/// object a record builds, the time, event, sequence and loss count are
/// always the record's own.
pub proof fn lemma_reserved_metadata_wins(
    event: Seq<char>,
    fields: Seq<(Seq<char>, Seq<char>)>,
    timestamp_ms: u64,
    sequence: u64,
    lost: u64,
)
    ensures
        ({
            let object = json_object(record_entries(event, fields, timestamp_ms, sequence, lost));
            &&& object["timestamp_ms"@] == (None::<Seq<char>>, Some(timestamp_ms))
            &&& object["event"@] == (Some(prefix_chars(event, 128)), None::<u64>)
            &&& object["sequence"@] == (None::<Seq<char>>, Some(sequence))
            &&& object["lost_events"@] == (None::<Seq<char>>, Some(lost))
        }),
{
    reveal_strlit("timestamp_ms");
    reveal_strlit("event");
    reveal_strlit("sequence");
    reveal_strlit("lost_events");
    let all = record_entries(event, fields, timestamp_ms, sequence, lost);
    let e3 = all.drop_last();
    let e2 = e3.drop_last();
    let e1 = e2.drop_last();
    assert(all.last().0 == "lost_events"@);
    assert(e3.last().0 == "sequence"@);
    assert(e2.last().0 == "event"@);
    assert(e1.last().0 == "timestamp_ms"@);
    assert("lost_events"@ != "sequence"@);
    assert("lost_events"@ != "event"@);
    assert("lost_events"@ != "timestamp_ms"@);
    assert("sequence"@ != "event"@);
    assert("sequence"@ != "timestamp_ms"@);
    assert("event"@ != "timestamp_ms"@);
    assert(json_object(all) == json_object(e3).insert("lost_events"@, (None::<Seq<char>>, Some(lost))));
    assert(json_object(e3) == json_object(e2).insert("sequence"@, (None::<Seq<char>>, Some(sequence))));
    assert(json_object(e2) == json_object(e1).insert(
        "event"@,
        (Some(prefix_chars(event, 128)), None::<u64>),
    ));
    assert(json_object(e1) == json_object(e1.drop_last()).insert(
        "timestamp_ms"@,
        (None::<Seq<char>>, Some(timestamp_ms)),
    ));
}

/// The views of caller fields.
pub open spec fn fields_view(fields: Seq<(String, String)>) -> Seq<(Seq<char>, Seq<char>)> {
    fields.map_values(|f: (String, String)| (f.0@, f.1@))
}

/// The record numbering and loss count of the safety log, and where it is
/// written.
#[derive(Debug)]
pub struct SafetyDiagnostics {
    path: String,
    sequence: u64,
    lost: u64,
}

impl SafetyDiagnostics {
    /// Where the log is written.
    pub closed spec fn spec_path(&self) -> Seq<char> {
        self.path@
    }

    /// The number the next record gets.
    pub closed spec fn spec_sequence(&self) -> u64 {
        self.sequence
    }

    /// How many records were lost so far.
    pub closed spec fn spec_lost(&self) -> u64 {
        self.lost
    }

    /// A log written to `path`, with nothing recorded or lost yet.
    pub fn at(path: String) -> (r: Self)
        ensures
            r.spec_path() == path@,
            r.spec_sequence() == 0,
            r.spec_lost() == 0,
    {
        SafetyDiagnostics { path, sequence: 0, lost: 0 }
    }

    /// Where the log is written.
    pub fn path(&self) -> (r: String)
        ensures
            r@ == self.spec_path(),
    {
        self.path.clone()
    }

    /// How many records were lost so far.
    pub fn lost_events(&self) -> (r: u64)
        ensures
            r == self.spec_lost(),
    {
        self.lost
    }

    /// Counts one record that could not be queued or written.
    pub fn note_lost(&mut self)
        ensures
            final(self).spec_lost() == old(self).spec_lost().wrapping_add(1),
            final(self).spec_sequence() == old(self).spec_sequence(),
            final(self).spec_path() == old(self).spec_path(),
    {
        self.lost = self.lost.wrapping_add(1);
    }

    /// The entries of the next record, numbered with the next sequence number
    /// (which then advances, wrapping like an atomic counter).
    pub fn record(&mut self, event: &str, fields: &[(String, String)], timestamp_ms: u64) -> (r: Vec<
        (String, DiagnosticValue),
    >)
        ensures
            entries_view(r@) == record_entries(
                event@,
                fields_view(fields@),
                timestamp_ms,
                old(self).spec_sequence(),
                old(self).spec_lost(),
            ),
            final(self).spec_sequence() == old(self).spec_sequence().wrapping_add(1),
            final(self).spec_lost() == old(self).spec_lost(),
            final(self).spec_path() == old(self).spec_path(),
    {
        let kept: usize = if fields.len() <= MAX_RECORD_FIELDS {
            fields.len()
        } else {
            MAX_RECORD_FIELDS
        };
        let ghost all = fields_view(fields@);
        let ghost kept_fields = if all.len() <= 16 {
            all
        } else {
            all.subrange(0, 16)
        };
        let mut out: Vec<(String, DiagnosticValue)> = Vec::new();
        let mut i: usize = 0;
        while i < kept
            invariant
                kept == kept_fields.len(),
                kept <= fields@.len(),
                all == fields_view(fields@),
                kept_fields == (if all.len() <= 16 {
                    all
                } else {
                    all.subrange(0, 16)
                }),
                i <= kept,
                entries_view(out@) == kept_fields.subrange(0, i as int).map_values(
                    |f: (Seq<char>, Seq<char>)|
                        (prefix_chars(f.0, 64), Some(prefix_chars(f.1, 512)), None::<u64>),
                ),
            decreases kept - i,
        {
            let name = take_chars(fields[i].0.as_str(), MAX_FIELD_NAME_CHARS);
            let value = take_chars(fields[i].1.as_str(), MAX_FIELD_VALUE_CHARS);
            let ghost before = out@;
            out.push((name, DiagnosticValue::Text(value)));
            proof {
                assert(kept_fields[i as int] == all[i as int]);
                assert(entries_view(out@) =~= entries_view(before).push(entry_view(out@.last())));
                assert(kept_fields.subrange(0, i as int + 1) =~= kept_fields.subrange(0, i as int).push(
                    kept_fields[i as int],
                ));
            }
            i = i + 1;
            assert(entries_view(out@) =~= kept_fields.subrange(0, i as int).map_values(
                |f: (Seq<char>, Seq<char>)|
                    (prefix_chars(f.0, 64), Some(prefix_chars(f.1, 512)), None::<u64>),
            ));
        }
        let ghost caller = entries_view(out@);
        assert(kept_fields.subrange(0, kept as int) =~= kept_fields);
        out.push((string_from_str("timestamp_ms"), DiagnosticValue::Number(timestamp_ms)));
        out.push(
            (string_from_str("event"), DiagnosticValue::Text(take_chars(event, MAX_EVENT_CHARS))),
        );
        out.push((string_from_str("sequence"), DiagnosticValue::Number(self.sequence)));
        out.push((string_from_str("lost_events"), DiagnosticValue::Number(self.lost)));
        assert(entries_view(out@) =~= caller + seq![
            ("timestamp_ms"@, None, Some(timestamp_ms)),
            ("event"@, Some(prefix_chars(event@, 128)), None),
            ("sequence"@, None, Some(self.sequence)),
            ("lost_events"@, None, Some(self.lost)),
        ]);
        self.sequence = self.sequence.wrapping_add(1);
        out
    }

    /// The entries of the next record for fields handed over by value, as a
    /// hook or input thread does: the same bounded record as `record`.
    pub fn record_async(&mut self, event: &str, fields: Vec<(String, String)>, timestamp_ms: u64) -> (r:
        Vec<(String, DiagnosticValue)>)
        ensures
            entries_view(r@) == record_entries(
                event@,
                fields_view(fields@),
                timestamp_ms,
                old(self).spec_sequence(),
                old(self).spec_lost(),
            ),
            final(self).spec_sequence() == old(self).spec_sequence().wrapping_add(1),
            final(self).spec_lost() == old(self).spec_lost(),
            final(self).spec_path() == old(self).spec_path(),
    {
        self.record(event, fields.as_slice(), timestamp_ms)
    }
}

/// The UTF-8 width of a character.
pub open spec fn utf8_width(c: char) -> nat {
    let v = c as u32;
    if v < 0x80 {
        1
    } else if v < 0x800 {
        2
    } else if v < 0x10000 {
        3
    } else {
        4
    }
}

/// The UTF-8 length of a text in bytes.
pub open spec fn utf8_len(s: Seq<char>) -> nat
    decreases s.len(),
{
    if s.len() == 0 {
        0
    } else {
        utf8_len(s.drop_last()) + utf8_width(s.last())
    }
}

/// A line without the carriage return of its `\r\n` ending.
pub open spec fn without_cr(line: Seq<char>) -> Seq<char> {
    if line.len() > 0 && line.last() == '\r' {
        line.drop_last()
    } else {
        line
    }
}

/// Each line without the carriage return of its ending.
pub open spec fn without_crs(lines: Seq<Seq<char>>) -> Seq<Seq<char>> {
    lines.map_values(|l: Seq<char>| without_cr(l))
}

/// The characters of each line.
pub open spec fn lines_view(lines: Seq<Vec<char>>) -> Seq<Seq<char>> {
    lines.map_values(|l: Vec<char>| l@)
}

/// The lines of a text as `str::lines` yields them: split at `\n`, a `\r`
/// before the `\n` dropped, and no empty line after a final `\n`.
pub open spec fn text_lines(s: Seq<char>) -> Seq<Seq<char>> {
    let parts = crate::launch::newline_parts(s);
    let ended = without_crs(parts.drop_last());
    if parts.last().len() > 0 {
        ended.push(parts.last())
    } else {
        ended
    }
}

/// The bytes that lines take in the log, each followed by `\n`.
pub open spec fn lines_bytes(lines: Seq<Seq<char>>) -> nat
    decreases lines.len(),
{
    if lines.len() == 0 {
        0
    } else {
        lines_bytes(lines.drop_last()) + utf8_len(lines.last()) + 1
    }
}

/// The text of lines, each followed by `\n`.
pub open spec fn joined_lines(lines: Seq<Seq<char>>) -> Seq<char>
    decreases lines.len(),
{
    if lines.len() == 0 {
        Seq::empty()
    } else {
        joined_lines(lines.drop_last()) + lines.last().push('\n')
    }
}

/// The first line to keep from `start` on: lines are dropped from the front
/// until the rest fits the byte limit.
pub open spec fn first_fitting(lines: Seq<Seq<char>>, start: int) -> int
    decreases lines.len() - start,
{
    if start >= lines.len() || lines_bytes(lines.subrange(start, lines.len() as int)) <= 65536 {
        start
    } else {
        first_fitting(lines, start + 1)
    }
}

/// How a log file is trimmed: left as it is while it holds at most 256 lines
/// and 64 KiB, otherwise rewritten with its last 256 lines, then without as
/// many leading lines as needed to fit 64 KiB.
pub open spec fn trimmed_log(contents: Seq<char>) -> Option<Seq<char>> {
    let lines = text_lines(contents);
    if utf8_len(contents) <= 65536 && lines.len() <= 256 {
        None
    } else {
        let start = if lines.len() > 256 {
            lines.len() - 256
        } else {
            0
        };
        let first = first_fitting(lines, start);
        Some(joined_lines(lines.subrange(first, lines.len() as int)))
    }
}

/// The first fitting line leaves a rest that fits the byte limit.
proof fn lemma_first_fitting_fits(lines: Seq<Seq<char>>, start: int)
    requires
        0 <= start <= lines.len(),
    ensures
        start <= first_fitting(lines, start) <= lines.len(),
        lines_bytes(lines.subrange(first_fitting(lines, start), lines.len() as int)) <= 65536,
    decreases lines.len() - start,
{
    if start < lines.len() && lines_bytes(lines.subrange(start, lines.len() as int)) > 65536 {
        lemma_first_fitting_fits(lines, start + 1);
    } else if start == lines.len() {
        assert(lines.subrange(start, lines.len() as int) =~= Seq::<Seq<char>>::empty());
    }
}

/// A trimmed log keeps at most 256 lines and at most 64 KiB.
pub proof fn lemma_trimmed_log_fits(contents: Seq<char>)
    ensures
        trimmed_log(contents) matches Some(kept) ==> {
            let lines = text_lines(contents);
            exists|first: int|
                0 <= first <= lines.len() && lines.len() - first <= 256 && kept == joined_lines(
                    lines.subrange(first, lines.len() as int),
                ) && lines_bytes(lines.subrange(first, lines.len() as int)) <= 65536
        },
{
    let lines = text_lines(contents);
    if trimmed_log(contents) is Some {
        let start = if lines.len() > 256 {
            lines.len() - 256
        } else {
            0
        };
        lemma_first_fitting_fits(lines, start);
        let first = first_fitting(lines, start);
        assert(0 <= first <= lines.len() && lines.len() - first <= 256);
    }
}

fn char_width(c: char) -> (r: u64)
    ensures
        r == utf8_width(c),
{
    let v = c as u32;
    if v < 0x80 {
        1
    } else if v < 0x800 {
        2
    } else if v < 0x10000 {
        3
    } else {
        4
    }
}

pub(crate) fn chars_bytes(s: &Vec<char>) -> (r: u128)
    ensures
        r == utf8_len(s@),
        r <= 4 * s@.len(),
        r <= 4 * (usize::MAX as int),
{
    let mut total: u128 = 0;
    let mut i: usize = 0;
    while i < s.len()
        invariant
            i <= s@.len(),
            total == utf8_len(s@.subrange(0, i as int)),
            total <= 4 * i,
        decreases s@.len() - i,
    {
        proof {
            assert(s@.subrange(0, i as int + 1).drop_last() =~= s@.subrange(0, i as int));
        }
        total = total + char_width(s[i]) as u128;
        i = i + 1;
    }
    assert(s@.subrange(0, i as int) =~= s@);
    total
}

/// The bytes of lines counted from the front.
proof fn lemma_lines_bytes_front(lines: Seq<Seq<char>>)
    requires
        lines.len() > 0,
    ensures
        lines_bytes(lines) == utf8_len(lines[0]) + 1 + lines_bytes(lines.drop_first()),
    decreases lines.len(),
{
    if lines.len() > 1 {
        lemma_lines_bytes_front(lines.drop_last());
        assert(lines.drop_last().drop_first() =~= lines.drop_first().drop_last());
    } else {
        assert(lines.drop_first() =~= Seq::<Seq<char>>::empty());
        assert(lines.drop_last() =~= Seq::<Seq<char>>::empty());
    }
}

/// Fewer lines from the back take no more bytes.
proof fn lemma_suffix_bytes_shrink(lines: Seq<Seq<char>>, j: int, i: int)
    requires
        0 <= j <= i <= lines.len(),
    ensures
        lines_bytes(lines.subrange(j, lines.len() as int)) >= lines_bytes(
            lines.subrange(i, lines.len() as int),
        ),
    decreases i - j,
{
    if j < i {
        let rest = lines.subrange(j, lines.len() as int);
        lemma_lines_bytes_front(rest);
        assert(rest.drop_first() =~= lines.subrange(j + 1, lines.len() as int));
        lemma_suffix_bytes_shrink(lines, j + 1, i);
    }
}

/// The first fitting line is the smallest start from which the rest fits.
proof fn lemma_first_fitting_is_first(lines: Seq<Seq<char>>, start: int, first: int)
    requires
        0 <= start <= first <= lines.len(),
        lines_bytes(lines.subrange(first, lines.len() as int)) <= 65536,
        first > start ==> lines_bytes(lines.subrange(first - 1, lines.len() as int)) > 65536,
    ensures
        first_fitting(lines, start) == first,
    decreases first - start,
{
    if start < first {
        lemma_suffix_bytes_shrink(lines, start, first - 1);
        lemma_first_fitting_is_first(lines, start + 1, first);
    }
}

/// The lines of the characters of a text, built as `text_lines` describes.
fn split_log_lines(chars: &Vec<char>) -> (r: Vec<Vec<char>>)
    ensures
        lines_view(r@) == text_lines(chars@),
{
    let mut out: Vec<Vec<char>> = Vec::new();
    let mut line: Vec<char> = Vec::new();
    let ghost mut done: Seq<Seq<char>> = Seq::empty();
    let mut i: usize = 0;
    assert(chars@.subrange(0, 0) =~= Seq::<char>::empty());
    assert(lines_view(out@) =~= Seq::<Seq<char>>::empty());
    while i < chars.len()
        invariant
            i <= chars@.len(),
            crate::launch::newline_parts(chars@.subrange(0, i as int)) == done.push(line@),
            lines_view(out@) == without_crs(done),
        decreases chars@.len() - i,
    {
        let c = chars[i];
        let ghost prefix = chars@.subrange(0, i as int + 1);
        assert(prefix.drop_last() =~= chars@.subrange(0, i as int));
        if c == '\n' {
            let ghost raw = line@;
            let mut ended = line;
            if ended.len() > 0 && ended[ended.len() - 1] == '\r' {
                ended.pop();
            }
            assert(ended@ == without_cr(raw));
            let ghost before = out@;
            let ghost ended_view = ended@;
            out.push(ended);
            proof {
                let old_done = done;
                assert(lines_view(before).len() == before.len());
                assert(without_crs(old_done).len() == old_done.len());
                done = done.push(raw);
                assert forall|x: int| 0 <= x < out@.len() implies (#[trigger] out@[x])@ == without_cr(
                    done[x],
                ) by {
                    if x < before.len() {
                        assert(out@[x] == before[x]);
                        assert(lines_view(before)[x] == without_crs(old_done)[x]);
                    } else {
                        assert(out@[x]@ == ended_view);
                        assert(done[x] == raw);
                    }
                };
                assert(lines_view(out@) =~= without_crs(done));
            }
            line = Vec::new();
            assert(crate::launch::newline_parts(prefix) =~= done.push(line@));
        } else {
            line.push(c);
            assert(crate::launch::newline_parts(prefix) =~= done.push(line@));
        }
        i = i + 1;
    }
    assert(chars@.subrange(0, i as int) =~= chars@);
    let ghost parts = crate::launch::newline_parts(chars@);
    assert(parts.drop_last() =~= done);
    if line.len() > 0 {
        let ghost before = out@;
        out.push(line);
        assert(lines_view(out@) =~= lines_view(before).push(
            parts.last(),
        ));
    }
    out
}

/// The new contents of a log file after trimming, or `None` when the file
/// is within its limits and stays as it is.
pub fn trim_diagnostic_log(contents: &str) -> (r: Option<String>)
    ensures
        match trimmed_log(contents@) {
            None => r is None,
            Some(t) => r matches Some(s) && s@ == t,
        },
{
    let chars = str_chars(contents);
    let lines = split_log_lines(&chars);
    let ghost ls = lines_view(lines@);
    let total = chars_bytes(&chars);
    let n = lines.len();
    if total <= 65536 && n <= MAX_DIAGNOSTIC_EVENTS {
        return None;
    }
    let mut start: usize = if n > MAX_DIAGNOSTIC_EVENTS {
        n - MAX_DIAGNOSTIC_EVENTS
    } else {
        0
    };
    let ghost first_start = start as int;
    let mut first: usize = n;
    let mut kept_bytes: u128 = 0;
    assert(ls.subrange(n as int, n as int) =~= Seq::<Seq<char>>::empty());
    loop
        invariant
            ls == lines_view(lines@),
            n == ls.len(),
            start <= first <= n,
            kept_bytes == lines_bytes(ls.subrange(first as int, n as int)),
            kept_bytes <= 65536,
        ensures
            start <= first <= n,
            lines_bytes(ls.subrange(first as int, n as int)) <= 65536,
            first > start ==> lines_bytes(ls.subrange(first - 1, n as int)) > 65536,
        decreases first,
    {
        if first == start {
            break;
        }
        let width = chars_bytes(&lines[first - 1]);
        proof {
            let rest = ls.subrange(first - 1, n as int);
            lemma_lines_bytes_front(rest);
            assert(rest.drop_first() =~= ls.subrange(first as int, n as int));
            assert(rest[0] == lines@[first - 1]@);
        }
        if kept_bytes + width + 1 > 65536 {
            break;
        }
        kept_bytes = kept_bytes + width + 1;
        first = first - 1;
    }
    proof {
        lemma_first_fitting_is_first(ls, start as int, first as int);
    }
    start = first;
    let mut out = String::new();
    let mut j: usize = start;
    assert(ls.subrange(start as int, start as int) =~= Seq::<Seq<char>>::empty());
    while j < n
        invariant
            ls == lines_view(lines@),
            n == ls.len(),
            start <= j <= n,
            out@ == joined_lines(ls.subrange(start as int, j as int)),
        decreases n - j,
    {
        let ghost before = out@;
        let mut m: usize = 0;
        while m < lines[j].len()
            invariant
                j < n,
                n == lines@.len(),
                m <= lines@[j as int]@.len(),
                out@ == before + lines@[j as int]@.subrange(0, m as int),
            decreases lines@[j as int]@.len() - m,
        {
            push_char(&mut out, lines[j][m]);
            m = m + 1;
            assert(out@ =~= before + lines@[j as int]@.subrange(0, m as int));
        }
        push_char(&mut out, '\n');
        proof {
            assert(lines@[j as int]@.subrange(0, m as int) =~= lines@[j as int]@);
            assert(ls[j as int] == lines@[j as int]@);
            assert(ls.subrange(start as int, j as int + 1).drop_last() =~= ls.subrange(
                start as int,
                j as int,
            ));
            assert(out@ =~= joined_lines(ls.subrange(start as int, j as int + 1)));
        }
        j = j + 1;
    }
    Some(out)
}

} // verus!
