//! Change-journal monitoring: the observed event record, the volume-path
//! form the journal API needs, the polling state machine, and the CSV and
//! JSON renderings of events.

use vstd::prelude::*;
use vstd::string::StrSliceExecFns;
use crate::format::append_csv_field;
use crate::format::append_json_string;
use crate::format::escape_csv_spec;
use crate::format::json_string_spec;
use crate::text::append_str;
use crate::text::chars_to_string;
use crate::text::dec_str;
use crate::text::dec_str_signed;
use crate::text::drive_normalize_spec;
use crate::text::i64_to_dec_chars;
use crate::text::lemma_drive_normalize_idempotent;
use crate::text::trim_spec;
use crate::text::trim_str;
use crate::text::u128_to_dec_chars;
use crate::text::u32_to_dec_chars;

verus! {

/// One change-journal record as observed: the journal sequence number, a
/// millisecond timestamp, the rendered file and parent identifiers, the raw
/// reason mask, the label derived from that mask, and a best-effort path.
#[derive(Clone, Debug)]
pub struct JournalEvent {
    pub usn: i64,
    pub timestamp_ms: u128,
    pub file_id: String,
    pub parent_id: String,
    pub reason: u32,
    pub reason_str: String,
    pub path: String,
}

// ---------------------------------------------------------------------------
// Volume-path normalization (journal form)
// ---------------------------------------------------------------------------

/// The extended-length prefix the journal API requires.
pub open spec fn journal_prefix() -> Seq<char> {
    seq!['\\', '\\', '?', '\\']
}

/// Canonicalize a volume identifier into the extended-length form.
pub fn normalize_volume_path(volume: &str) -> (r: String)
    ensures
        r@ == drive_normalize_spec(journal_prefix(), volume@),
{
    let t = trim_str(volume);
    let n = t.as_str().unicode_len();
    let is_two = n == 2 && t.as_str().get_char(1) == ':';
    let is_three = n == 3 && t.as_str().get_char(1) == ':' && t.as_str().get_char(2) == '\\';
    if is_two || is_three {
        let c = t.as_str().get_char(0);
        let mut out: Vec<char> = Vec::new();
        out.push('\\');
        out.push('\\');
        out.push('?');
        out.push('\\');
        out.push(c);
        out.push(':');
        proof {
            assert(out@ =~= journal_prefix() + seq![trim_spec(volume@)[0], ':']);
        }
        chars_to_string(out)
    } else {
        t
    }
}

/// Normalizing a journal path twice changes nothing after the first pass.
pub proof fn lemma_journal_normalize_idempotent(v: Seq<char>)
    ensures
        drive_normalize_spec(journal_prefix(), drive_normalize_spec(journal_prefix(), v))
            == drive_normalize_spec(journal_prefix(), v),
{
    lemma_drive_normalize_idempotent(journal_prefix(), v);
}

// ---------------------------------------------------------------------------
// The polling state machine
// ---------------------------------------------------------------------------

/// How many of `n` freshly read records may still be taken under the
/// remaining allowance.
pub open spec fn take_count(remaining: Option<usize>, n: int) -> int {
    match remaining {
        None => n,
        Some(r) => if r < n {
            r as int
        } else {
            n
        },
    }
}

/// The allowance left after taking from `n` records.
pub open spec fn remaining_after(remaining: Option<usize>, n: int) -> Option<usize> {
    match remaining {
        None => None,
        Some(r) => if r < n {
            Some(0usize)
        } else {
            Some((r - n) as usize)
        },
    }
}

/// The records one read contributes: a prefix of the batch, bounded by the
/// allowance.
pub open spec fn drained_seq(remaining: Option<usize>, events: Seq<JournalEvent>) -> Seq<
    JournalEvent,
> {
    events.take(take_count(remaining, events.len() as int))
}

fn take_allowance(events: Vec<JournalEvent>, remaining: Option<usize>) -> (r: (
    Vec<JournalEvent>,
    Option<usize>,
))
    ensures
        r.0@ == drained_seq(remaining, events@),
        r.1 == remaining_after(remaining, events@.len() as int),
{
    match remaining {
        None => {
            proof {
                assert(events@.take(events@.len() as int) =~= events@);
            }
            (events, None)
        },
        Some(rem) => {
            if rem < events.len() {
                let mut e = events;
                e.truncate(rem);
                proof {
                    assert(events@.subrange(0, rem as int) =~= events@.take(rem as int));
                }
                (e, Some(0))
            } else {
                let left = rem - events.len();
                proof {
                    assert(events@.take(events@.len() as int) =~= events@);
                }
                (events, Some(left))
            }
        },
    }
}

#[derive(Clone, Copy, Debug, PartialEq, Eq, Structural)]
pub enum MonitorPhase {
    /// Waiting for the next ordinary read.
    Polling,
    /// Batch mode, after a non-empty read: one best-effort extra read.
    TopUp,
    /// No further reads are wanted.
    Terminated,
}

/// What the caller must do after handing one read result to the monitor.
pub enum MonitorStep {
    /// Continuous mode: emit these records now, then keep polling unless
    /// `done`; `first` marks the first records ever handed out.
    Emit { events: Vec<JournalEvent>, first: bool, done: bool },
    /// Continuous mode, empty read: sleep the fixed idle interval, then poll.
    Sleep,
    /// Batch mode: issue the single top-up read.
    TopUpRead,
    /// Batch mode: no further reads; emit the accumulated batch once.
    Finished,
}

/// The journal-monitor state machine. The caller owns the journal session
/// and hands each read result to `on_read`; the monitor decides what to
/// drain, what to emit, and when to stop.
pub struct JournalMonitor {
    pub continuous: bool,
    pub remaining: Option<usize>,
    pub emitted_any: bool,
    pub batch: Vec<JournalEvent>,
    pub phase: MonitorPhase,
}

impl JournalMonitor {
    pub open spec fn wf(self) -> bool {
        self.continuous ==> (self.batch@.len() == 0 && self.phase == MonitorPhase::Polling)
    }

    /// A monitor that has read nothing yet. `max_events` bounds how many
    /// records are ever taken; `None` means unbounded.
    pub fn new(continuous: bool, max_events: Option<usize>) -> (m: JournalMonitor)
        ensures
            m.wf(),
            m.continuous == continuous,
            m.remaining == max_events,
            m.batch@.len() == 0,
            m.emitted_any == false,
            m.phase == MonitorPhase::Polling,
    {
        JournalMonitor {
            continuous,
            remaining: max_events,
            emitted_any: false,
            batch: Vec::new(),
            phase: MonitorPhase::Polling,
        }
    }

    /// Feed the monitor the records of one journal read, in the order the
    /// journal produced them.
    pub fn on_read(&mut self, events: Vec<JournalEvent>) -> (step: MonitorStep)
        requires
            old(self).wf(),
            old(self).phase != MonitorPhase::Terminated,
        ensures
            final(self).wf(),
            final(self).continuous == old(self).continuous,
            // Continuous mode, idle read: sleep, nothing changes.
            (old(self).continuous && events@.len() == 0) ==> (step is Sleep && *final(self)
                == *old(self)),
            // Continuous mode, records: a bounded prefix is emitted at once.
            (old(self).continuous && events@.len() > 0) ==> (step matches MonitorStep::Emit {
                events: e,
                first,
                done,
            } && e@ == drained_seq(old(self).remaining, events@)
                && final(self).remaining == remaining_after(old(self).remaining, events@.len() as int)
                && first == (!old(self).emitted_any && e@.len() > 0)
                && final(self).emitted_any == (old(self).emitted_any || e@.len() > 0)
                && done == (final(self).remaining == Some(0usize))
                && final(self).batch@ == old(self).batch@
                && final(self).phase == old(self).phase),
            // Batch mode, first read empty: nothing to drain, stop.
            (!old(self).continuous && old(self).phase == MonitorPhase::Polling && events@.len()
                == 0) ==> (step is Finished && final(self).phase == MonitorPhase::Terminated
                && final(self).batch@ == old(self).batch@
                && final(self).remaining == old(self).remaining),
            // Batch mode, records: drain, then either stop (limit reached) or
            // ask for the single top-up read.
            (!old(self).continuous && old(self).phase == MonitorPhase::Polling && events@.len()
                > 0) ==> (final(self).batch@ == old(self).batch@
                    + drained_seq(old(self).remaining, events@)
                && final(self).remaining == remaining_after(old(self).remaining, events@.len() as int)
                && (final(self).remaining == Some(0usize) ==> (step is Finished && final(self).phase
                    == MonitorPhase::Terminated))
                && (final(self).remaining != Some(0usize) ==> (step is TopUpRead
                    && final(self).phase == MonitorPhase::TopUp))),
            // Batch mode, top-up read: drain it and stop, whatever it held.
            (!old(self).continuous && old(self).phase == MonitorPhase::TopUp) ==> (final(self).batch@
                == old(self).batch@ + drained_seq(old(self).remaining, events@)
                && final(self).remaining == remaining_after(old(self).remaining, events@.len() as int)
                && step is Finished && final(self).phase == MonitorPhase::Terminated),
    {
        if self.continuous {
            if events.len() == 0 {
                MonitorStep::Sleep
            } else {
                let (taken, new_rem) = take_allowance(events, self.remaining);
                let k_pos = taken.len() > 0;
                let first = !self.emitted_any && k_pos;
                self.emitted_any = self.emitted_any || k_pos;
                self.remaining = new_rem;
                let done = match self.remaining {
                    Some(r) => r == 0,
                    None => false,
                };
                MonitorStep::Emit { events: taken, first, done }
            }
        } else {
            match self.phase {
                MonitorPhase::Polling => {
                    if events.len() == 0 {
                        self.phase = MonitorPhase::Terminated;
                        MonitorStep::Finished
                    } else {
                        let (mut taken, new_rem) = take_allowance(events, self.remaining);
                        self.batch.append(&mut taken);
                        self.remaining = new_rem;
                        let reached = match self.remaining {
                            Some(r) => r == 0,
                            None => false,
                        };
                        if reached {
                            self.phase = MonitorPhase::Terminated;
                            MonitorStep::Finished
                        } else {
                            self.phase = MonitorPhase::TopUp;
                            MonitorStep::TopUpRead
                        }
                    }
                },
                MonitorPhase::TopUp => {
                    let (mut taken, new_rem) = take_allowance(events, self.remaining);
                    self.batch.append(&mut taken);
                    self.remaining = new_rem;
                    self.phase = MonitorPhase::Terminated;
                    MonitorStep::Finished
                },
                MonitorPhase::Terminated => {
                    proof {
                        assert(false);
                    }
                    MonitorStep::Finished
                },
            }
        }
    }

    /// Hand out the accumulated batch once no further reads are wanted.
    pub fn into_batch(self) -> (r: Vec<JournalEvent>)
        requires
            self.phase == MonitorPhase::Terminated,
        ensures
            r@ == self.batch@,
    {
        self.batch
    }
}

// ---------------------------------------------------------------------------
// Laws of the state machine
// ---------------------------------------------------------------------------

/// The batch a non-continuous run accumulates: the first read drained under
/// the limit, then — unless the first read was empty or the limit was hit —
/// the single top-up read drained under what is left.
pub open spec fn batch_run(
    max: Option<usize>,
    first_read: Seq<JournalEvent>,
    topup_read: Seq<JournalEvent>,
) -> Seq<JournalEvent> {
    if first_read.len() == 0 {
        Seq::empty()
    } else {
        let d1 = drained_seq(max, first_read);
        let rem1 = remaining_after(max, first_read.len() as int);
        if rem1 == Some(0usize) {
            d1
        } else {
            d1 + drained_seq(rem1, topup_read)
        }
    }
}

/// Batch mode with a limit emits exactly `min(limit, total available)`
/// events, and without a limit everything both reads returned.
pub proof fn lemma_batch_emits_min(
    max: Option<usize>,
    first_read: Seq<JournalEvent>,
    topup_read: Seq<JournalEvent>,
)
    requires
        first_read.len() > 0,
    ensures
        max is None ==> batch_run(max, first_read, topup_read) == first_read + topup_read,
        max matches Some(m) ==> batch_run(max, first_read, topup_read) == (first_read
            + topup_read).take(
            if (m as int) < first_read.len() + topup_read.len() {
                m as int
            } else {
                first_read.len() + topup_read.len() as int
            },
        ),
{
    let total = first_read + topup_read;
    match max {
        None => {
            assert(batch_run(max, first_read, topup_read) =~= total);
        },
        Some(m) => {
            let n1 = first_read.len() as int;
            let n2 = topup_read.len() as int;
            if (m as int) <= n1 {
                assert(batch_run(max, first_read, topup_read) =~= total.take(
                    if (m as int) < n1 + n2 {
                        m as int
                    } else {
                        n1 + n2
                    },
                ));
            } else {
                assert(batch_run(max, first_read, topup_read) =~= total.take(
                    if (m as int) < n1 + n2 {
                        m as int
                    } else {
                        n1 + n2
                    },
                ));
            }
        },
    }
}

pub open spec fn usn_ascending(s: Seq<JournalEvent>) -> bool {
    forall|i: int, j: int| 0 <= i < j < s.len() ==> s[i].usn <= s[j].usn
}

/// The batch is a prefix of what the reads produced, so ascending order is
/// preserved and no record is reordered.
pub proof fn lemma_batch_preserves_order(
    max: Option<usize>,
    first_read: Seq<JournalEvent>,
    topup_read: Seq<JournalEvent>,
)
    requires
        first_read.len() > 0,
        usn_ascending(first_read + topup_read),
    ensures
        usn_ascending(batch_run(max, first_read, topup_read)),
        forall|i: int|
            0 <= i < batch_run(max, first_read, topup_read).len() ==> batch_run(
                max,
                first_read,
                topup_read,
            )[i] == (first_read + topup_read)[i],
{
    lemma_batch_emits_min(max, first_read, topup_read);
}

/// Continuous mode hands each underlying record out exactly once, in order:
/// what one read emits is a prefix of the read, the whole read when no limit
/// is configured.
pub proof fn lemma_continuous_stream_faithful(
    remaining: Option<usize>,
    events: Seq<JournalEvent>,
)
    ensures
        drained_seq(remaining, events).len() == take_count(remaining, events.len() as int),
        forall|i: int|
            0 <= i < drained_seq(remaining, events).len() ==> drained_seq(remaining, events)[i]
                == events[i],
        remaining is None ==> drained_seq(remaining, events) == events,
{
    if remaining is None {
        assert(drained_seq(remaining, events) =~= events);
    }
}

// ---------------------------------------------------------------------------
// CSV and JSON renderings of journal events
// ---------------------------------------------------------------------------

/// The fixed journal CSV column order.
pub open spec fn journal_csv_header_spec() -> Seq<char> {
    "usn,timestamp_ms,file_id,parent_id,reason,reason_str,path"@
}

/// The CSV header line for journal events, without a line terminator.
pub fn journal_csv_header() -> (r: String)
    ensures
        r@ == journal_csv_header_spec(),
{
    "usn,timestamp_ms,file_id,parent_id,reason,reason_str,path".to_owned()
}

/// One CSV data line for an event, without a line terminator: numeric fields
/// in decimal and unquoted, text fields escaped.
pub open spec fn csv_line_of_event(e: JournalEvent) -> Seq<char> {
    dec_str_signed(e.usn as int) + ","@ + dec_str(e.timestamp_ms as nat) + ","@ + escape_csv_spec(
        e.file_id@,
    ) + ","@ + escape_csv_spec(e.parent_id@) + ","@ + dec_str(e.reason as nat) + ","@
        + escape_csv_spec(e.reason_str@) + ","@ + escape_csv_spec(e.path@)
}

/// Render one event as a CSV line.
pub fn journal_csv_line(e: &JournalEvent) -> (r: String)
    ensures
        r@ == csv_line_of_event(*e),
{
    let mut out: Vec<char> = Vec::new();
    let mut usn = i64_to_dec_chars(e.usn);
    out.append(&mut usn);
    append_str(&mut out, ",");
    let mut ts = u128_to_dec_chars(e.timestamp_ms);
    out.append(&mut ts);
    append_str(&mut out, ",");
    append_csv_field(&mut out, e.file_id.as_str());
    append_str(&mut out, ",");
    append_csv_field(&mut out, e.parent_id.as_str());
    append_str(&mut out, ",");
    let mut reason = u32_to_dec_chars(e.reason);
    out.append(&mut reason);
    append_str(&mut out, ",");
    append_csv_field(&mut out, e.reason_str.as_str());
    append_str(&mut out, ",");
    append_csv_field(&mut out, e.path.as_str());
    proof {
        assert(out@ =~= csv_line_of_event(*e));
    }
    chars_to_string(out)
}

pub open spec fn csv_lines_of_events(events: Seq<JournalEvent>) -> Seq<char>
    decreases events.len(),
{
    if events.len() == 0 {
        Seq::empty()
    } else {
        csv_lines_of_events(events.drop_last()) + csv_line_of_event(events.last()) + "\n"@
    }
}

/// The whole-batch CSV document: the header line, then one line per event,
/// each line terminated by a newline.
pub open spec fn csv_batch_of_events(events: Seq<JournalEvent>) -> Seq<char> {
    journal_csv_header_spec() + "\n"@ + csv_lines_of_events(events)
}

/// Render a batch of events as one CSV document.
pub fn journal_csv_batch(events: &Vec<JournalEvent>) -> (r: String)
    ensures
        r@ == csv_batch_of_events(events@),
{
    let mut out: Vec<char> = Vec::new();
    append_str(&mut out, "usn,timestamp_ms,file_id,parent_id,reason,reason_str,path");
    append_str(&mut out, "\n");
    let n = events.len();
    let mut i: usize = 0;
    while i < n
        invariant
            n == events@.len(),
            0 <= i <= n,
            out@ == journal_csv_header_spec() + "\n"@ + csv_lines_of_events(
                events@.take(i as int),
            ),
        decreases n - i,
    {
        let line = journal_csv_line(&events[i]);
        append_str(&mut out, line.as_str());
        append_str(&mut out, "\n");
        proof {
            assert(events@.take(i + 1).drop_last() =~= events@.take(i as int));
            assert(events@.take(i + 1).last() == events@[i as int]);
            assert(out@ =~= journal_csv_header_spec() + "\n"@ + csv_lines_of_events(
                events@.take(i + 1),
            ));
        }
        i = i + 1;
    }
    proof {
        assert(events@.take(n as int) =~= events@);
    }
    chars_to_string(out)
}

/// One event as a compact JSON object, fields in declaration order.
pub open spec fn json_of_event(e: JournalEvent) -> Seq<char> {
    "{\"usn\":"@ + dec_str_signed(e.usn as int) + ",\"timestamp_ms\":"@ + dec_str(
        e.timestamp_ms as nat,
    ) + ",\"file_id\":"@ + json_string_spec(e.file_id@) + ",\"parent_id\":"@ + json_string_spec(
        e.parent_id@,
    ) + ",\"reason\":"@ + dec_str(e.reason as nat) + ",\"reason_str\":"@ + json_string_spec(
        e.reason_str@,
    ) + ",\"path\":"@ + json_string_spec(e.path@) + "}"@
}

/// Render one event as a compact JSON object.
pub fn journal_json_event(e: &JournalEvent) -> (r: String)
    ensures
        r@ == json_of_event(*e),
{
    let mut out: Vec<char> = Vec::new();
    append_str(&mut out, "{\"usn\":");
    let mut usn = i64_to_dec_chars(e.usn);
    out.append(&mut usn);
    append_str(&mut out, ",\"timestamp_ms\":");
    let mut ts = u128_to_dec_chars(e.timestamp_ms);
    out.append(&mut ts);
    append_str(&mut out, ",\"file_id\":");
    append_json_string(&mut out, e.file_id.as_str());
    append_str(&mut out, ",\"parent_id\":");
    append_json_string(&mut out, e.parent_id.as_str());
    append_str(&mut out, ",\"reason\":");
    let mut reason = u32_to_dec_chars(e.reason);
    out.append(&mut reason);
    append_str(&mut out, ",\"reason_str\":");
    append_json_string(&mut out, e.reason_str.as_str());
    append_str(&mut out, ",\"path\":");
    append_json_string(&mut out, e.path.as_str());
    append_str(&mut out, "}");
    proof {
        assert(out@ =~= json_of_event(*e));
    }
    chars_to_string(out)
}

/// One event as an indented JSON object whose closing brace sits at
/// indentation `ind`: each field on its own line, two further spaces deep.
pub open spec fn json_pretty_of_event(e: JournalEvent, ind: Seq<char>) -> Seq<char> {
    "{\n"@ + ind + "  \"usn\": "@ + dec_str_signed(e.usn as int) + ",\n"@ + ind
        + "  \"timestamp_ms\": "@ + dec_str(e.timestamp_ms as nat) + ",\n"@ + ind
        + "  \"file_id\": "@ + json_string_spec(e.file_id@) + ",\n"@ + ind + "  \"parent_id\": "@
        + json_string_spec(e.parent_id@) + ",\n"@ + ind + "  \"reason\": "@ + dec_str(
        e.reason as nat,
    ) + ",\n"@ + ind + "  \"reason_str\": "@ + json_string_spec(e.reason_str@) + ",\n"@ + ind
        + "  \"path\": "@ + json_string_spec(e.path@) + "\n"@ + ind + "}"@
}

#[verifier::rlimit(60)]
fn append_pretty_event(out: &mut Vec<char>, e: &JournalEvent, ind: &str)
    ensures
        final(out)@ == old(out)@ + json_pretty_of_event(*e, ind@),
{
    append_str(out, "{\n");
    append_str(out, ind);
    append_str(out, "  \"usn\": ");
    let mut usn = i64_to_dec_chars(e.usn);
    out.append(&mut usn);
    append_str(out, ",\n");
    append_str(out, ind);
    append_str(out, "  \"timestamp_ms\": ");
    let mut ts = u128_to_dec_chars(e.timestamp_ms);
    out.append(&mut ts);
    append_str(out, ",\n");
    append_str(out, ind);
    append_str(out, "  \"file_id\": ");
    append_json_string(out, e.file_id.as_str());
    append_str(out, ",\n");
    append_str(out, ind);
    append_str(out, "  \"parent_id\": ");
    append_json_string(out, e.parent_id.as_str());
    append_str(out, ",\n");
    append_str(out, ind);
    append_str(out, "  \"reason\": ");
    let mut reason = u32_to_dec_chars(e.reason);
    out.append(&mut reason);
    append_str(out, ",\n");
    append_str(out, ind);
    append_str(out, "  \"reason_str\": ");
    append_json_string(out, e.reason_str.as_str());
    append_str(out, ",\n");
    append_str(out, ind);
    append_str(out, "  \"path\": ");
    append_json_string(out, e.path.as_str());
    append_str(out, "\n");
    append_str(out, ind);
    append_str(out, "}");
    proof {
        assert(out@ =~= old(out)@ + json_pretty_of_event(*e, ind@));
    }
}

/// Render one event as a standalone indented JSON object.
pub fn journal_json_event_pretty(e: &JournalEvent) -> (r: String)
    ensures
        r@ == json_pretty_of_event(*e, Seq::empty()),
{
    let mut out: Vec<char> = Vec::new();
    append_pretty_event(&mut out, e, "");
    proof {
        reveal_strlit("");
        assert(""@ =~= Seq::<char>::empty());
        assert(out@ =~= json_pretty_of_event(*e, Seq::empty()));
    }
    chars_to_string(out)
}

pub open spec fn json_pretty_items_of_events(events: Seq<JournalEvent>) -> Seq<char>
    decreases events.len(),
{
    if events.len() == 0 {
        Seq::empty()
    } else if events.len() == 1 {
        "  "@ + json_pretty_of_event(events[0], "  "@)
    } else {
        json_pretty_items_of_events(events.drop_last()) + ",\n"@ + "  "@ + json_pretty_of_event(
            events.last(),
            "  "@,
        )
    }
}

/// The whole-batch indented JSON document: one array, one object per event,
/// each indented one level.
pub open spec fn json_pretty_batch_of_events(events: Seq<JournalEvent>) -> Seq<char> {
    if events.len() == 0 {
        "[]"@
    } else {
        "[\n"@ + json_pretty_items_of_events(events) + "\n]"@
    }
}

/// Render a batch of events as one indented JSON array.
pub fn journal_json_batch_pretty(events: &Vec<JournalEvent>) -> (r: String)
    ensures
        r@ == json_pretty_batch_of_events(events@),
{
    if events.len() == 0 {
        return "[]".to_owned();
    }
    let mut out: Vec<char> = Vec::new();
    append_str(&mut out, "[\n");
    let n = events.len();
    let mut i: usize = 0;
    while i < n
        invariant
            n == events@.len(),
            0 < n,
            0 <= i <= n,
            out@ == "[\n"@ + json_pretty_items_of_events(events@.take(i as int)),
        decreases n - i,
    {
        if i > 0 {
            append_str(&mut out, ",\n");
        }
        append_str(&mut out, "  ");
        append_pretty_event(&mut out, &events[i], "  ");
        proof {
            assert(events@.take(i + 1).drop_last() =~= events@.take(i as int));
            assert(events@.take(i + 1).last() == events@[i as int]);
            if i == 0 {
                assert(events@.take(1)[0] == events@[0]);
            }
            assert(out@ =~= "[\n"@ + json_pretty_items_of_events(events@.take(i + 1)));
        }
        i = i + 1;
    }
    append_str(&mut out, "\n]");
    proof {
        assert(events@.take(n as int) =~= events@);
        assert(out@ =~= json_pretty_batch_of_events(events@));
    }
    chars_to_string(out)
}

pub open spec fn json_items_of_events(events: Seq<JournalEvent>) -> Seq<char>
    decreases events.len(),
{
    if events.len() == 0 {
        Seq::empty()
    } else if events.len() == 1 {
        json_of_event(events[0])
    } else {
        json_items_of_events(events.drop_last()) + ","@ + json_of_event(events.last())
    }
}

/// The whole-batch JSON document: one compact array of event objects.
pub open spec fn json_batch_of_events(events: Seq<JournalEvent>) -> Seq<char> {
    "["@ + json_items_of_events(events) + "]"@
}

/// Render a batch of events as one compact JSON array.
pub fn journal_json_batch(events: &Vec<JournalEvent>) -> (r: String)
    ensures
        r@ == json_batch_of_events(events@),
{
    let mut out: Vec<char> = Vec::new();
    append_str(&mut out, "[");
    let n = events.len();
    let mut i: usize = 0;
    while i < n
        invariant
            n == events@.len(),
            0 <= i <= n,
            out@ == "["@ + json_items_of_events(events@.take(i as int)),
        decreases n - i,
    {
        if i > 0 {
            append_str(&mut out, ",");
        }
        let item = journal_json_event(&events[i]);
        append_str(&mut out, item.as_str());
        proof {
            assert(events@.take(i + 1).drop_last() =~= events@.take(i as int));
            assert(events@.take(i + 1).last() == events@[i as int]);
            if i == 0 {
                assert(events@.take(1)[0] == events@[0]);
            }
            assert(out@ =~= "["@ + json_items_of_events(events@.take(i + 1)));
        }
        i = i + 1;
    }
    append_str(&mut out, "]");
    proof {
        assert(events@.take(n as int) =~= events@);
        assert(out@ =~= json_batch_of_events(events@));
    }
    chars_to_string(out)
}

} // verus!
