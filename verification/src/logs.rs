//! Captured log entries: bounded buffering, message truncation and
//! filtering by level.

use std::collections::VecDeque;
use std::sync::Arc;
use vstd::prelude::*;
use vstd::string::*;
use crate::levels::{level_to_priority, spec_level_priority};
use crate::text_len::{char_len_utf8, char_width, utf8_len, lemma_utf8_len_is_encoding_len, lemma_utf8_len_prefix};

verus! {

/// A captured log entry.
pub struct LogEntry {
    /// Level name ("ERROR", "WARN", "INFO", "DEBUG", "TRACE").
    pub level: String,
    /// Module path or target of the event.
    pub target: String,
    /// The message.
    pub message: String,
    /// Milliseconds since the Unix epoch.
    pub timestamp_ms: u64,
}

/// View of a `LogEntry`.
pub struct LogView {
    pub level: Seq<char>,
    pub target: Seq<char>,
    pub message: Seq<char>,
    pub timestamp_ms: u64,
}

impl View for LogEntry {
    type V = LogView;

    open spec fn view(&self) -> LogView {
        LogView {
            level: self.level@,
            target: self.target@,
            message: self.message@,
            timestamp_ms: self.timestamp_ms,
        }
    }
}

/// Views of a sequence of entries.
pub open spec fn logs_view(s: Seq<LogEntry>) -> Seq<LogView> {
    s.map_values(|e: LogEntry| e@)
}

/// Default maximum message length in bytes (8 KiB).
pub const DEFAULT_MAX_MESSAGE_LENGTH: usize = 8 * 1024;

/// Copies a log entry.
pub fn clone_entry(e: &LogEntry) -> (c: LogEntry)
    ensures
        c@ == e@,
{
    LogEntry {
        level: e.level.clone(),
        target: e.target.clone(),
        message: e.message.clone(),
        timestamp_ms: e.timestamp_ms,
    }
}

/// The last `n` elements of `s` (all of them when it is shorter).
pub open spec fn last_n<T>(s: Seq<T>, n: nat) -> Seq<T> {
    if s.len() > n {
        s.subrange(s.len() - n, s.len() as int)
    } else {
        s
    }
}

/// Appends `item` to a rolling window, then drops the oldest items until
/// at most `max_items` remain.
pub fn push_bounded<T>(window: &mut VecDeque<T>, item: T, max_items: usize)
    ensures
        final(window)@ == last_n(old(window)@.push(item), max_items as nat),
{
    let ghost full = old(window)@.push(item);
    window.push_back(item);
    while window.len() > max_items
        invariant
            full.len() > max_items ==> window@.len() >= max_items,
            window@.len() <= full.len(),
            full.len() <= max_items ==> window@.len() == full.len(),
            window@ == full.subrange(full.len() - window@.len(), full.len() as int),
        decreases window@.len(),
    {
        window.pop_front();
        assert(window@ =~= full.subrange(full.len() - window@.len(), full.len() as int));
    }
    proof {
        if full.len() > max_items {
            assert(window@ =~= full.subrange(full.len() - max_items, full.len() as int));
        } else {
            assert(window@ =~= full);
        }
    }
}

/// A rolling window never holds more than its bound, and, when the bound
/// is not zero, the item just pushed is its newest.
pub proof fn lemma_window_bound<T>(s: Seq<T>, item: T, n: nat)
    ensures
        last_n(s.push(item), n).len() <= n,
        s.len() + 1 <= n ==> last_n(s.push(item), n) == s.push(item),
        n > 0 ==> last_n(s.push(item), n).last() == item,
{
}

/// A query with neither a minimum level nor a limit returns every entry.
pub proof fn lemma_select_all(entries: Seq<LogView>)
    ensures
        spec_select_logs(entries, None, None) == entries,
    decreases entries.len(),
{
    lemma_at_least_zero(entries);
}

proof fn lemma_at_least_zero(entries: Seq<LogView>)
    ensures
        at_least(entries, 0) == entries,
    decreases entries.len(),
{
    if entries.len() > 0 {
        lemma_at_least_zero(entries.drop_last());
        assert(entries.drop_last().push(entries.last()) =~= entries);
    }
}

/// A query returns at most `limit` entries, each of level at or above the
/// minimum.
pub proof fn lemma_select_bounds(
    entries: Seq<LogView>,
    min_level: Option<Seq<char>>,
    limit: Option<usize>,
)
    ensures
        limit matches Some(n) ==> spec_select_logs(entries, min_level, limit).len() <= n,
        forall|i: int|
            0 <= i < spec_select_logs(entries, min_level, limit).len() ==> spec_level_priority(
                #[trigger] spec_select_logs(entries, min_level, limit)[i].level,
            ) >= threshold(min_level),
{
    lemma_at_least_admits(entries, threshold(min_level));
}

proof fn lemma_at_least_admits(entries: Seq<LogView>, p: u8)
    ensures
        forall|i: int|
            0 <= i < at_least(entries, p).len() ==> spec_level_priority(
                #[trigger] at_least(entries, p)[i].level,
            ) >= p,
    decreases entries.len(),
{
    if entries.len() > 0 {
        let prev = at_least(entries.drop_last(), p);
        lemma_at_least_admits(entries.drop_last(), p);
        assert forall|i: int| 0 <= i < at_least(entries, p).len() implies spec_level_priority(
            #[trigger] at_least(entries, p)[i].level,
        ) >= p by {
            if i < prev.len() {
                assert(at_least(entries, p)[i] == prev[i]);
            }
        }
    }
}


/// Entries whose level has at least priority `p`, in order.
pub open spec fn at_least(s: Seq<LogView>, p: u8) -> Seq<LogView>
    decreases s.len(),
{
    if s.len() == 0 {
        Seq::empty()
    } else {
        let prev = at_least(s.drop_last(), p);
        if spec_level_priority(s.last().level) >= p {
            prev.push(s.last())
        } else {
            prev
        }
    }
}

/// Priority threshold of an optional minimum level (none: every level).
pub open spec fn threshold(min_level: Option<Seq<char>>) -> u8 {
    match min_level {
        Some(l) => spec_level_priority(l),
        None => 0,
    }
}

/// The entries that a log query returns: those at or above the minimum
/// level, and of them the most recent `limit` when a limit is given.
pub open spec fn spec_select_logs(
    entries: Seq<LogView>,
    min_level: Option<Seq<char>>,
    limit: Option<usize>,
) -> Seq<LogView> {
    let f = at_least(entries, threshold(min_level));
    match limit {
        Some(n) => last_n(f, n as nat),
        None => f,
    }
}

/// Log entries at or above `min_level` (any case; an unknown name admits
/// every level), keeping the most recent `limit` of them when given.
pub fn select_logs(buf: &VecDeque<LogEntry>, min_level: Option<&str>, limit: Option<usize>) -> (out:
    Vec<LogEntry>)
    ensures
        logs_view(out@) == spec_select_logs(
            logs_view(buf@),
            match min_level {
                Some(l) => Some(l@),
                None => None,
            },
            limit,
        ),
{
    let ghost lv: Option<Seq<char>> = match min_level {
        Some(l) => Some(l@),
        None => None,
    };
    let min_priority = match min_level {
        Some(l) => level_to_priority(l),
        None => 0,
    };
    assert(min_priority == threshold(lv));
    let ghost all = logs_view(buf@);
    let mut filtered: Vec<LogEntry> = Vec::new();
    let mut i: usize = 0;
    while i < buf.len()
        invariant
            i <= buf@.len(),
            all == logs_view(buf@),
            logs_view(filtered@) == at_least(all.take(i as int), min_priority),
        decreases buf@.len() - i,
    {
        let e = &buf[i];
        assert(all.take(i + 1).drop_last() =~= all.take(i as int));
        assert(all[i as int] == e@);
        if level_to_priority(e.level.as_str()) >= min_priority {
            filtered.push(clone_entry(e));
        }
        i += 1;
        assert(logs_view(filtered@) =~= at_least(all.take(i as int), min_priority));
    }
    assert(all.take(buf@.len() as int) =~= all);
    match limit {
        None => filtered,
        Some(n) => {
            if filtered.len() <= n {
                filtered
            } else {
                let start = filtered.len() - n;
                let mut out: Vec<LogEntry> = Vec::new();
                let mut j: usize = start;
                while j < filtered.len()
                    invariant
                        start <= j <= filtered@.len(),
                        logs_view(out@) == logs_view(filtered@).subrange(start as int, j as int),
                    decreases filtered@.len() - j,
                {
                    assert(logs_view(filtered@)[j as int] == filtered@[j as int]@);
                    let ghost before = logs_view(out@);
                    out.push(clone_entry(&filtered[j]));
                    assert(logs_view(out@) =~= before.push(filtered@[j as int]@));
                    j += 1;
                    assert(logs_view(out@) =~= logs_view(filtered@).subrange(
                        start as int,
                        j as int,
                    ));
                }
                out
            }
        },
    }
}


/// `k` is where a message is cut to fit `limit` bytes: the first `k`
/// characters fit and the first `k + 1` do not.
pub open spec fn is_cut_point(s: Seq<char>, limit: int, k: int) -> bool {
    &&& 0 <= k < s.len()
    &&& utf8_len(s.take(k)) <= limit
    &&& utf8_len(s.take(k + 1)) > limit
}

/// A message kept whole when its UTF-8 form fits `max` bytes; otherwise its
/// longest prefix that fits `max - 3` bytes, followed by "...". A limit below
/// 3 leaves no room for the dots: the message is cut to its longest prefix
/// that fits `max` bytes.
pub open spec fn spec_truncate(s: Seq<char>, max: int) -> Seq<char> {
    if utf8_len(s) <= max {
        s
    } else if max >= 3 {
        let k = choose|k: int| #[trigger] is_cut_point(s, max - 3, k);
        s.take(k) + "..."@
    } else {
        let k = choose|k: int| #[trigger] is_cut_point(s, max, k);
        s.take(k)
    }
}

proof fn lemma_cut_unique(s: Seq<char>, limit: int, k1: int, k2: int)
    requires
        is_cut_point(s, limit, k1),
        is_cut_point(s, limit, k2),
    ensures
        k1 == k2,
{
    if k1 < k2 {
        lemma_utf8_len_prefix(s, k1 + 1, k2);
    } else if k2 < k1 {
        lemma_utf8_len_prefix(s, k2 + 1, k1);
    }
}

/// Shortens a message whose UTF-8 form exceeds `max` bytes, cutting at a
/// character boundary and ending it with "..." (when the limit leaves room
/// for it).
pub fn truncate_to_limit(message: String, max: usize) -> (r: String)
    ensures
        r@ == spec_truncate(message@, max as int),
        utf8_len(r@) <= max,
{
    let ghost m = message@;
    let ms = message.as_str();
    let n = ms.as_bytes().len();
    proof {
        lemma_utf8_len_is_encoding_len(m);
        lemma_len_le_utf8_len(m);
        assert(ms@ == m);
        assert(ms.spec_bytes() == vstd::utf8::encode_utf8(m));
        assert(n == utf8_len(m));
    }
    if n <= max {
        return message;
    }
    let limit = if max >= 3 {
        max - 3
    } else {
        max
    };
    let mut bytes: usize = 0;
    let mut cut: Option<usize> = None;
    let mut i: usize = 0;
    assert(m.take(0) =~= Seq::<char>::empty());
    for c in it: message.as_str().chars()
        invariant
            it.seq() == m,
            i == it.index(),
            bytes == utf8_len(m.take(i as int)),
            utf8_len(m) <= usize::MAX,
            m.len() <= utf8_len(m),
            utf8_len(m) > max,
            limit == (if max >= 3 {
                max - 3
            } else {
                max as int
            }),
            match cut {
                Some(k) => is_cut_point(m, limit as int, k as int),
                None => bytes <= limit,
            },
    {
        proof {
            assert(m.take(i + 1).drop_last() =~= m.take(i as int));
            lemma_utf8_len_prefix(m, i + 1, m.len() as int);
            assert(m.take(m.len() as int) =~= m);
        }
        let w = char_len_utf8(c);
        if cut.is_none() && bytes + w > limit {
            cut = Some(i);
        }
        bytes = bytes + w;
        i += 1;
    }
    proof {
        assert(m.take(m.len() as int) =~= m);
    }
    let k = match cut {
        Some(k) => k,
        None => 0,
    };
    assert(is_cut_point(m, limit as int, k as int));
    proof {
        let chosen = choose|j: int| #[trigger] is_cut_point(m, limit as int, j);
        lemma_cut_unique(m, limit as int, chosen, k as int);
    }
    let head = message.as_str().substring_char(0, k);
    let mut out = String::from_str(head);
    if max < 3 {
        return out;
    }
    out.append("...");
    proof {
        reveal_strlit("...");
        assert(out@ == m.take(k as int) + "..."@);
        let t = "..."@;
        assert(t.len() == 3);
        lemma_utf8_len_concat_dots(m.take(k as int));
    }
    out
}

proof fn lemma_len_le_utf8_len(s: Seq<char>)
    ensures
        s.len() <= utf8_len(s),
    decreases s.len(),
{
    if s.len() > 0 {
        lemma_len_le_utf8_len(s.drop_last());
    }
}

proof fn lemma_utf8_len_concat_dots(p: Seq<char>)
    ensures
        utf8_len(p + "..."@) == utf8_len(p) + 3,
{
    reveal_strlit("...");
    let t = p + "..."@;
    let t1 = p + seq!['.', '.'];
    let t2 = p + seq!['.'];
    assert(t.drop_last() =~= t1);
    assert(t1.drop_last() =~= t2);
    assert(t2.drop_last() =~= p);
    assert(t.last() == '.' && t1.last() == '.' && t2.last() == '.');
    assert(char_width('.') == 1);
    assert(utf8_len(t2) == utf8_len(p) + 1);
    assert(utf8_len(t1) == utf8_len(t2) + 1);
    assert(utf8_len(t) == utf8_len(t1) + 1);
}


#[verifier::external_type_specification]
#[verifier::external_body]
#[verifier::reject_recursive_types(R)]
#[verifier::reject_recursive_types(T)]
pub struct ExLockApiMutex<R, T: ?Sized>(parking_lot::lock_api::Mutex<R, T>);

#[verifier::external_type_specification]
#[verifier::external_body]
pub struct ExRawMutex(parking_lot::RawMutex);

/// Log buffer shared between the log layer and the client.
pub type LogBuffer = Arc<parking_lot::Mutex<VecDeque<LogEntry>>>;

/// Calls `parking_lot::Mutex::new`. The lock is opaque here: nothing is
/// stated of what it holds.
#[verifier::external_body]
fn new_locked_buffer(buf: VecDeque<LogEntry>) -> parking_lot::Mutex<VecDeque<LogEntry>> {
    parking_lot::Mutex::new(buf)
}

/// Captures log entries into a shared buffer for MCP access.
pub struct McpLogLayer {
    buffer: LogBuffer,
    max_entries: usize,
    max_message_length: usize,
}

impl McpLogLayer {
    /// A layer keeping at most `max_entries` entries, with messages cut to
    /// `DEFAULT_MAX_MESSAGE_LENGTH` bytes; also returns the shared buffer.
    pub fn new(max_entries: usize) -> (r: (Self, LogBuffer))
        ensures
            r.0.max_entries() == max_entries,
            r.0.max_message_length() == DEFAULT_MAX_MESSAGE_LENGTH,
            r.1 == r.0.shared_buffer(),
    {
        Self::with_message_limit(max_entries, DEFAULT_MAX_MESSAGE_LENGTH)
    }

    /// A layer with custom entry and message limits; also returns the
    /// shared buffer, which is the layer's own. The buffer starts empty; that
    /// is not stated here, as what a lock holds changes over time and is not
    /// a value of the lock.
    pub fn with_message_limit(max_entries: usize, max_message_length: usize) -> (r: (
        Self,
        LogBuffer,
    ))
        ensures
            r.0.max_entries() == max_entries,
            r.0.max_message_length() == max_message_length,
            r.1 == r.0.shared_buffer(),
    {
        let buffer = Arc::new(new_locked_buffer(VecDeque::with_capacity(max_entries)));
        let layer = McpLogLayer { buffer: buffer.clone(), max_entries, max_message_length };
        (layer, buffer)
    }

    /// Most entries the buffer keeps.
    pub closed spec fn max_entries(&self) -> usize {
        self.max_entries
    }

    /// Longest message kept whole, in bytes.
    pub closed spec fn max_message_length(&self) -> usize {
        self.max_message_length
    }

    /// Most entries the buffer keeps.
    pub fn entry_limit(&self) -> (n: usize)
        ensures
            n == self.max_entries(),
    {
        self.max_entries
    }

    /// Longest message kept whole, in bytes.
    pub fn message_limit(&self) -> (n: usize)
        ensures
            n == self.max_message_length(),
    {
        self.max_message_length
    }

    /// The buffer this layer stores its entries in.
    pub closed spec fn shared_buffer(&self) -> LogBuffer {
        self.buffer
    }

    /// The shared log buffer: the one this layer stores its entries in.
    pub fn buffer(&self) -> (b: LogBuffer)
        ensures
            b == self.shared_buffer(),
    {
        self.buffer.clone()
    }

    /// Stores a captured event in `buf`: the message is cut to the message
    /// limit, then the oldest entries are dropped beyond the entry limit.
    pub fn store_event(
        &self,
        buf: &mut VecDeque<LogEntry>,
        level: String,
        target: String,
        message: String,
        timestamp_ms: u64,
    )
        ensures
            logs_view(final(buf)@) == last_n(
                logs_view(old(buf)@).push(
                    LogView {
                        level: level@,
                        target: target@,
                        message: spec_truncate(message@, self.max_message_length() as int),
                        timestamp_ms,
                    },
                ),
                self.max_entries() as nat,
            ),
    {
        let entry = LogEntry {
            level,
            target,
            message: self.truncate_message(message),
            timestamp_ms,
        };
        let ghost ev = entry@;
        let ghost old_buf = buf@;
        push_bounded(buf, entry, self.max_entries);
        proof {
            let full = old_buf.push(entry);
            assert(logs_view(full) =~= logs_view(old_buf).push(ev));
            if full.len() > self.max_entries {
                assert(logs_view(buf@) =~= last_n(logs_view(full), self.max_entries as nat));
            }
        }
    }

    /// Cuts a message that exceeds the layer's message limit.
    pub fn truncate_message(&self, message: String) -> (r: String)
        ensures
            r@ == spec_truncate(message@, self.max_message_length() as int),
            utf8_len(r@) <= self.max_message_length(),
    {
        truncate_to_limit(message, self.max_message_length)
    }
}

} // verus!
