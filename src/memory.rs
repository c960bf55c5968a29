//! The per-project memory store: entries by key, kept sorted by key.
//!
//! The store lives in memory; writing it to disk is the caller's part, after
//! each operation that changes it.

use vstd::prelude::*;
use crate::keyed::{
    find_key, first_key_at, has_key, index_of_key, keys_sorted, lemma_index_of_key,
    lemma_remove_sorted, lemma_sorted_key_unique, upsert_sorted, upserted,
};
use crate::text::{
    compare_text, lemma_text_lt_irreflexive, lemma_text_lt_transitive, text_lt,
    lemma_infix_middle, contains_text, decimal, decimal_string, is_infix, lower_of, lowercase,
};

verus! {

/// One stored memory.
#[derive(Debug, Clone)]
pub struct MemoryEntry {
    /// The stored value.
    pub value: String,
    /// When the entry was created or last updated, as RFC 3339 text.
    pub timestamp: String,
    /// Who stored the entry, if that was given.
    pub source: Option<String>,
}

#[verifier::external_type_specification]
#[verifier::external_body]
pub struct ExSystemTime(std::time::SystemTime);

/// Relies on `SystemTime::now`: the system clock. Nothing is assumed of it.
#[verifier::external_body]
fn system_now() -> std::time::SystemTime {
    std::time::SystemTime::now()
}

/// Relies on `SystemTime::duration_since(UNIX_EPOCH)`: how far `t` lies from
/// the epoch, as whole seconds and nanoseconds (`Duration::subsec_nanos`,
/// documented to be below one billion), and whether it lies before it.
#[verifier::external_body]
fn since_epoch(t: &std::time::SystemTime) -> (r: (bool, u64, u32))
    ensures
        r.2 < 1_000_000_000,
{
    match t.duration_since(std::time::UNIX_EPOCH) {
        Ok(d) => (false, d.as_secs(), d.subsec_nanos()),
        Err(e) => (true, e.duration().as_secs(), e.duration().subsec_nanos()),
    }
}

/// The RFC 3339 text that chrono writes for the instant `secs` seconds and
/// `nanos` nanoseconds after the epoch.
pub uninterp spec fn rfc3339_text(secs: i64, nanos: u32) -> Seq<char>;

/// Relies on `chrono::DateTime::<Utc>::from_timestamp` and
/// `DateTime::to_rfc3339`: the RFC 3339 text of an instant given as seconds
/// and nanoseconds from the epoch, or `None` out of chrono's range. The text
/// depends on the two numbers alone.
#[verifier::external_body]
fn rfc3339_at(secs: i64, nanos: u32) -> (r: Option<String>)
    ensures
        r matches Some(t) ==> t@ == rfc3339_text(secs, nanos),
{
    match chrono::DateTime::<chrono::Utc>::from_timestamp(secs, nanos) {
        Some(d) => Some(d.to_rfc3339()),
        None => None,
    }
}

/// An instant given as a distance from the epoch and a side of it, as signed
/// seconds and nanoseconds after the epoch (the nanoseconds always count
/// forward); `None` when the seconds do not fit.
pub open spec fn epoch_instant(before: bool, secs: u64, nanos: u32) -> Option<(i64, u32)> {
    if secs >= 9_223_372_036_854_775_807 {
        None
    } else if !before {
        Some((secs as i64, nanos))
    } else if nanos == 0 {
        Some(((-(secs as int)) as i64, 0u32))
    } else {
        Some(((-(secs as int) - 1) as i64, (1_000_000_000 - nanos) as u32))
    }
}

/// Signed seconds and nanoseconds after the epoch of an instant given as a
/// distance from it and a side of it.
pub fn epoch_offset(before: bool, secs: u64, nanos: u32) -> (r: Option<(i64, u32)>)
    requires
        nanos < 1_000_000_000,
    ensures
        r == epoch_instant(before, secs, nanos),
        r matches Some(p) ==> p.1 < 1_000_000_000,
{
    if secs >= 9_223_372_036_854_775_807u64 {
        None
    } else if !before {
        Some((secs as i64, nanos))
    } else if nanos == 0 {
        Some((-(secs as i64), 0))
    } else {
        Some((-(secs as i64) - 1, 1_000_000_000 - nanos))
    }
}

/// The current time as RFC 3339 text; empty when the clock lies outside the
/// range of dates that can be written.
pub fn current_timestamp() -> (r: String)
    ensures
        r@.len() == 0 || exists|s: i64, n: u32| n < 1_000_000_000 && r@ == rfc3339_text(s, n),
{
    let now = system_now();
    let (before, secs, nanos) = since_epoch(&now);
    match epoch_offset(before, secs, nanos) {
        Some((s, n)) => match rfc3339_at(s, n) {
            Some(t) => t,
            None => String::new(),
        },
        None => String::new(),
    }
}

/// A project's memories, sorted by key.
#[derive(Debug, Clone)]
pub struct MemoryStore {
    pub entries: Vec<(String, MemoryEntry)>,
}

/// The entry a key holds, if any.
pub open spec fn entry_for(s: Seq<(String, MemoryEntry)>, k: Seq<char>) -> Option<MemoryEntry> {
    if has_key(s, k) {
        Some(s[index_of_key(s, k)].1)
    } else {
        None
    }
}

/// The entry to store over `prev`: `e`, but keeping the earlier timestamp
/// when `e`'s is older, so that a key's timestamp never goes back.
pub open spec fn restamped(prev: Option<MemoryEntry>, e: MemoryEntry) -> MemoryEntry {
    match prev {
        Some(p) => if text_lt(e.timestamp@, p.timestamp@) {
            MemoryEntry { value: e.value, timestamp: p.timestamp, source: e.source }
        } else {
            e
        },
        None => e,
    }
}

/// `pat` occurs in `text`, ignoring case.
pub open spec fn matches_folded(text: Seq<char>, pat: Seq<char>) -> bool {
    is_infix(lower_of(text), lower_of(pat))
}

/// Whether `text` contains the pattern whose lowercase form is `lower_pat`.
fn folded_contains(text: &str, lower_pat: &str, pat: Ghost<Seq<char>>) -> (r: bool)
    requires
        lower_pat@ == lower_of(pat@),
    ensures
        r == matches_folded(text@, pat@),
{
    let t = lowercase(text);
    contains_text(t.as_str(), lower_pat)
}

/// An entry is listed under an optional key pattern.
pub open spec fn listed(e: (String, MemoryEntry), pattern: Option<Seq<char>>) -> bool {
    match pattern {
        Some(p) => matches_folded(e.0@, p),
        None => true,
    }
}

/// An entry answers a search query through its key or its value.
pub open spec fn found_by(e: (String, MemoryEntry), query: Seq<char>) -> bool {
    matches_folded(e.0@, query) || matches_folded(e.1.value@, query)
}

/// `label value` and a newline for a present source.
pub open spec fn source_line(label: Seq<char>, source: Option<String>) -> Seq<char> {
    match source {
        Some(s) => label + s@ + "\n"@,
        None => seq![],
    }
}

/// How many characters of a value a listing shows.
pub const VALUE_PREVIEW_CHARS: usize = 100;

/// The start of a value as a listing shows it.
pub open spec fn value_preview(v: Seq<char>) -> Seq<char> {
    if v.len() > VALUE_PREVIEW_CHARS {
        v.subrange(0, VALUE_PREVIEW_CHARS as int) + "..."@
    } else {
        v
    }
}

pub open spec fn list_item_text(e: (String, MemoryEntry)) -> Seq<char> {
    "- **"@ + e.0@ + "**\n  Timestamp: "@ + e.1.timestamp@ + "\n"@ + source_line(
        "  Source: "@,
        e.1.source,
    ) + "  Preview: "@ + value_preview(e.1.value@) + "\n"@
}

pub open spec fn search_item_text(e: (String, MemoryEntry)) -> Seq<char> {
    "## "@ + e.0@ + "\n**Value:** "@ + e.1.value@ + "\n**Timestamp:** "@ + e.1.timestamp@ + "\n"@
        + source_line("**Source:** "@, e.1.source) + "\n"@
}

/// The listed entries, in order.
pub open spec fn listing(s: Seq<(String, MemoryEntry)>, pattern: Option<Seq<char>>) -> Seq<char>
    decreases s.len(),
{
    if s.len() == 0 {
        seq![]
    } else {
        listing(s.drop_last(), pattern) + if listed(s.last(), pattern) {
            list_item_text(s.last())
        } else {
            seq![]
        }
    }
}

pub open spec fn count_listed(s: Seq<(String, MemoryEntry)>, pattern: Option<Seq<char>>) -> nat
    decreases s.len(),
{
    if s.len() == 0 {
        0
    } else {
        count_listed(s.drop_last(), pattern) + if listed(s.last(), pattern) {
            1nat
        } else {
            0nat
        }
    }
}

/// The entries found by a query, in order.
pub open spec fn search_listing(s: Seq<(String, MemoryEntry)>, query: Seq<char>) -> Seq<char>
    decreases s.len(),
{
    if s.len() == 0 {
        seq![]
    } else {
        search_listing(s.drop_last(), query) + if found_by(s.last(), query) {
            search_item_text(s.last())
        } else {
            seq![]
        }
    }
}

pub open spec fn count_found(s: Seq<(String, MemoryEntry)>, query: Seq<char>) -> nat
    decreases s.len(),
{
    if s.len() == 0 {
        0
    } else {
        count_found(s.drop_last(), query) + if found_by(s.last(), query) {
            1nat
        } else {
            0nat
        }
    }
}

/// The entries that a clear with `pattern` keeps.
pub open spec fn retained(s: Seq<(String, MemoryEntry)>, pattern: Option<Seq<char>>) -> Seq<
    (String, MemoryEntry),
>
    decreases s.len(),
{
    if s.len() == 0 {
        s
    } else if listed(s[0], pattern) {
        retained(s.drop_first(), pattern)
    } else {
        seq![s[0]] + retained(s.drop_first(), pattern)
    }
}

pub open spec fn quoted(project: Seq<char>) -> Seq<char> {
    "'"@ + project + "'"@
}

pub open spec fn memory_text(key: Seq<char>, e: MemoryEntry) -> Seq<char> {
    "# Memory: "@ + key + "\n\n**Value:** "@ + e.value@ + "\n**Timestamp:** "@ + e.timestamp@
        + "\n"@ + source_line("**Source:** "@, e.source)
}

pub open spec fn key_not_found_text(key: Seq<char>) -> Seq<char> {
    "Memory key "@ + quoted(key) + " not found"@
}

pub open spec fn no_memories_text(project: Seq<char>) -> Seq<char> {
    "No memories stored for project "@ + quoted(project)
}

pub open spec fn list_text(
    s: Seq<(String, MemoryEntry)>,
    project: Seq<char>,
    pattern: Option<Seq<char>>,
) -> Seq<char> {
    if s.len() == 0 {
        no_memories_text(project)
    } else if count_listed(s, pattern) == 0 {
        "No memories matching pattern "@ + quoted(
            match pattern {
                Some(p) => p,
                None => seq![],
            },
        ) + " for project "@ + quoted(project)
    } else {
        "# Memories for "@ + quoted(project) + "\n\n"@ + match pattern {
            Some(p) => "Filtered by: "@ + p + "\n\n"@,
            None => seq![],
        } + listing(s, pattern)
    }
}

pub open spec fn search_text(s: Seq<(String, MemoryEntry)>, project: Seq<char>, query: Seq<char>) -> Seq<char> {
    if s.len() == 0 {
        no_memories_text(project)
    } else if count_found(s, query) == 0 {
        "No memories matching query "@ + quoted(query) + " for project "@ + quoted(project)
    } else {
        "# Search results for "@ + quoted(query) + " in "@ + quoted(project) + "\n\n"@
            + "Found "@ + decimal(count_found(s, query)) + " match(es)\n\n"@ + search_listing(s, query)
    }
}

/// `memory` or `memories`, by count.
pub open spec fn memories_word(n: nat) -> Seq<char> {
    if n == 1 {
        "memory"@
    } else {
        "memories"@
    }
}

pub open spec fn cleared_text(project: Seq<char>, pattern: Option<Seq<char>>, n: nat) -> Seq<char> {
    match pattern {
        Some(p) => "Cleared "@ + decimal(n) + " "@ + memories_word(n) + " matching pattern "@
            + quoted(p) + " for project "@ + quoted(project),
        None => "Cleared all "@ + decimal(n) + " "@ + memories_word(n) + " for project "@ + quoted(
            project,
        ),
    }
}

fn append_quoted(out: &mut String, s: &str)
    ensures
        final(out)@ == old(out)@ + quoted(s@),
{
    out.append("'");
    out.append(s);
    out.append("'");
}

fn append_source_line(out: &mut String, label: &str, source: &Option<String>)
    ensures
        final(out)@ == old(out)@ + source_line(label@, *source),
{
    match source {
        Some(s) => {
            out.append(label);
            out.append(s.as_str());
            out.append("\n");
        },
        None => {},
    }
}

fn append_list_item(out: &mut String, e: &(String, MemoryEntry))
    ensures
        final(out)@ == old(out)@ + list_item_text(*e),
{
    out.append("- **");
    out.append(e.0.as_str());
    out.append("**\n  Timestamp: ");
    out.append(e.1.timestamp.as_str());
    out.append("\n");
    append_source_line(out, "  Source: ", &e.1.source);
    out.append("  Preview: ");
    let n = e.1.value.as_str().unicode_len();
    if n > VALUE_PREVIEW_CHARS {
        out.append(e.1.value.as_str().substring_char(0, VALUE_PREVIEW_CHARS));
        out.append("...");
    } else {
        out.append(e.1.value.as_str());
    }
    out.append("\n");
}

fn append_search_item(out: &mut String, e: &(String, MemoryEntry))
    ensures
        final(out)@ == old(out)@ + search_item_text(*e),
{
    out.append("## ");
    out.append(e.0.as_str());
    out.append("\n**Value:** ");
    out.append(e.1.value.as_str());
    out.append("\n**Timestamp:** ");
    out.append(e.1.timestamp.as_str());
    out.append("\n");
    append_source_line(out, "**Source:** ", &e.1.source);
    out.append("\n");
}

impl MemoryStore {
    /// The entries' keys strictly increase.
    pub open spec fn wf(&self) -> bool {
        keys_sorted(self.entries@)
    }

    /// An empty store.
    pub fn new() -> (r: Self)
        ensures
            r.wf(),
            r.entries@.len() == 0,
    {
        MemoryStore { entries: Vec::new() }
    }

    /// Stores `entry` under `key`, replacing what the key held; the
    /// timestamp never goes back from the one the key held.
    pub fn store(&mut self, key: String, entry: MemoryEntry)
        requires
            old(self).wf(),
        ensures
            final(self).wf(),
            upserted(
                old(self).entries@,
                key,
                restamped(entry_for(old(self).entries@, key@), entry),
                final(self).entries@,
            ),
    {
        let ghost prev = entry_for(self.entries@, key@);
        let ghost given = entry;
        let mut entry = entry;
        match self.get(key.as_str()) {
            Some(old_entry) => {
                let c = compare_text(entry.timestamp.as_str(), old_entry.timestamp.as_str());
                if c == -1 {
                    entry = MemoryEntry {
                        value: entry.value,
                        timestamp: old_entry.timestamp.clone(),
                        source: entry.source,
                    };
                } else {
                    proof {
                        lemma_text_lt_irreflexive(given.timestamp@);
                        if c == 1 && text_lt(given.timestamp@, prev->0.timestamp@) {
                            lemma_text_lt_transitive(
                                given.timestamp@,
                                prev->0.timestamp@,
                                given.timestamp@,
                            );
                        }
                    }
                }
            },
            None => {},
        }
        assert(entry == restamped(prev, given));
        upsert_sorted(&mut self.entries, key, entry);
    }

    /// The entry of `key`.
    pub fn get(&self, key: &str) -> (r: Option<&MemoryEntry>)
        ensures
            match r {
                Some(e) => has_key(self.entries@, key@) && *e == self.entries@[index_of_key(
                    self.entries@,
                    key@,
                )].1,
                None => !has_key(self.entries@, key@),
            },
    {
        match find_key(&self.entries, key) {
            Some(i) => {
                proof {
                    lemma_index_of_key(self.entries@, key@, i as int);
                }
                Some(&self.entries[i].1)
            },
            None => None,
        }
    }

    /// The text shown for the entry of `key`, or the error that it is absent.
    pub fn get_text(&self, key: &str) -> (r: Result<String, String>)
        ensures
            match r {
                Ok(t) => has_key(self.entries@, key@) && t@ == memory_text(
                    key@,
                    self.entries@[index_of_key(self.entries@, key@)].1,
                ),
                Err(t) => !has_key(self.entries@, key@) && t@ == key_not_found_text(key@),
            },
    {
        match self.get(key) {
            Some(entry) => {
                let mut output = String::from_str("# Memory: ");
                output.append(key);
                output.append("\n\n**Value:** ");
                output.append(entry.value.as_str());
                output.append("\n**Timestamp:** ");
                output.append(entry.timestamp.as_str());
                output.append("\n");
                append_source_line(&mut output, "**Source:** ", &entry.source);
                Ok(output)
            },
            None => {
                let mut msg = String::from_str("Memory key ");
                append_quoted(&mut msg, key);
                msg.append(" not found");
                Err(msg)
            },
        }
    }

    /// Removes the entry of `key`; whether there was one.
    pub fn delete(&mut self, key: &str) -> (r: bool)
        requires
            old(self).wf(),
        ensures
            final(self).wf(),
            r == has_key(old(self).entries@, key@),
            r ==> final(self).entries@ == old(self).entries@.remove(
                index_of_key(old(self).entries@, key@),
            ),
            !r ==> final(self).entries@ == old(self).entries@,
    {
        match find_key(&self.entries, key) {
            Some(i) => {
                proof {
                    lemma_index_of_key(self.entries@, key@, i as int);
                    lemma_remove_sorted(self.entries@, i as int);
                }
                self.entries.remove(i);
                true
            },
            None => false,
        }
    }

    /// Removes every entry, or those whose key matches `pattern` (ignoring
    /// case); how many were removed.
    pub fn clear(&mut self, pattern: Option<&str>) -> (r: usize)
        requires
            old(self).wf(),
        ensures
            final(self).wf(),
            final(self).entries@ == retained(
                old(self).entries@,
                match pattern {
                    Some(p) => Some(p@),
                    None => None,
                },
            ),
            r == old(self).entries@.len() - final(self).entries@.len(),
    {
        let ghost pat = match pattern {
            Some(p) => Some(p@),
            None => None,
        };
        let ghost start = self.entries@;
        let lower_pat = match pattern {
            Some(p) => Some(lowercase(p)),
            None => None,
        };
        let n = self.entries.len();
        let mut i: usize = n;
        let mut removed: usize = 0;
        while i > 0
            invariant
                i <= n,
                n == start.len(),
                keys_sorted(self.entries@),
                self.entries@ == start.subrange(0, i as int) + retained(
                    start.subrange(i as int, n as int),
                    pat,
                ),
                removed == n - self.entries@.len(),
                self.entries@.len() <= n,
                match pattern {
                    Some(p) => pat == Some(p@) && lower_pat is Some && lower_pat->0@ == lower_of(p@),
                    None => pat is None && lower_pat is None,
                },
            decreases i,
        {
            i = i - 1;
            let ghost tail = start.subrange(i as int, n as int);
            assert(tail.drop_first() =~= start.subrange(i + 1, n as int));
            assert(tail[0] == start[i as int]);
            assert(self.entries@[i as int] == start[i as int]);
            let hit = match &lower_pat {
                Some(lp) => folded_contains(self.entries[i].0.as_str(), lp.as_str(), Ghost(pat->0)),
                None => true,
            };
            if hit {
                proof {
                    lemma_remove_sorted(self.entries@, i as int);
                }
                self.entries.remove(i);
                removed = removed + 1;
                assert(self.entries@ =~= start.subrange(0, i as int) + retained(tail, pat));
            } else {
                assert(self.entries@ =~= start.subrange(0, i as int) + retained(tail, pat));
            }
        }
        assert(start.subrange(0, n as int) =~= start);
        assert(start.subrange(0, 0) + retained(start, pat) =~= retained(start, pat));
        removed
    }

    /// The listing of the entries whose key matches `pattern` (all entries
    /// without one), in key order.
    pub fn list_text(&self, project: &str, pattern: Option<&str>) -> (r: String)
        ensures
            r@ == list_text(
                self.entries@,
                project@,
                match pattern {
                    Some(p) => Some(p@),
                    None => None,
                },
            ),
    {
        let ghost pat = match pattern {
            Some(p) => Some(p@),
            None => None,
        };
        let ghost s = self.entries@;
        if self.entries.len() == 0 {
            let mut msg = String::from_str("No memories stored for project ");
            append_quoted(&mut msg, project);
            return msg;
        }
        let lower_pat = match pattern {
            Some(p) => Some(lowercase(p)),
            None => None,
        };
        let mut body = String::new();
        let mut count: usize = 0;
        let mut i: usize = 0;
        while i < self.entries.len()
            invariant
                i <= self.entries.len(),
                s == self.entries@,
                body@ == listing(s.subrange(0, i as int), pat),
                count == count_listed(s.subrange(0, i as int), pat),
                count <= i,
                match pattern {
                    Some(p) => pat == Some(p@) && lower_pat is Some && lower_pat->0@ == lower_of(p@),
                    None => pat is None && lower_pat is None,
                },
            decreases self.entries.len() - i,
        {
            assert(s.subrange(0, i + 1).drop_last() =~= s.subrange(0, i as int));
            let e = &self.entries[i];
            let hit = match &lower_pat {
                Some(lp) => folded_contains(e.0.as_str(), lp.as_str(), Ghost(pat->0)),
                None => true,
            };
            if hit {
                append_list_item(&mut body, e);
                count = count + 1;
            }
            i = i + 1;
        }
        assert(s.subrange(0, i as int) =~= s);
        if count == 0 {
            let mut msg = String::from_str("No memories matching pattern ");
            match pattern {
                Some(p) => append_quoted(&mut msg, p),
                None => append_quoted(&mut msg, ""),
            }
            msg.append(" for project ");
            append_quoted(&mut msg, project);
            return msg;
        }
        let mut output = String::from_str("# Memories for ");
        append_quoted(&mut output, project);
        output.append("\n\n");
        match pattern {
            Some(p) => {
                output.append("Filtered by: ");
                output.append(p);
                output.append("\n\n");
            },
            None => {},
        }
        output.append(body.as_str());
        output
    }

    /// The entries whose key or value contains `query` (ignoring case), in
    /// key order.
    pub fn search_text(&self, project: &str, query: &str) -> (r: String)
        ensures
            r@ == search_text(self.entries@, project@, query@),
    {
        let ghost s = self.entries@;
        if self.entries.len() == 0 {
            let mut msg = String::from_str("No memories stored for project ");
            append_quoted(&mut msg, project);
            return msg;
        }
        let lq = lowercase(query);
        let mut body = String::new();
        let mut count: usize = 0;
        let mut i: usize = 0;
        while i < self.entries.len()
            invariant
                i <= self.entries.len(),
                s == self.entries@,
                lq@ == lower_of(query@),
                body@ == search_listing(s.subrange(0, i as int), query@),
                count == count_found(s.subrange(0, i as int), query@),
                count <= i,
            decreases self.entries.len() - i,
        {
            assert(s.subrange(0, i + 1).drop_last() =~= s.subrange(0, i as int));
            let e = &self.entries[i];
            let hit = folded_contains(e.0.as_str(), lq.as_str(), Ghost(query@))
                || folded_contains(e.1.value.as_str(), lq.as_str(), Ghost(query@));
            if hit {
                append_search_item(&mut body, e);
                count = count + 1;
            }
            i = i + 1;
        }
        assert(s.subrange(0, i as int) =~= s);
        if count == 0 {
            let mut msg = String::from_str("No memories matching query ");
            append_quoted(&mut msg, query);
            msg.append(" for project ");
            append_quoted(&mut msg, project);
            return msg;
        }
        let mut output = String::from_str("# Search results for ");
        append_quoted(&mut output, query);
        output.append(" in ");
        append_quoted(&mut output, project);
        output.append("\n\n");
        output.append("Found ");
        let digits = decimal_string(count);
        output.append(digits.as_str());
        output.append(" match(es)\n\n");
        output.append(body.as_str());
        output
    }

    /// A store holding the given entries, stored one after the other: of
    /// two entries with one key the later one is kept, restamped as `store`
    /// does.
    pub fn from_entries(entries: Vec<(String, MemoryEntry)>) -> (r: Self)
        ensures
            r.wf(),
            forall|q: Seq<char>| entry_for(r.entries@, q) == loaded(entries@, q),
    {
        let mut store = MemoryStore::new();
        let ghost all = entries@;
        let mut entries = entries;
        let total = entries.len();
        let mut i: usize = 0;
        while i < total
            invariant
                total == all.len(),
                i <= total,
                entries@ == all.subrange(i as int, total as int),
                store.wf(),
                forall|q: Seq<char>| entry_for(store.entries@, q) == loaded(all.subrange(0, i as int), q),
            decreases total - i,
        {
            let (k, e) = entries.remove(0);
            assert(k == all[i as int].0 && e == all[i as int].1);
            let ghost kk = k;
            let ghost before = store.entries@;
            let ghost stamped = restamped(entry_for(before, k@), e);
            store.store(k, e);
            proof {
                lemma_upserted_entries(before, kk, stamped, store.entries@);
                let post = all.subrange(0, i + 1);
                assert(post.drop_last() =~= all.subrange(0, i as int));
                assert forall|q: Seq<char>| entry_for(store.entries@, q) == loaded(post, q) by {}
            }
            i = i + 1;
        }
        assert(all.subrange(0, i as int) =~= all);
        store
    }
}

/// The entry a key ends with when `entries` are stored one after the other.
pub open spec fn loaded(entries: Seq<(String, MemoryEntry)>, q: Seq<char>) -> Option<MemoryEntry>
    decreases entries.len(),
{
    if entries.len() == 0 {
        None
    } else if entries.last().0@ == q {
        Some(restamped(loaded(entries.drop_last(), q), entries.last().1))
    } else {
        loaded(entries.drop_last(), q)
    }
}

/// After storing under `k`, the key holds the stored entry and every other
/// key holds what it held.
pub proof fn lemma_upserted_entries(
    old: Seq<(String, MemoryEntry)>,
    k: String,
    v: MemoryEntry,
    new: Seq<(String, MemoryEntry)>,
)
    requires
        keys_sorted(old),
        upserted(old, k, v, new),
    ensures
        entry_for(new, k@) == Some(v),
        forall|q: Seq<char>| q != k@ ==> entry_for(new, q) == entry_for(old, q),
{
    lemma_stored_entry(old, new, k, v);
    assert forall|q: Seq<char>| q != k@ implies entry_for(new, q) == entry_for(old, q) by {
        if has_key(old, q) {
            let j0 = choose|j: int| 0 <= j < old.len() && old[j].0@ == q;
            assert forall|m: int| 0 <= m < j0 implies old[m].0@ != q by {
                if old[m].0@ == q {
                    lemma_sorted_key_unique(old, m, j0);
                }
            }
            lemma_index_of_key(old, q, j0);
            if has_key(old, k@) {
                let i = choose|i: int| first_key_at(old, k@, i) && new == old.update(i, (k, v));
                assert(new[j0] == old[j0]);
                assert forall|m: int| 0 <= m < j0 implies new[m].0@ != q by {
                    if m != i {
                        assert(new[m] == old[m]);
                    }
                }
                lemma_index_of_key(new, q, j0);
            } else {
                let i = choose|i: int| 0 <= i <= old.len() && new == old.insert(i, (k, v));
                let jn = if j0 < i {
                    j0
                } else {
                    j0 + 1
                };
                assert(new[jn] == old[j0]);
                assert forall|m: int| 0 <= m < jn implies new[m].0@ != q by {
                    if m < i {
                        assert(new[m] == old[m]);
                    } else if m > i {
                        assert(new[m] == old[m - 1]);
                    }
                }
                lemma_index_of_key(new, q, jn);
            }
        }
    }
}

/// The entry a key holds after a store holds the stored value and source.
proof fn lemma_stored_entry(s0: Seq<(String, MemoryEntry)>, s1: Seq<(String, MemoryEntry)>, k: String, e: MemoryEntry)
    requires
        upserted(s0, k, e, s1),
    ensures
        entry_for(s1, k@) == Some(e),
        forall|i: int, j: int|
            0 <= i < s1.len() && 0 <= j < s1.len() && s1[i].0@ == k@ && s1[j].0@ == k@ ==> i == j,
{
    let j = choose|j: int| 0 <= j < s1.len() && s1[j].0@ == k@;
    assert forall|m: int| 0 <= m < j implies s1[m].0@ != k@ by {
        if s1[m].0@ == k@ {
            lemma_sorted_key_unique(s1, m, j);
        }
    }
    lemma_index_of_key(s1, k@, j);
    assert forall|a: int, b: int|
        0 <= a < s1.len() && 0 <= b < s1.len() && s1[a].0@ == k@ && s1[b].0@ == k@ implies a == b by {
        lemma_sorted_key_unique(s1, a, b);
    }
}

/// Storing twice under one key leaves exactly one entry for the key, with
/// the second value and source, and a timestamp no earlier than the one the
/// first store left.
pub proof fn lemma_store_twice(
    s0: Seq<(String, MemoryEntry)>,
    s1: Seq<(String, MemoryEntry)>,
    s2: Seq<(String, MemoryEntry)>,
    k: String,
    e1: MemoryEntry,
    e2: MemoryEntry,
)
    requires
        keys_sorted(s0),
        upserted(s0, k, restamped(entry_for(s0, k@), e1), s1),
        upserted(s1, k, restamped(entry_for(s1, k@), e2), s2),
    ensures
        forall|i: int, j: int|
            0 <= i < s2.len() && 0 <= j < s2.len() && s2[i].0@ == k@ && s2[j].0@ == k@ ==> i == j,
        entry_for(s1, k@) is Some,
        entry_for(s2, k@) is Some,
        entry_for(s2, k@)->0.value == e2.value,
        entry_for(s2, k@)->0.source == e2.source,
        !text_lt(entry_for(s2, k@)->0.timestamp@, entry_for(s1, k@)->0.timestamp@),
{
    lemma_stored_entry(s0, s1, k, restamped(entry_for(s0, k@), e1));
    lemma_stored_entry(s1, s2, k, restamped(entry_for(s1, k@), e2));
    let first = entry_for(s1, k@)->0;
    lemma_text_lt_irreflexive(first.timestamp@);
}

/// After storing a value (and a source) under a key, reading the key answers
/// with a text that holds the value and the source.
pub proof fn lemma_store_then_get(
    s0: Seq<(String, MemoryEntry)>,
    s1: Seq<(String, MemoryEntry)>,
    k: String,
    e: MemoryEntry,
)
    requires
        keys_sorted(s0),
        upserted(s0, k, restamped(entry_for(s0, k@), e), s1),
    ensures
        has_key(s1, k@),
        is_infix(memory_text(k@, s1[index_of_key(s1, k@)].1), e.value@),
        e.source matches Some(src) ==> is_infix(memory_text(k@, s1[index_of_key(s1, k@)].1), src@),
{
    let stored = restamped(entry_for(s0, k@), e);
    lemma_stored_entry(s0, s1, k, stored);
    let t = memory_text(k@, stored);
    let a = "# Memory: "@ + k@ + "\n\n**Value:** "@;
    let c = "\n**Timestamp:** "@ + stored.timestamp@ + "\n"@ + source_line("**Source:** "@, e.source);
    assert(t =~= a + e.value@ + c);
    lemma_infix_middle(a, e.value@, c);
    match e.source {
        Some(src) => {
            let a2 = "# Memory: "@ + k@ + "\n\n**Value:** "@ + e.value@ + "\n**Timestamp:** "@
                + stored.timestamp@ + "\n"@ + "**Source:** "@;
            assert(t =~= a2 + src@ + "\n"@);
            lemma_infix_middle(a2, src@, "\n"@);
        },
        None => {},
    }
}

} // verus!
