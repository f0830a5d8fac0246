//! A flat, context-free history of terminal commands for autosuggestion.
//!
//! Entries are kept most recent first. Adding a command moves it to the
//! front (each command occurs once), the history is cut to its maximum size,
//! a prefix is completed with the most recent command that extends it, and
//! entries older than a maximum age are purged.
use vstd::prelude::*;

use crate::clock::{clock_reading, unix_time_now};
use crate::history_laws::{
    commands_distinct, lemma_add_keeps_commands_distinct, lemma_add_keeps_recency_order,
    lemma_added_command_first, lemma_added_within_limit, lemma_suggestion_is_most_recent_extension,
    recency_ordered, used_by,
};
use crate::text::{chars_of, starts_with_chars};

verus! {

// ---------------------------------------------------------------------------
// Data model
// ---------------------------------------------------------------------------

/// An entry as a value: the characters of the command and the time (Unix
/// seconds) when it was last used, if known.
pub type EntryView = (Seq<char>, Option<i64>);

/// One command of the history.
#[derive(Clone, Debug)]
pub struct SuggestionEntry {
    pub command: String,
    /// Unix timestamp of when this command was last used.
    /// `None` for entries saved before this field existed.
    pub last_used: Option<i64>,
}

impl View for SuggestionEntry {
    type V = EntryView;

    open spec fn view(&self) -> EntryView {
        (self.command@, self.last_used)
    }
}

/// The values of a sequence of entries.
pub open spec fn entry_views(v: Seq<SuggestionEntry>) -> Seq<EntryView> {
    v.map_values(|e: SuggestionEntry| e@)
}

/// A flat (context-free) history of commands for autosuggestion.
/// Entries are sorted by recency (most recent first).
#[derive(Clone, Debug)]
pub struct SuggestionHistory {
    entries: Vec<SuggestionEntry>,
    max_entries: usize,
}

/// Events that a history owner announces to its listeners.
#[derive(Clone, Debug)]
pub enum SuggestionHistoryEvent {
    Changed,
}

impl View for SuggestionHistory {
    type V = Seq<EntryView>;

    closed spec fn view(&self) -> Seq<EntryView> {
        entry_views(self.entries@)
    }
}

impl SuggestionHistory {
    /// The number of entries beyond which adding a command drops the oldest.
    pub closed spec fn limit(&self) -> nat {
        self.max_entries as nat
    }
}

// ---------------------------------------------------------------------------
// Specification of the operations
// ---------------------------------------------------------------------------

/// Whether an entry is for some other command than `command`.
pub open spec fn other_command(command: Seq<char>) -> spec_fn(EntryView) -> bool {
    |e: EntryView| e.0 != command
}

/// `entries` without the entries for `command`, in their order.
pub open spec fn without_command(entries: Seq<EntryView>, command: Seq<char>) -> Seq<EntryView> {
    entries.filter(other_command(command))
}

/// The first `n` entries of `entries` (all of them if there are fewer).
pub open spec fn at_most(entries: Seq<EntryView>, n: nat) -> Seq<EntryView> {
    if entries.len() > n {
        entries.take(n as int)
    } else {
        entries
    }
}

/// The history after `command` is used at time `time` (`None` where no time
/// is known): an empty command changes nothing; otherwise the command moves
/// to the front with that time, its older entries go, and only the first
/// `limit` entries stay.
pub open spec fn with_command_added(
    entries: Seq<EntryView>,
    limit: nat,
    command: Seq<char>,
    time: Option<i64>,
) -> Seq<EntryView> {
    if command.len() == 0 {
        entries
    } else {
        at_most(seq![(command, time)] + without_command(entries, command), limit)
    }
}

/// `command` is offered for `prefix`: it starts with `prefix` and is longer.
pub open spec fn suggests(command: Seq<char>, prefix: Seq<char>) -> bool {
    prefix.is_prefix_of(command) && command != prefix
}

/// The first command of `entries` that is offered for `prefix`.
pub open spec fn first_suggestion(entries: Seq<EntryView>, prefix: Seq<char>) -> Option<
    Seq<char>,
>
    decreases entries.len(),
{
    if entries.len() == 0 {
        None
    } else if suggests(entries[0].0, prefix) {
        Some(entries[0].0)
    } else {
        first_suggestion(entries.drop_first(), prefix)
    }
}

/// What the history suggests for `prefix`: nothing for an empty prefix, else
/// its most recent command that extends the prefix.
pub open spec fn suggestion_for(entries: Seq<EntryView>, prefix: Seq<char>) -> Option<Seq<char>> {
    if prefix.len() == 0 {
        None
    } else {
        first_suggestion(entries, prefix)
    }
}

/// An entry with no time gets the time `now`.
pub open spec fn stamp_with(now: i64) -> spec_fn(EntryView) -> EntryView {
    |e: EntryView|
        (
            e.0,
            Some(
                match e.1 {
                    Some(t) => t,
                    None => now,
                },
            ),
        )
}

/// Whether an entry was used at or after `cutoff`.
pub open spec fn fresh_since(cutoff: int) -> spec_fn(EntryView) -> bool {
    |e: EntryView|
        match e.1 {
            Some(t) => t >= cutoff,
            None => false,
        }
}

/// The history after a purge at time `now` with the given cutoff: every
/// entry without a time is stamped with `now`, then the entries used before
/// `cutoff` go; the others keep their order.
pub open spec fn purged(entries: Seq<EntryView>, now: i64, cutoff: int) -> Seq<EntryView> {
    entries.map_values(stamp_with(now)).filter(fresh_since(cutoff))
}

/// The oldest time that survives a purge at `now` with `max_age_days`:
/// `max_age_days` days before `now`.
pub open spec fn expiry_cutoff(now: i64, max_age_days: u64) -> int {
    now - max_age_days * 86400
}

/// What a purge makes of `before` when the clock gave `clock`: with no time
/// available, `before` unchanged; otherwise the history purged at that time.
pub open spec fn purge_outcome(
    before: Seq<EntryView>,
    after: Seq<EntryView>,
    clock: Option<i64>,
    max_age_days: u64,
) -> bool {
    match clock {
        Some(now) => now >= 0 && after == purged(before, now, expiry_cutoff(now, max_age_days)),
        None => after == before,
    }
}

/// The entries of a history read back from storage, or none.
pub open spec fn stored_or_empty(loaded: Option<SuggestionHistory>) -> Seq<EntryView> {
    match loaded {
        Some(h) => h@,
        None => Seq::<EntryView>::empty(),
    }
}

/// The maximum age in days that a session starts with: 7 unless configured.
pub open spec fn age_or_default(max_age_days: Option<u64>) -> u64 {
    match max_age_days {
        Some(d) => d,
        None => 7,
    }
}

// ---------------------------------------------------------------------------
// Proof helpers
// ---------------------------------------------------------------------------

proof fn lemma_entry_views_push(v: Seq<SuggestionEntry>, e: SuggestionEntry)
    ensures
        entry_views(v.push(e)) == entry_views(v).push(e@),
{
    assert(entry_views(v.push(e)) =~= entry_views(v).push(e@));
}

// ---------------------------------------------------------------------------
// Operations
// ---------------------------------------------------------------------------

fn default_max_entries() -> (n: usize)
    ensures
        n == 10000,
{
    10_000
}

impl Default for SuggestionHistory {
    fn default() -> (r: Self)
        ensures
            r@ == Seq::<EntryView>::empty(),
            r.limit() == 10000,
    {
        let r = SuggestionHistory { entries: Vec::new(), max_entries: default_max_entries() };
        assert(r@ =~= Seq::<EntryView>::empty());
        r
    }
}

impl SuggestionHistory {
    /// An empty history that holds at most 10,000 entries.
    pub fn new() -> (r: Self)
        ensures
            r@ == Seq::<EntryView>::empty(),
            r.limit() == 10000,
    {
        Self::default()
    }

    /// A history of the given entries, as read back from storage, with the
    /// default maximum of 10,000 entries.
    pub fn from_entries(entries: Vec<SuggestionEntry>) -> (r: Self)
        ensures
            r@ == entry_views(entries@),
            r.limit() == 10000,
    {
        SuggestionHistory { entries, max_entries: default_max_entries() }
    }

    /// The same history with a different maximum size.
    pub fn with_max_entries(self, max: usize) -> (r: Self)
        ensures
            r@ == self@,
            r.limit() == max,
    {
        SuggestionHistory { entries: self.entries, max_entries: max }
    }

    /// The entries, most recent first.
    pub fn entries(&self) -> (r: &[SuggestionEntry])
        ensures
            entry_views(r@) == self@,
    {
        self.entries.as_slice()
    }

    /// Removes every entry.
    pub fn clear(&mut self)
        ensures
            final(self)@ == Seq::<EntryView>::empty(),
            final(self).limit() == old(self).limit(),
    {
        self.entries.clear();
        assert(self@ =~= Seq::<EntryView>::empty());
    }

    /// Records that `command` was used at time `now`: deduplicates by command
    /// text, moving it to the front, and drops the oldest entries beyond the
    /// maximum size. An empty command is ignored.
    pub fn add_command_at(&mut self, command: String, now: i64)
        ensures
            final(self)@ == with_command_added(old(self)@, old(self).limit(), command@, Some(now)),
            final(self).limit() == old(self).limit(),
    {
        self.record_command(command, Some(now));
    }

    /// Records that `command` was used at time `time` (none where no time is
    /// known).
    pub fn record_command(&mut self, command: String, time: Option<i64>)
        ensures
            final(self)@ == with_command_added(old(self)@, old(self).limit(), command@, time),
            final(self).limit() == old(self).limit(),
    {
        if command.as_str().is_empty() {
            return;
        }
        let ghost old_view = self@;
        let ghost cmd = command@;
        let n = self.entries.len();
        let mut rest: Vec<SuggestionEntry> = Vec::new();
        let mut i: usize = 0;
        while i < n
            invariant
                n == self.entries.len(),
                i <= n,
                self@ == old_view,
                cmd == command@,
                entry_views(rest@) == without_command(old_view.take(i as int), cmd),
            decreases n - i,
        {
            let same = self.entries[i].command == command;
            let ghost x = old_view[i as int];
            proof {
                assert(old_view.take(i + 1) =~= old_view.take(i as int).push(x));
                old_view.take(i as int).lemma_filter_push(x, other_command(cmd));
            }
            if !same {
                let e = SuggestionEntry {
                    command: self.entries[i].command.clone(),
                    last_used: self.entries[i].last_used,
                };
                proof {
                    lemma_entry_views_push(rest@, e);
                }
                rest.push(e);
            }
            i = i + 1;
        }
        assert(old_view.take(n as int) =~= old_view);
        let mut next: Vec<SuggestionEntry> = Vec::new();
        next.push(SuggestionEntry { command, last_used: time });
        next.append(&mut rest);
        assert(entry_views(next@) =~= seq![(cmd, time)] + without_command(old_view, cmd));
        if next.len() > self.max_entries {
            let ghost before = next@;
            next.truncate(self.max_entries);
            assert(entry_views(next@) =~= entry_views(before).take(self.max_entries as int));
        }
        self.entries = next;
    }

    /// Records that `command` was used now, by the system clock; where the
    /// clock gives no usable time, the command is recorded without one.
    pub fn add_command(&mut self, command: String)
        ensures
            final(self).limit() == old(self).limit(),
            command@.len() == 0 ==> final(self)@ == old(self)@,
            command@.len() > 0 && old(self).limit() > 0 ==> final(self)@.len() > 0
                && final(self)@[0].0 == command@ && forall|i: int|
                1 <= i < final(self)@.len() ==> (#[trigger] final(self)@[i]).0 != command@,
            command@.len() > 0 || old(self)@.len() <= old(self).limit() ==> final(self)@.len()
                <= old(self).limit(),
            commands_distinct(old(self)@) ==> commands_distinct(final(self)@),
            command@.len() > 0 ==> exists|time: Option<i64>|
                #[trigger] clock_reading(time) && final(self)@ == with_command_added(
                    old(self)@,
                    old(self).limit(),
                    command@,
                    time,
                ),
            exists|time: Option<i64>|
                (time matches Some(t) ==> t >= 0 && (recency_ordered(old(self)@) && used_by(
                    old(self)@,
                    t,
                ) ==> recency_ordered(final(self)@))) && final(self)@ == with_command_added(
                    old(self)@,
                    old(self).limit(),
                    command@,
                    time,
                ),
    {
        if command.as_str().is_empty() {
            assert(with_command_added(self@, self.limit(), command@, None) == self@);
            return;
        }
        let read_clock = unix_time_now;
        let time = read_clock();
        assert(clock_reading(time));
        let ghost before = self@;
        let ghost cmd = command@;
        self.record_command(command, time);
        proof {
            lemma_added_within_limit(before, self.limit(), cmd, time);
            if self.limit() > 0 {
                lemma_added_command_first(before, self.limit(), cmd, time);
            }
            if commands_distinct(before) {
                lemma_add_keeps_commands_distinct(before, self.limit(), cmd, time);
            }
            if let Some(t) = time {
                if recency_ordered(before) && used_by(before, t) {
                    lemma_add_keeps_recency_order(before, self.limit(), cmd, t);
                }
            }
        }
    }

    /// The most recent command that starts with `prefix` and is longer than
    /// it; nothing for an empty prefix.
    pub fn find_suggestion(&self, prefix: &str) -> (r: Option<&str>)
        ensures
            match r {
                Some(s) => suggestion_for(self@, prefix@) == Some(s@),
                None => suggestion_for(self@, prefix@) is None,
            },
            match r {
                Some(s) => prefix@.len() > 0 && prefix@.is_prefix_of(s@) && s@ != prefix@
                    && exists|i: int|
                    0 <= i < self@.len() && (#[trigger] self@[i]).0 == s@ && forall|j: int|
                        0 <= j < i ==> !(prefix@.is_prefix_of((#[trigger] self@[j]).0)
                            && self@[j].0 != prefix@),
                None => prefix@.len() == 0 || forall|i: int|
                    0 <= i < self@.len() ==> !(prefix@.is_prefix_of((#[trigger] self@[i]).0)
                        && self@[i].0 != prefix@),
            },
    {
        proof {
            lemma_suggestion_is_most_recent_extension(self@, prefix@);
        }
        if prefix.is_empty() {
            return None;
        }
        let p = chars_of(prefix);
        let n = self.entries.len();
        let mut i: usize = 0;
        assert(self@.skip(0) =~= self@);
        while i < n
            invariant
                n == self.entries.len(),
                i <= n,
                p@ == prefix@,
                prefix@.len() > 0,
                first_suggestion(self@, prefix@) == first_suggestion(self@.skip(i as int), prefix@),
            decreases n - i,
        {
            let c = chars_of(self.entries[i].command.as_str());
            let ghost rest = self@.skip(i as int);
            assert(rest[0] == self.entries@[i as int]@);
            assert(rest.drop_first() =~= self@.skip(i + 1));
            let starts = starts_with_chars(&c, &p);
            if starts && c.len() != p.len() {
                assert(suggestion_for(self@, prefix@) == Some(self@[i as int].0));
                proof {
                    lemma_suggestion_is_most_recent_extension(self@, prefix@);
                }
                return Some(self.entries[i].command.as_str());
            }
            proof {
                if starts {
                    assert(c@ =~= p@);
                }
            }
            i = i + 1;
        }
        None
    }

    /// Removes entries used more than `max_age_days` days before `now`, after
    /// stamping entries that have no time with `now`.
    pub fn purge_expired_at(&mut self, max_age_days: u64, now: i64)
        ensures
            final(self)@ == purged(old(self)@, now, expiry_cutoff(now, max_age_days)),
            final(self).limit() == old(self).limit(),
    {
        let cutoff: i128 = (now as i128) - (max_age_days as i128) * 86400;
        let ghost old_view = self@;
        let n = self.entries.len();
        let mut kept: Vec<SuggestionEntry> = Vec::new();
        let mut i: usize = 0;
        while i < n
            invariant
                n == self.entries.len(),
                i <= n,
                self@ == old_view,
                cutoff == expiry_cutoff(now, max_age_days),
                entry_views(kept@) == old_view.take(i as int).map_values(stamp_with(now)).filter(
                    fresh_since(cutoff as int),
                ),
            decreases n - i,
        {
            let t: i64 = match self.entries[i].last_used {
                Some(t) => t,
                None => now,
            };
            let ghost x = old_view[i as int];
            let ghost y = stamp_with(now)(x);
            proof {
                assert(old_view.take(i + 1).map_values(stamp_with(now)) =~= old_view.take(
                    i as int,
                ).map_values(stamp_with(now)).push(y));
                old_view.take(i as int).map_values(stamp_with(now)).lemma_filter_push(
                    y,
                    fresh_since(cutoff as int),
                );
            }
            if (t as i128) >= cutoff {
                let e = SuggestionEntry {
                    command: self.entries[i].command.clone(),
                    last_used: Some(t),
                };
                proof {
                    lemma_entry_views_push(kept@, e);
                }
                kept.push(e);
            }
            i = i + 1;
        }
        assert(old_view.take(n as int) =~= old_view);
        self.entries = kept;
    }

    /// Removes entries older than `max_age_days` by the system clock; entries
    /// with no time are stamped with the current time and so survive. Where
    /// the clock gives no usable time, nothing changes.
    pub fn purge_expired(&mut self, max_age_days: u64)
        ensures
            final(self).limit() == old(self).limit(),
            exists|clock: Option<i64>|
                #[trigger] purge_outcome(old(self)@, final(self)@, clock, max_age_days),
            exists|clock: Option<i64>|
                #[trigger] clock_reading(clock) && purge_outcome(
                    old(self)@,
                    final(self)@,
                    clock,
                    max_age_days,
                ),
    {
        let read_clock = unix_time_now;
        let clock = read_clock();
        assert(clock_reading(clock));
        let ghost before = self@;
        if let Some(now) = clock {
            self.purge_expired_at(max_age_days, now);
        }
        assert(purge_outcome(before, self@, clock, max_age_days));
    }

    /// The history to start a session with: the stored one if it could be
    /// read, else an empty one, purged of entries older than `max_age_days`
    /// (7 days when not given).
    /// The purge goes by the system clock, as `purge_expired` does.
    pub fn init_with_max_age(loaded: Option<SuggestionHistory>, max_age_days: Option<u64>) -> (r:
        SuggestionHistory)
        ensures
            r.limit() == match loaded {
                Some(h) => h.limit(),
                None => 10000,
            },
            exists|clock: Option<i64>|
                #[trigger] purge_outcome(
                    stored_or_empty(loaded),
                    r@,
                    clock,
                    age_or_default(max_age_days),
                ),
            exists|clock: Option<i64>|
                #[trigger] clock_reading(clock) && purge_outcome(
                    stored_or_empty(loaded),
                    r@,
                    clock,
                    age_or_default(max_age_days),
                ),
    {
        let ghost before = stored_or_empty(loaded);
        let mut history = match loaded {
            Some(h) => h,
            None => SuggestionHistory::new(),
        };
        let max_age: u64 = match max_age_days {
            Some(d) => d,
            None => 7,
        };
        assert(history@ == before);
        history.purge_expired(max_age);
        proof {
            let clock = choose|clock: Option<i64>|
                #[trigger] clock_reading(clock) && purge_outcome(before, history@, clock, max_age);
            assert(clock_reading(clock));
            assert(purge_outcome(stored_or_empty(loaded), history@, clock, age_or_default(max_age_days)));
        }
        history
    }
}

} // verus!
