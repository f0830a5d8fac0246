//! Laws of the suggestion history, stated over the specifications that the
//! operations of `suggestion_history` are proved to meet.
use vstd::prelude::*;

use crate::suggestion_history::{
    at_most, first_suggestion, fresh_since, other_command, purged, stamp_with, suggestion_for,
    suggests, with_command_added, without_command, EntryView,
};

verus! {

/// No two entries are for the same command.
pub open spec fn commands_distinct(entries: Seq<EntryView>) -> bool {
    forall|i: int, j: int| 0 <= i < j < entries.len() ==> entries[i].0 != entries[j].0
}

// ---------------------------------------------------------------------------
// Sequence facts
// ---------------------------------------------------------------------------

proof fn lemma_filter_keeps_all<A>(s: Seq<A>, p: spec_fn(A) -> bool)
    requires
        forall|i: int| 0 <= i < s.len() ==> p(s[i]),
    ensures
        s.filter(p) == s,
    decreases s.len(),
{
    reveal(Seq::filter);
    if s.len() > 0 {
        lemma_filter_keeps_all(s.drop_last(), p);
        assert(s.drop_last().push(s.last()) =~= s);
    }
}

/// Every two entries, the earlier first, are related by `rel`.
pub open spec fn pairwise(s: Seq<EntryView>, rel: spec_fn(EntryView, EntryView) -> bool) -> bool {
    forall|i: int, j: int| 0 <= i < j < s.len() ==> rel(s[i], s[j])
}

/// Two entries are for different commands.
pub open spec fn different_commands() -> spec_fn(EntryView, EntryView) -> bool {
    |a: EntryView, b: EntryView| a.0 != b.0
}

/// An entry with time `a` may stand before one with time `b` in a history
/// ordered most recent first: an older time never comes first, and an entry
/// without a time comes after every entry that has one.
pub open spec fn not_before(a: Option<i64>, b: Option<i64>) -> bool {
    match (a, b) {
        (Some(x), Some(y)) => x >= y,
        (None, Some(_)) => false,
        _ => true,
    }
}

/// An earlier entry may stand before a later one in recency order.
pub open spec fn not_older() -> spec_fn(EntryView, EntryView) -> bool {
    |a: EntryView, b: EntryView| not_before(a.1, b.1)
}

/// The entries are ordered most recent first, with the entries that have no
/// time last.
pub open spec fn recency_ordered(entries: Seq<EntryView>) -> bool {
    forall|i: int, j: int|
        0 <= i < j < entries.len() ==> not_before(#[trigger] entries[i].1, #[trigger] entries[j].1)
}

/// A time, if any, is not after `now`.
pub open spec fn not_after(t: Option<i64>, now: i64) -> bool {
    match t {
        Some(x) => x <= now,
        None => true,
    }
}

/// No entry was used after `now`.
pub open spec fn used_by(entries: Seq<EntryView>, now: i64) -> bool {
    forall|i: int| 0 <= i < entries.len() ==> not_after(#[trigger] entries[i].1, now)
}

proof fn lemma_filter_pairwise(
    s: Seq<EntryView>,
    p: spec_fn(EntryView) -> bool,
    rel: spec_fn(EntryView, EntryView) -> bool,
)
    requires
        pairwise(s, rel),
    ensures
        pairwise(s.filter(p), rel),
    decreases s.len(),
{
    reveal(Seq::filter);
    if s.len() > 0 {
        let rest = s.drop_last();
        lemma_filter_pairwise(rest, p, rel);
        let f = rest.filter(p);
        if p(s.last()) {
            assert forall|i: int| 0 <= i < f.len() implies rel(f[i], s.last()) by {
                rest.lemma_filter_contains_rev(p, f[i]);
                let k = choose|k: int| 0 <= k < rest.len() && rest[k] == f[i];
                assert(s[k] == f[i]);
            }
            let g = f.push(s.last());
            assert forall|i: int, j: int| 0 <= i < j < g.len() implies rel(g[i], g[j]) by {
                if j == g.len() - 1 {
                    assert(rel(f[i], s.last()));
                } else {
                    assert(rel(f[i], f[j]));
                }
            }
        }
    }
}

proof fn lemma_filter_distinct(s: Seq<EntryView>, p: spec_fn(EntryView) -> bool)
    requires
        commands_distinct(s),
    ensures
        commands_distinct(s.filter(p)),
{
    let rel = different_commands();
    assert(pairwise(s, rel));
    lemma_filter_pairwise(s, p, rel);
    let f = s.filter(p);
    assert forall|i: int, j: int| 0 <= i < j < f.len() implies f[i].0 != f[j].0 by {
        assert(rel(f[i], f[j]));
    }
}

proof fn lemma_filter_recency(s: Seq<EntryView>, p: spec_fn(EntryView) -> bool)
    requires
        recency_ordered(s),
    ensures
        recency_ordered(s.filter(p)),
{
    let rel = not_older();
    assert forall|i: int, j: int| 0 <= i < j < s.len() implies rel(s[i], s[j]) by {
        assert(not_before(s[i].1, s[j].1));
    }
    lemma_filter_pairwise(s, p, rel);
    let f = s.filter(p);
    assert forall|i: int, j: int| 0 <= i < j < f.len() implies not_before(
        #[trigger] f[i].1,
        #[trigger] f[j].1,
    ) by {
        assert(rel(f[i], f[j]));
    }
}

proof fn lemma_without_command_facts(entries: Seq<EntryView>, command: Seq<char>)
    ensures
        forall|i: int|
            0 <= i < without_command(entries, command).len() ==> (#[trigger] without_command(
                entries,
                command,
            )[i]).0 != command,
        without_command(entries, command).len() <= entries.len(),
{
    broadcast use vstd::seq_lib::group_filter_ensures;

    let w = without_command(entries, command);
    assert forall|i: int| 0 <= i < w.len() implies (#[trigger] w[i]).0 != command by {
        entries.lemma_filter_pred(other_command(command), i);
    }
}

// ---------------------------------------------------------------------------
// Adding a command
// ---------------------------------------------------------------------------

/// A non-empty command that was just added stands first, with the time it
/// was added at, and nowhere else, as long as the history may hold anything.
pub proof fn lemma_added_command_first(
    entries: Seq<EntryView>,
    limit: nat,
    command: Seq<char>,
    time: Option<i64>,
)
    requires
        command.len() > 0,
        limit > 0,
    ensures
        with_command_added(entries, limit, command, time).len() > 0,
        with_command_added(entries, limit, command, time)[0] == (command, time),
        forall|i: int|
            1 <= i < with_command_added(entries, limit, command, time).len() ==> (
            #[trigger] with_command_added(entries, limit, command, time)[i]).0 != command,
{
    lemma_without_command_facts(entries, command);
    let w = without_command(entries, command);
    let a = with_command_added(entries, limit, command, time);
    assert forall|i: int| 1 <= i < a.len() implies (#[trigger] a[i]).0 != command by {
        assert(a[i] == w[i - 1]);
    }
}

/// After a non-empty command is added, the history holds at most its
/// maximum number of entries; a history within that bound stays within it
/// whatever is added.
pub proof fn lemma_added_within_limit(
    entries: Seq<EntryView>,
    limit: nat,
    command: Seq<char>,
    time: Option<i64>,
)
    ensures
        command.len() > 0 ==> with_command_added(entries, limit, command, time).len() <= limit,
        entries.len() <= limit ==> with_command_added(entries, limit, command, time).len()
            <= limit,
{
}

/// Adding the same command twice at the same time is the same as adding it
/// once: the second addition finds it at the front already.
pub proof fn lemma_add_is_idempotent(
    entries: Seq<EntryView>,
    limit: nat,
    command: Seq<char>,
    time: Option<i64>,
)
    ensures
        with_command_added(with_command_added(entries, limit, command, time), limit, command, time)
            == with_command_added(entries, limit, command, time),
{
    if command.len() > 0 {
        let x: EntryView = (command, time);
        let w = without_command(entries, command);
        let a = with_command_added(entries, limit, command, time);
        lemma_without_command_facts(entries, command);
        if limit == 0 {
            assert(a =~= Seq::<EntryView>::empty());
        } else {
            let m: int = if 1 + w.len() > limit {
                limit as int
            } else {
                1 + w.len() as int
            };
            let w2 = w.take(m - 1);
            assert(a =~= seq![x] + w2);
            Seq::filter_distributes_over_add(seq![x], w2, other_command(command));
            reveal_with_fuel(Seq::filter, 2);
            assert(seq![x].drop_last() =~= Seq::<EntryView>::empty());
            assert(seq![x].filter(other_command(command)) =~= Seq::<EntryView>::empty());
            lemma_filter_keeps_all(w2, other_command(command));
            assert(without_command(a, command) =~= w2);
            assert(seq![x] + without_command(a, command) =~= a);
        }
    }
}

/// Adding a command keeps the commands of a history distinct.
pub proof fn lemma_add_keeps_commands_distinct(
    entries: Seq<EntryView>,
    limit: nat,
    command: Seq<char>,
    time: Option<i64>,
)
    requires
        commands_distinct(entries),
    ensures
        commands_distinct(with_command_added(entries, limit, command, time)),
{
    if command.len() > 0 {
        let x: EntryView = (command, time);
        let w = without_command(entries, command);
        lemma_without_command_facts(entries, command);
        lemma_filter_distinct(entries, other_command(command));
        let full = seq![x] + w;
        assert(commands_distinct(full)) by {
            assert forall|i: int, j: int| 0 <= i < j < full.len() implies full[i].0
                != full[j].0 by {
                if i == 0 {
                    assert(full[j] == w[j - 1]);
                } else {
                    assert(full[i] == w[i - 1]);
                    assert(full[j] == w[j - 1]);
                }
            }
        }
        let a = at_most(full, limit);
        assert forall|i: int, j: int| 0 <= i < j < a.len() implies a[i].0 != a[j].0 by {
            assert(a[i] == full[i]);
            assert(a[j] == full[j]);
        }
    }
}

/// Entries stay ordered most recent first, with entries that have no time
/// last, when a command is added at a time no earlier than any recorded use.
pub proof fn lemma_add_keeps_recency_order(
    entries: Seq<EntryView>,
    limit: nat,
    command: Seq<char>,
    now: i64,
)
    requires
        recency_ordered(entries),
        used_by(entries, now),
    ensures
        recency_ordered(with_command_added(entries, limit, command, Some(now))),
        used_by(with_command_added(entries, limit, command, Some(now)), now),
{
    if command.len() > 0 {
        let x: EntryView = (command, Some(now));
        let w = without_command(entries, command);
        lemma_filter_recency(entries, other_command(command));
        assert forall|k: int| 0 <= k < w.len() implies not_after(#[trigger] w[k].1, now) by {
            entries.lemma_filter_contains_rev(other_command(command), w[k]);
            let m = choose|m: int| 0 <= m < entries.len() && entries[m] == w[k];
            assert(not_after(entries[m].1, now));
        }
        let full = seq![x] + w;
        assert forall|i: int, j: int| 0 <= i < j < full.len() implies not_before(
            #[trigger] full[i].1,
            #[trigger] full[j].1,
        ) by {
            if i == 0 {
                assert(full[j] == w[j - 1]);
                assert(not_after(w[j - 1].1, now));
            } else {
                assert(full[i] == w[i - 1]);
                assert(full[j] == w[j - 1]);
                assert(not_before(w[i - 1].1, w[j - 1].1));
            }
        }
        assert forall|k: int| 0 <= k < full.len() implies not_after(#[trigger] full[k].1, now) by {
            if k > 0 {
                assert(full[k] == w[k - 1]);
            }
        }
        let a = at_most(full, limit);
        assert forall|i: int, j: int| 0 <= i < j < a.len() implies not_before(
            #[trigger] a[i].1,
            #[trigger] a[j].1,
        ) by {
            assert(a[i] == full[i]);
            assert(a[j] == full[j]);
        }
        assert forall|k: int| 0 <= k < a.len() implies not_after(#[trigger] a[k].1, now) by {
            assert(a[k] == full[k]);
        }
    }
}

// ---------------------------------------------------------------------------
// Suggestions
// ---------------------------------------------------------------------------

/// A suggestion extends the prefix, is not the prefix itself, and is a
/// command of the history.
pub proof fn lemma_suggestion_extends_prefix(entries: Seq<EntryView>, prefix: Seq<char>)
    ensures
        suggestion_for(entries, prefix) matches Some(s) ==> suggests(s, prefix) && exists|i: int|
            0 <= i < entries.len() && (#[trigger] entries[i]).0 == s,
    decreases entries.len(),
{
    if prefix.len() > 0 && entries.len() > 0 && !suggests(entries[0].0, prefix) {
        let rest = entries.drop_first();
        lemma_suggestion_extends_prefix(rest, prefix);
        if let Some(s) = first_suggestion(rest, prefix) {
            let k = choose|k: int| 0 <= k < rest.len() && (#[trigger] rest[k]).0 == s;
            assert(entries[k + 1] == rest[k]);
        }
    }
}

proof fn lemma_first_suggestion_is_first_extension(entries: Seq<EntryView>, prefix: Seq<char>)
    ensures
        first_suggestion(entries, prefix) matches Some(s) ==> (prefix.is_prefix_of(s) && s
            != prefix && exists|i: int|
            0 <= i < entries.len() && (#[trigger] entries[i]).0 == s && forall|j: int|
                0 <= j < i ==> !(prefix.is_prefix_of((#[trigger] entries[j]).0) && entries[j].0
                    != prefix)),
        first_suggestion(entries, prefix) is None ==> forall|i: int|
            0 <= i < entries.len() ==> !(prefix.is_prefix_of((#[trigger] entries[i]).0)
                && entries[i].0 != prefix),
    decreases entries.len(),
{
    if entries.len() > 0 {
        let rest = entries.drop_first();
        lemma_first_suggestion_is_first_extension(rest, prefix);
        if !suggests(entries[0].0, prefix) {
            match first_suggestion(rest, prefix) {
                Some(s) => {
                    let k = choose|k: int|
                        0 <= k < rest.len() && (#[trigger] rest[k]).0 == s && forall|j: int|
                            0 <= j < k ==> !(prefix.is_prefix_of((#[trigger] rest[j]).0)
                                && rest[j].0 != prefix);
                    assert(entries[k + 1] == rest[k]);
                    assert forall|j: int| 0 <= j < k + 1 implies !(prefix.is_prefix_of(
                        (#[trigger] entries[j]).0,
                    ) && entries[j].0 != prefix) by {
                        if j > 0 {
                            assert(entries[j] == rest[j - 1]);
                        }
                    }
                },
                None => {
                    assert forall|i: int| 0 <= i < entries.len() implies !(prefix.is_prefix_of(
                        (#[trigger] entries[i]).0,
                    ) && entries[i].0 != prefix) by {
                        if i > 0 {
                            assert(entries[i] == rest[i - 1]);
                        }
                    }
                },
            }
        }
    }
}

/// What the history suggests for a prefix is the most recent command that
/// starts with the prefix and is longer than it: a suggestion starts with
/// the (non-empty) prefix, differs from it, is a command of the history, and
/// no more recent command starts with the prefix and differs from it; with
/// no suggestion, the prefix is empty or no command extends it.
pub proof fn lemma_suggestion_is_most_recent_extension(entries: Seq<EntryView>, prefix: Seq<char>)
    ensures
        suggestion_for(entries, prefix) matches Some(s) ==> (prefix.len() > 0
            && prefix.is_prefix_of(s) && s != prefix && exists|i: int|
            0 <= i < entries.len() && (#[trigger] entries[i]).0 == s && forall|j: int|
                0 <= j < i ==> !(prefix.is_prefix_of((#[trigger] entries[j]).0) && entries[j].0
                    != prefix)),
        suggestion_for(entries, prefix) is None ==> prefix.len() == 0 || forall|i: int|
            0 <= i < entries.len() ==> !(prefix.is_prefix_of((#[trigger] entries[i]).0)
                && entries[i].0 != prefix),
{
    lemma_first_suggestion_is_first_extension(entries, prefix);
}

/// Using a command again stamps it with the time of that use: afterwards it
/// stands first with that time, and no entry keeps an older stamp of it.
pub proof fn lemma_reused_command_is_restamped(
    entries: Seq<EntryView>,
    limit: nat,
    command: Seq<char>,
    now: i64,
)
    requires
        command.len() > 0,
        limit > 0,
    ensures
        with_command_added(entries, limit, command, Some(now))[0] == (command, Some(now)),
        forall|i: int|
            0 <= i < with_command_added(entries, limit, command, Some(now)).len() && (
            #[trigger] with_command_added(entries, limit, command, Some(now))[i]).0 == command
                ==> with_command_added(entries, limit, command, Some(now))[i].1 == Some(now),
{
    lemma_added_command_first(entries, limit, command, Some(now));
}

/// A command that was just added is what the history suggests for any
/// non-empty prefix that it extends: the most recent match wins.
pub proof fn lemma_added_command_is_suggested(
    entries: Seq<EntryView>,
    limit: nat,
    command: Seq<char>,
    time: Option<i64>,
    prefix: Seq<char>,
)
    requires
        limit > 0,
        prefix.len() > 0,
        suggests(command, prefix),
    ensures
        suggestion_for(with_command_added(entries, limit, command, time), prefix) == Some(command),
{
    lemma_added_command_first(entries, limit, command, time);
}

/// An empty history, such as one just cleared, suggests nothing.
pub proof fn lemma_empty_history_suggests_nothing(prefix: Seq<char>)
    ensures
        suggestion_for(Seq::<EntryView>::empty(), prefix) is None,
{
}

// ---------------------------------------------------------------------------
// Purging
// ---------------------------------------------------------------------------

/// After a purge every entry has a time, and that time is at or after the
/// cutoff.
pub proof fn lemma_purged_entries_are_fresh(entries: Seq<EntryView>, now: i64, cutoff: int)
    ensures
        forall|i: int|
            0 <= i < purged(entries, now, cutoff).len() ==> (#[trigger] purged(
                entries,
                now,
                cutoff,
            )[i]).1 is Some && purged(entries, now, cutoff)[i].1.unwrap() >= cutoff,
{
    let s = entries.map_values(stamp_with(now));
    assert forall|i: int| 0 <= i < purged(entries, now, cutoff).len() implies (
    #[trigger] purged(entries, now, cutoff)[i]).1 is Some && purged(entries, now, cutoff)[i].1.unwrap()
        >= cutoff by {
        s.lemma_filter_pred(fresh_since(cutoff), i);
    }
}

/// A purge keeps every entry whose time is at or after the cutoff; an entry
/// without a time counts as used at the time of the purge.
pub proof fn lemma_purge_keeps_fresh_entries(entries: Seq<EntryView>, now: i64, cutoff: int)
    ensures
        forall|i: int|
            0 <= i < entries.len() && (match entries[i].1 {
                Some(t) => t,
                None => now,
            }) >= cutoff ==> purged(entries, now, cutoff).contains(
                (
                    entries[i].0,
                    Some(
                        match #[trigger] entries[i].1 {
                            Some(t) => t,
                            None => now,
                        },
                    ),
                ),
            ),
{
    let s = entries.map_values(stamp_with(now));
    assert forall|i: int|
        0 <= i < entries.len() && (match entries[i].1 {
            Some(t) => t,
            None => now,
        }) >= cutoff implies purged(entries, now, cutoff).contains(
        (
            entries[i].0,
            Some(
                match #[trigger] entries[i].1 {
                    Some(t) => t,
                    None => now,
                },
            ),
        ),
    ) by {
        s.lemma_filter_contains(fresh_since(cutoff), i);
    }
}

/// Purging twice with the same time and cutoff is purging once.
pub proof fn lemma_purge_is_idempotent(entries: Seq<EntryView>, now: i64, cutoff: int)
    ensures
        purged(purged(entries, now, cutoff), now, cutoff) == purged(entries, now, cutoff),
{
    let p = purged(entries, now, cutoff);
    lemma_purged_entries_are_fresh(entries, now, cutoff);
    let m = p.map_values(stamp_with(now));
    assert(m =~= p);
    lemma_filter_keeps_all(p, fresh_since(cutoff));
}

/// A purge keeps the commands of a history distinct.
pub proof fn lemma_purge_keeps_commands_distinct(entries: Seq<EntryView>, now: i64, cutoff: int)
    requires
        commands_distinct(entries),
    ensures
        commands_distinct(purged(entries, now, cutoff)),
{
    let s = entries.map_values(stamp_with(now));
    assert(commands_distinct(s));
    lemma_filter_distinct(s, fresh_since(cutoff));
}

} // verus!
