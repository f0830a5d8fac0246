use bspterm::suggestion_history::{SuggestionEntry, SuggestionHistory, SuggestionHistoryEvent};
use chrono::Utc;

fn commands(history: &SuggestionHistory) -> Vec<String> {
    history.entries().iter().map(|e| e.command.clone()).collect()
}

#[test]
fn test_recency_ordering() {
    let mut history = SuggestionHistory::new();
    history.add_command("show interfaces".to_string());
    history.add_command("show version".to_string());
    history.add_command("show ip route".to_string());

    // Most recent first
    assert_eq!(history.entries()[0].command, "show ip route");
    assert_eq!(history.entries()[1].command, "show version");
    assert_eq!(history.entries()[2].command, "show interfaces");

    // Suggestion returns most recent match
    assert_eq!(history.find_suggestion("show"), Some("show ip route"));
    assert_eq!(history.find_suggestion("show v"), Some("show version"));
    assert_eq!(history.find_suggestion("show i"), Some("show ip route"));
}

#[test]
fn test_deduplication() {
    let mut history = SuggestionHistory::new();
    history.add_command("ls -la".to_string());
    history.add_command("pwd".to_string());
    history.add_command("ls -la".to_string());

    // Should have only 2 entries (deduplicated)
    assert_eq!(history.entries().len(), 2);
    // Re-added command should be at front
    assert_eq!(history.entries()[0].command, "ls -la");
    assert_eq!(history.entries()[1].command, "pwd");
}

#[test]
fn test_max_limit() {
    let mut history = SuggestionHistory::new().with_max_entries(3);
    history.add_command("cmd1".to_string());
    history.add_command("cmd2".to_string());
    history.add_command("cmd3".to_string());
    history.add_command("cmd4".to_string());

    assert_eq!(history.entries().len(), 3);
    // Oldest should have been dropped
    assert_eq!(history.entries()[0].command, "cmd4");
    assert_eq!(history.entries()[1].command, "cmd3");
    assert_eq!(history.entries()[2].command, "cmd2");
}

#[test]
fn test_purge_expired() {
    let now = Utc::now().timestamp();
    let mut history = SuggestionHistory::from_entries(vec![
        // An old entry
        SuggestionEntry {
            command: "old_command".to_string(),
            last_used: Some(now - 86400 * 10), // 10 days ago
        },
        // A recent entry
        SuggestionEntry {
            command: "recent_command".to_string(),
            last_used: Some(now - 86400 * 2), // 2 days ago
        },
    ]);

    history.purge_expired(7); // 7-day max age

    assert_eq!(history.entries().len(), 1);
    assert_eq!(history.entries()[0].command, "recent_command");
}

#[test]
fn test_empty_prefix() {
    let mut history = SuggestionHistory::new();
    history.add_command("test".to_string());
    assert_eq!(history.find_suggestion(""), None);
}

#[test]
fn test_exact_prefix_no_match() {
    let mut history = SuggestionHistory::new();
    history.add_command("ls".to_string());
    // Exact match should not suggest itself
    assert_eq!(history.find_suggestion("ls"), None);
    // But prefix should work
    history.add_command("ls -la".to_string());
    assert_eq!(history.find_suggestion("ls"), Some("ls -la"));
}

#[test]
fn test_clear() {
    let mut history = SuggestionHistory::new();
    history.add_command("cmd1".to_string());
    history.add_command("cmd2".to_string());
    history.clear();
    assert!(history.entries().is_empty());
    assert_eq!(history.find_suggestion("cmd"), None);
}

#[test]
fn test_legacy_entries_get_stamped() {
    let mut history = SuggestionHistory::from_entries(vec![SuggestionEntry {
        command: "legacy".to_string(),
        last_used: None,
    }]);

    history.purge_expired(7);

    // Legacy entry should survive (gets stamped with now)
    assert_eq!(history.entries().len(), 1);
    assert!(history.entries()[0].last_used.is_some());
}

// ---------------------------------------------------------------------------
// Further cases
// ---------------------------------------------------------------------------

#[test]
fn add_command_stamps_entry_with_current_time() {
    let before = Utc::now().timestamp();
    let mut history = SuggestionHistory::new();
    history.add_command("uptime".to_string());
    let after = Utc::now().timestamp();
    let t = history.entries()[0].last_used.unwrap();
    assert!(before <= t && t <= after);
}

#[test]
fn empty_command_is_ignored() {
    let mut history = SuggestionHistory::new();
    history.add_command("a".to_string());
    history.add_command(String::new());
    assert_eq!(commands(&history), vec!["a".to_string()]);
    history.add_command_at(String::new(), 5);
    assert_eq!(commands(&history), vec!["a".to_string()]);
}

#[test]
fn add_command_at_uses_given_time() {
    let mut history = SuggestionHistory::new();
    history.add_command_at("ping 10.0.0.1".to_string(), 1_700_000_000);
    history.add_command_at("ping 10.0.0.2".to_string(), 1_700_000_100);
    history.add_command_at("ping 10.0.0.1".to_string(), 1_700_000_200);
    assert_eq!(history.entries().len(), 2);
    assert_eq!(history.entries()[0].command, "ping 10.0.0.1");
    assert_eq!(history.entries()[0].last_used, Some(1_700_000_200));
    assert_eq!(history.entries()[1].command, "ping 10.0.0.2");
    assert_eq!(history.entries()[1].last_used, Some(1_700_000_100));
}

#[test]
fn adding_twice_equals_adding_once() {
    let mut once = SuggestionHistory::new().with_max_entries(2);
    let mut twice = SuggestionHistory::new().with_max_entries(2);
    for h in [&mut once, &mut twice] {
        h.add_command_at("a".to_string(), 1);
        h.add_command_at("b".to_string(), 2);
        h.add_command_at("c".to_string(), 3);
    }
    twice.add_command_at("c".to_string(), 3);
    assert_eq!(commands(&once), commands(&twice));
    assert_eq!(commands(&once), vec!["c".to_string(), "b".to_string()]);
}

#[test]
fn zero_capacity_history_stays_empty() {
    let mut history = SuggestionHistory::new().with_max_entries(0);
    history.add_command_at("ls".to_string(), 1);
    assert!(history.entries().is_empty());
}

#[test]
fn duplicates_from_storage_are_all_removed_on_add() {
    let mut history = SuggestionHistory::from_entries(vec![
        SuggestionEntry { command: "x".to_string(), last_used: Some(1) },
        SuggestionEntry { command: "y".to_string(), last_used: Some(2) },
        SuggestionEntry { command: "x".to_string(), last_used: Some(3) },
    ]);
    history.add_command_at("x".to_string(), 9);
    assert_eq!(commands(&history), vec!["x".to_string(), "y".to_string()]);
}

#[test]
fn suggestion_skips_non_matching_and_exact_entries() {
    let mut history = SuggestionHistory::new();
    history.add_command_at("git status".to_string(), 1);
    history.add_command_at("git".to_string(), 2);
    history.add_command_at("ls".to_string(), 3);
    assert_eq!(history.find_suggestion("git"), Some("git status"));
    assert_eq!(history.find_suggestion("g"), Some("git"));
    assert_eq!(history.find_suggestion("cd"), None);
    assert_eq!(history.find_suggestion("git status --short"), None);
}

#[test]
fn suggestion_handles_non_ascii_commands() {
    let mut history = SuggestionHistory::new();
    history.add_command_at("显示 版本".to_string(), 1);
    assert_eq!(history.find_suggestion("显示"), Some("显示 版本"));
    assert_eq!(history.find_suggestion("显"), Some("显示 版本"));
}

#[test]
fn purge_at_keeps_entries_on_the_cutoff() {
    let now = 1_000_000;
    let mut history = SuggestionHistory::from_entries(vec![
        SuggestionEntry { command: "edge".to_string(), last_used: Some(now - 86400) },
        SuggestionEntry { command: "older".to_string(), last_used: Some(now - 86400 - 1) },
        SuggestionEntry { command: "legacy".to_string(), last_used: None },
        SuggestionEntry { command: "new".to_string(), last_used: Some(now) },
    ]);
    history.purge_expired_at(1, now);
    assert_eq!(
        commands(&history),
        vec!["edge".to_string(), "legacy".to_string(), "new".to_string()]
    );
    assert_eq!(history.entries()[1].last_used, Some(now));
}

#[test]
fn purge_with_zero_days_drops_everything_older_than_now() {
    let now = 500;
    let mut history = SuggestionHistory::from_entries(vec![
        SuggestionEntry { command: "a".to_string(), last_used: Some(499) },
        SuggestionEntry { command: "b".to_string(), last_used: Some(500) },
    ]);
    history.purge_expired_at(0, now);
    assert_eq!(commands(&history), vec!["b".to_string()]);
}

#[test]
fn purge_with_huge_day_count_keeps_everything() {
    // No entry is older than u64::MAX days.
    let now = 1_000;
    let mut history = SuggestionHistory::from_entries(vec![
        SuggestionEntry { command: "a".to_string(), last_used: Some(now) },
        SuggestionEntry { command: "b".to_string(), last_used: Some(now + 86400) },
        SuggestionEntry { command: "c".to_string(), last_used: Some(i64::MIN) },
        SuggestionEntry { command: "d".to_string(), last_used: None },
    ]);
    history.purge_expired_at(u64::MAX, now);
    assert_eq!(
        commands(&history),
        vec!["a".to_string(), "b".to_string(), "c".to_string(), "d".to_string()]
    );
    assert_eq!(history.entries()[3].last_used, Some(now));
    history.purge_expired(u64::MAX);
    assert_eq!(history.entries().len(), 4);
}

#[test]
fn purge_near_the_i64_limits() {
    let mut history = SuggestionHistory::from_entries(vec![
        SuggestionEntry { command: "old".to_string(), last_used: Some(i64::MIN) },
        SuggestionEntry { command: "new".to_string(), last_used: Some(i64::MAX) },
    ]);
    history.purge_expired_at(1, i64::MAX);
    assert_eq!(commands(&history), vec!["new".to_string()]);
    let mut history = SuggestionHistory::from_entries(vec![SuggestionEntry {
        command: "x".to_string(),
        last_used: Some(i64::MIN),
    }]);
    history.purge_expired_at(0, i64::MIN);
    assert_eq!(commands(&history), vec!["x".to_string()]);
}

#[test]
fn record_command_without_time() {
    let mut history = SuggestionHistory::new();
    history.add_command_at("a".to_string(), 5);
    history.record_command("b".to_string(), None);
    assert_eq!(commands(&history), vec!["b".to_string(), "a".to_string()]);
    assert_eq!(history.entries()[0].last_used, None);
}

#[test]
fn purging_twice_equals_purging_once() {
    let now = 10 * 86400;
    let mut history = SuggestionHistory::from_entries(vec![
        SuggestionEntry { command: "a".to_string(), last_used: Some(1) },
        SuggestionEntry { command: "b".to_string(), last_used: None },
        SuggestionEntry { command: "c".to_string(), last_used: Some(now - 3) },
    ]);
    history.purge_expired_at(2, now);
    let first = commands(&history);
    history.purge_expired_at(2, now);
    assert_eq!(commands(&history), first);
    assert_eq!(first, vec!["b".to_string(), "c".to_string()]);
}

#[test]
fn init_with_max_age_purges_loaded_history() {
    let now = Utc::now().timestamp();
    let loaded = SuggestionHistory::from_entries(vec![
        SuggestionEntry { command: "stale".to_string(), last_used: Some(now - 86400 * 8) },
        SuggestionEntry { command: "fresh".to_string(), last_used: Some(now - 86400 * 6) },
    ]);
    let history = SuggestionHistory::init_with_max_age(Some(loaded.clone()), None);
    assert_eq!(commands(&history), vec!["fresh".to_string()]);
    let history = SuggestionHistory::init_with_max_age(Some(loaded), Some(30));
    assert_eq!(commands(&history), vec!["stale".to_string(), "fresh".to_string()]);
    let history = SuggestionHistory::init_with_max_age(None, Some(3));
    assert!(history.entries().is_empty());
}

#[test]
fn default_history_is_empty() {
    let history = SuggestionHistory::default();
    assert!(history.entries().is_empty());
    let event = SuggestionHistoryEvent::Changed;
    assert!(matches!(event, SuggestionHistoryEvent::Changed));
}
