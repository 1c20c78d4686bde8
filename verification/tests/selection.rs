use codex_gateway::accounts::{Account, Candidate, Percent, Token, UsageSnapshotRecord};
use codex_gateway::candidate_cache::{
    Selection, SelectionConfig, SelectionEnv, DEFAULT_CANDIDATE_CACHE_TTL_MS, UNSET_DB_PATH,
};
use codex_gateway::expiry_order::{compare_expiry_priority, expiry_priority_for_snapshot};
use codex_gateway::selection::{collect_gateway_candidates_uncached, AccountMeta, Collected};
use codex_gateway::text::parse_unsigned;
use std::cell::Cell;
use std::cmp::Ordering;

fn percent(value: f64) -> Percent {
    Percent { bits: value.to_bits() }
}

fn account(id: &str, sort: i64) -> Account {
    Account {
        id: id.to_string(),
        label: id.to_string(),
        issuer: "issuer".to_string(),
        chatgpt_account_id: None,
        workspace_id: None,
        group_name: None,
        sort,
        status: "active".to_string(),
        created_at: 100,
        updated_at: 100,
    }
}

fn token(id: &str) -> Token {
    Token {
        account_id: id.to_string(),
        id_token: "id".to_string(),
        access_token: "access".to_string(),
        refresh_token: "refresh".to_string(),
        api_key_access_token: None,
        last_refresh: 100,
    }
}

fn usage(
    id: &str,
    used_percent: Option<f64>,
    window_minutes: Option<i64>,
    resets_at: Option<i64>,
) -> UsageSnapshotRecord {
    UsageSnapshotRecord {
        account_id: id.to_string(),
        used_percent: used_percent.map(percent),
        window_minutes,
        resets_at,
        secondary_used_percent: None,
        secondary_window_minutes: None,
        secondary_resets_at: None,
        credits_json: None,
        captured_at: 100,
    }
}

struct Storage {
    accounts: Vec<Account>,
    tokens: Vec<Token>,
    snaps: Vec<UsageSnapshotRecord>,
}

impl Storage {
    fn new() -> Storage {
        Storage { accounts: Vec::new(), tokens: Vec::new(), snaps: Vec::new() }
    }

    fn list_accounts(&self) -> Vec<Account> {
        let mut accounts = self.accounts.clone();
        accounts.sort_by_key(|account| account.sort);
        accounts
    }

    fn snapshots(&self) -> Vec<UsageSnapshotRecord> {
        self.snaps
            .iter()
            .map(|snap| UsageSnapshotRecord {
                account_id: snap.account_id.clone(),
                credits_json: snap.credits_json.clone(),
                ..*snap
            })
            .collect()
    }

    fn collect(&self, strategy: &str) -> Collected {
        collect_gateway_candidates_uncached(
            &self.list_accounts(),
            self.tokens.clone(),
            self.snapshots(),
            strategy,
            &|usage: Option<&UsageSnapshotRecord>| usage.is_some(),
            &|token: &Token| -> AccountMeta { (token.api_key_access_token.clone(), None) },
            &|account: &Account, meta: AccountMeta| {
                let mut patched = account.clone();
                let changed = meta.0.is_some() && patched.chatgpt_account_id != meta.0;
                if changed {
                    patched.chatgpt_account_id = meta.0;
                }
                (patched, changed)
            },
            &|| 777,
        )
    }
}

fn env(ttl: Option<&str>) -> SelectionEnv {
    SelectionEnv { cache_ttl_ms: ttl.map(str::to_string), db_path: None }
}

fn ids(candidates: &Vec<Candidate>) -> Vec<&str> {
    candidates.iter().map(|(account, _)| account.id.as_str()).collect()
}

#[test]
fn candidate_snapshot_cache_reuses_recent_snapshot() {
    let mut selection = Selection::new();
    let env = env(Some("2000"));
    selection.config.reload_from_env(&env);
    selection.clear_candidate_cache_for_tests();

    let mut storage = Storage::new();
    storage.accounts.push(account("acc-cache-1", 0));
    storage.tokens.push(token("acc-cache-1"));
    storage.snaps.push(usage("acc-cache-1", Some(10.0), Some(300), None));

    let clock = || 5_000_000u64;
    let first = selection
        .collect_gateway_candidates(&env, &clock, || Ok(storage.collect("ordered").candidates))
        .expect("first candidates");
    assert_eq!(first.len(), 1);

    storage.accounts[0].status = "inactive".to_string();
    assert_eq!(storage.collect("ordered").candidates.len(), 0);
    let second = selection
        .collect_gateway_candidates(&env, &clock, || Ok(storage.collect("ordered").candidates))
        .expect("second candidates");
    assert_eq!(second.len(), 1);

    selection.clear_candidate_cache_for_tests();
    let third = selection
        .collect_gateway_candidates(&env, &clock, || Ok(storage.collect("ordered").candidates))
        .expect("third candidates");
    assert_eq!(third.len(), 0);
}

#[test]
fn candidates_follow_account_sort_order() {
    let mut selection = Selection::new();
    let env = env(Some("0"));
    selection.config.reload_from_env(&env);
    selection.clear_candidate_cache_for_tests();

    let mut storage = Storage::new();
    let accounts = vec![
        ("acc-sort-10", 10_i64),
        ("acc-sort-0", 0_i64),
        ("acc-sort-1", 1_i64),
    ];
    for (id, sort) in &accounts {
        storage.accounts.push(account(id, *sort));
        storage.tokens.push(token(id));
        storage.snaps.push(usage(id, Some(10.0), Some(300), None));
    }

    let candidates = selection
        .collect_gateway_candidates(&env, &|| 0, || Ok(storage.collect("ordered").candidates))
        .expect("collect candidates");
    assert_eq!(ids(&candidates), vec!["acc-sort-0", "acc-sort-1", "acc-sort-10"]);
}

#[test]
fn expiry_first_prioritizes_near_reset_weekly_window() {
    let mut selection = Selection::new();
    let env = env(Some("0"));
    selection.config.reload_from_env(&env);
    selection.clear_candidate_cache_for_tests();

    let now = 1_700_000_000_i64;
    let mut storage = Storage::new();
    let accounts = vec![
        ("acc-far", 0_i64, Some(30.0), Some(10080), Some(now + 3 * 24 * 60 * 60)),
        ("acc-soon", 1_i64, Some(85.0), Some(10080), Some(now + 2 * 60 * 60)),
        ("acc-fallback", 2_i64, Some(10.0), Some(300), None),
    ];
    for (id, sort, used_percent, window_minutes, resets_at) in &accounts {
        storage.accounts.push(account(id, *sort));
        storage.tokens.push(token(id));
        storage.snaps.push(usage(id, *used_percent, *window_minutes, *resets_at));
    }

    let candidates = selection
        .collect_gateway_candidates(&env, &|| 0, || Ok(storage.collect("expiry_first").candidates))
        .expect("collect candidates");
    assert_eq!(ids(&candidates), vec!["acc-soon", "acc-far", "acc-fallback"]);
    let unsorted = storage.collect("ordered").candidates;
    assert_eq!(ids(&unsorted), vec!["acc-far", "acc-soon", "acc-fallback"]);
}

#[test]
fn only_active_accounts_with_token_and_usage_are_candidates() {
    let mut storage = Storage::new();
    for (sort, id) in ["a", "b", "c", "d", "a"].iter().enumerate() {
        storage.accounts.push(account(id, sort as i64));
    }
    storage.accounts[1].status = "disabled".to_string();
    for id in ["a", "b", "d"] {
        storage.tokens.push(token(id));
    }
    let mut newer = token("a");
    newer.access_token = "newer".to_string();
    newer.api_key_access_token = Some("ws".to_string());
    storage.tokens.push(newer);
    for id in ["a", "b", "c"] {
        storage.snaps.push(usage(id, None, None, None));
    }
    let collected = storage.collect("ordered");
    assert_eq!(ids(&collected.candidates), vec!["a", "a"]);
    assert_eq!(collected.candidates[0].1.access_token, "newer");
    assert_eq!(collected.candidates[0].0.chatgpt_account_id.as_deref(), Some("ws"));
    assert_eq!(collected.candidates[0].0.updated_at, 777);
    assert_eq!(collected.changed.len(), 2);
    assert_eq!(collected.changed[0].updated_at, 777);
    assert!(collected.report.is_none());
}

#[test]
fn missing_candidates_are_reported() {
    let mut storage = Storage::new();
    storage.accounts.push(account("x", 0));
    storage.accounts.push(account("y", 1));
    storage.tokens.push(token("y"));
    storage.tokens.push(token("y"));
    storage.snaps.push(usage("x", Some(12.5), Some(300), None));
    let collected = storage.collect("expiry_first");
    assert!(collected.candidates.is_empty());
    let report = collected.report.expect("report");
    assert_eq!((report.accounts, report.tokens, report.snapshots), (2, 1, 1));
    assert_eq!(report.rows[0].id, "x");
    assert!(!report.rows[0].has_token);
    assert_eq!(report.rows[0].used_percent, Some(percent(12.5)));
    assert_eq!(report.rows[0].window_minutes, Some(300));
    assert_eq!(report.rows[1].status, "active");
    assert!(report.rows[1].has_token);
    assert_eq!(report.rows[1].used_percent, None);
    assert_eq!(report.rows[1].secondary_window_minutes, None);
    assert_eq!(report.rows[1].secondary_used_percent, None);
}

#[test]
fn weekly_limits_are_found() {
    assert!(expiry_priority_for_snapshot(None).is_none());
    let mut snap = usage("a", Some(1.0), Some(10079), Some(5));
    assert!(expiry_priority_for_snapshot(Some(&snap)).is_none());
    snap.window_minutes = Some(10080);
    let first = expiry_priority_for_snapshot(Some(&snap)).expect("priority");
    assert_eq!((first.resets_at, first.used_percent), (5, percent(1.0)));
    snap.secondary_resets_at = Some(9);
    snap.secondary_used_percent = Some(percent(2.0));
    let same = expiry_priority_for_snapshot(Some(&snap)).expect("priority");
    assert_eq!(same.resets_at, 5);
    snap.secondary_window_minutes = Some(1);
    let second = expiry_priority_for_snapshot(Some(&snap)).expect("priority");
    assert_eq!((second.resets_at, second.used_percent), (9, percent(2.0)));
}

#[test]
fn candidates_compare_by_limit_then_by_account() {
    let weekly = |used: f64, resets_at: i64| usage("s", Some(used), Some(10080), Some(resets_at));
    let compare = |left: Option<&UsageSnapshotRecord>, right: Option<&UsageSnapshotRecord>| {
        compare_expiry_priority(left, right, &account("b", 1), &account("a", 1))
    };
    let soon = weekly(1.0, 5);
    let late = weekly(99.0, 6);
    let used = weekly(2.0, 5);
    assert_eq!(compare(Some(&soon), Some(&late)), Ordering::Less);
    assert_eq!(compare(Some(&late), Some(&soon)), Ordering::Greater);
    assert_eq!(compare(Some(&used), Some(&soon)), Ordering::Less);
    assert_eq!(compare(Some(&soon), None), Ordering::Less);
    assert_eq!(compare(None, Some(&soon)), Ordering::Greater);
    assert_eq!(compare(Some(&soon), Some(&soon)), Ordering::Greater);
    assert_eq!(compare(None, None), Ordering::Greater);
    let by = |left: &Account, right: &Account| compare_expiry_priority(None, None, left, right);
    assert_eq!(by(&account("b", -1), &account("a", 1)), Ordering::Less);
    assert_eq!(by(&account("a", 1), &account("a", 1)), Ordering::Equal);
    assert_eq!(by(&account("a", 1), &account("ab", 1)), Ordering::Less);
    assert_eq!(by(&account("\u{e9}", 1), &account("z", 1)), Ordering::Greater);
}

#[test]
fn percentages_keep_the_total_order_of_doubles() {
    let values = [
        f64::NEG_INFINITY,
        -2.5,
        -1.0,
        -0.0,
        0.0,
        1.0e-300,
        1.0,
        85.0,
        f64::INFINITY,
        f64::NAN,
    ];
    for left in values {
        for right in values {
            assert_eq!(
                percent(left).ordinal().cmp(&percent(right).ordinal()),
                left.total_cmp(&right)
            );
        }
    }
    assert_eq!(Percent { bits: u64::MAX }.ordinal(), i64::MIN);
    assert_eq!(Percent { bits: 1 << 63 }.ordinal(), -1);
}

#[test]
fn equal_candidates_keep_their_order() {
    let mut storage = Storage::new();
    for (place, label) in ["first", "second", "third"].iter().enumerate() {
        let mut same = account("same", 0);
        same.label = label.to_string();
        same.created_at = place as i64;
        storage.accounts.push(same);
    }
    storage.accounts.push(account("early", -1));
    storage.tokens.push(token("same"));
    storage.tokens.push(token("early"));
    storage.snaps.push(usage("same", None, None, None));
    storage.snaps.push(usage("early", None, None, None));
    let collected = collect_gateway_candidates_uncached(
        &storage.accounts,
        storage.tokens.clone(),
        storage.snapshots(),
        "expiry_first",
        &|_: Option<&UsageSnapshotRecord>| true,
        &|_: &Token| -> AccountMeta { (None, None) },
        &|account: &Account, _: AccountMeta| (account.clone(), false),
        &|| 0,
    );
    let labels: Vec<&str> =
        collected.candidates.iter().map(|(account, _)| account.label.as_str()).collect();
    assert_eq!(labels, vec!["early", "first", "second", "third"]);
    assert!(collected.changed.is_empty());
}

#[test]
fn settings_come_from_the_environment() {
    let mut config = SelectionConfig::new();
    assert_eq!(config.cache_ttl_ms, DEFAULT_CANDIDATE_CACHE_TTL_MS);
    assert_eq!(config.db_path, UNSET_DB_PATH);
    let mut set = env(Some(" 1500 "));
    set.db_path = Some("/db".to_string());
    assert_eq!(config.candidate_cache_ttl(&set), 1500);
    assert_eq!(config.current_db_path(&set), "/db");
    let other = env(Some("oops"));
    assert_eq!(config.candidate_cache_ttl(&other), 1500);
    config.reload_from_env(&other);
    assert_eq!(config.candidate_cache_ttl(&set), 500);
    assert_eq!(config.current_db_path(&set), "<unset>");
    *config.current_db_path_cell() = "/elsewhere".to_string();
    assert_eq!(config.current_db_path(&set), "/elsewhere");
    let mut fresh = SelectionConfig::new();
    fresh.reload_from_env(&set);
    assert!(!fresh.loaded);
    fresh.ensure_selection_config_loaded(&other);
    assert!(fresh.loaded);
    assert_eq!(fresh.cache_ttl_ms, 500);
}

#[test]
fn numbers_are_read_as_the_standard_library_reads_them() {
    for text in [
        "", "+", "-", "0", "+0", "-0", "007", "+7", "++7", "7+", "7 ", "1_000", "18446744073709551615",
        "18446744073709551616", "99999999999999999999999", "000000000000000000000000001", "1.0", "\u{661}",
    ] {
        assert_eq!(parse_unsigned(text), text.parse::<u64>().ok(), "{text}");
    }
}

#[test]
fn cache_is_read_until_it_is_too_old() {
    let env = env(Some("2"));
    let mut selection = Selection::new();
    let found: Vec<Candidate> = vec![(account("a", 0), token("a"))];
    assert!(selection.read_candidate_cache(&env, 0).is_none());
    selection.write_candidate_cache(&env, found, 10);
    assert_eq!(selection.read_candidate_cache(&env, 10).map(|c| c.len()), Some(1));
    assert_eq!(selection.read_candidate_cache(&env, 2_000_009).map(|c| c.len()), Some(1));
    assert!(selection.read_candidate_cache(&env, 2_000_010).is_none());
    assert!(selection.read_candidate_cache(&env, 10).is_none());
    selection.write_candidate_cache(&env, Vec::new(), 10);
    *selection.config.current_db_path_cell() = "/other".to_string();
    assert!(selection.read_candidate_cache(&env, 10).is_none());
    selection.write_candidate_cache(&env, Vec::new(), 10);
    assert!(selection.read_candidate_cache(&env, 10).is_some());
    selection.invalidate_candidate_cache();
    assert!(selection.read_candidate_cache(&env, 10).is_none());
}

#[test]
fn failures_are_not_kept_and_no_cache_means_none() {
    let cached = env(Some("1000"));
    let calls = Cell::new(0u32);
    let mut selection = Selection::new();
    let failed = selection.collect_gateway_candidates(&cached, &|| 0, || Err("db".to_string()));
    assert_eq!(failed.err(), Some("db".to_string()));
    assert!(selection.cache.is_none());
    let load = || {
        calls.set(calls.get() + 1);
        Ok(Vec::new())
    };
    for _ in 0..2 {
        selection.collect_gateway_candidates(&cached, &|| 0, load).expect("found");
    }
    assert_eq!(calls.get(), 1);
    let mut uncached = Selection::new();
    for _ in 0..2 {
        uncached.collect_gateway_candidates(&env(Some("0")), &|| 0, load).expect("found");
    }
    assert_eq!(calls.get(), 3);
    assert!(uncached.cache.is_none());
}
