//! Which accounts serve a request, in what order they are tried and for how long they are kept.

use vstd::prelude::*;
use vstd::string::*;
use vstd::utf8::encode_utf8;

use crate::accounts::{Account, Candidate, Percent, Token, UsageSnapshotRecord};
use crate::candidate_cache::{
    candidates_collected, fresh_candidates, loaded, reloaded, snapshot_at, ConfigV, SelectionEnv,
    SnapshotV, CANDIDATE_CACHE_TTL_ENV, DB_PATH_ENV,
};
use crate::expiry_order::{
    bytes_sign, candidate_rank, expiry_priority, expiry_sign, stably_placed, Rank,
};
use crate::selection::{
    account_report, account_taken, candidates_of, changed_accounts, snaps_by_account,
    tokens_by_account, AccountMeta, Taken,
};
use crate::text::{decimal, trimmed, unsigned_of};
use crate::text_laws::{all_space, lemma_decimal_read, lemma_trimmed_of};

verus! {

/// The last of the tokens of an account counts, and no account without one has any.
pub proof fn lemma_last_token_counts(before: Seq<Token>, token: Token, after: Seq<Token>)
    requires
        forall|i: int|
            0 <= i < after.len() ==> (#[trigger] after[i]).account_id@ != token.account_id@,
    ensures
        tokens_by_account(before + seq![token] + after).contains_key(token.account_id@),
        tokens_by_account(before + seq![token] + after)[token.account_id@] == token,
    decreases after.len(),
{
    let all = before + seq![token] + after;
    if after.len() == 0 {
        assert(all.last() == token);
    } else {
        assert(all.drop_last() =~= before + seq![token] + after.drop_last());
        assert(all.last() == after[after.len() - 1]);
        lemma_last_token_counts(before, token, after.drop_last());
    }
}

/// An account has a token only if one of the tokens is of that account.
pub proof fn lemma_no_token(tokens: Seq<Token>, id: Seq<char>)
    requires
        forall|i: int| 0 <= i < tokens.len() ==> (#[trigger] tokens[i]).account_id@ != id,
    ensures
        !tokens_by_account(tokens).contains_key(id),
    decreases tokens.len(),
{
    if tokens.len() > 0 {
        assert(tokens.last() == tokens[tokens.len() - 1]);
        lemma_no_token(tokens.drop_last(), id);
    }
}

/// The last that was seen of the usage of an account counts.
pub proof fn lemma_last_usage_counts(
    before: Seq<UsageSnapshotRecord>,
    usage: UsageSnapshotRecord,
    after: Seq<UsageSnapshotRecord>,
)
    requires
        forall|i: int|
            0 <= i < after.len() ==> (#[trigger] after[i]).account_id@ != usage.account_id@,
    ensures
        snaps_by_account(before + seq![usage] + after).contains_key(usage.account_id@),
        snaps_by_account(before + seq![usage] + after)[usage.account_id@] == usage,
    decreases after.len(),
{
    let all = before + seq![usage] + after;
    if after.len() == 0 {
        assert(all.last() == usage);
    } else {
        assert(all.drop_last() =~= before + seq![usage] + after.drop_last());
        assert(all.last() == after[after.len() - 1]);
        lemma_last_usage_counts(before, usage, after.drop_last());
    }
}

/// An account of whose usage nothing was seen has none.
pub proof fn lemma_no_usage(snaps: Seq<UsageSnapshotRecord>, id: Seq<char>)
    requires
        forall|i: int| 0 <= i < snaps.len() ==> (#[trigger] snaps[i]).account_id@ != id,
    ensures
        !snaps_by_account(snaps).contains_key(id),
    decreases snaps.len(),
{
    if snaps.len() > 0 {
        assert(snaps.last() == snaps[snaps.len() - 1]);
        lemma_no_usage(snaps.drop_last(), id);
    }
}

/// What `is_available` says of the usage of an account is `verdict`, whenever it is asked.
pub open spec fn is_judged<A: Fn(Option<&UsageSnapshotRecord>) -> bool>(
    snaps: Map<Seq<char>, UsageSnapshotRecord>,
    account: Account,
    is_available: A,
    verdict: bool,
) -> bool {
    if snaps.contains_key(account.id@) {
        forall|said: bool| #[trigger]
            call_ensures(is_available, (Some(&snaps[account.id@]),), said) ==> said == verdict
    } else {
        forall|said: bool| #[trigger] call_ensures(is_available, (None,), said) ==> said == verdict
    }
}

/// An account serves exactly if it is active, has a token and has not used up its limits. It serves
/// with that token, and as `patch` has it with what the token tells; if that changed it, it bears
/// the time of the change.
pub proof fn lemma_account_serves<
    A: Fn(Option<&UsageSnapshotRecord>) -> bool,
    D: Fn(&Token) -> AccountMeta,
    P: Fn(&Account, AccountMeta) -> (Account, bool),
    T: Fn() -> i64,
>(
    account: Account,
    tokens: Map<Seq<char>, Token>,
    snaps: Map<Seq<char>, UsageSnapshotRecord>,
    is_available: A,
    derive_meta: D,
    patch: P,
    now: T,
    taken: Taken,
    available: bool,
    meta: AccountMeta,
    patched: Account,
    changed: bool,
    time: i64,
)
    requires
        account_taken(account, tokens, snaps, is_available, derive_meta, patch, now, taken),
        is_judged(snaps, account, is_available, available),
        forall|found: AccountMeta| #[trigger]
            call_ensures(derive_meta, (&tokens[account.id@],), found) ==> found == meta,
        forall|made: (Account, bool)| #[trigger]
            call_ensures(patch, (&account, meta), made) ==> made == (patched, changed),
        forall|told: i64| #[trigger] call_ensures(now, (), told) ==> told == time,
    ensures
        taken is Some <==> account.status@ == "active"@ && tokens.contains_key(account.id@)
            && available,
        taken matches Some(((after, token), was_changed)) ==> {
            &&& token == tokens[account.id@]
            &&& was_changed == changed
            &&& after == (if changed {
                Account { updated_at: time, ..patched }
            } else {
                patched
            })
        },
{
}

/// The candidates are the accounts that serve, in their order, and the changed accounts those of
/// them that were changed.
pub proof fn lemma_candidates_listed(first: Seq<Taken>, second: Seq<Taken>)
    ensures
        candidates_of(first + second) == candidates_of(first) + candidates_of(second),
        changed_accounts(first + second) == changed_accounts(first) + changed_accounts(second),
    decreases second.len(),
{
    let all = first + second;
    if second.len() == 0 {
        assert(all =~= first);
        assert(candidates_of(first) + Seq::<Candidate>::empty() =~= candidates_of(first));
        assert(changed_accounts(first) + Seq::<Account>::empty() =~= changed_accounts(first));
    } else {
        lemma_candidates_listed(first, second.drop_last());
        assert(all.drop_last() =~= first + second.drop_last());
        assert(all.last() == second.last());
        assert(candidates_of(all) =~= candidates_of(first) + candidates_of(second));
        assert(changed_accounts(all) =~= changed_accounts(first) + changed_accounts(second));
    }
}

/// An account that serves is a candidate, and one of the changed accounts if it was changed; one
/// that does not serve is neither.
pub proof fn lemma_candidate_listed(candidate: Candidate, changed: bool)
    ensures
        candidates_of(seq![Some((candidate, changed))]) == seq![candidate],
        changed_accounts(seq![Some((candidate, changed))]) == (if changed {
            seq![candidate.0]
        } else {
            Seq::empty()
        }),
        candidates_of(seq![None]) == Seq::<Candidate>::empty(),
        changed_accounts(seq![None]) == Seq::<Account>::empty(),
        candidates_of(Seq::empty()) == Seq::<Candidate>::empty(),
        changed_accounts(Seq::empty()) == Seq::<Account>::empty(),
{
    let one: Seq<Taken> = seq![Some((candidate, changed))];
    let none: Seq<Taken> = seq![None];
    assert(one.drop_last().len() == 0);
    assert(none.drop_last().len() == 0);
    assert(one.last() == Some((candidate, changed)));
    assert(candidates_of(one.drop_last()) == Seq::<Candidate>::empty());
    assert(changed_accounts(one.drop_last()) == Seq::<Account>::empty());
    assert(candidates_of(none.drop_last()) == Seq::<Candidate>::empty());
    assert(changed_accounts(none.drop_last()) == Seq::<Account>::empty());
    assert(candidates_of(one) =~= seq![candidate]);
    assert(changed_accounts(one) =~= if changed {
        seq![candidate.0]
    } else {
        Seq::empty()
    });
}

/// What is reported of an account: what it is known by, how it stands, whether it has a token, and
/// what was seen of its usage.
pub proof fn lemma_account_reported(
    account: Account,
    tokens: Map<Seq<char>, Token>,
    snaps: Map<Seq<char>, UsageSnapshotRecord>,
)
    ensures
        ({
            let row = account_report(account, tokens, snaps);
            let usage = snaps[account.id@];
            &&& row.id == account.id
            &&& row.status == account.status
            &&& row.has_token <==> tokens.contains_key(account.id@)
            &&& snaps.contains_key(account.id@) ==> row.used_percent == usage.used_percent
                && row.window_minutes == usage.window_minutes && row.secondary_used_percent
                == usage.secondary_used_percent && row.secondary_window_minutes
                == usage.secondary_window_minutes
            &&& !snaps.contains_key(account.id@) ==> row.used_percent is None
                && row.window_minutes is None && row.secondary_used_percent is None
                && row.secondary_window_minutes is None
        }),
{
}

/// The limit that an account is ordered by: that of the second window, if all of it is known; else
/// that of the first window, if all of it is known and it is a week or longer; else none.
pub proof fn lemma_limit_that_counts(usage: UsageSnapshotRecord)
    ensures
        ({
            let second = usage.secondary_resets_at is Some && usage.secondary_used_percent is Some
                && usage.secondary_window_minutes is Some;
            let first = usage.resets_at is Some && usage.used_percent is Some
                && usage.window_minutes is Some && usage.window_minutes->0 >= 7 * 24 * 60;
            let limit = expiry_priority(Some(usage));
            &&& limit is Some <==> second || first
            &&& second ==> limit->0.resets_at == usage.secondary_resets_at->0
                && limit->0.used_percent == usage.secondary_used_percent->0
            &&& !second && first ==> limit->0.resets_at == usage.resets_at->0
                && limit->0.used_percent == usage.used_percent->0
        }),
        expiry_priority(None) is None,
{
}

/// A candidate is ordered by what was seen of the usage of its account, and by the place and the
/// identifier of the account.
pub proof fn lemma_candidate_ranked(
    snaps: Map<Seq<char>, UsageSnapshotRecord>,
    candidate: Candidate,
)
    ensures
        ({
            let rank = candidate_rank(snaps, candidate);
            &&& snaps.contains_key(candidate.0.id@) ==> rank.priority == expiry_priority(
                Some(snaps[candidate.0.id@]),
            )
            &&& !snaps.contains_key(candidate.0.id@) ==> rank.priority is None
            &&& rank.sort == candidate.0.sort
            &&& rank.id == encode_utf8(candidate.0.id@)
        }),
{
}

/// Of two candidates whose limits reset at the same time the one that has used more of it comes
/// first.
pub proof fn lemma_more_used_first(a: Rank, b: Rank)
    requires
        a.priority is Some,
        b.priority is Some,
        a.priority->0.resets_at == b.priority->0.resets_at,
        a.priority->0.used_percent.place() > b.priority->0.used_percent.place(),
    ensures
        expiry_sign(a, b) < 0,
        expiry_sign(b, a) > 0,
{
}

/// Percentages are ordered as numbers: the positive ones by their bits, the negative ones against
/// them, and the negative ones first.
pub proof fn lemma_percent_order(a: Percent, b: Percent)
    ensures
        a.bits < 0x8000_0000_0000_0000 && b.bits < 0x8000_0000_0000_0000 ==> (a.place() < b.place()
            <==> a.bits < b.bits),
        a.bits >= 0x8000_0000_0000_0000 && b.bits >= 0x8000_0000_0000_0000 ==> (a.place()
            < b.place() <==> a.bits > b.bits),
        a.bits >= 0x8000_0000_0000_0000 && b.bits < 0x8000_0000_0000_0000 ==> a.place() < b.place(),
        a.place() == b.place() <==> a.bits == b.bits,
{
}

/// Candidates that their limits do not tell apart, or that have none, go by the places of their
/// accounts, and then by the identifiers.
pub proof fn lemma_then_by_account(a: Rank, b: Rank)
    requires
        a.priority == b.priority,
    ensures
        a.sort < b.sort ==> expiry_sign(a, b) < 0 && expiry_sign(b, a) > 0,
        a.sort == b.sort ==> expiry_sign(a, b) == bytes_sign(a.id, b.id),
{
}

/// A candidate with a limit comes before one without any, whatever else is known of them.
pub proof fn lemma_limited_first(a: Rank, b: Rank)
    requires
        a.priority is Some,
        b.priority is None,
    ensures
        expiry_sign(a, b) < 0,
        expiry_sign(b, a) > 0,
{
}

/// Byte strings go by the first byte in which they differ, and a shorter one before those that it is
/// the start of.
pub proof fn lemma_bytes_order(common: Seq<u8>, x: u8, y: u8, left: Seq<u8>, right: Seq<u8>)
    requires
        x < y,
    ensures
        bytes_sign(common + seq![x] + left, common + seq![y] + right) < 0,
        bytes_sign(common + seq![y] + right, common + seq![x] + left) > 0,
        bytes_sign(common, common + seq![x] + left) < 0,
        bytes_sign(common + seq![x] + left, common) > 0,
        bytes_sign(common, common) == 0,
    decreases common.len(),
{
    let a = common + seq![x] + left;
    let b = common + seq![y] + right;
    if common.len() == 0 {
        assert(a[0] == x && b[0] == y);
    } else {
        let rest = common.drop_first();
        lemma_bytes_order(rest, x, y, left, right);
        assert(a.drop_first() =~= rest + seq![x] + left);
        assert(b.drop_first() =~= rest + seq![y] + right);
        assert(a[0] == common[0] && b[0] == common[0]);
    }
}

/// Of two candidates that nothing tells apart the one that stood first stays first.
pub proof fn lemma_order_is_stable(
    before: Seq<Candidate>,
    after: Seq<Candidate>,
    snaps: Map<Seq<char>, UsageSnapshotRecord>,
    places: Seq<int>,
    i: int,
    j: int,
)
    requires
        stably_placed(before, after, snaps, places),
        0 <= i < j < after.len(),
        expiry_sign(candidate_rank(snaps, after[i]), candidate_rank(snaps, after[j])) == 0,
    ensures
        places[i] < places[j],
        after[i] == before[places[i]],
        after[j] == before[places[j]],
{
    assert(0 <= places[i] < before.len());
    assert(0 <= places[j] < before.len());
}

/// Settings are taken from the environment: how long candidates are kept is the number that it
/// gives, and half a second where it gives none; the database is the one that it names.
pub proof fn lemma_settings_taken(config: ConfigV, env: SelectionEnv)
    ensures
        ({
            let after = reloaded(config, env);
            &&& after.loaded == config.loaded
            &&& env.cache_ttl_ms is None ==> after.cache_ttl_ms == 500
            &&& env.cache_ttl_ms matches Some(raw) ==> match unsigned_of(trimmed(raw@)) {
                Some(n) => after.cache_ttl_ms == n,
                None => after.cache_ttl_ms == 500,
            }
            &&& after.db_path == (match env.db_path {
                Some(path) => path@,
                None => "<unset>"@,
            })
        }),
        config.loaded ==> loaded(config, env) == config,
        !config.loaded ==> {
            let first = loaded(config, env);
            let again = reloaded(config, env);
            &&& first.loaded
            &&& first.cache_ttl_ms == again.cache_ttl_ms
            &&& first.db_path == again.db_path
        },
        CANDIDATE_CACHE_TTL_ENV@ == "CODEXMANAGER_CANDIDATE_CACHE_TTL_MS"@,
        DB_PATH_ENV@ == "CODEXMANAGER_DB_PATH"@,
{
}

/// A number in the environment counts with white space around it.
pub proof fn lemma_time_to_keep(
    config: ConfigV,
    env: SelectionEnv,
    n: u64,
    a: Seq<char>,
    b: Seq<char>,
)
    requires
        all_space(a),
        all_space(b),
        env.cache_ttl_ms matches Some(raw) && raw@ == a + decimal(n as nat) + b,
    ensures
        reloaded(config, env).cache_ttl_ms == n,
{
    lemma_decimal_read(n as nat);
    lemma_trimmed_of(a, decimal(n as nat), b);
}

/// Candidates are kept for as many milliseconds as the settings say, for the database that they come
/// from; times are in nanoseconds.
pub proof fn lemma_kept_as_long(
    config: ConfigV,
    found: Seq<Candidate>,
    written: u64,
    db_path: Seq<char>,
    now: u64,
)
    ensures
        fresh_candidates(Some(snapshot_at(config, found, written)), db_path, now) == (if db_path
            == config.db_path && now < written + config.cache_ttl_ms * 1_000_000 {
            Some(found)
        } else {
            None
        }),
        fresh_candidates(None, db_path, now) is None,
{
}

/// Candidates are collected from what is kept as long as it is fresh, and that stays as it is.
pub proof fn lemma_collected_from_kept<
    L: FnOnce() -> Result<Vec<Candidate>, String>,
    T: Fn() -> u64,
>(
    config: ConfigV,
    snapshot: SnapshotV,
    after: Option<SnapshotV>,
    now: u64,
    clock: T,
    load: L,
    r: Result<Vec<Candidate>, String>,
)
    requires
        candidates_collected(config, Some(snapshot), after, now, clock, load, r),
        config.cache_ttl_ms > 0,
        snapshot.db_path == config.db_path,
        now < snapshot.expires_at,
    ensures
        r matches Ok(found) && found@ == snapshot.candidates,
        after == Some(snapshot),
{
}

/// Else they are loaded: what is found is kept from then on, a failure leaves nothing kept, and
/// where nothing is to be kept what is kept stays as it is.
pub proof fn lemma_collected_from_store<
    L: FnOnce() -> Result<Vec<Candidate>, String>,
    T: Fn() -> u64,
>(
    config: ConfigV,
    before: Option<SnapshotV>,
    after: Option<SnapshotV>,
    now: u64,
    clock: T,
    load: L,
    r: Result<Vec<Candidate>, String>,
)
    requires
        candidates_collected(config, before, after, now, clock, load, r),
        config.cache_ttl_ms == 0 || before is None || before->0.db_path != config.db_path || now
            >= before->0.expires_at,
    ensures
        call_ensures(load, (), r),
        config.cache_ttl_ms == 0 ==> after == before,
        config.cache_ttl_ms > 0 && r is Err ==> after is None,
        config.cache_ttl_ms > 0 && r is Ok ==> {
            &&& after matches Some(kept)
            &&& kept.candidates == r->Ok_0@
            &&& kept.db_path == config.db_path
            &&& exists|later: u64|
                #[trigger] call_ensures(clock, (), later) && kept.expires_at == later
                    + config.cache_ttl_ms * 1_000_000
        },
{
}

} // verus!
