//! Which accounts requests can go to.

use vstd::hash_map::StringHashMap;
use vstd::prelude::*;
use vstd::string::*;

use crate::accounts::{Account, Candidate, Percent, Token, UsageSnapshotRecord};
use crate::expiry_order::{maybe_sort_candidates_by_expiry, ordered_by_expiry, usage_of};
use crate::text::str_eq;

verus! {

broadcast use vstd::hash_map::group_hash_map_axioms;

/// The token of each account; of several the last one counts.
pub open spec fn tokens_by_account(tokens: Seq<Token>) -> Map<Seq<char>, Token>
    decreases tokens.len(),
{
    if tokens.len() == 0 {
        Map::empty()
    } else {
        tokens_by_account(tokens.drop_last()).insert(tokens.last().account_id@, tokens.last())
    }
}

/// What is known of each account's usage; of several snapshots the last one counts.
pub open spec fn snaps_by_account(snaps: Seq<UsageSnapshotRecord>) -> Map<
    Seq<char>,
    UsageSnapshotRecord,
>
    decreases snaps.len(),
{
    if snaps.len() == 0 {
        Map::empty()
    } else {
        snaps_by_account(snaps.drop_last()).insert(snaps.last().account_id@, snaps.last())
    }
}

/// The token of each account.
fn index_tokens(tokens: Vec<Token>) -> (r: StringHashMap<Token>)
    ensures
        r@ == tokens_by_account(tokens@),
{
    let ghost all = tokens@;
    let mut token_map: StringHashMap<Token> = StringHashMap::new();
    assert(all.take(0) =~= Seq::empty());
    for token in it: tokens
        invariant
            it.seq() == all,
            token_map@ == tokens_by_account(all.take(it.index())),
    {
        assert(all.take(it.index() + 1).drop_last() =~= all.take(it.index()));
        token_map.insert(token.account_id.clone(), token);
    }
    assert(all.take(all.len() as int) =~= all);
    token_map
}

/// What is known of each account's usage.
fn index_snaps(snaps: Vec<UsageSnapshotRecord>) -> (r: StringHashMap<UsageSnapshotRecord>)
    ensures
        r@ == snaps_by_account(snaps@),
{
    let ghost all = snaps@;
    let mut snap_map: StringHashMap<UsageSnapshotRecord> = StringHashMap::new();
    assert(all.take(0) =~= Seq::empty());
    for snap in it: snaps
        invariant
            it.seq() == all,
            snap_map@ == snaps_by_account(all.take(it.index())),
    {
        assert(all.take(it.index() + 1).drop_last() =~= all.take(it.index()));
        snap_map.insert(snap.account_id.clone(), snap);
    }
    assert(all.take(all.len() as int) =~= all);
    snap_map
}

/// The token of an account that is active and has one.
pub open spec fn active_token(account: Account, tokens: Map<Seq<char>, Token>) -> Option<Token> {
    if account.status@ == "active"@ && tokens.contains_key(account.id@) {
        Some(tokens[account.id@])
    } else {
        None
    }
}

/// The token of an account that is active and has one.
pub fn find_active_token<'a>(account: &Account, token_map: &'a StringHashMap<Token>) -> (r: Option<
    &'a Token,
>)
    ensures
        (match r {
            Some(token) => Some(*token),
            None => None,
        }) == active_token(*account, token_map@),
{
    if !str_eq(account.status.as_str(), "active") {
        return None;
    }
    token_map.get(account.id.as_str())
}

/// The identifiers that a token tells of its account.
pub type AccountMeta = (Option<String>, Option<String>);

/// `after` and `changed` may be what `patch` makes of an account with the identifiers that `derive`
/// finds in its token; a changed account bears the time that `now` tells.
pub open spec fn account_patched<
    D: Fn(&Token) -> AccountMeta,
    P: Fn(&Account, AccountMeta) -> (Account, bool),
    T: Fn() -> i64,
>(
    account: Account,
    token: Token,
    derive_meta: D,
    patch: P,
    now: T,
    after: Account,
    changed: bool,
) -> bool {
    exists|meta: AccountMeta, patched: Account|
        {
            &&& #[trigger] call_ensures(derive_meta, (&token,), meta)
            &&& #[trigger] call_ensures(patch, (&account, meta), (patched, changed))
            &&& if changed {
                account_stamped(patched, now, after)
            } else {
                after == patched
            }
        }
}

/// `after` may be the account with the time that `now` tells.
pub open spec fn account_stamped<T: Fn() -> i64>(account: Account, now: T, after: Account) -> bool {
    exists|time: i64| #[trigger]
        call_ensures(now, (), time) && after == (Account { updated_at: time, ..account })
}

/// What becomes of an account: nothing, or a candidate, and whether the account was changed for it.
pub type Taken = Option<(Candidate, bool)>;

/// `taken` may be what becomes of an account: a candidate where it is active, has a token, and its
/// usage leaves something over, as `is_available` judges.
pub open spec fn account_taken<
    A: Fn(Option<&UsageSnapshotRecord>) -> bool,
    D: Fn(&Token) -> AccountMeta,
    P: Fn(&Account, AccountMeta) -> (Account, bool),
    T: Fn() -> i64,
>(
    account: Account,
    tokens: Map<Seq<char>, Token>,
    snaps: Map<Seq<char>, UsageSnapshotRecord>,
    is_available: A,
    derive_meta: D,
    patch: P,
    now: T,
    taken: Taken,
) -> bool {
    match active_token(account, tokens) {
        Some(token) => {
            match taken {
                Some(((after, kept), changed)) => {
                    &&& usage_judged(snaps, account, is_available, true)
                    &&& kept == token
                    &&& account_patched(account, token, derive_meta, patch, now, after, changed)
                },
                None => usage_judged(snaps, account, is_available, false),
            }
        },
        None => taken is None,
    }
}

/// `verdict` may be what `is_available` says of what is known of an account's usage.
pub open spec fn usage_judged<A: Fn(Option<&UsageSnapshotRecord>) -> bool>(
    snaps: Map<Seq<char>, UsageSnapshotRecord>,
    account: Account,
    is_available: A,
    verdict: bool,
) -> bool {
    match usage_of(snaps, account) {
        Some(usage) => call_ensures(is_available, (Some(&usage),), verdict),
        None => call_ensures(is_available, (None,), verdict),
    }
}

/// The candidates among what became of accounts.
pub open spec fn candidates_of(taken: Seq<Taken>) -> Seq<Candidate>
    decreases taken.len(),
{
    if taken.len() == 0 {
        Seq::empty()
    } else {
        let before = candidates_of(taken.drop_last());
        match taken.last() {
            Some((candidate, _)) => before.push(candidate),
            None => before,
        }
    }
}

/// The accounts that were changed.
pub open spec fn changed_accounts(taken: Seq<Taken>) -> Seq<Account>
    decreases taken.len(),
{
    if taken.len() == 0 {
        Seq::empty()
    } else {
        let before = changed_accounts(taken.drop_last());
        match taken.last() {
            Some((candidate, true)) => before.push(candidate.0),
            _ => before,
        }
    }
}

/// What there is to say of an account when there are no candidates.
pub struct AccountReport {
    pub id: String,
    pub status: String,
    pub has_token: bool,
    pub used_percent: Option<Percent>,
    pub window_minutes: Option<i64>,
    pub secondary_used_percent: Option<Percent>,
    pub secondary_window_minutes: Option<i64>,
}

/// What there is to say when there are no candidates: how many accounts, accounts with tokens and
/// accounts with snapshots there are, and each account.
pub struct NoCandidatesReport {
    pub accounts: usize,
    pub tokens: usize,
    pub snapshots: usize,
    pub rows: Vec<AccountReport>,
}

/// What there is to say of an account when there are no candidates.
pub open spec fn account_report(
    account: Account,
    tokens: Map<Seq<char>, Token>,
    snaps: Map<Seq<char>, UsageSnapshotRecord>,
) -> AccountReport {
    let has_token = tokens.contains_key(account.id@);
    match usage_of(snaps, account) {
        Some(usage) => AccountReport {
            id: account.id,
            status: account.status,
            has_token,
            used_percent: usage.used_percent,
            window_minutes: usage.window_minutes,
            secondary_used_percent: usage.secondary_used_percent,
            secondary_window_minutes: usage.secondary_window_minutes,
        },
        None => AccountReport {
            id: account.id,
            status: account.status,
            has_token,
            used_percent: None,
            window_minutes: None,
            secondary_used_percent: None,
            secondary_window_minutes: None,
        },
    }
}

/// What there is to say when there are no candidates.
pub fn report_no_candidates(
    accounts: &Vec<Account>,
    token_map: &StringHashMap<Token>,
    snap_map: &StringHashMap<UsageSnapshotRecord>,
) -> (r: NoCandidatesReport)
    ensures
        r.accounts == accounts@.len(),
        r.tokens == token_map@.len(),
        r.snapshots == snap_map@.len(),
        r.rows@ == accounts@.map_values(
            |account: Account| account_report(account, token_map@, snap_map@),
        ),
{
    let mut rows: Vec<AccountReport> = Vec::new();
    let mut i: usize = 0;
    while i < accounts.len()
        invariant
            i <= accounts@.len(),
            rows@.len() == i,
            forall|k: int|
                0 <= k < i ==> #[trigger] rows@[k] == account_report(
                    accounts@[k],
                    token_map@,
                    snap_map@,
                ),
        decreases accounts@.len() - i,
    {
        let account = &accounts[i];
        let has_token = token_map.contains_key(account.id.as_str());
        let row = match snap_map.get(account.id.as_str()) {
            Some(usage) => AccountReport {
                id: account.id.clone(),
                status: account.status.clone(),
                has_token,
                used_percent: usage.used_percent,
                window_minutes: usage.window_minutes,
                secondary_used_percent: usage.secondary_used_percent,
                secondary_window_minutes: usage.secondary_window_minutes,
            },
            None => AccountReport {
                id: account.id.clone(),
                status: account.status.clone(),
                has_token,
                used_percent: None,
                window_minutes: None,
                secondary_used_percent: None,
                secondary_window_minutes: None,
            },
        };
        rows.push(row);
        i += 1;
    }
    assert(rows@ =~= accounts@.map_values(
        |account: Account| account_report(account, token_map@, snap_map@),
    ));
    NoCandidatesReport {
        accounts: accounts.len(),
        tokens: token_map.len(),
        snapshots: snap_map.len(),
        rows,
    }
}

/// The candidates, the accounts that are to be stored because they were changed, and, where there
/// are no candidates, what there is to say of it.
pub struct Collected {
    pub candidates: Vec<Candidate>,
    pub changed: Vec<Account>,
    pub report: Option<NoCandidatesReport>,
}

/// What becomes of one account.
fn take_account<
    A: Fn(Option<&UsageSnapshotRecord>) -> bool,
    D: Fn(&Token) -> AccountMeta,
    P: Fn(&Account, AccountMeta) -> (Account, bool),
    T: Fn() -> i64,
>(
    account: &Account,
    token_map: &StringHashMap<Token>,
    snap_map: &StringHashMap<UsageSnapshotRecord>,
    is_available: &A,
    derive_meta: &D,
    patch: &P,
    now: &T,
) -> (r: Taken)
    requires
        forall|usage: Option<&UsageSnapshotRecord>| #[trigger]
            call_requires(*is_available, (usage,)),
        forall|token: &Token| #[trigger] call_requires(*derive_meta, (token,)),
        forall|account: &Account, meta: AccountMeta| #[trigger]
            call_requires(*patch, (account, meta)),
        call_requires(*now, ()),
    ensures
        account_taken(
            *account,
            token_map@,
            snap_map@,
            *is_available,
            *derive_meta,
            *patch,
            *now,
            r,
        ),
{
    let token = match find_active_token(account, token_map) {
        Some(token) => token,
        None => return None,
    };
    let usage = snap_map.get(account.id.as_str());
    let available = is_available(usage);
    assert(usage_judged(snap_map@, *account, *is_available, available));
    if !available {
        return None;
    }
    let meta = derive_meta(token);
    let (patched, changed) = patch(account, meta);
    let mut candidate_account = patched;
    if changed {
        candidate_account.updated_at = now();
        assert(account_stamped(patched, *now, candidate_account));
    }
    assert(account_patched(
        *account,
        *token,
        *derive_meta,
        *patch,
        *now,
        candidate_account,
        changed,
    ));
    Some(((candidate_account, token.clone()), changed))
}

/// The accounts that requests can go to, with their tokens: the active ones with a token whose usage
/// leaves something over, in the order of the accounts, or, where that is the strategy, of their
/// limits.
pub fn collect_gateway_candidates_uncached<
    A: Fn(Option<&UsageSnapshotRecord>) -> bool,
    D: Fn(&Token) -> AccountMeta,
    P: Fn(&Account, AccountMeta) -> (Account, bool),
    T: Fn() -> i64,
>(
    accounts: &Vec<Account>,
    tokens: Vec<Token>,
    snaps: Vec<UsageSnapshotRecord>,
    strategy: &str,
    is_available: &A,
    derive_meta: &D,
    patch: &P,
    now: &T,
) -> (r: Collected)
    requires
        forall|usage: Option<&UsageSnapshotRecord>| #[trigger]
            call_requires(*is_available, (usage,)),
        forall|token: &Token| #[trigger] call_requires(*derive_meta, (token,)),
        forall|account: &Account, meta: AccountMeta| #[trigger]
            call_requires(*patch, (account, meta)),
        call_requires(*now, ()),
    ensures
        exists|taken: Seq<Taken>|
            {
                &&& #[trigger] taken.len() == accounts@.len()
                &&& forall|i: int|
                    0 <= i < taken.len() ==> account_taken(
                        accounts@[i],
                        tokens_by_account(tokens@),
                        snaps_by_account(snaps@),
                        *is_available,
                        *derive_meta,
                        *patch,
                        *now,
                        #[trigger] taken[i],
                    )
                &&& r.changed@ == changed_accounts(taken)
                &&& strategy@ == "expiry_first"@ ==> ordered_by_expiry(
                    candidates_of(taken),
                    r.candidates@,
                    snaps_by_account(snaps@),
                )
                &&& strategy@ != "expiry_first"@ ==> r.candidates@ == candidates_of(taken)
                &&& r.report is Some <==> candidates_of(taken).len() == 0
            },
        r.report matches Some(report) ==> {
            &&& report.accounts == accounts@.len()
            &&& report.tokens == tokens_by_account(tokens@).len()
            &&& report.snapshots == snaps_by_account(snaps@).len()
            &&& report.rows@ == accounts@.map_values(
                |account: Account|
                    account_report(
                        account,
                        tokens_by_account(tokens@),
                        snaps_by_account(snaps@),
                    ),
            )
        },
{
    let token_map = index_tokens(tokens);
    let snap_map = index_snaps(snaps);
    let ghost mut taken: Seq<Taken> = Seq::empty();
    let mut candidates: Vec<Candidate> = Vec::new();
    let mut changed: Vec<Account> = Vec::new();
    let mut i: usize = 0;
    while i < accounts.len()
        invariant
            forall|usage: Option<&UsageSnapshotRecord>| #[trigger]
                call_requires(*is_available, (usage,)),
            forall|token: &Token| #[trigger] call_requires(*derive_meta, (token,)),
            forall|account: &Account, meta: AccountMeta| #[trigger]
                call_requires(*patch, (account, meta)),
            call_requires(*now, ()),
            token_map@ == tokens_by_account(tokens@),
            snap_map@ == snaps_by_account(snaps@),
            i <= accounts@.len(),
            taken.len() == i,
            forall|k: int|
                0 <= k < taken.len() ==> account_taken(
                    accounts@[k],
                    token_map@,
                    snap_map@,
                    *is_available,
                    *derive_meta,
                    *patch,
                    *now,
                    #[trigger] taken[k],
                ),
            candidates@ == candidates_of(taken),
            changed@ == changed_accounts(taken),
        decreases accounts@.len() - i,
    {
        let one = take_account(
            &accounts[i],
            &token_map,
            &snap_map,
            is_available,
            derive_meta,
            patch,
            now,
        );
        proof {
            assert(taken.push(one).drop_last() =~= taken);
            taken = taken.push(one);
        }
        if let Some((candidate, was_changed)) = one {
            if was_changed {
                changed.push(candidate.0.clone());
            }
            candidates.push(candidate);
        }
        i += 1;
    }
    let report = if candidates.len() == 0 {
        Some(report_no_candidates(accounts, &token_map, &snap_map))
    } else {
        None
    };
    maybe_sort_candidates_by_expiry(&mut candidates, &snap_map, strategy);
    Collected { candidates, changed, report }
}

/// The token of an account is one of the tokens, and belongs to the account.
pub proof fn lemma_token_belongs(tokens: Seq<Token>, id: Seq<char>)
    requires
        tokens_by_account(tokens).contains_key(id),
    ensures
        tokens.contains(tokens_by_account(tokens)[id]),
        tokens_by_account(tokens)[id].account_id@ == id,
    decreases tokens.len(),
{
    if tokens.last().account_id@ == id {
        assert(tokens[tokens.len() - 1] == tokens.last());
    } else {
        let rest = tokens.drop_last();
        lemma_token_belongs(rest, id);
        let token = tokens_by_account(rest)[id];
        let i = choose|i: int| 0 <= i < rest.len() && rest[i] == token;
        assert(tokens[i] == token);
    }
}

/// A candidate comes of an active account, and its token belongs to that account.
pub proof fn lemma_candidate_is_active<
    A: Fn(Option<&UsageSnapshotRecord>) -> bool,
    D: Fn(&Token) -> AccountMeta,
    P: Fn(&Account, AccountMeta) -> (Account, bool),
    T: Fn() -> i64,
>(
    account: Account,
    tokens: Seq<Token>,
    snaps: Map<Seq<char>, UsageSnapshotRecord>,
    is_available: A,
    derive_meta: D,
    patch: P,
    now: T,
    candidate: Candidate,
    changed: bool,
)
    requires
        account_taken(
            account,
            tokens_by_account(tokens),
            snaps,
            is_available,
            derive_meta,
            patch,
            now,
            Some((candidate, changed)),
        ),
    ensures
        account.status@ == "active"@,
        candidate.1.account_id@ == account.id@,
        tokens.contains(candidate.1),
{
    lemma_token_belongs(tokens, account.id@);
}

/// There are no more candidates than accounts, and no more changed accounts than candidates.
pub proof fn lemma_candidates_counted(taken: Seq<Taken>)
    ensures
        candidates_of(taken).len() <= taken.len(),
        changed_accounts(taken).len() <= candidates_of(taken).len(),
    decreases taken.len(),
{
    if taken.len() > 0 {
        lemma_candidates_counted(taken.drop_last());
    }
}

} // verus!
