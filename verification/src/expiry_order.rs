//! The order in which candidates are tried when those whose limits reset first go first.

use std::cmp::Ordering;

use vstd::hash_map::StringHashMap;
use vstd::prelude::*;
use vstd::string::*;
use vstd::utf8::*;

use crate::accounts::{Account, Candidate, Percent, UsageSnapshotRecord};
use crate::text::str_eq;

verus! {

/// A window of this length, or a longer one, spans a week.
pub const WEEKLY_WINDOW_MINUTES: i64 = 10080;

/// When the weekly limit of an account resets, and what has been used of it.
#[derive(Clone, Copy)]
pub struct ExpiryPriority {
    pub resets_at: i64,
    pub used_percent: Percent,
}

/// When the weekly limit resets and what has been used of it: as the second window says, or else
/// the first one, where it spans a week.
pub open spec fn expiry_priority(snap: Option<UsageSnapshotRecord>) -> Option<ExpiryPriority> {
    match snap {
        Some(usage) => match (
            usage.secondary_resets_at,
            usage.secondary_used_percent,
            usage.secondary_window_minutes,
        ) {
            (Some(resets_at), Some(used_percent), Some(_)) => Some(
                ExpiryPriority { resets_at, used_percent },
            ),
            _ => match (usage.window_minutes, usage.resets_at, usage.used_percent) {
                (Some(window), Some(resets_at), Some(used_percent)) => if window
                    >= WEEKLY_WINDOW_MINUTES {
                    Some(ExpiryPriority { resets_at, used_percent })
                } else {
                    None
                },
                _ => None,
            },
        },
        None => None,
    }
}

/// What a candidate is ordered by.
pub struct Rank {
    pub priority: Option<ExpiryPriority>,
    pub sort: i64,
    pub id: Seq<u8>,
}

/// -1, 0 or 1, as `a` comes before `b`, is equal to it, or comes behind it.
pub open spec fn int_sign(a: int, b: int) -> int {
    if a < b {
        -1
    } else if a == b {
        0
    } else {
        1
    }
}

/// The first of two comparisons that tells a difference.
pub open spec fn first_sign(first: int, second: int) -> int {
    if first != 0 {
        first
    } else {
        second
    }
}

/// How two byte strings compare, byte by byte from the start.
pub open spec fn bytes_sign(a: Seq<u8>, b: Seq<u8>) -> int
    decreases a.len(),
{
    if a.len() == 0 || b.len() == 0 {
        int_sign(a.len() as int, b.len() as int)
    } else {
        first_sign(
            int_sign(a[0] as int, b[0] as int),
            bytes_sign(a.drop_first(), b.drop_first()),
        )
    }
}

/// How two candidates compare without a look at their limits.
pub open spec fn account_sign(a: Rank, b: Rank) -> int {
    first_sign(int_sign(a.sort as int, b.sort as int), bytes_sign(a.id, b.id))
}

/// How two candidates compare: those with a weekly limit first, then by the time of its reset, then
/// by how much is used of it, the most used first, then by their own order, then by name.
pub open spec fn expiry_sign(a: Rank, b: Rank) -> int {
    match (a.priority, b.priority) {
        (Some(left), Some(right)) => first_sign(
            int_sign(left.resets_at as int, right.resets_at as int),
            first_sign(
                int_sign(right.used_percent.place(), left.used_percent.place()),
                account_sign(a, b),
            ),
        ),
        (Some(_), None) => -1,
        (None, Some(_)) => 1,
        (None, None) => account_sign(a, b),
    }
}

/// What is known of an account's usage.
pub open spec fn usage_of(
    snaps: Map<Seq<char>, UsageSnapshotRecord>,
    account: Account,
) -> Option<UsageSnapshotRecord> {
    if snaps.contains_key(account.id@) {
        Some(snaps[account.id@])
    } else {
        None
    }
}

/// What an account with given usage is ordered by.
pub open spec fn account_rank(usage: Option<UsageSnapshotRecord>, account: Account) -> Rank {
    Rank {
        priority: expiry_priority(usage),
        sort: account.sort,
        id: encode_utf8(account.id@),
    }
}

/// What a candidate is ordered by.
pub open spec fn candidate_rank(
    snaps: Map<Seq<char>, UsageSnapshotRecord>,
    candidate: Candidate,
) -> Rank {
    account_rank(usage_of(snaps, candidate.0), candidate.0)
}

proof fn lemma_bytes_sign_flips(a: Seq<u8>, b: Seq<u8>)
    ensures
        bytes_sign(a, b) == -bytes_sign(b, a),
        bytes_sign(a, b) == 0 <==> a == b,
    decreases a.len(),
{
    if a.len() == 0 || b.len() == 0 {
        if a.len() == b.len() {
            assert(a =~= b);
        }
    } else {
        lemma_bytes_sign_flips(a.drop_first(), b.drop_first());
        if bytes_sign(a, b) == 0 {
            assert(a =~= seq![a[0]] + a.drop_first());
            assert(b =~= seq![b[0]] + b.drop_first());
        }
    }
}

proof fn lemma_bytes_sign_chains(a: Seq<u8>, b: Seq<u8>, c: Seq<u8>)
    requires
        bytes_sign(a, b) <= 0,
        bytes_sign(b, c) <= 0,
    ensures
        bytes_sign(a, c) <= 0,
    decreases a.len(),
{
    if a.len() > 0 && b.len() > 0 && c.len() > 0 {
        if a[0] == b[0] && b[0] == c[0] {
            lemma_bytes_sign_chains(a.drop_first(), b.drop_first(), c.drop_first());
        }
    }
}

/// Turning a comparison round turns its outcome round, and two candidates are equal only where they
/// have the same limits, order and name.
pub proof fn lemma_expiry_sign_flips(a: Rank, b: Rank)
    ensures
        expiry_sign(a, b) == -expiry_sign(b, a),
        expiry_sign(a, b) == 0 <==> a.sort == b.sort && a.id == b.id && match (
            a.priority,
            b.priority,
        ) {
            (Some(left), Some(right)) => left.resets_at == right.resets_at && left.used_percent
                == right.used_percent,
            (None, None) => true,
            _ => false,
        },
{
    lemma_bytes_sign_flips(a.id, b.id);
}

/// What comes no later than a second candidate comes no later than a third that the second comes no
/// later than.
pub proof fn lemma_expiry_sign_chains(a: Rank, b: Rank, c: Rank)
    requires
        expiry_sign(a, b) <= 0,
        expiry_sign(b, c) <= 0,
    ensures
        expiry_sign(a, c) <= 0,
{
    lemma_bytes_sign_flips(a.id, b.id);
    lemma_bytes_sign_flips(b.id, c.id);
    if bytes_sign(a.id, b.id) <= 0 && bytes_sign(b.id, c.id) <= 0 {
        lemma_bytes_sign_chains(a.id, b.id, c.id);
    }
}

/// When the weekly limit of an account resets, and what has been used of it.
pub fn expiry_priority_for_snapshot(snap: Option<&UsageSnapshotRecord>) -> (r: Option<
    ExpiryPriority,
>)
    ensures
        r == expiry_priority(opt_usage(snap)),
{
    let snap = match snap {
        Some(snap) => snap,
        None => return None,
    };
    if let (Some(resets_at), Some(used_percent), Some(_)) = (
        snap.secondary_resets_at,
        snap.secondary_used_percent,
        snap.secondary_window_minutes,
    ) {
        return Some(ExpiryPriority { resets_at, used_percent });
    }
    if let (Some(window_minutes), Some(resets_at), Some(used_percent)) = (
        snap.window_minutes,
        snap.resets_at,
        snap.used_percent,
    ) {
        if window_minutes >= WEEKLY_WINDOW_MINUTES {
            return Some(ExpiryPriority { resets_at, used_percent });
        }
    }
    None
}

/// What an optional reference refers to.
pub open spec fn opt_usage(snap: Option<&UsageSnapshotRecord>) -> Option<UsageSnapshotRecord> {
    match snap {
        Some(usage) => Some(*usage),
        None => None,
    }
}

/// How two integers compare.
fn order_of(a: i64, b: i64) -> (r: i8)
    ensures
        r == int_sign(a as int, b as int),
{
    if a < b {
        -1
    } else if a == b {
        0
    } else {
        1
    }
}

/// How two byte strings compare.
fn bytes_order(a: &[u8], b: &[u8]) -> (r: i8)
    ensures
        r == bytes_sign(a@, b@),
{
    let mut i: usize = 0;
    assert(a@.skip(0) =~= a@);
    assert(b@.skip(0) =~= b@);
    while i < a.len() && i < b.len()
        invariant
            i <= a@.len(),
            i <= b@.len(),
            bytes_sign(a@, b@) == bytes_sign(a@.skip(i as int), b@.skip(i as int)),
        decreases a@.len() - i,
    {
        if a[i] < b[i] {
            return -1;
        }
        if a[i] > b[i] {
            return 1;
        }
        assert(a@.skip(i as int).drop_first() =~= a@.skip(i + 1));
        assert(b@.skip(i as int).drop_first() =~= b@.skip(i + 1));
        i += 1;
    }
    if i < b.len() {
        -1
    } else if i < a.len() {
        1
    } else {
        0
    }
}

/// How two accounts compare without a look at their limits.
fn account_order(left: &Account, right: &Account) -> (r: i8)
    ensures
        r == first_sign(
            int_sign(left.sort as int, right.sort as int),
            bytes_sign(encode_utf8(left.id@), encode_utf8(right.id@)),
        ),
{
    let by_sort = order_of(left.sort, right.sort);
    if by_sort != 0 {
        return by_sort;
    }
    bytes_order(left.id.as_str().as_bytes(), right.id.as_str().as_bytes())
}

/// How two accounts compare, given their usage.
fn expiry_order(
    left_usage: Option<&UsageSnapshotRecord>,
    right_usage: Option<&UsageSnapshotRecord>,
    left_account: &Account,
    right_account: &Account,
) -> (r: i8)
    ensures
        r == expiry_sign(
            account_rank(opt_usage(left_usage), *left_account),
            account_rank(opt_usage(right_usage), *right_account),
        ),
{
    match (expiry_priority_for_snapshot(left_usage), expiry_priority_for_snapshot(right_usage)) {
        (Some(left), Some(right)) => {
            let by_reset = order_of(left.resets_at, right.resets_at);
            if by_reset != 0 {
                return by_reset;
            }
            let by_usage = order_of(right.used_percent.ordinal(), left.used_percent.ordinal());
            if by_usage != 0 {
                return by_usage;
            }
            account_order(left_account, right_account)
        },
        (Some(_), None) => -1,
        (None, Some(_)) => 1,
        (None, None) => account_order(left_account, right_account),
    }
}

/// How two accounts compare, given their usage.
pub fn compare_expiry_priority(
    left_usage: Option<&UsageSnapshotRecord>,
    right_usage: Option<&UsageSnapshotRecord>,
    left_account: &Account,
    right_account: &Account,
) -> (r: Ordering)
    ensures
        r is Less <==> expiry_sign(
            account_rank(opt_usage(left_usage), *left_account),
            account_rank(opt_usage(right_usage), *right_account),
        ) < 0,
        r is Greater <==> expiry_sign(
            account_rank(opt_usage(left_usage), *left_account),
            account_rank(opt_usage(right_usage), *right_account),
        ) > 0,
{
    let order: i8 = expiry_order(left_usage, right_usage, left_account, right_account);
    if order < 0 {
        Ordering::Less
    } else if order > 0 {
        Ordering::Greater
    } else {
        Ordering::Equal
    }
}

/// Whether the first candidate comes behind the second.
fn comes_behind(
    left: &Candidate,
    right: &Candidate,
    snap_map: &StringHashMap<UsageSnapshotRecord>,
) -> (r: bool)
    ensures
        r == (expiry_sign(candidate_rank(snap_map@, *left), candidate_rank(snap_map@, *right)) > 0),
{
    match compare_expiry_priority(
        snap_map.get(left.0.id.as_str()),
        snap_map.get(right.0.id.as_str()),
        &left.0,
        &right.0,
    ) {
        Ordering::Greater => true,
        _ => false,
    }
}

/// `places` tells where each candidate of `after` stood in `before`: each place once, the
/// candidates in order, and equal ones in the order that they had.
pub open spec fn stably_placed(
    before: Seq<Candidate>,
    after: Seq<Candidate>,
    snaps: Map<Seq<char>, UsageSnapshotRecord>,
    places: Seq<int>,
) -> bool {
    &&& places.len() == before.len()
    &&& after.len() == before.len()
    &&& forall|i: int|
        0 <= i < places.len() ==> 0 <= #[trigger] places[i] < before.len() && after[i]
            == before[places[i]]
    &&& forall|i: int, j: int|
        0 <= i < j < places.len() ==> goes_before(
            before,
            snaps,
            #[trigger] places[i],
            #[trigger] places[j],
        )
}

/// The candidate at place `x` goes before the one at place `y`: it compares as earlier, or as equal
/// and stood before it.
pub open spec fn goes_before(
    candidates: Seq<Candidate>,
    snaps: Map<Seq<char>, UsageSnapshotRecord>,
    x: int,
    y: int,
) -> bool {
    let sign = expiry_sign(
        candidate_rank(snaps, candidates[x]),
        candidate_rank(snaps, candidates[y]),
    );
    sign < 0 || (sign == 0 && x < y)
}

/// `after` holds the candidates of `before`, those whose limits reset first at the front, and equal
/// ones in the order that they had.
pub open spec fn ordered_by_expiry(
    before: Seq<Candidate>,
    after: Seq<Candidate>,
    snaps: Map<Seq<char>, UsageSnapshotRecord>,
) -> bool {
    exists|places: Seq<int>| #[trigger] stably_placed(before, after, snaps, places)
}

/// Brings candidates into the order of their limits.
fn sort_by_expiry(
    candidates: &mut Vec<Candidate>,
    snap_map: &StringHashMap<UsageSnapshotRecord>,
)
    ensures
        ordered_by_expiry(old(candidates)@, final(candidates)@, snap_map@),
{
    let ghost before = candidates@;
    let ghost snaps = snap_map@;
    let n: usize = candidates.len();
    let ghost mut places: Seq<int> = Seq::new(n as nat, |k: int| k);
    let mut i: usize = 0;
    while i < n
        invariant
            snaps == snap_map@,
            i <= n,
            n == candidates@.len(),
            n == before.len(),
            n == places.len(),
            forall|k: int|
                0 <= k < n ==> 0 <= #[trigger] places[k] < n && candidates@[k] == before[places[k]],
            forall|k: int| 0 <= k < i ==> #[trigger] places[k] < i,
            forall|k: int| i <= k < n ==> #[trigger] places[k] == k,
            forall|a: int, b: int|
                0 <= a < b < i ==> goes_before(
                    before,
                    snaps,
                    #[trigger] places[a],
                    #[trigger] places[b],
                ),
        decreases n - i,
    {
        let mut j: usize = i;
        while j > 0 && comes_behind(&candidates[j - 1], &candidates[i], snap_map)
            invariant
                snaps == snap_map@,
                j <= i < n,
                n == candidates@.len(),
                n == before.len(),
                n == places.len(),
                forall|k: int|
                    0 <= k < n ==> 0 <= #[trigger] places[k] < n && candidates@[k]
                        == before[places[k]],
                places[i as int] == i,
                forall|k: int|
                    j <= k < i ==> expiry_sign(
                        candidate_rank(snaps, before[#[trigger] places[k]]),
                        candidate_rank(snaps, before[i as int]),
                    ) > 0,
            decreases j,
        {
            j -= 1;
        }
        let ghost moved = Seq::new(
            n as nat,
            |k: int|
                if k < j || k > i {
                    places[k]
                } else if k == j {
                    i as int
                } else {
                    places[k - 1]
                },
        );
        proof {
            lemma_placed_in_order(before, snaps, places, moved, i as int, j as int);
        }
        if j < i {
            let candidate = candidates.remove(i);
            candidates.insert(j, candidate);
        }
        assert forall|k: int| 0 <= k < n implies 0 <= #[trigger] moved[k] < n && candidates@[k]
            == before[moved[k]] by {
            if k < j || k > i {
                assert(0 <= places[k] < n);
            } else if k > j {
                assert(0 <= places[k - 1] < n);
            } else {
                assert(places[i as int] == i);
            }
        }
        proof {
            places = moved;
        }
        i += 1;
    }
    assert(stably_placed(before, candidates@, snaps, places));
}

proof fn lemma_placed_in_order(
    before: Seq<Candidate>,
    snaps: Map<Seq<char>, UsageSnapshotRecord>,
    places: Seq<int>,
    moved: Seq<int>,
    i: int,
    j: int,
)
    requires
        0 <= j <= i < before.len(),
        places.len() == before.len(),
        moved.len() == before.len(),
        forall|k: int|
            0 <= k < moved.len() ==> #[trigger] moved[k] == (if k < j || k > i {
                places[k]
            } else if k == j {
                i
            } else {
                places[k - 1]
            }),
        forall|k: int| 0 <= k < i ==> 0 <= #[trigger] places[k] < i,
        forall|k: int| i <= k < places.len() ==> #[trigger] places[k] == k,
        forall|a: int, b: int|
            0 <= a < b < i ==> goes_before(before, snaps, #[trigger] places[a], #[trigger] places[b]),
        forall|k: int|
            j <= k < i ==> expiry_sign(
                candidate_rank(snaps, before[#[trigger] places[k]]),
                candidate_rank(snaps, before[i]),
            ) > 0,
        j > 0 ==> expiry_sign(
            candidate_rank(snaps, before[places[j - 1]]),
            candidate_rank(snaps, before[i]),
        ) <= 0,
    ensures
        forall|k: int| 0 <= k < i + 1 ==> #[trigger] moved[k] < i + 1,
        forall|k: int| i + 1 <= k < moved.len() ==> #[trigger] moved[k] == k,
        forall|a: int, b: int|
            0 <= a < b < i + 1 ==> goes_before(
                before,
                snaps,
                #[trigger] moved[a],
                #[trigger] moved[b],
            ),
{
    let new = candidate_rank(snaps, before[i]);
    assert forall|a: int, b: int| 0 <= a < b < i + 1 implies goes_before(
        before,
        snaps,
        #[trigger] moved[a],
        #[trigger] moved[b],
    ) by {
        if b == j {
            let here = candidate_rank(snaps, before[places[a]]);
            if a < j - 1 {
                let last = candidate_rank(snaps, before[places[j - 1]]);
                assert(goes_before(before, snaps, places[a], places[j - 1]));
                lemma_expiry_sign_chains(here, last, new);
            }
        } else if a == j {
            let there = candidate_rank(snaps, before[places[b - 1]]);
            lemma_expiry_sign_flips(there, new);
        } else {
            let x = if a < j {
                a
            } else {
                a - 1
            };
            let y = if b < j {
                b
            } else {
                b - 1
            };
            assert(goes_before(before, snaps, places[x], places[y]));
        }
    }
    assert forall|k: int| 0 <= k < i + 1 implies #[trigger] moved[k] < i + 1 by {
        if k < j {
            assert(places[k] < i);
        } else if k > j {
            assert(places[k - 1] < i);
        }
    }
    assert forall|k: int| i + 1 <= k < moved.len() implies #[trigger] moved[k] == k by {
        assert(places[k] == k);
    }
}

/// Brings candidates into the order of their limits, where that is the strategy; else they stay as
/// they are.
pub fn maybe_sort_candidates_by_expiry(
    candidates: &mut Vec<Candidate>,
    snap_map: &StringHashMap<UsageSnapshotRecord>,
    strategy: &str,
)
    ensures
        strategy@ == "expiry_first"@ ==> ordered_by_expiry(
            old(candidates)@,
            final(candidates)@,
            snap_map@,
        ),
        strategy@ != "expiry_first"@ ==> final(candidates)@ == old(candidates)@,
{
    if candidates.len() <= 1 || !str_eq(strategy, "expiry_first") {
        proof {
            let places = Seq::new(candidates@.len(), |k: int| k);
            if candidates@.len() <= 1 {
                assert(stably_placed(candidates@, candidates@, snap_map@, places));
            }
        }
        return;
    }
    sort_by_expiry(candidates, snap_map);
}

proof fn lemma_goes_before_is_strict(
    candidates: Seq<Candidate>,
    snaps: Map<Seq<char>, UsageSnapshotRecord>,
    x: int,
    y: int,
)
    requires
        goes_before(candidates, snaps, x, y),
    ensures
        !goes_before(candidates, snaps, y, x),
{
    lemma_expiry_sign_flips(
        candidate_rank(snaps, candidates[x]),
        candidate_rank(snaps, candidates[y]),
    );
}

/// Every place of the candidates before is the place of one of them after.
proof fn lemma_every_place_taken(
    before: Seq<Candidate>,
    after: Seq<Candidate>,
    snaps: Map<Seq<char>, UsageSnapshotRecord>,
    places: Seq<int>,
)
    requires
        stably_placed(before, after, snaps, places),
    ensures
        places.to_set() == vstd::set_lib::set_int_range(0, before.len() as int),
{
    let all = vstd::set_lib::set_int_range(0, before.len() as int);
    assert forall|i: int, j: int| 0 <= i < j < places.len() implies places[i] != places[j] by {
        assert(goes_before(before, snaps, places[i], places[j]));
        lemma_goes_before_is_strict(before, snaps, places[i], places[j]);
    }
    assert(places.no_duplicates());
    places.unique_seq_to_set();
    vstd::seq_lib::seq_to_set_is_finite(places);
    vstd::set_lib::lemma_int_range(0, before.len() as int);
    assert forall|x: int| places.to_set().contains(x) implies all.contains(x) by {
        let i = choose|i: int| 0 <= i < places.len() && places[i] == x;
        assert(0 <= places[i] < before.len());
    }
    vstd::set_lib::lemma_subset_equality(places.to_set(), all);
}

proof fn lemma_same_places(
    candidates: Seq<Candidate>,
    snaps: Map<Seq<char>, UsageSnapshotRecord>,
    p: Seq<int>,
    q: Seq<int>,
)
    requires
        p.to_set() == q.to_set(),
        forall|i: int, j: int|
            0 <= i < j < p.len() ==> goes_before(
                candidates,
                snaps,
                #[trigger] p[i],
                #[trigger] p[j],
            ),
        forall|i: int, j: int|
            0 <= i < j < q.len() ==> goes_before(
                candidates,
                snaps,
                #[trigger] q[i],
                #[trigger] q[j],
            ),
    ensures
        p == q,
    decreases p.len(),
{
    if p.len() == 0 {
        if q.len() > 0 {
            assert(q.to_set().contains(q[0]));
        }
        assert(p =~= q);
    } else {
        assert(p.to_set().contains(p.last()));
        assert(q.contains(p.last()));
        let j = choose|j: int| 0 <= j < q.len() && q[j] == p.last();
        assert(q.to_set().contains(q.last()));
        assert(p.contains(q.last()));
        let i = choose|i: int| 0 <= i < p.len() && p[i] == q.last();
        if p.last() != q.last() {
            assert(goes_before(candidates, snaps, p[i], p[p.len() - 1]));
            assert(goes_before(candidates, snaps, q[j], q[q.len() - 1]));
            lemma_goes_before_is_strict(candidates, snaps, p.last(), q.last());
        }
        lemma_places_without_last(candidates, snaps, p);
        lemma_places_without_last(candidates, snaps, q);
        lemma_same_places(candidates, snaps, p.drop_last(), q.drop_last());
        assert(p =~= p.drop_last().push(p.last()));
        assert(q =~= q.drop_last().push(q.last()));
    }
}

proof fn lemma_places_without_last(
    candidates: Seq<Candidate>,
    snaps: Map<Seq<char>, UsageSnapshotRecord>,
    p: Seq<int>,
)
    requires
        p.len() > 0,
        forall|i: int, j: int|
            0 <= i < j < p.len() ==> goes_before(
                candidates,
                snaps,
                #[trigger] p[i],
                #[trigger] p[j],
            ),
    ensures
        p.drop_last().to_set() == p.to_set().remove(p.last()),
{
    let rest = p.drop_last();
    assert forall|x: int| rest.to_set().contains(x) == p.to_set().remove(p.last()).contains(x) by {
        if rest.to_set().contains(x) {
            let i = choose|i: int| 0 <= i < rest.len() && rest[i] == x;
            assert(p[i] == x);
            assert(goes_before(candidates, snaps, p[i], p[p.len() - 1]));
            lemma_goes_before_is_strict(candidates, snaps, p[i], p.last());
            assert(p.to_set().contains(x));
        }
        if p.to_set().remove(p.last()).contains(x) {
            let i = choose|i: int| 0 <= i < p.len() && p[i] == x;
            assert(rest[i] == x);
        }
    }
    assert(rest.to_set() =~= p.to_set().remove(p.last()));
}

/// There is one way to bring candidates into the order of their limits.
pub proof fn lemma_order_by_expiry_is_unique(
    before: Seq<Candidate>,
    a: Seq<Candidate>,
    b: Seq<Candidate>,
    snaps: Map<Seq<char>, UsageSnapshotRecord>,
)
    requires
        ordered_by_expiry(before, a, snaps),
        ordered_by_expiry(before, b, snaps),
    ensures
        a == b,
{
    let p = choose|places: Seq<int>| #[trigger] stably_placed(before, a, snaps, places);
    let q = choose|places: Seq<int>| #[trigger] stably_placed(before, b, snaps, places);
    lemma_every_place_taken(before, a, snaps, p);
    lemma_every_place_taken(before, b, snaps, q);
    lemma_same_places(before, snaps, p, q);
    assert forall|i: int| 0 <= i < a.len() implies a[i] == b[i] by {
        assert(a[i] == before[p[i]]);
        assert(b[i] == before[q[i]]);
    }
    assert(a =~= b);
}

/// Bringing candidates into the order of their limits loses none and adds none, and none stands
/// before one that it comes behind.
pub proof fn lemma_order_by_expiry_keeps(
    before: Seq<Candidate>,
    after: Seq<Candidate>,
    snaps: Map<Seq<char>, UsageSnapshotRecord>,
)
    requires
        ordered_by_expiry(before, after, snaps),
    ensures
        after.len() == before.len(),
        forall|candidate: Candidate| before.contains(candidate) <==> after.contains(candidate),
        forall|i: int, j: int|
            0 <= i < j < after.len() ==> expiry_sign(
                candidate_rank(snaps, #[trigger] after[i]),
                candidate_rank(snaps, #[trigger] after[j]),
            ) <= 0,
{
    let places = choose|places: Seq<int>| #[trigger] stably_placed(before, after, snaps, places);
    lemma_every_place_taken(before, after, snaps, places);
    assert forall|candidate: Candidate| before.contains(candidate) implies after.contains(
        candidate,
    ) by {
        let x = choose|x: int| 0 <= x < before.len() && before[x] == candidate;
        assert(places.to_set().contains(x));
        let i = choose|i: int| 0 <= i < places.len() && places[i] == x;
        assert(after[i] == candidate);
    }
    assert forall|candidate: Candidate| after.contains(candidate) implies before.contains(
        candidate,
    ) by {
        let i = choose|i: int| 0 <= i < after.len() && after[i] == candidate;
        assert(before[places[i]] == candidate);
    }
    assert forall|i: int, j: int| 0 <= i < j < after.len() implies expiry_sign(
        candidate_rank(snaps, #[trigger] after[i]),
        candidate_rank(snaps, #[trigger] after[j]),
    ) <= 0 by {
        assert(goes_before(before, snaps, places[i], places[j]));
    }
}

/// Of two candidates with a weekly limit the one whose limit resets sooner comes first, and both come
/// before one without such a limit.
pub proof fn lemma_sooner_reset_first(a: Rank, b: Rank)
    requires
        a.priority is Some,
        b.priority matches Some(right) ==> a.priority->0.resets_at < right.resets_at,
    ensures
        expiry_sign(a, b) < 0,
{
}

} // verus!
