//! Walking a sequence with a step that may fail: the first failure ends the walk.

use vstd::prelude::*;

verus! {

/// What a step that may fail comes to; a failure is a message.
pub type Outcome<T> = Result<T, Seq<char>>;

/// The state after `step` has taken the items in turn from `init` on, or the first failure.
/// The step is told the place of the item it takes.
pub open spec fn try_fold<A, S>(
    items: Seq<A>,
    init: S,
    step: spec_fn(S, int, A) -> Outcome<S>,
) -> Outcome<S>
    decreases items.len(),
{
    if items.len() == 0 {
        Ok(init)
    } else {
        match try_fold(items.drop_last(), init, step) {
            Ok(state) => step(state, items.len() - 1, items.last()),
            Err(e) => Err(e),
        }
    }
}

/// What `part` gives for each item, one after the other, or the first failure.
/// The function is told the place of the item it takes.
pub open spec fn gather<A, B>(
    items: Seq<A>,
    part: spec_fn(int, A) -> Outcome<Seq<B>>,
) -> Outcome<Seq<B>>
    decreases items.len(),
{
    if items.len() == 0 {
        Ok(Seq::empty())
    } else {
        match gather(items.drop_last(), part) {
            Ok(before) => match part(items.len() - 1, items.last()) {
                Ok(more) => Ok(before + more),
                Err(e) => Err(e),
            },
            Err(e) => Err(e),
        }
    }
}

/// The state that the steps have come to before the first failure.
pub open spec fn reached<A, S>(
    items: Seq<A>,
    init: S,
    step: spec_fn(S, int, A) -> Outcome<S>,
) -> S
    decreases items.len(),
{
    if items.len() == 0 {
        init
    } else {
        match try_fold(items.drop_last(), init, step) {
            Ok(state) => match step(state, items.len() - 1, items.last()) {
                Ok(next) => next,
                Err(_) => state,
            },
            Err(_) => reached(items.drop_last(), init, step),
        }
    }
}

/// What `part` has given before the first failure.
pub open spec fn gathered<A, B>(
    items: Seq<A>,
    part: spec_fn(int, A) -> Outcome<Seq<B>>,
) -> Seq<B>
    decreases items.len(),
{
    if items.len() == 0 {
        Seq::empty()
    } else {
        match gather(items.drop_last(), part) {
            Ok(before) => match part(items.len() - 1, items.last()) {
                Ok(more) => before + more,
                Err(_) => before,
            },
            Err(_) => gathered(items.drop_last(), part),
        }
    }
}

/// Steps that fail at item `i` come no further than that.
pub proof fn lemma_reached_at<A, S>(
    items: Seq<A>,
    init: S,
    step: spec_fn(S, int, A) -> Outcome<S>,
    i: int,
    n: int,
)
    requires
        0 <= i < n <= items.len(),
        try_fold(items.take(i), init, step) is Ok,
        step(try_fold(items.take(i), init, step)->Ok_0, i, items[i]) is Err,
    ensures
        reached(items.take(n), init, step) == try_fold(items.take(i), init, step)->Ok_0,
    decreases n - i,
{
    assert(items.take(n).drop_last() =~= items.take(n - 1));
    if n > i + 1 {
        lemma_reached_at(items, init, step, i, n - 1);
        lemma_try_fold_step(items, init, step, i);
        assert(items.take(n - 1).take(i + 1) =~= items.take(i + 1));
        lemma_try_fold_stops(items.take(n - 1), init, step, i + 1);
    }
}

/// What is gathered up to a failure at item `i` is what the items before it gave.
pub proof fn lemma_gathered_at<A, B>(
    items: Seq<A>,
    part: spec_fn(int, A) -> Outcome<Seq<B>>,
    i: int,
    n: int,
)
    requires
        0 <= i < n <= items.len(),
        gather(items.take(i), part) is Ok,
        part(i, items[i]) is Err,
    ensures
        gathered(items.take(n), part) == gather(items.take(i), part)->Ok_0,
    decreases n - i,
{
    assert(items.take(n).drop_last() =~= items.take(n - 1));
    if n > i + 1 {
        lemma_gathered_at(items, part, i, n - 1);
        lemma_gather_step(items, part, i);
        assert(items.take(n - 1).take(i + 1) =~= items.take(i + 1));
        lemma_gather_stops(items.take(n - 1), part, i + 1);
    }
}

/// One more item takes one more step.
pub proof fn lemma_try_fold_step<A, S>(
    items: Seq<A>,
    init: S,
    step: spec_fn(S, int, A) -> Outcome<S>,
    i: int,
)
    requires
        0 <= i < items.len(),
    ensures
        try_fold(items.take(i + 1), init, step) == (match try_fold(items.take(i), init, step) {
            Ok(state) => step(state, i, items[i]),
            Err(e) => Err(e),
        }),
{
    assert(items.take(i + 1).drop_last() =~= items.take(i));
}

/// A failure on the first items is the failure on all of them.
pub proof fn lemma_try_fold_stops<A, S>(
    items: Seq<A>,
    init: S,
    step: spec_fn(S, int, A) -> Outcome<S>,
    i: int,
)
    requires
        0 <= i <= items.len(),
        try_fold(items.take(i), init, step) is Err,
    ensures
        try_fold(items, init, step) == try_fold(items.take(i), init, step),
    decreases items.len() - i,
{
    if i == items.len() {
        assert(items.take(i) =~= items);
    } else {
        lemma_try_fold_step(items, init, step, i);
        lemma_try_fold_stops(items, init, step, i + 1);
    }
}

/// One more item adds what it gives.
pub proof fn lemma_gather_step<A, B>(
    items: Seq<A>,
    part: spec_fn(int, A) -> Outcome<Seq<B>>,
    i: int,
)
    requires
        0 <= i < items.len(),
    ensures
        gather(items.take(i + 1), part) == (match gather(items.take(i), part) {
            Ok(before) => match part(i, items[i]) {
                Ok(more) => Ok(before + more),
                Err(e) => Err(e),
            },
            Err(e) => Err(e),
        }),
{
    assert(items.take(i + 1).drop_last() =~= items.take(i));
}

/// A failure on the first items is the failure on all of them.
pub proof fn lemma_gather_stops<A, B>(
    items: Seq<A>,
    part: spec_fn(int, A) -> Outcome<Seq<B>>,
    i: int,
)
    requires
        0 <= i <= items.len(),
        gather(items.take(i), part) is Err,
    ensures
        gather(items, part) == gather(items.take(i), part),
    decreases items.len() - i,
{
    if i == items.len() {
        assert(items.take(i) =~= items);
    } else {
        lemma_gather_step(items, part, i);
        lemma_gather_stops(items, part, i + 1);
    }
}

/// Both steps at once, for a loop that stands at item `i`.
pub proof fn lemma_gather_at<A, B>(
    items: Seq<A>,
    part: spec_fn(int, A) -> Outcome<Seq<B>>,
    i: int,
)
    requires
        0 <= i < items.len(),
        gather(items.take(i), part) is Ok,
    ensures
        part(i, items[i]) matches Ok(more) ==> gather(items.take(i + 1), part) == Outcome::Ok(
            gather(items.take(i), part)->Ok_0 + more,
        ),
        part(i, items[i]) matches Err(e) ==> gather(items, part) == Outcome::<Seq<B>>::Err(e),
{
    lemma_gather_step(items, part, i);
    if part(i, items[i]) is Err {
        lemma_gather_stops(items, part, i + 1);
    }
}

/// Both steps at once, for a loop that stands at item `i`.
pub proof fn lemma_try_fold_at<A, S>(
    items: Seq<A>,
    init: S,
    step: spec_fn(S, int, A) -> Outcome<S>,
    i: int,
)
    requires
        0 <= i < items.len(),
        try_fold(items.take(i), init, step) is Ok,
    ensures
        try_fold(items.take(i + 1), init, step) == step(
            try_fold(items.take(i), init, step)->Ok_0,
            i,
            items[i],
        ),
        step(try_fold(items.take(i), init, step)->Ok_0, i, items[i]) matches Err(e)
            ==> try_fold(items, init, step) == Outcome::<S>::Err(e),
{
    lemma_try_fold_step(items, init, step, i);
    if step(try_fold(items.take(i), init, step)->Ok_0, i, items[i]) is Err {
        lemma_try_fold_stops(items, init, step, i + 1);
    }
}

/// Parts of one item each come to as many items, in the order of what they came from.
pub proof fn lemma_gather_ones<A, B>(
    items: Seq<A>,
    part: spec_fn(int, A) -> Outcome<Seq<B>>,
    each: spec_fn(int) -> B,
)
    requires
        forall|i: int|
            0 <= i < items.len() ==> part(i, #[trigger] items[i]) == Outcome::<Seq<B>>::Ok(
                seq![each(i)],
            ),
    ensures
        gather(items, part) == Outcome::<Seq<B>>::Ok(Seq::new(items.len(), each)),
    decreases items.len(),
{
    if items.len() == 0 {
        assert(Seq::new(items.len(), each) =~= Seq::<B>::empty());
    } else {
        let rest = items.drop_last();
        assert forall|i: int| 0 <= i < rest.len() implies part(i, #[trigger] rest[i])
            == Outcome::<Seq<B>>::Ok(seq![each(i)]) by {
            assert(rest[i] == items[i]);
        }
        lemma_gather_ones(rest, part, each);
        assert(items.last() == items[items.len() - 1]);
        assert(Seq::new(rest.len(), each) + seq![each(items.len() - 1)] =~= Seq::new(
            items.len(),
            each,
        ));
    }
}

/// Parts come to what each of them comes to, one behind the other.
pub proof fn lemma_gather_flat<A, B>(
    items: Seq<A>,
    part: spec_fn(int, A) -> Outcome<Seq<B>>,
    each: spec_fn(int) -> Seq<B>,
)
    requires
        forall|i: int|
            0 <= i < items.len() ==> part(i, #[trigger] items[i]) == Outcome::<Seq<B>>::Ok(each(i)),
    ensures
        gather(items, part) == Outcome::<Seq<B>>::Ok(Seq::new(items.len(), each).flatten()),
    decreases items.len(),
{
    if items.len() > 0 {
        let rest = items.drop_last();
        assert forall|i: int| 0 <= i < rest.len() implies part(i, #[trigger] rest[i])
            == Outcome::<Seq<B>>::Ok(each(i)) by {
            assert(rest[i] == items[i]);
        }
        lemma_gather_flat(rest, part, each);
        assert(items.last() == items[items.len() - 1]);
        let before = Seq::new(rest.len(), each);
        before.lemma_flatten_push(each(items.len() - 1));
        assert(before.push(each(items.len() - 1)) =~= Seq::new(items.len(), each));
    }
}

/// The parts come together exactly if none of them is refused.
pub proof fn lemma_gather_ok<A, B>(items: Seq<A>, part: spec_fn(int, A) -> Outcome<Seq<B>>)
    ensures
        gather(items, part) is Ok <==> forall|i: int|
            0 <= i < items.len() ==> part(i, #[trigger] items[i]) is Ok,
    decreases items.len(),
{
    if items.len() > 0 {
        let rest = items.drop_last();
        lemma_gather_ok(rest, part);
        assert(items.last() == items[items.len() - 1]);
        if gather(items, part) is Ok {
            assert forall|i: int| 0 <= i < items.len() implies part(i, #[trigger] items[i]) is Ok by {
                if i < rest.len() {
                    assert(rest[i] == items[i]);
                }
            }
        } else if gather(rest, part) is Err {
            let i = choose|i: int| 0 <= i < rest.len() && part(i, #[trigger] rest[i]) is Err;
            assert(rest[i] == items[i]);
        }
    }
}

/// What comes through to the end has come through each part of the way.
pub proof fn lemma_try_fold_prefix<A, S>(
    items: Seq<A>,
    init: S,
    step: spec_fn(S, int, A) -> Outcome<S>,
    n: int,
)
    requires
        0 <= n <= items.len(),
        try_fold(items, init, step) is Ok,
    ensures
        try_fold(items.take(n), init, step) is Ok,
    decreases items.len(),
{
    if n == items.len() {
        assert(items.take(n) =~= items);
    } else {
        lemma_try_fold_prefix(items.drop_last(), init, step, n);
        assert(items.drop_last().take(n) =~= items.take(n));
    }
}

/// What has been gathered when a part is refused is what the parts before it come to.
pub proof fn lemma_gathered_until<A, B>(
    items: Seq<A>,
    part: spec_fn(int, A) -> Outcome<Seq<B>>,
    k: int,
)
    requires
        0 <= k <= items.len(),
        gather(items.take(k), part) is Ok,
        k < items.len() ==> part(k, items[k]) is Err,
    ensures
        gathered(items, part) == gather(items.take(k), part)->Ok_0,
        k < items.len() ==> gather(items, part) is Err,
    decreases items.len(),
{
    if k == items.len() {
        assert(items.take(k) =~= items);
    } else {
        let rest = items.drop_last();
        assert(rest.take(k) =~= items.take(k));
        if k == rest.len() {
            assert(items.take(k) =~= rest);
        } else {
            lemma_gathered_until(rest, part, k);
        }
    }
}

/// How far a walk has come when a step is refused is how far the steps before it have come.
pub proof fn lemma_reached_until<A, S>(
    items: Seq<A>,
    init: S,
    step: spec_fn(S, int, A) -> Outcome<S>,
    k: int,
)
    requires
        0 <= k <= items.len(),
        try_fold(items.take(k), init, step) is Ok,
        k < items.len() ==> step(try_fold(items.take(k), init, step)->Ok_0, k, items[k]) is Err,
    ensures
        reached(items, init, step) == try_fold(items.take(k), init, step)->Ok_0,
        k < items.len() ==> try_fold(items, init, step) is Err,
    decreases items.len(),
{
    if k == items.len() {
        assert(items.take(k) =~= items);
    } else {
        let rest = items.drop_last();
        assert(rest.take(k) =~= items.take(k));
        if k == rest.len() {
            assert(items.take(k) =~= rest);
        } else {
            lemma_reached_until(rest, init, step, k);
        }
    }
}

} // verus!
