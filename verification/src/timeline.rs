//! The merged, epoch-ordered timeline and its laws.
use vstd::prelude::*;
use crate::activity::{ActivityView, UserActivity};
use crate::sources::ActivitySource;

verus! {

/// The sort rank of an activity: its epoch when timestamped; untimestamped events
/// rank after every timestamped one (including one stamped `i64::MAX`).
pub open spec fn rank(a: ActivityView) -> int {
    match a.timestamp {
        Some(t) => t as int,
        None => i64::MAX as int + 1,
    }
}

/// Where a stable insertion sort puts `x` into `t`: right after the last element,
/// counting from the end, whose rank does not exceed that of `x`.
pub open spec fn insertion_point(t: Seq<ActivityView>, x: ActivityView) -> int
    decreases t.len(),
{
    if t.len() == 0 {
        0
    } else if rank(t.last()) <= rank(x) {
        t.len() as int
    } else {
        insertion_point(t.drop_last(), x)
    }
}

/// The timeline order of `s`: a stable sort by [`rank`], so timestamped events come
/// first in ascending epoch order and untimestamped ones follow, each group keeping
/// its input order among equal ranks.
pub open spec fn timeline_order(s: Seq<ActivityView>) -> Seq<ActivityView>
    decreases s.len(),
{
    if s.len() == 0 {
        s
    } else {
        let t = timeline_order(s.drop_last());
        t.insert(insertion_point(t, s.last()), s.last())
    }
}

/// Every source's activities, concatenated in source order.
pub open spec fn gathered(sources: Seq<&dyn ActivitySource>) -> Seq<ActivityView>
    decreases sources.len(),
{
    if sources.len() == 0 {
        Seq::empty()
    } else {
        gathered(sources.drop_last()) + sources.last().contributed()
    }
}

/// Ranks never decrease along `s`.
pub open spec fn rank_sorted(s: Seq<ActivityView>) -> bool {
    forall|i: int, j: int| 0 <= i < j < s.len() ==> rank(#[trigger] s[i]) <= rank(#[trigger] s[j])
}

/// The predicate "has rank `k`".
pub open spec fn rank_is(k: int) -> spec_fn(ActivityView) -> bool {
    |a: ActivityView| rank(a) == k
}

/// The events of `s` whose rank is `k`, in order.
pub open spec fn with_rank(s: Seq<ActivityView>, k: int) -> Seq<ActivityView> {
    s.filter(rank_is(k))
}

/// Whether `a` ranks strictly after `b`.
fn ranks_after(a: &UserActivity, b: &UserActivity) -> (r: bool)
    ensures
        r == (rank(a@) > rank(b@)),
{
    match (a.timestamp, b.timestamp) {
        (Some(x), Some(y)) => x > y,
        (None, Some(_)) => true,
        (Some(_), None) => false,
        (None, None) => false,
    }
}

/// Merge any number of [`ActivitySource`]s into one timeline, sorted by timestamp.
///
/// Events with a timestamp come first in ascending epoch order; `None`-timestamp
/// events are kept and ordered stably at the end, preserving source/insertion order
/// among themselves.
pub fn build_timeline(sources: &[&dyn ActivitySource]) -> (r: Vec<UserActivity>)
    ensures
        r.deep_view() == timeline_order(gathered(sources@)),
{
    let mut pending: Vec<UserActivity> = Vec::new();
    let mut i: usize = 0;
    while i < sources.len()
        invariant
            i <= sources@.len(),
            pending.deep_view() == gathered(sources@.take(i as int)),
        decreases sources.len() - i,
    {
        let mut more = sources[i].activities();
        let ghost before = pending.deep_view();
        let ghost added = more.deep_view();
        pending.append(&mut more);
        proof {
            assert(pending.deep_view() =~= before + added);
            assert(sources@.take(i + 1).drop_last() =~= sources@.take(i as int));
        }
        i = i + 1;
    }
    proof {
        assert(sources@.take(sources@.len() as int) =~= sources@);
    }
    let ghost input = pending.deep_view();
    let total = pending.len();
    let mut out: Vec<UserActivity> = Vec::new();
    let mut k: usize = 0;
    while pending.len() > 0
        invariant
            k <= input.len() == total,
            pending.deep_view() == input.skip(k as int),
            out.deep_view() == timeline_order(input.take(k as int)),
        decreases pending.len(),
    {
        let ghost pend = pending.deep_view();
        let ghost raw = pending@;
        let x = pending.remove(0);
        proof {
            assert(pend.len() == input.len() - k);
            assert(pend[0] == input[k as int]);
            assert(pend[0] == raw[0].deep_view());
            assert(pending.deep_view() =~= pend.drop_first());
            assert(pending.deep_view() =~= input.skip(k + 1));
            assert(x.deep_view() == input[k as int]);
        }
        let ghost t = out.deep_view();
        let mut p: usize = out.len();
        proof {
            assert(t.take(p as int) =~= t);
        }
        while p > 0 && ranks_after(&out[p - 1], &x)
            invariant
                p <= out@.len(),
                t == out.deep_view(),
                insertion_point(t, x.deep_view()) == insertion_point(t.take(p as int), x.deep_view()),
            decreases p,
        {
            proof {
                assert(t.take(p as int).drop_last() =~= t.take(p - 1));
            }
            p = p - 1;
        }
        proof {
            assert(t.take(0) =~= Seq::<ActivityView>::empty());
            assert(insertion_point(t, x.deep_view()) == p);
            assert(input.take(k + 1).drop_last() =~= input.take(k as int));
        }
        out.insert(p, x);
        proof {
            assert(out.deep_view() =~= t.insert(p as int, x.deep_view()));
        }
        k = k + 1;
    }
    proof {
        assert(input.take(input.len() as int) =~= input);
    }
    out
}

proof fn lemma_insertion_point(t: Seq<ActivityView>, x: ActivityView)
    ensures
        0 <= insertion_point(t, x) <= t.len(),
        forall|j: int|
            insertion_point(t, x) <= j < t.len() ==> rank(x) < rank(#[trigger] t[j]),
        insertion_point(t, x) > 0 ==> rank(t[insertion_point(t, x) - 1]) <= rank(x),
    decreases t.len(),
{
    if t.len() > 0 && rank(t.last()) > rank(x) {
        lemma_insertion_point(t.drop_last(), x);
        let p = insertion_point(t, x);
        assert forall|j: int| p <= j < t.len() implies rank(x) < rank(#[trigger] t[j]) by {
            if j < t.len() - 1 {
                assert(t[j] == t.drop_last()[j]);
            }
        }
        if p > 0 {
            assert(t[p - 1] == t.drop_last()[p - 1]);
        }
    }
}

/// The timeline is ordered: ranks never decrease along it, so timestamped events
/// come first in ascending epoch order and every untimestamped event comes after
/// all timestamped ones.
pub proof fn timeline_is_sorted(s: Seq<ActivityView>)
    ensures
        rank_sorted(timeline_order(s)),
        forall|i: int, j: int|
            0 <= i < j < s.len() && (#[trigger] timeline_order(s)[i]).timestamp is None
                ==> (#[trigger] timeline_order(s)[j]).timestamp is None,
    decreases s.len(),
{
    lemma_timeline_len(s);
    if s.len() > 0 {
        let t = timeline_order(s.drop_last());
        let x = s.last();
        timeline_is_sorted(s.drop_last());
        lemma_insertion_point(t, x);
        let p = insertion_point(t, x);
        let u = t.insert(p, x);
        t.insert_ensures(p, x);
        assert forall|i: int, j: int| 0 <= i < j < u.len() implies rank(#[trigger] u[i]) <= rank(
            #[trigger] u[j],
        ) by {
            if j < p {
            } else if j == p {
                if i < p - 1 {
                    assert(rank(t[i]) <= rank(t[p - 1]));
                }
            } else if i < p {
                if i < p - 1 {
                    assert(rank(t[i]) <= rank(t[p - 1]));
                }
                assert(u[j] == t[j - 1]);
            } else if i == p {
                assert(u[j] == t[j - 1]);
            } else {
                assert(u[i] == t[i - 1]);
                assert(u[j] == t[j - 1]);
            }
        }
    }
    let r = timeline_order(s);
    assert forall|i: int, j: int|
        0 <= i < j < s.len() && (#[trigger] r[i]).timestamp is None implies (
        #[trigger] r[j]).timestamp is None by {
        assert(rank(r[i]) <= rank(r[j]));
    }
}

proof fn lemma_timeline_len(s: Seq<ActivityView>)
    ensures
        timeline_order(s).len() == s.len(),
    decreases s.len(),
{
    if s.len() > 0 {
        lemma_timeline_len(s.drop_last());
        lemma_insertion_point(timeline_order(s.drop_last()), s.last());
    }
}

/// The timeline holds exactly the gathered events: nothing is dropped, duplicated
/// or invented.
pub proof fn timeline_is_permutation(s: Seq<ActivityView>)
    ensures
        timeline_order(s).to_multiset() == s.to_multiset(),
    decreases s.len(),
{
    broadcast use vstd::seq_lib::group_to_multiset_ensures;

    if s.len() > 0 {
        let t = timeline_order(s.drop_last());
        let x = s.last();
        timeline_is_permutation(s.drop_last());
        lemma_insertion_point(t, x);
        assert(s.drop_last().push(x) =~= s);
    } else {
        assert(timeline_order(s) =~= s);
    }
}

/// The timeline is stable: the events of any one rank (the same epoch, or all the
/// untimestamped ones) appear in the same relative order as in the input.
pub proof fn timeline_is_stable(s: Seq<ActivityView>, k: int)
    ensures
        with_rank(timeline_order(s), k) == with_rank(s, k),
    decreases s.len(),
{
    broadcast use vstd::seq_lib::group_seq_lib_default;

    if s.len() > 0 {
        let t = timeline_order(s.drop_last());
        let x = s.last();
        timeline_is_stable(s.drop_last(), k);
        timeline_is_sorted(s.drop_last());
        lemma_insertion_point(t, x);
        let p = insertion_point(t, x);
        let t0 = t.subrange(0, p);
        let t1 = t.subrange(p, t.len() as int);
        assert(t =~= t0 + t1);
        assert(t.insert(p, x) == t0.push(x) + t1);
        t0.lemma_filter_push(x, rank_is(k));
        s.drop_last().lemma_filter_push(x, rank_is(k));
        assert(s.drop_last().push(x) =~= s);
        if rank(x) == k {
            assert(t1.all(|a: ActivityView| !rank_is(k)(a))) by {
                assert forall|j: int| 0 <= j < t1.len() implies !rank_is(k)(#[trigger] t1[j]) by {
                    assert(t1[j] == t[p + j]);
                }
            }
            t1.lemma_all_neg_filter_empty(rank_is(k));
            assert(t1.filter(rank_is(k)) =~= Seq::<ActivityView>::empty());
        }
    } else {
        assert(timeline_order(s) =~= s);
    }
}

/// Untimestamped events keep their source/insertion order at the end of the
/// timeline.
pub proof fn timeline_keeps_untimestamped_order(s: Seq<ActivityView>)
    ensures
        timeline_order(s).filter(|a: ActivityView| a.timestamp is None) == s.filter(
            |a: ActivityView| a.timestamp is None,
        ),
{
    let k = i64::MAX as int + 1;
    timeline_is_stable(s, k);
    assert(rank_is(k) =~= (|a: ActivityView| a.timestamp is None));
}


/// Gathering is concatenation: the activities gathered from `a` followed by `b` are
/// those gathered from `a` followed by those gathered from `b`; no sources gather
/// nothing, and one source gathers exactly its own activities. No source, empty or
/// not, hides another.
pub proof fn gathered_is_concatenation(a: Seq<&dyn ActivitySource>, b: Seq<&dyn ActivitySource>)
    ensures
        gathered(a + b) == gathered(a) + gathered(b),
        gathered(a.subrange(0, 0)) == Seq::<ActivityView>::empty(),
        forall|i: int|
            0 <= i < a.len() ==> #[trigger] gathered(a.subrange(i, i + 1)) == a[i].contributed(),
    decreases b.len(),
{
    assert(a.subrange(0, 0).len() == 0);
    assert forall|i: int| 0 <= i < a.len() implies #[trigger] gathered(a.subrange(i, i + 1))
        == a[i].contributed() by {
        let one = a.subrange(i, i + 1);
        assert(one.len() == 1);
        assert(one.drop_last().len() == 0);
        assert(one.last() == a[i]);
        assert(gathered(one.drop_last()) =~= Seq::<ActivityView>::empty());
        assert(gathered(one) == gathered(one.drop_last()) + one.last().contributed());
        assert(Seq::<ActivityView>::empty() + a[i].contributed() =~= a[i].contributed());
    }
    if b.len() == 0 {
        assert(a + b =~= a);
        assert(gathered(a) + gathered(b) =~= gathered(a));
    } else {
        gathered_is_concatenation(a, b.drop_last());
        assert((a + b).drop_last() =~= a + b.drop_last());
        assert((a + b).last() == b.last());
        assert(gathered(a) + gathered(b) =~= gathered(a) + gathered(b.drop_last())
            + b.last().contributed());
    }
}

/// Every activity of every source is gathered: the `j`-th activity of source `i`
/// sits in the gathered sequence right after everything the earlier sources and
/// its own earlier activities contributed.
pub proof fn gathered_holds_every_contribution(sources: Seq<&dyn ActivitySource>, i: int, j: int)
    requires
        0 <= i < sources.len(),
        0 <= j < sources[i].contributed().len(),
    ensures
        gathered(sources)[gathered(sources.take(i)).len() + j] == sources[i].contributed()[j],
        gathered(sources).len() == gathered(sources.take(i)).len() + sources[i].contributed().len()
            + gathered(sources.skip(i + 1)).len(),
{
    let pre = sources.take(i);
    let rest = sources.skip(i + 1);
    let mid = sources.subrange(i, i + 1);
    let whole = pre + mid + rest;
    assert(whole.len() == sources.len());
    assert forall|k: int| 0 <= k < sources.len() implies #[trigger] whole[k] == sources[k] by {
        if k < i {
        } else if k == i {
        } else {
            assert(whole[k] == rest[k - i - 1]);
        }
    }
    assert(sources =~= whole);
    gathered_is_concatenation(pre + mid, rest);
    gathered_is_concatenation(pre, mid);
    gathered_is_concatenation(sources, rest);
    assert(gathered(sources.subrange(i, i + 1)) == sources[i].contributed());
}

/// The timeline holds every activity of every source (with its multiplicity).
pub proof fn timeline_holds_every_contribution(
    sources: Seq<&dyn ActivitySource>,
    i: int,
    j: int,
)
    requires
        0 <= i < sources.len(),
        0 <= j < sources[i].contributed().len(),
    ensures
        timeline_order(gathered(sources)).contains(sources[i].contributed()[j]),
{
    broadcast use vstd::seq_lib::group_to_multiset_ensures;

    gathered_holds_every_contribution(sources, i, j);
    timeline_is_permutation(gathered(sources));
    let g = gathered(sources);
    let x = sources[i].contributed()[j];
    assert(g.contains(x));
    assert(g.to_multiset().count(x) > 0);
    assert(timeline_order(g).to_multiset().count(x) > 0);
}

/// Timestamped activities are in non-decreasing epoch order and precede every
/// untimestamped one; activities with equal timestamps keep their gathered order.
pub proof fn timeline_orders_by_epoch(s: Seq<ActivityView>, t: i64)
    ensures
        forall|i: int, j: int|
            0 <= i < j < timeline_order(s).len() && (#[trigger] timeline_order(s)[j]).timestamp is Some
                ==> (#[trigger] timeline_order(s)[i]).timestamp is Some
                && timeline_order(s)[i].timestamp->0 <= timeline_order(s)[j].timestamp->0,
        timeline_order(s).filter(|a: ActivityView| a.timestamp == Some(t)) == s.filter(
            |a: ActivityView| a.timestamp == Some(t),
        ),
        timeline_order(s).len() == s.len(),
{
    timeline_is_sorted(s);
    lemma_timeline_len(s);
    timeline_is_stable(s, t as int);
    assert(rank_is(t as int) =~= (|a: ActivityView| a.timestamp == Some(t)));
    let r = timeline_order(s);
    assert forall|i: int, j: int|
        0 <= i < j < r.len() && (#[trigger] r[j]).timestamp is Some implies (
        #[trigger] r[i]).timestamp is Some && r[i].timestamp->0 <= r[j].timestamp->0 by {
        assert(rank(r[i]) <= rank(r[j]));
    }
}

} // verus!
