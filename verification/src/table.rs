//! Reference semantics of the two queries over an in-memory model of the
//! append-only event table: which rows a filter matches, the order of the
//! page (time descending), and how the page is cut out of the matching rows.

use vstd::prelude::*;
use vstd::seq_lib::lemma_multiset_commutative;
use crate::plan::FilterKind;
use crate::plan::opt_view;
use crate::record::UndelegationEvent;
use crate::time::epoch_seconds;

verus! {

/// Whether a stored event matches the filter: no bound value matches every
/// row; a bound value must equal the filtered column exactly. (The
/// case-insensitivity of the delegator lookup comes from lowercasing the
/// value before it is bound, not from the match itself.)
pub open spec fn event_matches(
    kind: FilterKind,
    bind: Option<Seq<char>>,
    e: UndelegationEvent,
) -> bool {
    match bind {
        None => true,
        Some(v) => match kind {
            FilterKind::ByDelegator => e.delegator@ == v,
            FilterKind::ByValidator => e.validator@ == v,
        },
    }
}

/// The rows of the table that the filter matches, in storage order.
pub open spec fn matching(
    t: Seq<UndelegationEvent>,
    kind: FilterKind,
    bind: Option<Seq<char>>,
) -> Seq<UndelegationEvent> {
    t.filter(|e: UndelegationEvent| event_matches(kind, bind, e))
}

/// With no bound value, every row matches: the matching rows are the table.
pub proof fn lemma_unfiltered_matches_all(t: Seq<UndelegationEvent>, kind: FilterKind)
    ensures
        matching(t, kind, None) == t,
    decreases t.len(),
{
    reveal(Seq::filter);
    if t.len() > 0 {
        lemma_unfiltered_matches_all(t.drop_last(), kind);
        assert(t.drop_last().push(t.last()) =~= t);
    }
}

/// Descending order by event time: no later entry has a greater timestamp.
pub open spec fn sorted_desc(s: Seq<UndelegationEvent>) -> bool {
    forall|i: int, j: int|
        0 <= i <= j < s.len() ==> #[trigger] s[i].tm_key() >= #[trigger] s[j].tm_key()
}

/// Where a row with sort key `key` goes in `s`: after every entry whose key
/// is at least `key`, so that equal keys keep their arrival order.
pub open spec fn insert_pos(s: Seq<UndelegationEvent>, key: int) -> int
    decreases s.len(),
{
    if s.len() == 0 {
        0
    } else if s[0].tm_key() >= key {
        1 + insert_pos(s.drop_first(), key)
    } else {
        0
    }
}

/// `s` with `e` inserted at its position.
pub open spec fn insert_desc(s: Seq<UndelegationEvent>, e: UndelegationEvent) -> Seq<
    UndelegationEvent,
> {
    s.insert(insert_pos(s, e.tm_key()), e)
}

/// The table's rows sorted by time descending; rows with equal timestamps
/// keep their storage order.
pub open spec fn sort_desc(s: Seq<UndelegationEvent>) -> Seq<UndelegationEvent>
    decreases s.len(),
{
    if s.len() == 0 {
        Seq::empty()
    } else {
        insert_desc(sort_desc(s.drop_last()), s.last())
    }
}

proof fn lemma_insert_pos_bounds(s: Seq<UndelegationEvent>, key: int)
    ensures
        0 <= insert_pos(s, key) <= s.len(),
    decreases s.len(),
{
    if s.len() > 0 && s[0].tm_key() >= key {
        lemma_insert_pos_bounds(s.drop_first(), key);
    }
}

proof fn lemma_insert_pos_char(s: Seq<UndelegationEvent>, key: int)
    ensures
        forall|m: int| 0 <= m < insert_pos(s, key) ==> #[trigger] s[m].tm_key() >= key,
        insert_pos(s, key) < s.len() ==> s[insert_pos(s, key)].tm_key() < key,
    decreases s.len(),
{
    lemma_insert_pos_bounds(s, key);
    if s.len() > 0 && s[0].tm_key() >= key {
        let ss = s.drop_first();
        let p = insert_pos(s, key);
        lemma_insert_pos_bounds(ss, key);
        lemma_insert_pos_char(ss, key);
        assert(p == 1 + insert_pos(ss, key));
        assert forall|m: int| 0 <= m < p implies #[trigger] s[m].tm_key() >= key by {
            if m > 0 {
                assert(ss[m - 1] == s[m]);
            }
        }
        if p < s.len() {
            assert(ss[p - 1] == s[p]);
            assert(ss[p - 1].tm_key() < key);
        }
    }
}

proof fn lemma_insert_pos_unique(s: Seq<UndelegationEvent>, key: int, j: int)
    requires
        0 <= j <= s.len(),
        forall|m: int| 0 <= m < j ==> #[trigger] s[m].tm_key() >= key,
        j < s.len() ==> s[j].tm_key() < key,
    ensures
        insert_pos(s, key) == j,
    decreases s.len(),
{
    if s.len() > 0 && s[0].tm_key() >= key {
        assert(j > 0);
        lemma_insert_pos_unique(s.drop_first(), key, j - 1);
    }
}

proof fn lemma_insert_desc_sorted(s: Seq<UndelegationEvent>, e: UndelegationEvent)
    requires
        sorted_desc(s),
    ensures
        sorted_desc(insert_desc(s, e)),
{
    let key = e.tm_key();
    let p = insert_pos(s, key);
    lemma_insert_pos_bounds(s, key);
    lemma_insert_pos_char(s, key);
    s.insert_ensures(p, e);
    let r = insert_desc(s, e);
    assert forall|i: int, j: int|
        0 <= i <= j < r.len() implies #[trigger] r[i].tm_key() >= #[trigger] r[j].tm_key() by {
        if i < p {
            assert(r[i] == s[i]);
        }
        if p < i {
            assert(r[i] == s[i - 1]);
        }
        if j < p {
            assert(r[j] == s[j]);
        }
        if p < j {
            assert(r[j] == s[j - 1]);
        }
        if i == p {
            assert(r[i] == e);
        }
        if j == p {
            assert(r[j] == e);
        }
    }
}

proof fn lemma_insert_desc_multiset(s: Seq<UndelegationEvent>, e: UndelegationEvent)
    ensures
        insert_desc(s, e).to_multiset() == s.to_multiset().insert(e),
        insert_desc(s, e).len() == s.len() + 1,
{
    broadcast use vstd::seq_lib::group_to_multiset_ensures;

    let key = e.tm_key();
    let p = insert_pos(s, key);
    lemma_insert_pos_bounds(s, key);
    s.insert_ensures(p, e);
    let front = s.subrange(0, p);
    let back = s.subrange(p, s.len() as int);
    assert(insert_desc(s, e) == front.push(e) + back);
    lemma_multiset_commutative(front.push(e), back);
    assert(s =~= front + back);
    lemma_multiset_commutative(front, back);
    assert(insert_desc(s, e).to_multiset() =~= s.to_multiset().insert(e));
}

/// Sorting keeps exactly the rows it was given: the result is a descending
/// permutation of the input.
pub proof fn lemma_sort_desc_ensures(s: Seq<UndelegationEvent>)
    ensures
        sorted_desc(sort_desc(s)),
        sort_desc(s).to_multiset() == s.to_multiset(),
        sort_desc(s).len() == s.len(),
    decreases s.len(),
{
    broadcast use vstd::seq_lib::group_to_multiset_ensures;

    if s.len() > 0 {
        let rest = s.drop_last();
        lemma_sort_desc_ensures(rest);
        lemma_insert_desc_sorted(sort_desc(rest), s.last());
        lemma_insert_desc_multiset(sort_desc(rest), s.last());
        assert(rest.push(s.last()) =~= s);
        assert(sort_desc(s).to_multiset() =~= s.to_multiset());
    }
}

/// Sorting neither adds nor loses a row.
pub proof fn lemma_sort_desc_contains(s: Seq<UndelegationEvent>, e: UndelegationEvent)
    ensures
        sort_desc(s).contains(e) <==> s.contains(e),
{
    broadcast use vstd::seq_lib::group_to_multiset_ensures;

    lemma_sort_desc_ensures(s);
    assert(sort_desc(s).to_multiset().count(e) == s.to_multiset().count(e));
}

/// Number of rows the filter matches: the counting query's result.
pub open spec fn count_spec(
    t: Seq<UndelegationEvent>,
    kind: FilterKind,
    bind: Option<Seq<char>>,
) -> int {
    matching(t, kind, bind).len() as int
}

/// The page the data query returns: the matching rows, sorted by time
/// descending, from row `offset` on and at most `limit` rows long.
pub open spec fn page_spec(
    t: Seq<UndelegationEvent>,
    kind: FilterKind,
    bind: Option<Seq<char>>,
    limit: int,
    offset: int,
) -> Seq<UndelegationEvent>
    recommends
        0 <= limit,
        0 <= offset,
{
    let sorted = sort_desc(matching(t, kind, bind));
    let lo = if offset > sorted.len() {
        sorted.len() as int
    } else {
        offset
    };
    let hi = if offset + limit > sorted.len() {
        sorted.len() as int
    } else {
        offset + limit
    };
    sorted.subrange(lo, hi)
}

/// Every row of the matching set satisfies the filter, and there are no more
/// matching rows than the table holds.
pub proof fn lemma_matching_matches(
    t: Seq<UndelegationEvent>,
    kind: FilterKind,
    bind: Option<Seq<char>>,
)
    ensures
        forall|i: int|
            0 <= i < matching(t, kind, bind).len() ==> event_matches(
                kind,
                bind,
                #[trigger] matching(t, kind, bind)[i],
            ),
        matching(t, kind, bind).len() <= t.len(),
{
    broadcast use vstd::seq_lib::group_filter_ensures;

}

/// What always holds of a returned page: it is sorted by time descending,
/// never longer than the limit, empty as soon as the offset reaches the
/// matching row count, exactly as long as what of the matching rows lies
/// beyond the offset (capped at the limit), and made of matching rows only.
pub proof fn lemma_page_spec_ensures(
    t: Seq<UndelegationEvent>,
    kind: FilterKind,
    bind: Option<Seq<char>>,
    limit: int,
    offset: int,
)
    requires
        0 <= limit,
        0 <= offset,
    ensures
        sorted_desc(page_spec(t, kind, bind, limit, offset)),
        page_spec(t, kind, bind, limit, offset).len() <= limit,
        offset >= count_spec(t, kind, bind) ==> page_spec(t, kind, bind, limit, offset).len()
            == 0,
        page_spec(t, kind, bind, limit, offset).len() == if offset >= count_spec(t, kind, bind) {
            0int
        } else if count_spec(t, kind, bind) - offset < limit {
            count_spec(t, kind, bind) - offset
        } else {
            limit
        },
        forall|i: int|
            0 <= i < page_spec(t, kind, bind, limit, offset).len() ==> event_matches(
                kind,
                bind,
                #[trigger] page_spec(t, kind, bind, limit, offset)[i],
            ),
{
    broadcast use vstd::seq_lib::group_filter_ensures;

    let m = matching(t, kind, bind);
    let sorted = sort_desc(m);
    lemma_sort_desc_ensures(m);
    let page = page_spec(t, kind, bind, limit, offset);
    let lo = if offset > sorted.len() {
        sorted.len() as int
    } else {
        offset
    };
    assert forall|i: int| 0 <= i < page.len() implies event_matches(
        kind,
        bind,
        #[trigger] page[i],
    ) by {
        let x = page[i];
        assert(sorted[lo + i] == x);
        assert(sorted.contains(x));
        lemma_sort_desc_contains(m, x);
        let j = choose|j: int| 0 <= j < m.len() && m[j] == x;
        assert(event_matches(kind, bind, m[j]));
    }
}

/// Whether a stored event matches the filter, decided at run time.
fn event_matches_exec(e: &UndelegationEvent, kind: FilterKind, bind: &Option<String>) -> (r: bool)
    ensures
        r == event_matches(kind, opt_view(*bind), *e),
{
    match bind {
        None => true,
        Some(v) => match kind {
            FilterKind::ByDelegator => e.delegator == *v,
            FilterKind::ByValidator => e.validator == *v,
        },
    }
}

proof fn lemma_matching_step(
    t: Seq<UndelegationEvent>,
    kind: FilterKind,
    bind: Option<Seq<char>>,
    i: int,
)
    requires
        0 <= i < t.len(),
    ensures
        matching(t.take(i + 1), kind, bind) == if event_matches(kind, bind, t[i]) {
            matching(t.take(i), kind, bind).push(t[i])
        } else {
            matching(t.take(i), kind, bind)
        },
{
    reveal(Seq::filter);
    assert(t.take(i + 1).drop_last() =~= t.take(i));
    assert(t.take(i + 1).last() == t[i]);
}

/// Runs the counting query against the table model: how many rows match.
pub fn count_matching(t: &Vec<UndelegationEvent>, kind: FilterKind, bind: &Option<String>) -> (n:
    i64)
    requires
        t@.len() <= 0x7fff_ffff_ffff_ffff,
    ensures
        n as int == count_spec(t@, kind, opt_view(*bind)),
{
    broadcast use vstd::seq_lib::group_filter_ensures;

    let mut n: i64 = 0;
    let mut i: usize = 0;
    while i < t.len()
        invariant
            0 <= i <= t@.len(),
            t@.len() <= 0x7fff_ffff_ffff_ffff,
            n as int == count_spec(t@.take(i as int), kind, opt_view(*bind)),
        decreases t@.len() - i,
    {
        proof {
            lemma_matching_step(t@, kind, opt_view(*bind), i as int);
            assert(matching(t@.take(i as int), kind, opt_view(*bind)).len() <= t@.take(
                i as int,
            ).len());
        }
        if event_matches_exec(&t[i], kind, bind) {
            n = n + 1;
        }
        i = i + 1;
    }
    proof {
        assert(t@.take(t@.len() as int) =~= t@);
    }
    n
}

/// Keeps the rows the filter matches, in storage order.
fn filter_events(t: Vec<UndelegationEvent>, kind: FilterKind, bind: &Option<String>) -> (r: Vec<
    UndelegationEvent,
>)
    requires
        forall|i: int| 0 <= i < t@.len() ==> (#[trigger] t@[i]).wf(),
    ensures
        r@ == matching(t@, kind, opt_view(*bind)),
        forall|i: int| 0 <= i < r@.len() ==> (#[trigger] r@[i]).wf(),
{
    let ghost orig = t@;
    let mut input = t;
    let mut out: Vec<UndelegationEvent> = Vec::new();
    while input.len() > 0
        invariant
            input@.len() <= orig.len(),
            input@ == orig.skip(orig.len() - input@.len()),
            out@ == matching(orig.take(orig.len() - input@.len()), kind, opt_view(*bind)),
            forall|i: int| 0 <= i < orig.len() ==> (#[trigger] orig[i]).wf(),
            forall|i: int| 0 <= i < out@.len() ==> (#[trigger] out@[i]).wf(),
        decreases input@.len(),
    {
        let ghost k = orig.len() - input@.len();
        proof {
            assert(input@[0] == orig.skip(k as int)[0]);
            assert(orig.skip(k as int).drop_first() =~= orig.skip(k as int + 1));
            lemma_matching_step(orig, kind, opt_view(*bind), k as int);
        }
        let e = input.remove(0);
        proof {
            assert(input@ =~= orig.skip(k as int).drop_first());
            assert(e == orig[k as int]);
        }
        if event_matches_exec(&e, kind, bind) {
            out.push(e);
        }
    }
    proof {
        assert(orig.take(orig.len() as int) =~= orig);
    }
    out
}

/// Sorts the rows by time descending; rows with equal timestamps keep their
/// order of arrival.
fn sort_events_desc(t: Vec<UndelegationEvent>) -> (r: Vec<UndelegationEvent>)
    requires
        forall|i: int| 0 <= i < t@.len() ==> (#[trigger] t@[i]).wf(),
    ensures
        r@ == sort_desc(t@),
        forall|i: int| 0 <= i < r@.len() ==> (#[trigger] r@[i]).wf(),
{
    let ghost orig = t@;
    let mut input = t;
    let mut out: Vec<UndelegationEvent> = Vec::new();
    while input.len() > 0
        invariant
            input@.len() <= orig.len(),
            input@ == orig.skip(orig.len() - input@.len()),
            out@ == sort_desc(orig.take(orig.len() - input@.len())),
            forall|i: int| 0 <= i < orig.len() ==> (#[trigger] orig[i]).wf(),
            forall|i: int| 0 <= i < out@.len() ==> (#[trigger] out@[i]).wf(),
        decreases input@.len(),
    {
        let ghost k = orig.len() - input@.len();
        proof {
            assert(input@[0] == orig.skip(k as int)[0]);
            assert(orig.skip(k as int).drop_first() =~= orig.skip(k as int + 1));
        }
        let e = input.remove(0);
        proof {
            assert(input@ =~= orig.skip(k as int).drop_first());
            assert(e == orig[k as int]);
        }
        let key: i64 = epoch_seconds(&e.tm);
        let mut j: usize = 0;
        while j < out.len() && epoch_seconds(&out[j].tm) >= key
            invariant
                0 <= j <= out@.len(),
                key as int == e.tm_key(),
                forall|i: int| 0 <= i < out@.len() ==> (#[trigger] out@[i]).wf(),
                forall|m: int| 0 <= m < j ==> (#[trigger] out@[m]).tm_key() >= e.tm_key(),
            decreases out@.len() - j,
        {
            j = j + 1;
        }
        let ghost old_out = out@;
        proof {
            lemma_insert_pos_unique(old_out, e.tm_key(), j as int);
            lemma_insert_pos_bounds(old_out, e.tm_key());
            old_out.insert_ensures(j as int, e);
            assert(orig.take(k as int + 1).drop_last() =~= orig.take(k as int));
            assert(orig.take(k as int + 1).last() == orig[k as int]);
        }
        out.insert(j, e);
        proof {
            assert(out@ == insert_desc(old_out, e));
            assert(out@ == sort_desc(orig.take(k as int + 1)));
            assert forall|i: int| 0 <= i < out@.len() implies (#[trigger] out@[i]).wf() by {
                if i < j {
                    assert(out@[i] == old_out[i]);
                } else if i == j {
                    assert(out@[i] == e);
                } else {
                    assert(out@[i] == old_out[i - 1]);
                }
            }
        }
    }
    proof {
        assert(orig.take(orig.len() as int) =~= orig);
    }
    out
}

/// Runs the page query against the table model: the matching rows sorted by
/// time descending, cut to `limit` rows starting at row `offset`.
pub fn eval_page(
    t: Vec<UndelegationEvent>,
    kind: FilterKind,
    bind: &Option<String>,
    limit: i64,
    offset: i64,
) -> (r: Vec<UndelegationEvent>)
    requires
        0 <= limit,
        0 <= offset,
        t@.len() <= 0x7fff_ffff_ffff_ffff,
        forall|i: int| 0 <= i < t@.len() ==> (#[trigger] t@[i]).wf(),
    ensures
        r@ == page_spec(t@, kind, opt_view(*bind), limit as int, offset as int),
        forall|i: int| 0 <= i < r@.len() ==> (#[trigger] r@[i]).wf(),
{
    broadcast use vstd::seq_lib::group_filter_ensures;

    let ghost bv = opt_view(*bind);
    let filtered = filter_events(t, kind, bind);
    proof {
        lemma_sort_desc_ensures(matching(t@, kind, bv));
    }
    let mut sorted = sort_events_desc(filtered);
    let ghost full = sort_desc(matching(t@, kind, bv));
    let len: usize = sorted.len();
    let lo: usize = if offset > len as i64 {
        len
    } else {
        offset as usize
    };
    let take_n: usize = if limit > (len - lo) as i64 {
        len - lo
    } else {
        limit as usize
    };
    let hi: usize = lo + take_n;
    sorted.truncate(hi);
    proof {
        assert(sorted@ =~= full.subrange(0, hi as int));
    }
    let mut k: usize = 0;
    while k < lo
        invariant
            0 <= k <= lo <= hi <= full.len(),
            sorted@ == full.subrange(k as int, hi as int),
        decreases lo - k,
    {
        proof {
            assert(full.subrange(k as int, hi as int).remove(0) =~= full.subrange(
                k as int + 1,
                hi as int,
            ));
        }
        sorted.remove(0);
        k = k + 1;
    }
    proof {
        assert(sorted@ == page_spec(t@, kind, bv, limit as int, offset as int));
        assert forall|i: int| 0 <= i < sorted@.len() implies (#[trigger] sorted@[i]).wf() by {
            assert(sorted@[i] == full[lo + i]);
        }
    }
    sorted
}

} // verus!
