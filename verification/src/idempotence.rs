//! Seeding is idempotent: seeding the same records a second time leaves the
//! stored courses as the first seeding left them.

use crate::corpus::{first_with_id, lemma_first_with_id};
use crate::course::CourseView;
use crate::db::{seed_one, seeded, updated};
use crate::value::{lemma_union_absorbs, lemma_union_contains, union, union_opt};
use vstd::prelude::*;

verus! {

/// Whether every value of `fresh` occurs in `prior`.
pub open spec fn holds_all<A>(prior: Seq<A>, fresh: Seq<A>) -> bool {
    forall|k: int| 0 <= k < fresh.len() ==> prior.contains(#[trigger] fresh[k])
}

/// Whether the optional list `prior` already holds what `fresh` would add.
pub open spec fn holds_all_opt<A>(prior: Option<Seq<A>>, fresh: Option<Seq<A>>) -> bool {
    match fresh {
        None => true,
        Some(f) => prior is Some && holds_all(prior->0, f),
    }
}

/// Whether the stored record already holds every instructor, term and
/// schedule of the fresh one.
pub open spec fn absorbed(stored: CourseView, fresh: CourseView) -> bool {
    &&& holds_all(stored.instructors, fresh.instructors)
    &&& holds_all(stored.terms, fresh.terms)
    &&& holds_all_opt(stored.schedule, fresh.schedule)
}

/// The stored record with the overwritten fields taken from the fresh one.
pub open spec fn overwritten(stored: CourseView, fresh: CourseView) -> CourseView {
    CourseView {
        corequisites: fresh.corequisites,
        credits: fresh.credits,
        description: fresh.description,
        faculty_url: fresh.faculty_url,
        prerequisites: fresh.prerequisites,
        restrictions: fresh.restrictions,
        url: fresh.url,
        ..stored
    }
}

/// The position of the last of the first `n` records with identifier `id`,
/// or -1 where there is none.
pub open spec fn last_with_id(records: Seq<CourseView>, id: Seq<char>, n: int) -> int
    decreases n,
{
    if n <= 0 {
        -1
    } else if records[n - 1].id == id {
        n - 1
    } else {
        last_with_id(records, id, n - 1)
    }
}

/// The store `t` after the first `n` records are seeded into it, where `t`
/// has already absorbed them all: each first holder of an identifier takes
/// the overwritten fields of the last such record.
pub open spec fn replayed(t: Seq<CourseView>, records: Seq<CourseView>, n: int) -> Seq<CourseView> {
    Seq::new(
        t.len(),
        |k: int|
            {
                let i = last_with_id(records, t[k].id, n);
                if i >= 0 && k == first_with_id(t, t[k].id, 0) {
                    overwritten(t[k], records[i])
                } else {
                    t[k]
                }
            },
    )
}

/// Whether the store holds a record with the identifier of `r` whose first
/// holder has absorbed `r`.
pub open spec fn absorbs(t: Seq<CourseView>, r: CourseView) -> bool {
    let k = first_with_id(t, r.id, 0);
    k < t.len() && absorbed(t[k], r)
}

/// Whether position `k` of the store, where it is the first holder of an
/// identifier that occurs among the first `n` records, already has the
/// overwritten fields of the last such record.
pub open spec fn settled(t: Seq<CourseView>, records: Seq<CourseView>, k: int, n: int) -> bool {
    let i = last_with_id(records, t[k].id, n);
    i >= 0 && k == first_with_id(t, t[k].id, 0) ==> overwritten(t[k], records[i]) == t[k]
}

proof fn lemma_holds_all_after_union<A>(prior: Seq<A>, added: Seq<A>, fresh: Seq<A>)
    requires
        holds_all(prior, fresh) || fresh == added,
    ensures
        holds_all(union(prior, added), fresh),
{
    assert forall|k: int| 0 <= k < fresh.len() implies union(prior, added).contains(
        #[trigger] fresh[k],
    ) by {
        lemma_union_contains(prior, added, fresh[k]);
    }
}

proof fn lemma_holds_all_opt_after_union<A>(
    prior: Option<Seq<A>>,
    added: Option<Seq<A>>,
    fresh: Option<Seq<A>>,
)
    requires
        holds_all_opt(prior, fresh) || fresh == added,
    ensures
        holds_all_opt(union_opt(prior, added), fresh),
{
    if fresh is Some {
        let f = fresh->0;
        match (prior, added) {
            (None, None) => {},
            (Some(p), None) => {},
            (None, Some(a)) => {
                lemma_holds_all_after_union(Seq::<A>::empty(), a, f);
            },
            (Some(p), Some(a)) => {
                lemma_holds_all_after_union(p, a, f);
            },
        }
    }
}

/// A record holds all of its own lists.
pub proof fn lemma_absorbed_self(c: CourseView)
    ensures
        absorbed(c, c),
        overwritten(c, c) == c,
{
    assert forall|k: int| 0 <= k < c.instructors.len() implies c.instructors.contains(
        #[trigger] c.instructors[k],
    ) by {}
    assert forall|k: int| 0 <= k < c.terms.len() implies c.terms.contains(#[trigger] c.terms[k]) by {}
    if c.schedule is Some {
        let s = c.schedule->0;
        assert forall|k: int| 0 <= k < s.len() implies s.contains(#[trigger] s[k]) by {}
    }
}

/// An update absorbs the fresh record and keeps what was absorbed before.
pub proof fn lemma_absorbed_after_update(stored: CourseView, fresh: CourseView, earlier: CourseView)
    requires
        absorbed(stored, earlier) || earlier == fresh,
    ensures
        absorbed(updated(stored, fresh), earlier),
        overwritten(updated(stored, fresh), fresh) == updated(stored, fresh),
{
    lemma_holds_all_after_union(stored.instructors, fresh.instructors, earlier.instructors);
    lemma_holds_all_after_union(stored.terms, fresh.terms, earlier.terms);
    lemma_holds_all_opt_after_union(stored.schedule, fresh.schedule, earlier.schedule);
}

/// Updating a record that has absorbed the fresh one only overwrites.
pub proof fn lemma_update_of_absorbed(stored: CourseView, fresh: CourseView)
    requires
        absorbed(stored, fresh),
    ensures
        updated(stored, fresh) == overwritten(stored, fresh),
{
    lemma_union_absorbs(stored.instructors, fresh.instructors);
    lemma_union_absorbs(stored.terms, fresh.terms);
    if fresh.schedule is Some {
        lemma_union_absorbs(stored.schedule->0, fresh.schedule->0);
    }
}

/// The first position of an identifier is the one position that holds it
/// with no earlier holder.
pub proof fn lemma_first_with_id_is(s: Seq<CourseView>, id: Seq<char>, k: int)
    requires
        0 <= k <= s.len(),
        k < s.len() ==> s[k].id == id,
        forall|j: int| 0 <= j < k ==> (#[trigger] s[j]).id != id,
    ensures
        first_with_id(s, id, 0) == k,
{
    lemma_first_with_id(s, id, 0);
    let f = first_with_id(s, id, 0);
    if f < k {
        assert(s[f].id == id);
    } else if f > k {
        assert(s[k].id != id);
    }
}

/// Stores that agree on identifiers agree on where each identifier is found.
pub proof fn lemma_first_with_id_same(a: Seq<CourseView>, b: Seq<CourseView>, id: Seq<char>)
    requires
        a.len() == b.len(),
        forall|k: int| 0 <= k < a.len() ==> (#[trigger] a[k]).id == b[k].id,
    ensures
        first_with_id(a, id, 0) == first_with_id(b, id, 0),
{
    lemma_first_with_id(a, id, 0);
    let f = first_with_id(a, id, 0);
    assert forall|j: int| 0 <= j < f implies (#[trigger] b[j]).id != id by {
        assert(a[j].id != id);
    }
    if f < a.len() {
        assert(a[f].id == b[f].id);
    }
    lemma_first_with_id_is(b, id, f);
}

/// After a seeding, the store has absorbed every seeded record, and each
/// first holder of a seeded identifier has the overwritten fields of the last
/// record with that identifier.
pub proof fn lemma_seeded_absorbs(store: Seq<CourseView>, records: Seq<CourseView>)
    ensures
        forall|i: int|
            0 <= i < records.len() ==> absorbs(seeded(store, records), #[trigger] records[i]),
        forall|k: int|
            0 <= k < seeded(store, records).len() ==> #[trigger] settled(
                seeded(store, records),
                records,
                k,
                records.len() as int,
            ),
    decreases records.len(),
{
    if records.len() > 0 {
        let init = records.drop_last();
        let r = records.last();
        let n = records.len() as int;
        let before = seeded(store, init);
        let t = seeded(store, records);
        lemma_seeded_absorbs(store, init);
        lemma_first_with_id(before, r.id, 0);
        let kr = first_with_id(before, r.id, 0);
        assert(t == seed_one(before, r));
        if kr < before.len() {
            assert(t == before.update(kr, updated(before[kr], r)));
            assert forall|i: int| 0 <= i < records.len() implies absorbs(
                t,
                #[trigger] records[i],
            ) by {
                lemma_first_with_id_same(t, before, records[i].id);
                let k = first_with_id(before, records[i].id, 0);
                if i < n - 1 {
                    assert(init[i] == records[i]);
                    assert(absorbs(before, init[i]));
                    if k == kr {
                        lemma_absorbed_after_update(before[kr], r, records[i]);
                    } else {
                        lemma_first_with_id(before, records[i].id, 0);
                        assert(t[k] == before[k]);
                    }
                } else {
                    assert(records[i] == r);
                    lemma_absorbed_after_update(before[kr], r, r);
                }
            }
            assert forall|k: int| 0 <= k < t.len() implies #[trigger] settled(t, records, k, n) by {
                lemma_first_with_id_same(t, before, t[k].id);
                assert(t[k].id == before[k].id);
                assert(records[n - 1] == r);
                if t[k].id == r.id {
                    if k == first_with_id(t, t[k].id, 0) {
                        lemma_absorbed_after_update(before[kr], r, r);
                    }
                } else {
                    let i = last_with_id(init, before[k].id, n - 1);
                    assert(last_with_id(records, t[k].id, n) == i) by {
                        lemma_last_with_id_prefix(records, init, t[k].id, n - 1);
                    }
                    assert(settled(before, init, k, n - 1));
                    assert(t[k] == before[k]);
                    if i >= 0 {
                        lemma_last_with_id(init, before[k].id, n - 1);
                        assert(init[i] == records[i]);
                    }
                }
            }
        } else {
            assert(t == before.push(r));
            assert forall|i: int| 0 <= i < records.len() implies absorbs(
                t,
                #[trigger] records[i],
            ) by {
                if i < n - 1 {
                    assert(init[i] == records[i]);
                    assert(absorbs(before, init[i]));
                    let k = first_with_id(before, records[i].id, 0);
                    lemma_first_with_id(before, records[i].id, 0);
                    assert(t[k] == before[k]);
                    assert forall|j: int| 0 <= j < k implies (#[trigger] t[j]).id
                        != records[i].id by {
                        assert(t[j] == before[j]);
                    }
                    lemma_first_with_id_is(t, records[i].id, k);
                } else {
                    assert(records[i] == r);
                    assert forall|j: int| 0 <= j < before.len() implies (#[trigger] t[j]).id
                        != r.id by {
                        assert(t[j] == before[j]);
                    }
                    lemma_first_with_id_is(t, r.id, before.len() as int);
                    lemma_absorbed_self(r);
                }
            }
            assert forall|k: int| 0 <= k < t.len() implies #[trigger] settled(t, records, k, n) by {
                assert(records[n - 1] == r);
                if k < before.len() {
                    assert(t[k] == before[k]);
                    assert(before[k].id != r.id);
                    assert(settled(before, init, k, n - 1));
                    let i = last_with_id(init, before[k].id, n - 1);
                    assert(last_with_id(records, t[k].id, n) == i) by {
                        lemma_last_with_id_prefix(records, init, t[k].id, n - 1);
                    }
                    if i >= 0 && k == first_with_id(t, t[k].id, 0) {
                        lemma_last_with_id(init, before[k].id, n - 1);
                        assert(init[i] == records[i]);
                        lemma_first_with_id(t, t[k].id, 0);
                        assert forall|j: int| 0 <= j < k implies (#[trigger] before[j]).id
                            != before[k].id by {
                            assert(t[j] == before[j]);
                        }
                        lemma_first_with_id_is(before, before[k].id, k);
                    }
                } else {
                    lemma_absorbed_self(r);
                }
            }
        }
    }
}

/// `last_with_id` finds a record with the identifier among the first `n`, or
/// fails.
pub proof fn lemma_last_with_id(records: Seq<CourseView>, id: Seq<char>, n: int)
    requires
        0 <= n <= records.len(),
    ensures
        -1 <= last_with_id(records, id, n) < n,
        last_with_id(records, id, n) >= 0 ==> records[last_with_id(records, id, n)].id == id,
    decreases n,
{
    if n > 0 && records[n - 1].id != id {
        lemma_last_with_id(records, id, n - 1);
    }
}

/// Lists that agree on their first `n` records agree on `last_with_id`.
pub proof fn lemma_last_with_id_prefix(
    a: Seq<CourseView>,
    b: Seq<CourseView>,
    id: Seq<char>,
    n: int,
)
    requires
        0 <= n <= a.len(),
        n <= b.len(),
        forall|k: int| 0 <= k < n ==> a[k] == b[k],
    ensures
        last_with_id(a, id, n) == last_with_id(b, id, n),
    decreases n,
{
    if n > 0 {
        lemma_last_with_id_prefix(a, b, id, n - 1);
    }
}

/// Seeding records into a store that has absorbed them all only overwrites.
pub proof fn lemma_seeded_replays(t: Seq<CourseView>, records: Seq<CourseView>, n: int)
    requires
        0 <= n <= records.len(),
        forall|i: int| 0 <= i < records.len() ==> absorbs(t, #[trigger] records[i]),
    ensures
        seeded(t, records.take(n)) == replayed(t, records, n),
    decreases n,
{
    if n == 0 {
        assert(replayed(t, records, 0) =~= t);
    } else {
        lemma_seeded_replays(t, records, n - 1);
        let r = records[n - 1];
        let u = replayed(t, records, n - 1);
        assert(records.take(n).drop_last() =~= records.take(n - 1));
        assert(records.take(n).last() == r);
        assert(seeded(t, records.take(n)) == seed_one(u, r));
        lemma_first_with_id_same(u, t, r.id);
        lemma_first_with_id(t, r.id, 0);
        let k = first_with_id(t, r.id, 0);
        assert(absorbed(t[k], r));
        assert(absorbed(u[k], r));
        lemma_update_of_absorbed(u[k], r);
        assert(seed_one(u, r) == u.update(k, overwritten(u[k], r)));
        let goal = replayed(t, records, n);
        assert forall|j: int| 0 <= j < t.len() implies u.update(k, overwritten(u[k], r))[j]
            == goal[j] by {
            if j == k {
                assert(last_with_id(records, t[k].id, n) == n - 1);
            } else if t[j].id == r.id {
                assert(first_with_id(t, t[j].id, 0) == k);
            } else {
                assert(last_with_id(records, t[j].id, n) == last_with_id(
                    records,
                    t[j].id,
                    n - 1,
                ));
            }
        }
        assert(u.update(k, overwritten(u[k], r)) =~= goal);
    }
}

/// Seeding the same records twice yields the same stored courses as seeding
/// them once.
pub proof fn lemma_seeding_idempotent(store: Seq<CourseView>, records: Seq<CourseView>)
    ensures
        seeded(seeded(store, records), records) == seeded(store, records),
{
    let t = seeded(store, records);
    lemma_seeded_absorbs(store, records);
    lemma_seeded_replays(t, records, records.len() as int);
    assert(records.take(records.len() as int) =~= records);
    assert forall|k: int| 0 <= k < t.len() implies replayed(t, records, records.len() as int)[k]
        == t[k] by {
        assert(settled(t, records, k, records.len() as int));
    }
    assert(replayed(t, records, records.len() as int) =~= t);
}

} // verus!
