//! Manual playlist edits: moving a track within a playlist (which also
//! renumbers it densely), and the totals shown for a smart playlist.

use vstd::prelude::*;

verus! {

/// The playlist order after moving the track at index `from` to index `to`;
/// out-of-range indices leave it unchanged. Positions are then written back
/// as `0..n` in this order.
pub open spec fn moved(ids: Seq<i64>, from: i64, to: i64) -> Seq<i64> {
    if from < 0 || from >= ids.len() || to < 0 || to >= ids.len() {
        ids
    } else {
        ids.remove(from as int).insert(to as int, ids[from as int])
    }
}

/// The playlist order after a move (see [`moved`]).
pub fn reordered(ids: Vec<i64>, from: i64, to: i64) -> (r: Vec<i64>)
    ensures
        r@ == moved(ids@, from, to),
{
    let len = ids.len();
    if from < 0 || to < 0 || from as u64 >= len as u64 || to as u64 >= len as u64 {
        return ids;
    }
    let mut ids = ids;
    let item = ids.remove(from as usize);
    ids.insert(to as usize, item);
    ids
}

/// A move keeps the playlist's tracks (as a multiset) and its length, and
/// puts the moved track at its target index.
pub proof fn law_move_keeps_tracks(ids: Seq<i64>, from: i64, to: i64)
    ensures
        moved(ids, from, to).to_multiset() == ids.to_multiset(),
        moved(ids, from, to).len() == ids.len(),
        0 <= from < ids.len() && 0 <= to < ids.len() ==> moved(ids, from, to)[to as int]
            == ids[from as int],
{
    broadcast use vstd::seq_lib::group_to_multiset_ensures;

    if 0 <= from < ids.len() && 0 <= to < ids.len() {
        let x = ids[from as int];
        let rest = ids.remove(from as int);
        rest.insert_ensures(to as int, x);
        ids.remove_ensures(from as int);
        vstd::seq_lib::to_multiset_insert(rest, to as int, x);
        vstd::seq_lib::to_multiset_remove(ids, from as int);
        assert(ids.to_multiset() =~= rest.to_multiset().insert(x));
    }
}

/// The totals stored for a smart playlist: how many tracks match and their
/// summed length (tracks without a length count 0).
pub open spec fn known_total(durations: Seq<Option<i64>>) -> int
    decreases durations.len(),
{
    if durations.len() == 0 {
        0
    } else {
        known_total(durations.drop_last()) + match durations.last() {
            Some(d) => d as int,
            None => 0,
        }
    }
}

/// Count and summed length of a smart playlist's tracks (see
/// [`known_total`]); every partial sum fits in `i64`, as the stored total
/// must.
pub fn smart_totals(durations: &Vec<Option<i64>>) -> (r: (i64, i64))
    requires
        durations@.len() <= i64::MAX,
        forall|k: int|
            0 <= k <= durations@.len() ==> i64::MIN <= #[trigger] known_total(durations@.take(k))
                <= i64::MAX,
    ensures
        r.0 == durations@.len(),
        r.1 == known_total(durations@),
{
    let mut total: i64 = 0;
    let mut i: usize = 0;
    assert(durations@.take(0) =~= Seq::<Option<i64>>::empty());
    while i < durations.len()
        invariant
            i <= durations@.len(),
            total == known_total(durations@.take(i as int)),
            forall|k: int|
                0 <= k <= durations@.len() ==> i64::MIN <= #[trigger] known_total(
                    durations@.take(k),
                ) <= i64::MAX,
        decreases durations@.len() - i,
    {
        assert(durations@.take(i + 1).drop_last() =~= durations@.take(i as int));
        assert(durations@.take(i + 1).last() == durations@[i as int]);
        let ghost next = known_total(durations@.take(i + 1));
        assert(i64::MIN <= next <= i64::MAX);
        match durations[i] {
            Some(d) => {
                total = total + d;
            },
            None => {},
        }
        i = i + 1;
    }
    assert(durations@.take(i as int) =~= durations@);
    (durations.len() as i64, total)
}

} // verus!
