//! Duplicate cleanup: which album absorbs a group of same-titled albums,
//! which copy of a duplicated track stays, and which files may be deleted.

use crate::credits::{AlbumGroup, GroupView};
use crate::text::{chars_eq, chars_of, opt_chars};
use vstd::prelude::*;

verus! {

/// One merge of duplicate albums: `keep` absorbs the tracks and missing
/// fields of each album in `absorbed` (which are then deleted) and takes
/// `artist_id` when it has none.
pub struct AlbumMerge {
    pub keep: i64,
    pub absorbed: Vec<i64>,
    pub artist_id: Option<i64>,
}

/// The merge a group makes: only a group of two or more albums merges, into
/// its first member.
pub open spec fn group_merge(g: GroupView) -> Seq<(i64, Seq<i64>, Option<i64>)> {
    if g.members.len() > 1 {
        seq![(g.members[0], g.members.drop_first(), g.artist_id)]
    } else {
        Seq::empty()
    }
}

/// The merges of all groups, in group order.
pub open spec fn merges_of(groups: Seq<GroupView>) -> Seq<(i64, Seq<i64>, Option<i64>)>
    decreases groups.len(),
{
    if groups.len() == 0 {
        Seq::empty()
    } else {
        merges_of(groups.drop_last()) + group_merge(groups.last())
    }
}

/// The merges to carry out for a title's album groups (see [`merges_of`]).
pub fn album_merges(groups: &Vec<AlbumGroup>) -> (r: Vec<AlbumMerge>)
    ensures
        r@.map_values(|m: AlbumMerge| (m.keep, m.absorbed@, m.artist_id)) == merges_of(
            groups@.map_values(|g: AlbumGroup| g@),
        ),
{
    let ghost gv = groups@.map_values(|g: AlbumGroup| g@);
    let mut r: Vec<AlbumMerge> = Vec::new();
    let mut i: usize = 0;
    while i < groups.len()
        invariant
            i <= groups@.len(),
            gv == groups@.map_values(|g: AlbumGroup| g@),
            r@.map_values(|m: AlbumMerge| (m.keep, m.absorbed@, m.artist_id)) == merges_of(
                gv.take(i as int),
            ),
        decreases groups@.len() - i,
    {
        let g = &groups[i];
        let ghost before = r@.map_values(|m: AlbumMerge| (m.keep, m.absorbed@, m.artist_id));
        proof {
            assert(gv.take(i + 1).drop_last() =~= gv.take(i as int));
            assert(gv.take(i + 1).last() == g@);
        }
        if g.members.len() > 1 {
            let mut rest: Vec<i64> = Vec::new();
            let mut k: usize = 1;
            while k < g.members.len()
                invariant
                    1 <= k <= g.members@.len(),
                    rest@ == g.members@.subrange(1, k as int),
                decreases g.members@.len() - k,
            {
                rest.push(g.members[k]);
                k = k + 1;
                assert(rest@ =~= g.members@.subrange(1, k as int));
            }
            assert(rest@ =~= g.members@.drop_first());
            r.push(AlbumMerge { keep: g.members[0], absorbed: rest, artist_id: g.artist_id });
            assert(r@.map_values(|m: AlbumMerge| (m.keep, m.absorbed@, m.artist_id)) =~= before
                + group_merge(g@));
        } else {
            assert(r@.map_values(|m: AlbumMerge| (m.keep, m.absorbed@, m.artist_id)) =~= before
                + group_merge(g@));
        }
        i = i + 1;
    }
    assert(gv.take(i as int) =~= gv);
    r
}

/// Duplicate tracks ranked best first: the first stays and the others go;
/// nothing happens to a group of one.
pub fn split_keeper(ranked: &Vec<i64>) -> (r: Option<(i64, Vec<i64>)>)
    ensures
        match r {
            Some((keep, gone)) => ranked@.len() > 1 && keep == ranked@[0] && gone@
                == ranked@.drop_first(),
            None => ranked@.len() <= 1,
        },
{
    if ranked.len() <= 1 {
        return None;
    }
    let mut gone: Vec<i64> = Vec::new();
    let mut k: usize = 1;
    while k < ranked.len()
        invariant
            1 <= k <= ranked@.len(),
            gone@ == ranked@.subrange(1, k as int),
        decreases ranked@.len() - k,
    {
        gone.push(ranked[k]);
        k = k + 1;
        assert(gone@ =~= ranked@.subrange(1, k as int));
    }
    assert(gone@ =~= ranked@.drop_first());
    Some((ranked[0], gone))
}

/// Whether deleting a duplicate row also deletes its file: only when it has
/// one and it is not the file the kept row points at.
pub fn removes_file(keep_path: &Option<String>, dup_path: &Option<String>) -> (r: bool)
    ensures
        r == (match opt_chars(*dup_path) {
            Some(d) => opt_chars(*keep_path) != Some(d),
            None => false,
        }),
{
    match dup_path {
        Some(d) => match keep_path {
            Some(k) => {
                let kc = chars_of(k.as_str());
                let dc = chars_of(d.as_str());
                !chars_eq(kc.as_slice(), dc.as_slice())
            },
            None => true,
        },
        None => false,
    }
}

/// Every merge comes from one group of two or more albums: it keeps that
/// group's first member, absorbs the rest of it and adopts its artist.
pub proof fn law_merges_come_from_groups(groups: Seq<GroupView>, k: int)
    requires
        0 <= k < merges_of(groups).len(),
    ensures
        exists|g: int|
            0 <= g < groups.len() && #[trigger] groups[g].members.len() > 1 && merges_of(groups)[k]
                == (groups[g].members[0], groups[g].members.drop_first(), groups[g].artist_id),
    decreases groups.len(),
{
    let init = groups.drop_last();
    let prev = merges_of(init);
    if k < prev.len() {
        law_merges_come_from_groups(init, k);
        let g = choose|g: int|
            0 <= g < init.len() && #[trigger] init[g].members.len() > 1 && prev[k] == (
            init[g].members[0],
            init[g].members.drop_first(),
            init[g].artist_id,
        );
        assert(groups[g] == init[g]);
        assert(merges_of(groups)[k] == prev[k]);
    } else {
        let g = groups.len() - 1;
        assert(groups[g].members.len() > 1);
        assert(merges_of(groups)[k] == group_merge(groups.last())[k - prev.len()]);
    }
}

} // verus!
