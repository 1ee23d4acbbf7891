//! Artist credit lines: the key that decides whether two same-titled albums
//! belong to the same artist, and the grouping of duplicate albums by it.

use crate::text::{
    chars_eq,
    chars_eq_str, chars_of, ends_with, ends_with_chars, find, find_chars,
    lowercase_chars, opt_chars, opt_str, rfind, rfind_chars, slice_chars, string_of, trim,
    trim_chars, trim_end, trim_end_char, trim_end_char_chars, trim_end_chars,
    trim_start_char, trim_start_char_chars, unicode_lowercase,
};
use vstd::prelude::*;

verus! {

/// Names that legitimately contain a comma, lowercase and compared whole.
pub open spec fn is_comma_name(s: Seq<char>) -> bool {
    ||| s == "earth, wind & fire"@
    ||| s == "tyler, the creator"@
    ||| s == "crosby, stills & nash"@
    ||| s == "crosby, stills, nash & young"@
    ||| s == "emerson, lake & palmer"@
    ||| s == "blood, sweat & tears"@
    ||| s == "peter, paul and mary"@
    ||| s == "hannah williams, the affirmations"@
    ||| s == "kool, rock-ski"@
}

/// Scrape labels that get glued to the front of a name, lowercase.
pub open spec fn is_scrape_label(s: Seq<char>) -> bool {
    ||| s == "premiere"@
    ||| s == "première"@
    ||| s == "premier"@
    ||| s == "lyrics"@
    ||| s == "full album"@
    ||| s == "out now"@
    ||| s == "free download"@
    ||| s == "video"@
    ||| s == "audio"@
}

/// Every character is an ASCII digit.
pub open spec fn all_ascii_digits(s: Seq<char>) -> bool {
    forall|i: int| 0 <= i < s.len() ==> '0' <= #[trigger] s[i] <= '9'
}

/// Step 1: `LABEL : name` becomes `name` when `LABEL` (trimmed, lowercase)
/// is a scrape label and something non-blank follows the first ':'.
pub open spec fn strip_scrape_label(s: Seq<char>) -> Seq<char> {
    match find(s, seq![':']) {
        Some(i) => {
            let head = trim(s.subrange(0, i));
            let tail = trim(s.subrange(i + 1, s.len() as int));
            if is_scrape_label(unicode_lowercase(head)) && tail.len() > 0 {
                tail
            } else {
                s
            }
        },
        None => s,
    }
}

/// Step 2a: a trailing `...NN` counter is cut off together with its run of
/// dots and the white space before it.
pub open spec fn strip_counter(s: Seq<char>) -> Seq<char> {
    match rfind(s, seq!['.', '.']) {
        Some(idx) => {
            let tail = trim_start_char(s.subrange(idx, s.len() as int), '.');
            if tail.len() > 0 && all_ascii_digits(tail) {
                trim_end(trim_end_char(s.subrange(0, idx), '.'))
            } else {
                s
            }
        },
        None => s,
    }
}

/// Step 2b: a trailing ` Official` is cut off unless nothing would remain.
pub open spec fn strip_official(s: Seq<char>) -> Seq<char> {
    if ends_with(s, " Official"@) {
        let stripped = s.subrange(0, s.len() - 9);
        if trim(stripped).len() > 0 {
            trim_end(stripped)
        } else {
            s
        }
    } else {
        s
    }
}

/// The part of `s` before the first `", "`.
pub open spec fn first_credit(s: Seq<char>) -> Seq<char> {
    match find(s, seq![',', ' ']) {
        Some(i) => s.subrange(0, i),
        None => s,
    }
}

/// The artist key of a credit line: `None` for a missing or blank name;
/// otherwise the cleaned, lowercase first credit of the line (the whole
/// lowercase name when it is one of the names with a comma in it).
pub open spec fn artist_key(name: Option<Seq<char>>) -> Option<Seq<char>> {
    match name {
        None => None,
        Some(n) => {
            let raw = trim(n);
            if raw.len() == 0 {
                None
            } else {
                let cleaned = strip_official(strip_counter(strip_scrape_label(raw)));
                let s = if cleaned.len() == 0 {
                    raw
                } else {
                    cleaned
                };
                let lower = unicode_lowercase(s);
                if is_comma_name(lower) {
                    Some(lower)
                } else {
                    let primary = trim(first_credit(lower));
                    if primary.len() == 0 {
                        Some(lower)
                    } else {
                        Some(primary)
                    }
                }
            }
        },
    }
}

fn is_comma_name_exec(s: &[char]) -> (r: bool)
    ensures
        r == is_comma_name(s@),
{
    chars_eq_str(s, "earth, wind & fire") || chars_eq_str(s, "tyler, the creator")
        || chars_eq_str(s, "crosby, stills & nash") || chars_eq_str(s, "crosby, stills, nash & young")
        || chars_eq_str(s, "emerson, lake & palmer") || chars_eq_str(s, "blood, sweat & tears")
        || chars_eq_str(s, "peter, paul and mary") || chars_eq_str(
        s,
        "hannah williams, the affirmations",
    ) || chars_eq_str(s, "kool, rock-ski")
}

fn is_scrape_label_exec(s: &[char]) -> (r: bool)
    ensures
        r == is_scrape_label(s@),
{
    chars_eq_str(s, "premiere") || chars_eq_str(s, "première") || chars_eq_str(s, "premier")
        || chars_eq_str(s, "lyrics") || chars_eq_str(s, "full album") || chars_eq_str(s, "out now")
        || chars_eq_str(s, "free download") || chars_eq_str(s, "video") || chars_eq_str(s, "audio")
}

fn all_ascii_digits_exec(s: &[char]) -> (r: bool)
    ensures
        r == all_ascii_digits(s@),
{
    let mut i: usize = 0;
    while i < s.len()
        invariant
            i <= s@.len(),
            forall|j: int| 0 <= j < i ==> '0' <= #[trigger] s@[j] <= '9',
        decreases s@.len() - i,
    {
        if !('0' <= s[i] && s[i] <= '9') {
            return false;
        }
        i = i + 1;
    }
    true
}

fn strip_scrape_label_exec(s: &[char]) -> (r: Vec<char>)
    ensures
        r@ == strip_scrape_label(s@),
{
    let colon = vec![':'];
    assert(colon@ =~= seq![':']);
    match find_chars(s, colon.as_slice()) {
        Some(i) => {
            let n = s.len();
            let head_raw = slice_chars(s, 0, i);
            let head = trim_chars(head_raw.as_slice());
            let tail_raw = slice_chars(s, i + 1, s.len());
            let tail = trim_chars(tail_raw.as_slice());
            let low = lowercase_chars(head.as_slice());
            if is_scrape_label_exec(low.as_slice()) && tail.len() > 0 {
                tail
            } else {
                slice_chars(s, 0, s.len())
            }
        },
        None => slice_chars(s, 0, s.len()),
    }
}

fn strip_counter_exec(s: &[char]) -> (r: Vec<char>)
    ensures
        r@ == strip_counter(s@),
{
    let dots = vec!['.', '.'];
    assert(dots@ =~= seq!['.', '.']);
    match rfind_chars(s, dots.as_slice()) {
        Some(idx) => {
            let tail_raw = slice_chars(s, idx, s.len());
            let tail = trim_start_char_chars(tail_raw.as_slice(), '.');
            if tail.len() > 0 && all_ascii_digits_exec(tail.as_slice()) {
                let head = slice_chars(s, 0, idx);
                let head2 = trim_end_char_chars(head.as_slice(), '.');
                trim_end_chars(head2.as_slice())
            } else {
                slice_chars(s, 0, s.len())
            }
        },
        None => slice_chars(s, 0, s.len()),
    }
}

fn strip_official_exec(s: &[char]) -> (r: Vec<char>)
    ensures
        r@ == strip_official(s@),
{
    let suffix = chars_of(" Official");
    if ends_with_chars(s, suffix.as_slice()) {
        proof {
            reveal_strlit(" Official");
        }
        let stripped = slice_chars(s, 0, s.len() - 9);
        let t = trim_chars(stripped.as_slice());
        if t.len() > 0 {
            trim_end_chars(stripped.as_slice())
        } else {
            slice_chars(s, 0, s.len())
        }
    } else {
        slice_chars(s, 0, s.len())
    }
}

/// The artist's own name in a credit line, for deciding whether two albums
/// of the same title are one album: the first credit, with a scraped label
/// in front (`PREMIERE : X`), a scraped counter behind (`X...02`) and a
/// trailing ` Official` removed, lowercase. Names known to contain a comma
/// are kept whole. A missing or blank name has no key.
pub fn primary_artist_key(name: Option<&str>) -> (r: Option<String>)
    ensures
        opt_chars(r) == artist_key(opt_str(name)),
{
    let n = match name {
        Some(n) => n,
        None => {
            return None;
        },
    };
    let chars = chars_of(n);
    let raw = trim_chars(chars.as_slice());
    if raw.len() == 0 {
        return None;
    }
    let s1 = strip_scrape_label_exec(raw.as_slice());
    let s2 = strip_counter_exec(s1.as_slice());
    let s3 = strip_official_exec(s2.as_slice());
    let s = if s3.len() == 0 {
        raw
    } else {
        s3
    };
    let lower = lowercase_chars(s.as_slice());
    if is_comma_name_exec(lower.as_slice()) {
        return Some(string_of(lower.as_slice()));
    }
    let sep = vec![',', ' '];
    assert(sep@ =~= seq![',', ' ']);
    let first = match find_chars(lower.as_slice(), sep.as_slice()) {
        Some(i) => slice_chars(lower.as_slice(), 0, i),
        None => slice_chars(lower.as_slice(), 0, lower.len()),
    };
    let primary = trim_chars(first.as_slice());
    assert(first@ == first_credit(lower@));
    assert(lower@ == unicode_lowercase(s@));
    assert(raw@ == trim(n@));
    assert(s@ == (if s3@.len() == 0 { raw@ } else { s3@ }));
    if primary.len() == 0 {
        Some(string_of(lower.as_slice()))
    } else {
        Some(string_of(primary.as_slice()))
    }
}

/// An album that shares its title with others: id, artist id and the
/// artist's credit line.
pub struct AlbumCandidate {
    pub id: i64,
    pub artist_id: Option<i64>,
    pub artist_name: Option<String>,
}

/// A name has no artist key exactly when it is missing or blank; any other
/// name has one, so it is grouped by it.
pub proof fn law_artist_key_missing_only_when_blank(name: Option<Seq<char>>)
    ensures
        artist_key(name) is None <==> match name {
            None => true,
            Some(n) => trim(n).len() == 0,
        },
{
}

/// Albums judged to be one album: the group's artist key and artist id (the
/// first known ones) and its members, best candidate first.
pub struct AlbumGroup {
    pub key: Option<String>,
    pub artist_id: Option<i64>,
    pub members: Vec<i64>,
}

/// Abstract album group.
pub struct GroupView {
    pub key: Option<Seq<char>>,
    pub artist_id: Option<i64>,
    pub members: Seq<i64>,
}

impl View for AlbumGroup {
    type V = GroupView;

    open spec fn view(&self) -> GroupView {
        GroupView { key: opt_chars(self.key), artist_id: self.artist_id, members: self.members@ }
    }
}

/// Two artist keys are compatible when equal or when either is unknown.
pub open spec fn keys_compatible(a: Option<Seq<char>>, b: Option<Seq<char>>) -> bool {
    match (a, b) {
        (Some(x), Some(y)) => x == y,
        _ => true,
    }
}

/// The first group, from index `i` on, whose key is compatible with `key`.
pub open spec fn first_compatible_from(groups: Seq<GroupView>, key: Option<Seq<char>>, i: int) -> Option<int>
    decreases groups.len() - i,
{
    if i < 0 || i >= groups.len() {
        None
    } else if keys_compatible(groups[i].key, key) {
        Some(i)
    } else {
        first_compatible_from(groups, key, i + 1)
    }
}

/// `groups` after one more album: it joins the first compatible group
/// (filling in the group's key and artist id when those are still unknown)
/// or starts a new group.
pub open spec fn add_to_groups(
    groups: Seq<GroupView>,
    id: i64,
    artist_id: Option<i64>,
    key: Option<Seq<char>>,
) -> Seq<GroupView> {
    match first_compatible_from(groups, key, 0) {
        Some(g) => groups.update(
            g,
            GroupView {
                key: if groups[g].key is None {
                    key
                } else {
                    groups[g].key
                },
                artist_id: if groups[g].artist_id is None {
                    artist_id
                } else {
                    groups[g].artist_id
                },
                members: groups[g].members.push(id),
            },
        ),
        None => groups.push(GroupView { key, artist_id, members: seq![id] }),
    }
}

/// The candidates grouped in order, each keyed by `artist_key` of its credit line.
pub open spec fn grouped(albums: Seq<AlbumCandidate>) -> Seq<GroupView>
    decreases albums.len(),
{
    if albums.len() == 0 {
        Seq::empty()
    } else {
        let a = albums.last();
        add_to_groups(
            grouped(albums.drop_last()),
            a.id,
            a.artist_id,
            artist_key(opt_chars(a.artist_name)),
        )
    }
}

/// The first compatible group found is a compatible group.
proof fn lemma_first_compatible(groups: Seq<GroupView>, key: Option<Seq<char>>, i: int)
    requires
        0 <= i,
    ensures
        match first_compatible_from(groups, key, i) {
            Some(j) => i <= j < groups.len() && keys_compatible(groups[j].key, key),
            None => true,
        },
    decreases groups.len() - i,
{
    if i < groups.len() && !keys_compatible(groups[i].key, key) {
        lemma_first_compatible(groups, key, i + 1);
    }
}

/// The group that album `k` of `albums` was placed in, with its key kept.
pub open spec fn placed_in(albums: Seq<AlbumCandidate>, groups: Seq<GroupView>, k: int, g: int) -> bool {
    &&& 0 <= g < groups.len()
    &&& groups[g].members.contains(albums[k].id)
    &&& (artist_key(opt_chars(albums[k].artist_name)) matches Some(x) ==> groups[g].key == Some(x))
}

/// Grouping loses no album and never mixes two known artists: every album
/// sits in a group, and an album with a known artist key sits in a group
/// whose key is that key, so two albums of different known artists never
/// share a group.
pub proof fn law_grouping_keeps_artists_apart(albums: Seq<AlbumCandidate>, k: int)
    requires
        0 <= k < albums.len(),
    ensures
        exists|g: int| placed_in(albums, grouped(albums), k, g),
    decreases albums.len(),
{
    let prev = albums.drop_last();
    let gs = grouped(prev);
    let a = albums.last();
    let key = artist_key(opt_chars(a.artist_name));
    let after = grouped(albums);
    assert(after == add_to_groups(gs, a.id, a.artist_id, key));
    lemma_first_compatible(gs, key, 0);
    if k < albums.len() - 1 {
        law_grouping_keeps_artists_apart(prev, k);
        let g = choose|g: int| placed_in(prev, gs, k, g);
        assert(prev[k] == albums[k]);
        match first_compatible_from(gs, key, 0) {
            Some(j) => {
                if j == g {
                    assert(after[g].members == gs[g].members.push(a.id));
                    assert(after[g].members[gs[g].members.index_of(albums[k].id)] == albums[k].id);
                } else {
                    assert(after[g] == gs[g]);
                }
                assert(placed_in(albums, after, k, g));
            },
            None => {
                assert(after[g] == gs[g]);
                assert(placed_in(albums, after, k, g));
            },
        }
    } else {
        match first_compatible_from(gs, key, 0) {
            Some(j) => {
                let m = after[j].members;
                assert(m == gs[j].members.push(a.id));
                assert(m[m.len() - 1] == a.id);
                assert(placed_in(albums, after, k, j));
            },
            None => {
                let n = gs.len() as int;
                assert(after[n].members == seq![a.id]);
                assert(after[n].members[0] == a.id);
                assert(placed_in(albums, after, k, n));
            },
        }
    }
}

/// How many albums the groups hold together.
pub open spec fn member_count(groups: Seq<GroupView>) -> nat
    decreases groups.len(),
{
    if groups.len() == 0 {
        0
    } else {
        member_count(groups.drop_last()) + groups.last().members.len()
    }
}

proof fn lemma_member_count_update(groups: Seq<GroupView>, j: int, g: GroupView)
    requires
        0 <= j < groups.len(),
        g.members.len() == groups[j].members.len() + 1,
    ensures
        member_count(groups.update(j, g)) == member_count(groups) + 1,
    decreases groups.len(),
{
    let u = groups.update(j, g);
    if j < groups.len() - 1 {
        lemma_member_count_update(groups.drop_last(), j, g);
        assert(u.drop_last() =~= groups.drop_last().update(j, g));
    } else {
        assert(u.drop_last() =~= groups.drop_last());
    }
}

/// Grouping places each album exactly once: the groups together hold as
/// many members as there were albums, and no group is empty.
pub proof fn law_grouping_counts_every_album(albums: Seq<AlbumCandidate>)
    ensures
        member_count(grouped(albums)) == albums.len(),
        forall|g: int| 0 <= g < grouped(albums).len() ==> #[trigger] grouped(albums)[g].members.len() > 0,
    decreases albums.len(),
{
    if albums.len() > 0 {
        let prev = albums.drop_last();
        let gs = grouped(prev);
        let a = albums.last();
        let key = artist_key(opt_chars(a.artist_name));
        law_grouping_counts_every_album(prev);
        lemma_first_compatible(gs, key, 0);
        let after = grouped(albums);
        match first_compatible_from(gs, key, 0) {
            Some(j) => {
                let ng = after[j];
                assert(after == gs.update(j, ng));
                lemma_member_count_update(gs, j, ng);
                assert forall|g: int| 0 <= g < after.len() implies #[trigger] after[g].members.len() > 0 by {
                    if g != j {
                        assert(after[g] == gs[g]);
                    }
                }
            },
            None => {
                assert(after == gs.push(GroupView { key, artist_id: a.artist_id, members: seq![a.id] }));
                assert(after.drop_last() =~= gs);
                assert forall|g: int| 0 <= g < after.len() implies #[trigger] after[g].members.len() > 0 by {
                    if g < gs.len() {
                        assert(after[g] == gs[g]);
                    }
                }
            },
        }
    }
}

fn opt_clone(o: &Option<String>) -> (r: Option<String>)
    ensures
        opt_chars(r) == opt_chars(*o),
{
    match o {
        Some(s) => Some(s.clone()),
        None => None,
    }
}

fn opt_as_str(o: &Option<String>) -> (r: Option<&str>)
    ensures
        opt_str(r) == opt_chars(*o),
{
    match o {
        Some(s) => Some(s.as_str()),
        None => None,
    }
}

fn keys_compatible_exec(a: &Option<String>, b: &Option<String>) -> (r: bool)
    ensures
        r == keys_compatible(opt_chars(*a), opt_chars(*b)),
{
    match (a, b) {
        (Some(x), Some(y)) => {
            let xv = chars_of(x.as_str());
            let yv = chars_of(y.as_str());
            chars_eq(xv.as_slice(), yv.as_slice())
        },
        _ => true,
    }
}

/// Partitions same-titled albums into groups of compatible artists: an
/// album joins the first group whose artist key equals its own, or either
/// of which is unknown; otherwise it starts a new group. Within a group the
/// input order is kept, so the first member is the one to keep.
pub fn group_albums_by_artist(albums: &Vec<AlbumCandidate>) -> (r: Vec<AlbumGroup>)
    ensures
        r@.map_values(|g: AlbumGroup| g@) == grouped(albums@),
{
    let mut groups: Vec<AlbumGroup> = Vec::new();
    let mut i: usize = 0;
    while i < albums.len()
        invariant
            i <= albums@.len(),
            groups@.map_values(|g: AlbumGroup| g@) == grouped(albums@.take(i as int)),
        decreases albums@.len() - i,
    {
        let a = &albums[i];
        let key = primary_artist_key(opt_as_str(&a.artist_name));
        let ghost gv = groups@.map_values(|g: AlbumGroup| g@);
        let mut g: usize = 0;
        while g < groups.len() && !keys_compatible_exec(&groups[g].key, &key)
            invariant
                g <= groups@.len(),
                gv == groups@.map_values(|g: AlbumGroup| g@),
                first_compatible_from(gv, opt_chars(key), 0) == first_compatible_from(
                    gv,
                    opt_chars(key),
                    g as int,
                ),
            decreases groups@.len() - g,
        {
            g = g + 1;
        }
        if g < groups.len() {
            assert(first_compatible_from(gv, opt_chars(key), 0) == Some(g as int));
            assert(gv[g as int] == groups@[g as int]@);
            let old_key = opt_clone(&groups[g].key);
            let new_key = if old_key.is_none() {
                key
            } else {
                old_key
            };
            let new_artist = if groups[g].artist_id.is_none() {
                a.artist_id
            } else {
                groups[g].artist_id
            };
            let mut members = groups[g].members.clone();
            assert(members@ =~= gv[g as int].members);
            members.push(a.id);
            let ghost before = groups@;
            groups.set(g, AlbumGroup { key: new_key, artist_id: new_artist, members });
            proof {
                let expected = add_to_groups(gv, a.id, a.artist_id, opt_chars(key));
                assert forall|k: int| 0 <= k < groups@.len() implies #[trigger] groups@[k]@
                    == expected[k] by {
                    if k != g {
                        assert(groups@[k] == before[k]);
                    }
                }
                assert(groups@.map_values(|g: AlbumGroup| g@) =~= expected);
            }
        } else {
            assert(first_compatible_from(gv, opt_chars(key), 0) is None);
            let ghost before = groups@;
            let one = vec![a.id];
            assert(one@ =~= seq![a.id]);
            groups.push(AlbumGroup { key, artist_id: a.artist_id, members: one });
            proof {
                let expected = add_to_groups(gv, a.id, a.artist_id, opt_chars(key));
                assert forall|k: int| 0 <= k < groups@.len() implies #[trigger] groups@[k]@
                    == expected[k] by {
                    if k < before.len() {
                        assert(groups@[k] == before[k]);
                    }
                }
                assert(groups@.map_values(|g: AlbumGroup| g@) =~= expected);
            }
        }
        proof {
            assert(albums@.take(i + 1).drop_last() =~= albums@.take(i as int));
            assert(albums@.take(i + 1).last() == albums@[i as int]);
            let expected = grouped(albums@.take(i + 1));
            assert(groups@.map_values(|g: AlbumGroup| g@) =~= expected);
        }
        i = i + 1;
    }
    assert(albums@.take(albums@.len() as int) =~= albums@);
    groups
}

} // verus!
