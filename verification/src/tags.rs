//! Track tags: reading and writing their JSON lists, merging new tags in,
//! the consensus tags of an album, and why a track does not fit its album.

use crate::genres::{artist_matches, genres_compatible, spec_artist_matches, spec_genres_compatible};
use crate::text::{chars_eq, chars_of, lowercase_chars, opt_chars, string_of, unicode_lowercase};
use vstd::prelude::*;

verus! {

/// The list of strings that `serde_json` reads from a JSON text, or `None`
/// when the text is not a JSON array of strings.
pub uninterp spec fn json_string_list(text: Seq<char>) -> Option<Seq<Seq<char>>>;

/// The JSON text that `serde_json` writes for a list of strings.
pub uninterp spec fn json_of_strings(items: Seq<Seq<char>>) -> Seq<char>;

/// The characters of each string.
pub open spec fn views(v: Seq<String>) -> Seq<Seq<char>> {
    v.map_values(|s: String| s@)
}

/// `serde_json::from_str::<Vec<String>>`; its error becomes `None`. Claimed:
/// the result is the named reading of the text.
#[verifier::external_body]
fn parse_json_string_list(text: &str) -> (r: Option<Vec<String>>)
    ensures
        match r {
            Some(v) => json_string_list(text@) == Some(views(v@)),
            None => json_string_list(text@) is None,
        },
{
    serde_json::from_str::<Vec<String>>(text).ok()
}

/// `serde_json::to_string` of a list of strings. Claimed: it succeeds and
/// gives the named JSON form of the list. Its only errors come from a
/// failing `Serialize` impl or from the writer, and neither `String`, `Vec`
/// nor the in-memory `Vec<u8>` writer it uses ever fails.
#[verifier::external_body]
fn json_string_list_text(items: &Vec<String>) -> (r: Option<String>)
    ensures
        r is Some,
        r matches Some(s) ==> s@ == json_of_strings(views(items@)),
{
    serde_json::to_string(items).ok()
}

/// The tags stored as a JSON list: none when absent or unreadable.
pub open spec fn spec_parse_tags(tags_json: Option<Seq<char>>) -> Seq<Seq<char>> {
    match tags_json {
        Some(s) => match json_string_list(s) {
            Some(l) => l,
            None => Seq::empty(),
        },
        None => Seq::empty(),
    }
}

/// Reads a track's JSON tag list.
pub fn parse_tags(tags_json: &Option<String>) -> (r: Vec<String>)
    ensures
        views(r@) == spec_parse_tags(opt_chars(*tags_json)),
{
    match tags_json {
        Some(s) => match parse_json_string_list(s.as_str()) {
            Some(v) => v,
            None => {
                let v: Vec<String> = Vec::new();
                assert(views(v@) =~= Seq::<Seq<char>>::empty());
                v
            },
        },
        None => {
            let v: Vec<String> = Vec::new();
            assert(views(v@) =~= Seq::<Seq<char>>::empty());
            v
        },
    }
}

/// Some element of `l` equals `t` once both are lowercase.
pub open spec fn has_tag_ci(l: Seq<Seq<char>>, t: Seq<char>) -> bool {
    exists|k: int| 0 <= k < l.len() && unicode_lowercase(#[trigger] l[k]) == unicode_lowercase(t)
}

fn has_tag_ci_exec(l: &Vec<String>, t: &str) -> (r: bool)
    ensures
        r == has_tag_ci(views(l@), t@),
{
    let tv = chars_of(t);
    let tl = lowercase_chars(tv.as_slice());
    let mut k: usize = 0;
    while k < l.len()
        invariant
            k <= l@.len(),
            tl@ == unicode_lowercase(t@),
            forall|j: int| 0 <= j < k ==> unicode_lowercase(#[trigger] views(l@)[j]) != unicode_lowercase(t@),
        decreases l@.len() - k,
    {
        let cv = chars_of(l[k].as_str());
        let cl = lowercase_chars(cv.as_slice());
        if chars_eq(cl.as_slice(), tl.as_slice()) {
            assert(views(l@)[k as int] == l@[k as int]@);
            return true;
        }
        k = k + 1;
    }
    false
}

/// Two tag lists overlap when, ignoring case, they share a tag; an empty
/// list cannot be compared and counts as overlapping.
pub open spec fn spec_tags_overlap(a: Seq<Seq<char>>, b: Seq<Seq<char>>) -> bool {
    a.len() == 0 || b.len() == 0 || exists|j: int| 0 <= j < b.len() && has_tag_ci(a, #[trigger] b[j])
}

/// Whether two tag lists share a tag, ignoring case.
pub fn tags_overlap(tags_a: &Vec<String>, tags_b: &Vec<String>) -> (r: bool)
    ensures
        r == spec_tags_overlap(views(tags_a@), views(tags_b@)),
{
    if tags_a.len() == 0 || tags_b.len() == 0 {
        return true;
    }
    let mut j: usize = 0;
    while j < tags_b.len()
        invariant
            j <= tags_b@.len(),
            forall|k: int| 0 <= k < j ==> !has_tag_ci(views(tags_a@), #[trigger] views(tags_b@)[k]),
        decreases tags_b@.len() - j,
    {
        if has_tag_ci_exec(tags_a, tags_b[j].as_str()) {
            assert(views(tags_b@)[j as int] == tags_b@[j as int]@);
            return true;
        }
        j = j + 1;
    }
    false
}

/// `existing` with the new tags appended in order, each only when no tag
/// already present equals it ignoring case.
pub open spec fn spec_merge_tags(existing: Seq<Seq<char>>, new_tags: Seq<Seq<char>>) -> Seq<Seq<char>>
    decreases new_tags.len(),
{
    if new_tags.len() == 0 {
        existing
    } else {
        let m = spec_merge_tags(existing, new_tags.drop_last());
        if has_tag_ci(m, new_tags.last()) {
            m
        } else {
            m.push(new_tags.last())
        }
    }
}

/// Merges new tags into a list, skipping case-insensitive duplicates.
pub fn merge_tag_lists(existing: Vec<String>, new_tags: &Vec<String>) -> (r: Vec<String>)
    ensures
        views(r@) == spec_merge_tags(views(existing@), views(new_tags@)),
{
    let mut all = existing;
    let ghost start = views(all@);
    let mut i: usize = 0;
    while i < new_tags.len()
        invariant
            i <= new_tags@.len(),
            views(all@) == spec_merge_tags(start, views(new_tags@).take(i as int)),
        decreases new_tags@.len() - i,
    {
        assert(views(new_tags@).take(i + 1).drop_last() =~= views(new_tags@).take(i as int));
        assert(views(new_tags@).take(i + 1).last() == new_tags@[i as int]@);
        if !has_tag_ci_exec(&all, new_tags[i].as_str()) {
            all.push(new_tags[i].clone());
            assert(views(all@) =~= spec_merge_tags(start, views(new_tags@).take(i + 1)));
        }
        i = i + 1;
    }
    assert(views(new_tags@).take(i as int) =~= views(new_tags@));
    all
}

/// The JSON tag list to store after merging new tags into the stored one:
/// `None` when the merged list is empty (nothing is written).
pub fn merged_tags_json(existing_json: &Option<String>, new_tags: &Vec<String>) -> (r: Option<String>)
    ensures
        match r {
            Some(s) => spec_merge_tags(spec_parse_tags(opt_chars(*existing_json)), views(new_tags@)).len() > 0
                && s@ == json_of_strings(spec_merge_tags(spec_parse_tags(opt_chars(*existing_json)), views(new_tags@))),
            None => spec_merge_tags(spec_parse_tags(opt_chars(*existing_json)), views(new_tags@)).len() == 0,
        },
{
    let existing = parse_tags(existing_json);
    let all = merge_tag_lists(existing, new_tags);
    if all.len() == 0 {
        return None;
    }
    json_string_list_text(&all)
}

/// Every tag of every track, lowercase, in order.
pub open spec fn lowered_tags(all: Seq<Seq<Seq<char>>>) -> Seq<Seq<char>>
    decreases all.len(),
{
    if all.len() == 0 {
        Seq::empty()
    } else {
        lowered_tags(all.drop_last()) + all.last().map_values(|t: Seq<char>| unicode_lowercase(t))
    }
}

/// How often `t` occurs in `s`.
pub open spec fn occurrences(s: Seq<Seq<char>>, t: Seq<char>) -> nat
    decreases s.len(),
{
    if s.len() == 0 {
        0
    } else {
        occurrences(s.drop_last(), t) + if s.last() == t {
            1nat
        } else {
            0nat
        }
    }
}

/// The number of tag occurrences that makes a tag consensus for an album of
/// `n` tracks: 30% of them, but at least 2.
pub open spec fn consensus_threshold(n: nat) -> nat {
    if n * 30 / 100 > 2 {
        n * 30 / 100
    } else {
        2
    }
}

fn count_in(s: &Vec<Vec<char>>, t: &Vec<char>) -> (r: usize)
    ensures
        r == occurrences(s@.map_values(|v: Vec<char>| v@), t@),
{
    let ghost sv = s@.map_values(|v: Vec<char>| v@);
    let mut c: usize = 0;
    let mut k: usize = 0;
    while k < s.len()
        invariant
            k <= s@.len(),
            sv == s@.map_values(|v: Vec<char>| v@),
            c == occurrences(sv.take(k as int), t@),
            c <= k,
        decreases s@.len() - k,
    {
        assert(sv.take(k + 1).drop_last() =~= sv.take(k as int));
        if chars_eq(s[k].as_slice(), t.as_slice()) {
            c = c + 1;
        }
        k = k + 1;
    }
    assert(sv.take(k as int) =~= sv);
    c
}

/// The album's consensus tags: the lowercase tags occurring at least
/// `consensus_threshold(track_count)` times over all its tracks, each once.
pub fn consensus_tags(all_tags: &Vec<Vec<String>>, track_count: usize) -> (r: Vec<String>)
    requires
        track_count * 30 <= usize::MAX,
    ensures
        views(r@).no_duplicates(),
        forall|t: Seq<char>| #![trigger views(r@).contains(t)]
            views(r@).contains(t) <==> (lowered_tags(all_tags@.map_values(|v: Vec<String>| views(v@))).contains(t)
                && occurrences(lowered_tags(all_tags@.map_values(|v: Vec<String>| views(v@))), t) >= consensus_threshold(track_count as nat)),
{
    let ghost allv = all_tags@.map_values(|v: Vec<String>| views(v@));
    // every tag, lowercase, in order
    let mut flat: Vec<Vec<char>> = Vec::new();
    let mut i: usize = 0;
    while i < all_tags.len()
        invariant
            i <= all_tags@.len(),
            allv == all_tags@.map_values(|v: Vec<String>| views(v@)),
            flat@.map_values(|v: Vec<char>| v@) == lowered_tags(allv.take(i as int)),
        decreases all_tags@.len() - i,
    {
        let tags = &all_tags[i];
        let ghost before = flat@.map_values(|v: Vec<char>| v@);
        let mut j: usize = 0;
        while j < tags.len()
            invariant
                j <= tags@.len(),
                flat@.map_values(|v: Vec<char>| v@) == before + views(tags@).take(j as int).map_values(|t: Seq<char>| unicode_lowercase(t)),
            decreases tags@.len() - j,
        {
            let cv = chars_of(tags[j].as_str());
            let low = lowercase_chars(cv.as_slice());
            assert(views(tags@)[j as int] == tags@[j as int]@);
            let ghost fb = flat@;
            flat.push(low);
            assert(flat@.map_values(|v: Vec<char>| v@) =~= fb.map_values(|v: Vec<char>| v@).push(low@));
            assert(views(tags@).take(j + 1) =~= views(tags@).take(j as int).push(views(tags@)[j as int]));
            j = j + 1;
            assert(flat@.map_values(|v: Vec<char>| v@) =~= before + views(tags@).take(j as int).map_values(|t: Seq<char>| unicode_lowercase(t)));
        }
        assert(views(tags@).take(j as int) =~= views(tags@));
        assert(allv.take(i + 1).drop_last() =~= allv.take(i as int));
        assert(allv.take(i + 1).last() == views(tags@));
        i = i + 1;
        assert(flat@.map_values(|v: Vec<char>| v@) =~= lowered_tags(allv.take(i as int)));
    }
    assert(allv.take(i as int) =~= allv);
    let ghost fv = flat@.map_values(|v: Vec<char>| v@);
    let thr: usize = if track_count * 30 / 100 > 2 {
        track_count * 30 / 100
    } else {
        2
    };
    let mut r: Vec<String> = Vec::new();
    let mut k: usize = 0;
    while k < flat.len()
        invariant
            k <= flat@.len(),
            fv == flat@.map_values(|v: Vec<char>| v@),
            thr == consensus_threshold(track_count as nat),
            views(r@).no_duplicates(),
            forall|t: Seq<char>| #![trigger views(r@).contains(t)]
                views(r@).contains(t) <==> (fv.take(k as int).contains(t) && occurrences(fv, t) >= thr),
        decreases flat@.len() - k,
    {
        let t = &flat[k];
        assert(t@ == fv[k as int]);
        let seen = {
            let mut m: usize = 0;
            let mut found = false;
            while m < k
                invariant
                    m <= k < flat@.len(),
                    fv == flat@.map_values(|v: Vec<char>| v@),
                    found <==> fv.take(m as int).contains(fv[k as int]),
                    t@ == fv[k as int],
                decreases k - m,
            {
                assert(fv[m as int] == flat@[m as int]@);
                if chars_eq(flat[m].as_slice(), t.as_slice()) {
                    found = true;
                    assert(fv.take(m + 1)[m as int] == fv[k as int]);
                }
                assert(fv.take(m + 1) =~= fv.take(m as int).push(fv[m as int]));
                m = m + 1;
            }
            found
        };
        let c = count_in(&flat, t);
        let ghost before = views(r@);
        if !seen && c >= thr {
            r.push(string_of(t.as_slice()));
            proof {
                assert(views(r@) =~= before.push(fv[k as int]));
                assert(!before.contains(fv[k as int]));
            }
        }
        proof {
            assert(fv.take(k + 1) =~= fv.take(k as int).push(fv[k as int]));
            let fk = fv.take(k as int);
            assert forall|x: Seq<char>| #![trigger views(r@).contains(x)]
                views(r@).contains(x) <==> (fv.take(k + 1).contains(x) && occurrences(fv, x) >= thr) by {
                lemma_push_contains(fk, fv[k as int], x);
                lemma_push_contains(before, fv[k as int], x);
                assert(before.contains(x) <==> (fk.contains(x) && occurrences(fv, x) >= thr));
                if !seen && c >= thr {
                    assert(views(r@) == before.push(fv[k as int]));
                } else {
                    assert(views(r@) == before);
                }
            }
        }
        k = k + 1;
    }
    assert(fv.take(k as int) =~= fv);
    r
}

proof fn lemma_push_contains(s: Seq<Seq<char>>, a: Seq<char>, x: Seq<char>)
    ensures
        s.push(a).contains(x) <==> (s.contains(x) || x == a),
{
    if s.contains(x) {
        let w = choose|w: int| 0 <= w < s.len() && s[w] == x;
        assert(s.push(a)[w] == x);
    }
    if x == a {
        assert(s.push(a)[s.len() as int] == x);
    }
    if s.push(a).contains(x) {
        let w = choose|w: int| 0 <= w < s.push(a).len() && s.push(a)[w] == x;
        if w < s.len() {
            assert(s[w] == x);
        }
    }
}

/// Why a track does not fit its album: its artist does not match the
/// album's, its genre belongs to another family, or its tags share nothing
/// with the album's consensus tags. Poorly enriched tracks (completeness
/// below 30) are not judged.
pub open spec fn spec_mismatch_reasons(
    completeness: i64,
    track_artist: Option<Seq<char>>,
    album_artist: Option<Seq<char>>,
    track_genre: Option<Seq<char>>,
    album_genre: Option<Seq<char>>,
    track_tags: Seq<Seq<char>>,
    consensus: Seq<Seq<char>>,
) -> Seq<Seq<char>> {
    if completeness < 30 {
        Seq::empty()
    } else {
        let r1: Seq<Seq<char>> = match (track_artist, album_artist) {
            (Some(ta), Some(aa)) => if ta.len() > 0 && aa.len() > 0 && !spec_artist_matches(ta, aa) {
                seq!["Artist '"@ + ta + "' doesn't match album artist '"@ + aa + "'"@]
            } else {
                Seq::empty()
            },
            _ => Seq::empty(),
        };
        let r2: Seq<Seq<char>> = match (track_genre, album_genre) {
            (Some(tg), Some(ag)) => if tg.len() > 0 && ag.len() > 0 && !spec_genres_compatible(tg, ag) {
                r1.push("Genre '"@ + tg + "' doesn't match album genre '"@ + ag + "'"@)
            } else {
                r1
            },
            _ => r1,
        };
        if consensus.len() > 0 && track_tags.len() > 0 && !spec_tags_overlap(track_tags, consensus) {
            r2.push("Track tags have no overlap with album consensus tags"@)
        } else {
            r2
        }
    }
}

/// The reasons a track is reported as not belonging on its album (none
/// when it fits).
pub fn mismatch_reasons(
    completeness: i64,
    track_artist: &Option<String>,
    album_artist: &Option<String>,
    track_genre: &Option<String>,
    album_genre: &Option<String>,
    track_tags: &Vec<String>,
    consensus: &Vec<String>,
) -> (r: Vec<String>)
    ensures
        views(r@) == spec_mismatch_reasons(
            completeness,
            opt_chars(*track_artist),
            opt_chars(*album_artist),
            opt_chars(*track_genre),
            opt_chars(*album_genre),
            views(track_tags@),
            views(consensus@),
        ),
{
    let mut reasons: Vec<String> = Vec::new();
    if completeness < 30 {
        assert(views(reasons@) =~= Seq::<Seq<char>>::empty());
        return reasons;
    }
    match (track_artist, album_artist) {
        (Some(ta), Some(aa)) => {
            if !ta.as_str().is_empty() && !aa.as_str().is_empty() && !artist_matches(ta.as_str(), aa.as_str()) {
                let mut s = String::from_str("Artist '");
                s.append(ta.as_str());
                s.append("' doesn't match album artist '");
                s.append(aa.as_str());
                s.append("'");
                reasons.push(s);
            }
        },
        _ => {},
    }
    match (track_genre, album_genre) {
        (Some(tg), Some(ag)) => {
            if !tg.as_str().is_empty() && !ag.as_str().is_empty() && !genres_compatible(tg.as_str(), ag.as_str()) {
                let mut s = String::from_str("Genre '");
                s.append(tg.as_str());
                s.append("' doesn't match album genre '");
                s.append(ag.as_str());
                s.append("'");
                reasons.push(s);
            }
        },
        _ => {},
    }
    if consensus.len() > 0 && track_tags.len() > 0 && !tags_overlap(track_tags, consensus) {
        reasons.push(String::from_str("Track tags have no overlap with album consensus tags"));
    }
    assert(views(reasons@) =~= spec_mismatch_reasons(
        completeness,
        opt_chars(*track_artist),
        opt_chars(*album_artist),
        opt_chars(*track_genre),
        opt_chars(*album_genre),
        views(track_tags@),
        views(consensus@),
    ));
    reasons
}

} // verus!
