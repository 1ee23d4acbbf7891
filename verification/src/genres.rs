//! Genre families and the artist/genre/tag comparisons used to spot tracks
//! that do not belong on their album.

use crate::text::{
    chars_eq, chars_eq_str, chars_of, contains, contains_chars, lowercase_chars, starts_with,
    starts_with_chars, unicode_lowercase,
};
use vstd::prelude::*;

verus! {

/// Genre families for fuzzy matching (lowercase names).
pub open spec fn genre_families() -> Seq<Seq<Seq<char>>> {
    seq![
        seq!["hip hop"@, "hip-hop"@, "rap"@, "trap"@, "gangsta rap"@, "boom bap"@, "dirty south"@, "conscious hip hop"@, "g-funk"@, "crunk"@, "southern hip hop"@, "west coast hip hop"@, "east coast hip hop"@],
        seq!["rock"@, "hard rock"@, "alternative rock"@, "indie rock"@, "punk rock"@, "garage rock"@, "psychedelic rock"@, "progressive rock"@, "grunge"@, "post-punk"@, "new wave"@],
        seq!["metal"@, "heavy metal"@, "death metal"@, "black metal"@, "thrash metal"@, "doom metal"@, "metalcore"@, "nu metal"@, "power metal"@, "symphonic metal"@, "progressive metal"@, "deathcore"@],
        seq!["pop"@, "synth-pop"@, "dance-pop"@, "electropop"@, "indie pop"@, "dream pop"@, "art pop"@, "k-pop"@, "j-pop"@, "bubblegum pop"@, "teen pop"@],
        seq!["electronic"@, "edm"@, "house"@, "techno"@, "trance"@, "dubstep"@, "drum and bass"@, "ambient"@, "idm"@, "downtempo"@, "electro"@],
        seq!["r&b"@, "rnb"@, "rhythm and blues"@, "neo soul"@, "soul"@, "funk"@, "contemporary r&b"@, "motown"@, "new jack swing"@],
        seq!["jazz"@, "smooth jazz"@, "bebop"@, "free jazz"@, "jazz fusion"@, "swing"@, "cool jazz"@, "acid jazz"@],
        seq!["classical"@, "baroque"@, "romantic"@, "contemporary classical"@, "opera"@, "orchestral"@, "chamber music"@, "minimalism"@],
        seq!["country"@, "country rock"@, "alt-country"@, "bluegrass"@, "americana"@, "outlaw country"@, "country pop"@],
        seq!["reggae"@, "dancehall"@, "dub"@, "ska"@, "ragga"@, "roots reggae"@, "lovers rock"@],
        seq!["blues"@, "delta blues"@, "electric blues"@, "chicago blues"@, "blues rock"@],
        seq!["latin"@, "salsa"@, "reggaeton"@, "bossa nova"@, "cumbia"@, "bachata"@, "latin pop"@, "merengue"@, "latin rock"@],
        seq!["folk"@, "indie folk"@, "folk rock"@, "acoustic"@, "singer-songwriter"@, "traditional folk"@],
    ]
}

fn genre_table() -> (t: Vec<Vec<&'static str>>)
    ensures
        t@.len() == genre_families().len(),
        forall|i: int|
            #![trigger t@[i]]
            0 <= i < t@.len() ==> t@[i]@.len() == genre_families()[i].len() && forall|j: int|
                0 <= j < t@[i]@.len() ==> (#[trigger] t@[i]@[j])@ == genre_families()[i][j],
{
    vec![
        vec!["hip hop", "hip-hop", "rap", "trap", "gangsta rap", "boom bap", "dirty south", "conscious hip hop", "g-funk", "crunk", "southern hip hop", "west coast hip hop", "east coast hip hop"],
        vec!["rock", "hard rock", "alternative rock", "indie rock", "punk rock", "garage rock", "psychedelic rock", "progressive rock", "grunge", "post-punk", "new wave"],
        vec!["metal", "heavy metal", "death metal", "black metal", "thrash metal", "doom metal", "metalcore", "nu metal", "power metal", "symphonic metal", "progressive metal", "deathcore"],
        vec!["pop", "synth-pop", "dance-pop", "electropop", "indie pop", "dream pop", "art pop", "k-pop", "j-pop", "bubblegum pop", "teen pop"],
        vec!["electronic", "edm", "house", "techno", "trance", "dubstep", "drum and bass", "ambient", "idm", "downtempo", "electro"],
        vec!["r&b", "rnb", "rhythm and blues", "neo soul", "soul", "funk", "contemporary r&b", "motown", "new jack swing"],
        vec!["jazz", "smooth jazz", "bebop", "free jazz", "jazz fusion", "swing", "cool jazz", "acid jazz"],
        vec!["classical", "baroque", "romantic", "contemporary classical", "opera", "orchestral", "chamber music", "minimalism"],
        vec!["country", "country rock", "alt-country", "bluegrass", "americana", "outlaw country", "country pop"],
        vec!["reggae", "dancehall", "dub", "ska", "ragga", "roots reggae", "lovers rock"],
        vec!["blues", "delta blues", "electric blues", "chicago blues", "blues rock"],
        vec!["latin", "salsa", "reggaeton", "bossa nova", "cumbia", "bachata", "latin pop", "merengue", "latin rock"],
        vec!["folk", "indie folk", "folk rock", "acoustic", "singer-songwriter", "traditional folk"],
    ]
}

/// The first family, from index `i` on, that lists `g` exactly.
pub open spec fn family_listing_from(g: Seq<char>, i: int) -> Option<int>
    decreases genre_families().len() - i,
{
    if i < 0 || i >= genre_families().len() {
        None
    } else if genre_families()[i].contains(g) {
        Some(i)
    } else {
        family_listing_from(g, i + 1)
    }
}

/// The family holds a name, other than `g` itself, that occurs inside `g`.
pub open spec fn family_word_inside(fam: Seq<Seq<char>>, g: Seq<char>) -> bool {
    exists|j: int| 0 <= j < fam.len() && g != fam[j] && contains(g, #[trigger] fam[j])
}

/// The first family, from index `i` on, one of whose names occurs inside `g`.
pub open spec fn family_inside_from(g: Seq<char>, i: int) -> Option<int>
    decreases genre_families().len() - i,
{
    if i < 0 || i >= genre_families().len() {
        None
    } else if family_word_inside(genre_families()[i], g) {
        Some(i)
    } else {
        family_inside_from(g, i + 1)
    }
}

/// The family of a genre: the first family listing the lowercase genre
/// exactly; failing that, the first family one of whose names occurs
/// inside it ("post-rock" is rock); `None` when neither applies.
pub open spec fn spec_genre_family(genre: Seq<char>) -> Option<int> {
    let lower = unicode_lowercase(genre);
    match family_listing_from(lower, 0) {
        Some(i) => Some(i),
        None => family_inside_from(lower, 0),
    }
}

fn family_lists(fam: &Vec<&'static str>, g: &[char]) -> (r: bool)
    ensures
        r == fam@.map_values(|s: &str| s@).contains(g@),
{
    let ghost fv = fam@.map_values(|s: &str| s@);
    let mut j: usize = 0;
    while j < fam.len()
        invariant
            j <= fam@.len(),
            fv == fam@.map_values(|s: &str| s@),
            forall|k: int| 0 <= k < j ==> fv[k] != g@,
        decreases fam@.len() - j,
    {
        if chars_eq_str(g, fam[j]) {
            assert(fv[j as int] == g@);
            return true;
        }
        j = j + 1;
    }
    false
}

fn family_inside(fam: &Vec<&'static str>, g: &[char]) -> (r: bool)
    ensures
        r == family_word_inside(fam@.map_values(|s: &str| s@), g@),
{
    let ghost fv = fam@.map_values(|s: &str| s@);
    let mut j: usize = 0;
    while j < fam.len()
        invariant
            j <= fam@.len(),
            fv == fam@.map_values(|s: &str| s@),
            forall|k: int| 0 <= k < j ==> !(g@ != fv[k] && contains(g@, #[trigger] fv[k])),
        decreases fam@.len() - j,
    {
        let w = chars_of(fam[j]);
        assert(w@ == fv[j as int]);
        if !chars_eq(g, w.as_slice()) && contains_chars(g, w.as_slice()) {
            return true;
        }
        j = j + 1;
    }
    false
}

proof fn lemma_table_family(t: Seq<Vec<&'static str>>, i: int)
    requires
        t.len() == genre_families().len(),
        0 <= i < t.len(),
        t[i]@.len() == genre_families()[i].len(),
        forall|j: int| 0 <= j < t[i]@.len() ==> (#[trigger] t[i]@[j])@ == genre_families()[i][j],
    ensures
        t[i]@.map_values(|s: &str| s@) == genre_families()[i],
{
    assert(t[i]@.map_values(|s: &str| s@) =~= genre_families()[i]);
}

/// The family index of a genre, or `None` for a genre of no known family.
pub fn genre_family(genre: &str) -> (r: Option<usize>)
    ensures
        r matches Some(i) ==> spec_genre_family(genre@) == Some(i as int),
        r is None ==> spec_genre_family(genre@) is None,
{
    let g = chars_of(genre);
    let lower = lowercase_chars(g.as_slice());
    let table = genre_table();
    let mut i: usize = 0;
    while i < table.len()
        invariant
            i <= table@.len(),
            table@.len() == genre_families().len(),
            lower@ == unicode_lowercase(genre@),
            forall|k: int|
                #![trigger table@[k]]
                0 <= k < table@.len() ==> table@[k]@.len() == genre_families()[k].len() && forall|
                    j: int,
                | 0 <= j < table@[k]@.len() ==> (#[trigger] table@[k]@[j])@ == genre_families()[k][j],
            family_listing_from(lower@, 0) == family_listing_from(lower@, i as int),
        decreases table@.len() - i,
    {
        proof {
            lemma_table_family(table@, i as int);
        }
        if family_lists(&table[i], lower.as_slice()) {
            return Some(i);
        }
        i = i + 1;
    }
    let mut i: usize = 0;
    while i < table.len()
        invariant
            i <= table@.len(),
            table@.len() == genre_families().len(),
            lower@ == unicode_lowercase(genre@),
            forall|k: int|
                #![trigger table@[k]]
                0 <= k < table@.len() ==> table@[k]@.len() == genre_families()[k].len() && forall|
                    j: int,
                | 0 <= j < table@[k]@.len() ==> (#[trigger] table@[k]@[j])@ == genre_families()[k][j],
            family_listing_from(lower@, 0) is None,
            family_inside_from(lower@, 0) == family_inside_from(lower@, i as int),
        decreases table@.len() - i,
    {
        proof {
            lemma_table_family(table@, i as int);
        }
        if family_inside(&table[i], lower.as_slice()) {
            return Some(i);
        }
        i = i + 1;
    }
    None
}

/// Two genres are compatible unless both belong to known, different
/// families.
pub open spec fn spec_genres_compatible(a: Seq<char>, b: Seq<char>) -> bool {
    match (spec_genre_family(a), spec_genre_family(b)) {
        (Some(x), Some(y)) => x == y,
        _ => true,
    }
}

/// Genres that cannot both be placed in a family are taken as compatible
/// (no mismatch is reported for them); two placed genres are compatible
/// exactly when they are in the same family. Compatibility is symmetric,
/// and a genre that is placed is compatible with itself.
pub proof fn law_unclassified_genres_are_compatible(a: Seq<char>, b: Seq<char>)
    ensures
        spec_genre_family(a) is None || spec_genre_family(b) is None ==> spec_genres_compatible(a, b),
        spec_genre_family(a) is Some && spec_genre_family(b) is Some ==> (spec_genres_compatible(a, b)
            <==> spec_genre_family(a) == spec_genre_family(b)),
        spec_genres_compatible(a, b) == spec_genres_compatible(b, a),
        spec_genres_compatible(a, a),
{
}

/// Whether two genres may share an album.
pub fn genres_compatible(a: &str, b: &str) -> (r: bool)
    ensures
        r == spec_genres_compatible(a@, b@),
{
    match (genre_family(a), genre_family(b)) {
        (Some(x), Some(y)) => x == y,
        _ => true,
    }
}

/// A track artist matches the album artist when, lowercase, it equals it,
/// starts with it, or contains it, or when the album is a compilation
/// ("various artists", "va").
pub open spec fn spec_artist_matches(track_artist: Seq<char>, album_artist: Seq<char>) -> bool {
    let ta = unicode_lowercase(track_artist);
    let aa = unicode_lowercase(album_artist);
    ||| ta == aa
    ||| starts_with(ta, aa)
    ||| contains(ta, aa)
    ||| aa == "various artists"@
    ||| aa == "va"@
}

/// Whether a track's artist fits its album's artist.
pub fn artist_matches(track_artist: &str, album_artist: &str) -> (r: bool)
    ensures
        r == spec_artist_matches(track_artist@, album_artist@),
{
    let tv = chars_of(track_artist);
    let av = chars_of(album_artist);
    let ta = lowercase_chars(tv.as_slice());
    let aa = lowercase_chars(av.as_slice());
    if chars_eq(ta.as_slice(), aa.as_slice()) {
        return true;
    }
    if starts_with_chars(ta.as_slice(), aa.as_slice()) {
        return true;
    }
    if contains_chars(ta.as_slice(), aa.as_slice()) {
        return true;
    }
    if chars_eq_str(aa.as_slice(), "various artists") || chars_eq_str(aa.as_slice(), "va") {
        return true;
    }
    false
}

} // verus!
