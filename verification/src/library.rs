//! Small rules of the library: LIKE escaping, tag-edit normalization,
//! statistics periods and download settings.

use crate::text::{chars_eq_str, chars_of, opt_chars, string_of, trim, trim_chars, str_is};
use vstd::prelude::*;

verus! {

/// `s` with every `c` replaced by the text `with`.
pub open spec fn replace_all(s: Seq<char>, c: char, with: Seq<char>) -> Seq<char>
    decreases s.len(),
{
    if s.len() == 0 {
        s
    } else if s.last() == c {
        replace_all(s.drop_last(), c, with) + with
    } else {
        replace_all(s.drop_last(), c, with).push(s.last())
    }
}

fn replace_all_exec(s: &[char], c: char, with: &[char]) -> (r: Vec<char>)
    ensures
        r@ == replace_all(s@, c, with@),
{
    let mut r: Vec<char> = Vec::new();
    let mut i: usize = 0;
    while i < s.len()
        invariant
            i <= s@.len(),
            r@ == replace_all(s@.take(i as int), c, with@),
        decreases s@.len() - i,
    {
        assert(s@.take(i + 1).drop_last() =~= s@.take(i as int));
        if s[i] == c {
            let mut j: usize = 0;
            let ghost before = r@;
            while j < with.len()
                invariant
                    j <= with@.len(),
                    r@ == before + with@.take(j as int),
                decreases with@.len() - j,
            {
                r.push(with[j]);
                j = j + 1;
                assert(r@ =~= before + with@.take(j as int));
            }
            assert(with@.take(j as int) =~= with@);
        } else {
            r.push(s[i]);
        }
        i = i + 1;
    }
    assert(s@.take(i as int) =~= s@);
    r
}

/// The LIKE-escaped form of `q`: backslashes doubled, then `%` and `_`
/// preceded by a backslash (for use with `ESCAPE '\'`).
pub open spec fn spec_escape_like(q: Seq<char>) -> Seq<char> {
    replace_all(replace_all(replace_all(q, '\\', seq!['\\', '\\']), '%', seq!['\\', '%']), '_', seq!['\\', '_'])
}

/// Whether `c` is escaped in a LIKE pattern.
pub open spec fn is_like_special(c: char) -> bool {
    c == '\\' || c == '%' || c == '_'
}

/// How one character is written in a LIKE pattern.
pub open spec fn like_escape_char(c: char) -> Seq<char> {
    if is_like_special(c) {
        seq!['\\', c]
    } else {
        seq![c]
    }
}

/// `q` escaped character by character, front to back.
pub open spec fn escape_each(q: Seq<char>) -> Seq<char>
    decreases q.len(),
{
    if q.len() == 0 {
        Seq::empty()
    } else {
        like_escape_char(q[0]) + escape_each(q.drop_first())
    }
}

/// Reading an escaped pattern back: a backslash and the character after it
/// stand for that character; any other character for itself.
pub open spec fn unescape_like(e: Seq<char>) -> Seq<char>
    decreases e.len(),
{
    if e.len() == 0 {
        Seq::empty()
    } else if e[0] == '\\' && e.len() >= 2 {
        seq![e[1]] + unescape_like(e.subrange(2, e.len() as int))
    } else {
        seq![e[0]] + unescape_like(e.drop_first())
    }
}

/// How many characters of `q` are escaped.
pub open spec fn like_special_count(q: Seq<char>) -> nat
    decreases q.len(),
{
    if q.len() == 0 {
        0
    } else {
        (if is_like_special(q[0]) { 1nat } else { 0nat }) + like_special_count(q.drop_first())
    }
}

proof fn lemma_replace_all_concat(a: Seq<char>, b: Seq<char>, c: char, w: Seq<char>)
    ensures
        replace_all(a + b, c, w) == replace_all(a, c, w) + replace_all(b, c, w),
    decreases b.len(),
{
    if b.len() == 0 {
        assert(a + b =~= a);
        assert(replace_all(a, c, w) + replace_all(b, c, w) =~= replace_all(a, c, w));
    } else {
        assert((a + b).drop_last() =~= a + b.drop_last());
        assert((a + b).last() == b.last());
        lemma_replace_all_concat(a, b.drop_last(), c, w);
        if b.last() == c {
            assert(replace_all(a + b, c, w) =~= replace_all(a, c, w) + replace_all(b, c, w));
        } else {
            assert(replace_all(a + b, c, w) =~= replace_all(a, c, w) + replace_all(b, c, w));
        }
    }
}

proof fn lemma_replace_one(x: char, c: char, w: Seq<char>)
    ensures
        replace_all(seq![x], c, w) == if x == c { w } else { seq![x] },
{
    let s = seq![x];
    let e = Seq::<char>::empty();
    assert(s.drop_last() =~= e);
    assert(s.last() == x);
    assert(replace_all(e, c, w) == e);
    assert(e + w =~= w);
    assert(e.push(x) =~= s);
}

proof fn lemma_escape_one(x: char)
    ensures
        spec_escape_like(seq![x]) == like_escape_char(x),
{
    let bb = seq!['\\', '\\'];
    let bp = seq!['\\', '%'];
    let bu = seq!['\\', '_'];
    lemma_replace_one(x, '\\', bb);
    if x == '\\' {
        lemma_replace_all_concat(seq!['\\'], seq!['\\'], '%', bp);
        lemma_replace_one('\\', '%', bp);
        assert(seq!['\\'] + seq!['\\'] =~= bb);
        assert(seq!['\\'] + seq!['\\'] =~= bb);
        lemma_replace_all_concat(seq!['\\'], seq!['\\'], '_', bu);
        lemma_replace_one('\\', '_', bu);
    } else {
        lemma_replace_one(x, '%', bp);
        if x == '%' {
            lemma_replace_all_concat(seq!['\\'], seq!['%'], '_', bu);
            lemma_replace_one('\\', '_', bu);
            lemma_replace_one('%', '_', bu);
            assert(seq!['\\'] + seq!['%'] =~= bp);
        } else {
            lemma_replace_one(x, '_', bu);
        }
    }
}

proof fn lemma_escape_front(q: Seq<char>)
    ensures
        spec_escape_like(q) == escape_each(q),
    decreases q.len(),
{
    if q.len() > 0 {
        let x = q[0];
        let rest = q.drop_first();
        assert(q =~= seq![x] + rest);
        lemma_escape_front(rest);
        lemma_escape_one(x);
        let bb = seq!['\\', '\\'];
        let bp = seq!['\\', '%'];
        let bu = seq!['\\', '_'];
        lemma_replace_all_concat(seq![x], rest, '\\', bb);
        let a1 = replace_all(seq![x], '\\', bb);
        let b1 = replace_all(rest, '\\', bb);
        lemma_replace_all_concat(a1, b1, '%', bp);
        let a2 = replace_all(a1, '%', bp);
        let b2 = replace_all(b1, '%', bp);
        lemma_replace_all_concat(a2, b2, '_', bu);
    } else {
        assert(spec_escape_like(q) =~= Seq::<char>::empty());
    }
}

proof fn lemma_unescape_each(q: Seq<char>)
    ensures
        unescape_like(escape_each(q)) == q,
        escape_each(q).len() == q.len() + like_special_count(q),
    decreases q.len(),
{
    if q.len() > 0 {
        let x = q[0];
        let rest = q.drop_first();
        lemma_unescape_each(rest);
        let e = escape_each(q);
        let er = escape_each(rest);
        if is_like_special(x) {
            assert(e == seq!['\\', x] + er);
            assert(e.subrange(2, e.len() as int) =~= er);
            assert(e[0] == '\\' && e[1] == x);
        } else {
            assert(e == seq![x] + er);
            assert(e.drop_first() =~= er);
            assert(e[0] == x);
        }
        assert(seq![x] + rest =~= q);
    }
}

/// Escaping loses nothing: reading the escaped form back (each backslash
/// and the character after it standing for that character) gives the
/// input, and the escaped form is one character longer for each `\`, `%`
/// and `_` of the input.
pub proof fn law_escape_like_reads_back(q: Seq<char>)
    ensures
        unescape_like(spec_escape_like(q)) == q,
        spec_escape_like(q).len() == q.len() + like_special_count(q),
{
    lemma_escape_front(q);
    lemma_unescape_each(q);
}

/// Escapes SQL LIKE wildcards in user input so `%` and `_` match literally.
pub fn escape_like(q: &str) -> (r: String)
    ensures
        r@ == spec_escape_like(q@),
{
    let s = chars_of(q);
    let bs = vec!['\\', '\\'];
    let pc = vec!['\\', '%'];
    let us = vec!['\\', '_'];
    assert(bs@ =~= seq!['\\', '\\']);
    assert(pc@ =~= seq!['\\', '%']);
    assert(us@ =~= seq!['\\', '_']);
    let a = replace_all_exec(s.as_slice(), '\\', bs.as_slice());
    let b = replace_all_exec(a.as_slice(), '%', pc.as_slice());
    let c = replace_all_exec(b.as_slice(), '_', us.as_slice());
    string_of(c.as_slice())
}

/// A trimmed text field, or `None` when missing or blank.
pub open spec fn spec_non_empty(s: Option<Seq<char>>) -> Option<Seq<char>> {
    match s {
        Some(v) => if trim(v).len() > 0 {
            Some(trim(v))
        } else {
            None
        },
        None => None,
    }
}

/// Trims a field and treats an empty one as not provided.
pub fn non_empty(s: &Option<String>) -> (r: Option<String>)
    ensures
        opt_chars(r) == spec_non_empty(opt_chars(*s)),
{
    match s {
        Some(v) => {
            let cv = chars_of(v.as_str());
            let t = trim_chars(cv.as_slice());
            if t.len() > 0 {
                Some(string_of(t.as_slice()))
            } else {
                None
            }
        },
        None => None,
    }
}

/// Editable tag fields; a missing or blank field keeps the current value.
pub struct TrackTagUpdate {
    pub title: Option<String>,
    pub artist: Option<String>,
    pub album: Option<String>,
    pub album_artist: Option<String>,
    pub genre: Option<String>,
    pub year: Option<i64>,
    pub track_number: Option<i64>,
}

/// The fields of a tag edit that are actually applied: text fields trimmed
/// (blank ones dropped), and the year and track number to write into the
/// file when they fit a `u32`.
pub struct TagEditPlan {
    pub title: Option<String>,
    pub artist: Option<String>,
    pub album: Option<String>,
    pub album_artist: Option<String>,
    pub genre: Option<String>,
    pub year: Option<i64>,
    pub track_number: Option<i64>,
    pub file_year: Option<u32>,
    pub file_track_number: Option<u32>,
}

/// The `u32` value of `n`, if it has one.
pub open spec fn as_u32(n: Option<i64>) -> Option<u32> {
    match n {
        Some(v) => if 0 <= v <= u32::MAX {
            Some(v as u32)
        } else {
            None
        },
        None => None,
    }
}

fn as_u32_exec(n: Option<i64>) -> (r: Option<u32>)
    ensures
        r == as_u32(n),
{
    match n {
        Some(v) => if 0 <= v && v <= 4294967295 {
            Some(v as u32)
        } else {
            None
        },
        None => None,
    }
}

/// The applied fields of a tag edit, or `None` when it changes nothing.
pub fn plan_tag_edit(update: &TrackTagUpdate) -> (r: Option<TagEditPlan>)
    ensures
        match r {
            Some(p) => {
                &&& opt_chars(p.title) == spec_non_empty(opt_chars(update.title))
                &&& opt_chars(p.artist) == spec_non_empty(opt_chars(update.artist))
                &&& opt_chars(p.album) == spec_non_empty(opt_chars(update.album))
                &&& opt_chars(p.album_artist) == spec_non_empty(opt_chars(update.album_artist))
                &&& opt_chars(p.genre) == spec_non_empty(opt_chars(update.genre))
                &&& p.year == update.year
                &&& p.track_number == update.track_number
                &&& p.file_year == as_u32(update.year)
                &&& p.file_track_number == as_u32(update.track_number)
            },
            None => {
                &&& spec_non_empty(opt_chars(update.title)) is None
                &&& spec_non_empty(opt_chars(update.artist)) is None
                &&& spec_non_empty(opt_chars(update.album)) is None
                &&& spec_non_empty(opt_chars(update.album_artist)) is None
                &&& spec_non_empty(opt_chars(update.genre)) is None
                &&& update.year is None
                &&& update.track_number is None
            },
        },
{
    let title = non_empty(&update.title);
    let artist = non_empty(&update.artist);
    let album = non_empty(&update.album);
    let album_artist = non_empty(&update.album_artist);
    let genre = non_empty(&update.genre);
    if title.is_none() && artist.is_none() && album.is_none() && album_artist.is_none()
        && genre.is_none() && update.year.is_none() && update.track_number.is_none() {
        return None;
    }
    Some(
        TagEditPlan {
            title,
            artist,
            album,
            album_artist,
            genre,
            year: update.year,
            track_number: update.track_number,
            file_year: as_u32_exec(update.year),
            file_track_number: as_u32_exec(update.track_number),
        },
    )
}

/// The SQLite date modifier of a statistics period.
pub open spec fn spec_period_modifier(period: Seq<char>) -> Option<Seq<char>> {
    if period == "week"@ {
        Some("-7 days"@)
    } else if period == "month"@ {
        Some("-1 month"@)
    } else if period == "year"@ {
        Some("-1 year"@)
    } else {
        None
    }
}

/// `week`, `month` or `year` as a date modifier; `None` for all time.
pub fn period_modifier(period: &str) -> (r: Option<&'static str>)
    ensures
        match r {
            Some(m) => spec_period_modifier(period@) == Some(m@),
            None => spec_period_modifier(period@) is None,
        },
{
    if str_is(period, "week") {
        Some("-7 days")
    } else if str_is(period, "month") {
        Some("-1 month")
    } else if str_is(period, "year") {
        Some("-1 year")
    } else {
        None
    }
}

/// Download formats the downloader accepts.
pub open spec fn is_download_format(f: Seq<char>) -> bool {
    f == "mp3"@ || f == "opus"@ || f == "flac"@ || f == "m4a"@ || f == "wav"@ || f == "ogg"@
        || f == "vorbis"@
}

/// Download qualities the downloader accepts.
pub open spec fn is_download_quality(q: Seq<char>) -> bool {
    q == "best"@ || q == "320"@ || q == "256"@ || q == "192"@ || q == "128"@
}

/// The check of a download's format and quality, with the errors it gives.
pub open spec fn spec_validate_download_params(format: Seq<char>, quality: Seq<char>) -> Result<(), Seq<char>> {
    if !is_download_format(format) {
        Err("Invalid download format '"@ + format + "'. Allowed: mp3, opus, flac, m4a, wav, ogg, vorbis"@)
    } else if !is_download_quality(quality) {
        Err("Invalid download quality '"@ + quality + "'. Allowed: best, 320, 256, 192, 128"@)
    } else {
        Ok(())
    }
}

/// Checks a download's format and quality against the allowed lists.
pub fn validate_download_params(format: &str, quality: &str) -> (r: Result<(), String>)
    ensures
        match (r, spec_validate_download_params(format@, quality@)) {
            (Ok(_), Ok(_)) => true,
            (Err(e), Err(se)) => e@ == se,
            _ => false,
        },
{
    if !(str_is(format, "mp3") || str_is(format, "opus") || str_is(format, "flac") || str_is(
        format,
        "m4a",
    ) || str_is(format, "wav") || str_is(format, "ogg") || str_is(format, "vorbis")) {
        let mut e = String::from_str("Invalid download format '");
        e.append(format);
        e.append("'. Allowed: mp3, opus, flac, m4a, wav, ogg, vorbis");
        return Err(e);
    }
    if !(str_is(quality, "best") || str_is(quality, "320") || str_is(quality, "256") || str_is(
        quality,
        "192",
    ) || str_is(quality, "128")) {
        let mut e = String::from_str("Invalid download quality '");
        e.append(quality);
        e.append("'. Allowed: best, 320, 256, 192, 128");
        return Err(e);
    }
    Ok(())
}

/// The format and quality a download uses: the requested ones, else the
/// saved settings, else `mp3` and `best`; checked against the allowed
/// lists.
pub open spec fn spec_resolve_format_quality(
    format: Option<Seq<char>>,
    quality: Option<Seq<char>>,
    saved_format: Option<Seq<char>>,
    saved_quality: Option<Seq<char>>,
) -> Result<(Seq<char>, Seq<char>), Seq<char>> {
    let f = match format {
        Some(f) => f,
        None => match saved_format {
            Some(f) => f,
            None => "mp3"@,
        },
    };
    let q = match quality {
        Some(q) => q,
        None => match saved_quality {
            Some(q) => q,
            None => "best"@,
        },
    };
    match spec_validate_download_params(f, q) {
        Ok(_) => Ok((f, q)),
        Err(e) => Err(e),
    }
}

/// Chooses and checks a download's format and quality.
pub fn resolve_format_quality(
    format: Option<String>,
    quality: Option<String>,
    saved_format: Option<String>,
    saved_quality: Option<String>,
) -> (r: Result<(String, String), String>)
    ensures
        match (r, spec_resolve_format_quality(opt_chars(format), opt_chars(quality), opt_chars(saved_format), opt_chars(saved_quality))) {
            (Ok((f, q)), Ok((sf, sq))) => f@ == sf && q@ == sq,
            (Err(e), Err(se)) => e@ == se,
            _ => false,
        },
{
    let f = match format {
        Some(f) => f,
        None => match saved_format {
            Some(f) => f,
            None => String::from_str("mp3"),
        },
    };
    let q = match quality {
        Some(q) => q,
        None => match saved_quality {
            Some(q) => q,
            None => String::from_str("best"),
        },
    };
    match validate_download_params(f.as_str(), q.as_str()) {
        Ok(_) => Ok((f, q)),
        Err(e) => Err(e),
    }
}


/// The LIKE pattern of a search: `%query%` with the query's wildcards
/// escaped; `None` for a blank query, which finds nothing.
pub fn search_pattern(query: &str) -> (r: Option<String>)
    ensures
        match r {
            Some(p) => trim(query@).len() > 0 && p@ == "%"@ + spec_escape_like(query@) + "%"@,
            None => trim(query@).len() == 0,
        },
{
    let cs = chars_of(query);
    let t = trim_chars(cs.as_slice());
    if t.len() == 0 {
        return None;
    }
    let mut p = "%".to_string();
    let e = escape_like(query);
    p.append(e.as_str());
    p.append("%");
    Some(p)
}

/// How many results a search returns per kind (50 unless given).
pub fn search_limit(limit: Option<i64>) -> (r: i64)
    ensures
        r == (match limit {
            Some(l) => l,
            None => 50,
        }),
{
    match limit {
        Some(l) => l,
        None => 50,
    }
}

/// The views of a list of strings.
pub open spec fn string_views(v: Seq<String>) -> Seq<Seq<char>> {
    v.map_values(|s: String| s@)
}

/// Paths not yet in the library.
pub open spec fn not_in(existing: Seq<Seq<char>>) -> spec_fn(Seq<char>) -> bool {
    |p: Seq<char>| !existing.contains(p)
}

fn listed(v: &Vec<String>, s: &str) -> (r: bool)
    ensures
        r == string_views(v@).contains(s@),
{
    let mut i: usize = 0;
    while i < v.len()
        invariant
            i <= v@.len(),
            forall|k: int| 0 <= k < i ==> v@[k]@ != s@,
        decreases v@.len() - i,
    {
        if str_is(v[i].as_str(), s) {
            assert(string_views(v@)[i as int] == s@);
            return true;
        }
        i = i + 1;
    }
    proof {
        if string_views(v@).contains(s@) {
            let k = choose|k: int| 0 <= k < string_views(v@).len() && string_views(v@)[k] == s@;
            assert(v@[k]@ == s@);
        }
    }
    false
}

/// The files an import reads: those whose path the library does not hold
/// yet, in the order given.
pub fn paths_to_import(existing: &Vec<String>, files: &Vec<String>) -> (r: Vec<String>)
    ensures
        string_views(r@) == string_views(files@).filter(not_in(string_views(existing@))),
{
    let ghost pred = not_in(string_views(existing@));
    let ghost fv = string_views(files@);
    let mut r: Vec<String> = Vec::new();
    let mut i: usize = 0;
    while i < files.len()
        invariant
            i <= files@.len(),
            pred == not_in(string_views(existing@)),
            fv == string_views(files@),
            string_views(r@) == fv.take(i as int).filter(pred),
        decreases files@.len() - i,
    {
        proof {
            fv.take(i as int).lemma_filter_push(fv[i as int], pred);
            assert(fv.take(i + 1) =~= fv.take(i as int).push(fv[i as int]));
        }
        if !listed(existing, files[i].as_str()) {
            let ghost before = string_views(r@);
            r.push(files[i].clone());
            assert(string_views(r@) =~= before.push(fv[i as int]));
        }
        i = i + 1;
    }
    assert(fv.take(i as int) =~= fv);
    r
}

/// The title a track is stored under: its tag's title, or "Unknown".
pub fn imported_title(tag_title: Option<String>) -> (r: String)
    ensures
        r@ == match tag_title {
            Some(t) => t@,
            None => "Unknown"@,
        },
{
    match tag_title {
        Some(t) => t,
        None => "Unknown".to_string(),
    }
}

/// How the top-played lists are queried: the WHERE clause over plays, its
/// period parameter, and how many rows to return (10 unless given, kept
/// within 1..=100).
pub struct TopQuery {
    pub where_clause: &'static str,
    pub period_param: &'static str,
    pub limit: i64,
}

/// The query settings of the top-played lists for a period (see
/// [`TopQuery`]): a known period filters plays since its start, any other
/// period keeps every play.
pub fn top_query(period: &str, limit: Option<i64>) -> (r: TopQuery)
    ensures
        r.limit == (match limit {
            Some(l) => if l < 1 {
                1
            } else if l > 100 {
                100
            } else {
                l
            },
            None => 10,
        }),
        match spec_period_modifier(period@) {
            Some(m) => r.where_clause@ == "WHERE p.played_at >= datetime('now', ?1)"@
                && r.period_param@ == m,
            None => r.where_clause@ == "WHERE ?1 = ?1"@ && r.period_param@ == "all"@,
        },
{
    let n = match limit {
        Some(l) => l,
        None => 10,
    };
    let n = if n < 1 {
        1
    } else if n > 100 {
        100
    } else {
        n
    };
    match period_modifier(period) {
        Some(m) => TopQuery {
            where_clause: "WHERE p.played_at >= datetime('now', ?1)",
            period_param: m,
            limit: n,
        },
        None => TopQuery { where_clause: "WHERE ?1 = ?1", period_param: "all", limit: n },
    }
}

} // verus!
