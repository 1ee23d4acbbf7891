//! Track listing rules: the full-text query a search becomes, how a page of
//! tracks is sorted and windowed, and how complete a track's metadata is.

use crate::text::{
    chars_of, join, join_strings, leading_word, leading_word_exec, lemma_leading_word_len,
    slice_chars, str_is, string_of, trim, trim_chars, trim_start, trim_start_chars,
};
use vstd::prelude::*;

verus! {

/// The white-space separated words of `s`.
pub open spec fn words(s: Seq<char>) -> Seq<Seq<char>>
    decreases s.len(),
{
    let t = trim_start(s);
    if t.len() == 0 {
        Seq::empty()
    } else {
        let w = leading_word(t);
        proof {
            lemma_trim_start_suffix(s);
            lemma_leading_word_len(t);
            lemma_first_word_nonempty(s);
        }
        seq![w] + words(t.subrange(w.len() as int, t.len() as int))
    }
}

/// After leading white space comes a word of at least one character.
pub proof fn lemma_first_word_nonempty(s: Seq<char>)
    requires
        trim_start(s).len() > 0,
    ensures
        leading_word(trim_start(s)).len() > 0,
    decreases s.len(),
{
    if s.len() > 0 && crate::text::spec_is_whitespace(s[0]) {
        lemma_first_word_nonempty(s.drop_first());
    }
}

/// The full-text query of a search: each word as a prefix match (`word*`),
/// separated by spaces.
pub open spec fn fts_query(s: Seq<char>) -> Seq<char> {
    join(words(s).map_values(|w: Seq<char>| w + "*"@), " "@)
}

pub proof fn lemma_trim_start_suffix(s: Seq<char>)
    ensures
        trim_start(s).len() <= s.len(),
        trim_start(s) == s.subrange(s.len() - trim_start(s).len(), s.len() as int),
    decreases s.len(),
{
    if s.len() > 0 && crate::text::spec_is_whitespace(s[0]) {
        lemma_trim_start_suffix(s.drop_first());
        assert(s.drop_first().subrange(
            s.drop_first().len() - trim_start(s).len(),
            s.drop_first().len() as int,
        ) =~= s.subrange(s.len() - trim_start(s).len(), s.len() as int));
    } else {
        assert(s.subrange(0, s.len() as int) =~= s);
    }
}

/// The words of a text (see [`words`]).
pub fn word_list(s: &[char]) -> (r: Vec<Vec<char>>)
    ensures
        r@.map_values(|w: Vec<char>| w@) == words(s@),
    decreases s@.len(),
{
    let t = trim_start_chars(s);
    proof {
        lemma_trim_start_suffix(s@);
    }
    if t.len() == 0 {
        return Vec::new();
    }
    let w = leading_word_exec(t.as_slice());
    proof {
        lemma_leading_word_len(t@);
    }
    proof {
        lemma_first_word_nonempty(s@);
    }
    let rest = slice_chars(t.as_slice(), w.len(), t.len());
    let tail = word_list(rest.as_slice());
    let mut r: Vec<Vec<char>> = Vec::new();
    let ghost wv = w@;
    r.push(w);
    let mut i: usize = 0;
    while i < tail.len()
        invariant
            i <= tail@.len(),
            r@.map_values(|w: Vec<char>| w@) == seq![wv] + tail@.map_values(|w: Vec<char>| w@).take(
                i as int,
            ),
        decreases tail@.len() - i,
    {
        let ghost before = r@.map_values(|w: Vec<char>| w@);
        let n = tail[i].len();
        let word = slice_chars(tail[i].as_slice(), 0, n);
        assert(word@ =~= tail@[i as int]@);
        r.push(word);
        assert(r@.map_values(|w: Vec<char>| w@) =~= before.push(tail@[i as int]@));
        assert(tail@.map_values(|w: Vec<char>| w@).take(i + 1) =~= tail@.map_values(
            |w: Vec<char>| w@,
        ).take(i as int).push(tail@[i as int]@));
        i = i + 1;
        assert(r@.map_values(|w: Vec<char>| w@) =~= seq![wv] + tail@.map_values(
            |w: Vec<char>| w@,
        ).take(i as int));
    }
    assert(tail@.map_values(|w: Vec<char>| w@).take(i as int) =~= tail@.map_values(
        |w: Vec<char>| w@,
    ));
    r
}

/// The full-text query of a search (see [`fts_query`]).
pub fn fts_query_of(q: &str) -> (r: String)
    ensures
        r@ == fts_query(q@),
{
    let cs = chars_of(q);
    let ws = word_list(cs.as_slice());
    let ghost wv = ws@.map_values(|w: Vec<char>| w@);
    let mut parts: Vec<String> = Vec::new();
    let mut i: usize = 0;
    while i < ws.len()
        invariant
            i <= ws@.len(),
            wv == ws@.map_values(|w: Vec<char>| w@),
            parts@.map_values(|s: String| s@) == wv.take(i as int).map_values(
                |w: Seq<char>| w + "*"@,
            ),
        decreases ws@.len() - i,
    {
        let ghost before = parts@.map_values(|s: String| s@);
        let mut p = string_of(ws[i].as_slice());
        p.append("*");
        let ghost pv = p@;
        assert(pv == wv[i as int] + "*"@);
        parts.push(p);
        assert(parts@.map_values(|s: String| s@) =~= before.push(pv));
        assert(wv.take(i + 1).map_values(|w: Seq<char>| w + "*"@) =~= wv.take(i as int).map_values(
            |w: Seq<char>| w + "*"@,
        ).push(wv[i as int] + "*"@));
        i = i + 1;
        assert(parts@.map_values(|s: String| s@) =~= wv.take(i as int).map_values(
            |w: Seq<char>| w + "*"@,
        ));
    }
    assert(wv.take(i as int) =~= wv);
    join_strings(&parts, " ")
}

/// How a page of the track list is read.
pub struct TracksQuery {
    /// The ORDER BY expression.
    pub order_clause: String,
    /// The full-text query when searching.
    pub fts: Option<String>,
    /// The JOIN/WHERE part (empty without a search).
    pub where_clause: &'static str,
    /// Placeholder numbers of LIMIT and OFFSET.
    pub limit_param: u64,
    pub offset_param: u64,
    pub limit: i64,
    pub offset: i64,
}

/// The SQL direction of a sort direction: `ASC` for "asc", else `DESC`.
pub open spec fn spec_sql_dir(sort_dir: Seq<char>) -> Seq<char> {
    if sort_dir == "asc"@ {
        "ASC"@
    } else {
        "DESC"@
    }
}

/// The SQL direction of a sort direction (see [`spec_sql_dir`]).
pub fn sql_dir(sort_dir: &str) -> (r: &'static str)
    ensures
        r@ == spec_sql_dir(sort_dir@),
{
    if str_is(sort_dir, "asc") {
        "ASC"
    } else {
        "DESC"
    }
}

/// The ORDER BY expression for a sort column and direction (`asc`, else
/// descending); unknown columns sort by date added.
pub open spec fn order_by(sort_by: Seq<char>, sort_dir: Seq<char>) -> Seq<char> {
    let dir = spec_sql_dir(sort_dir);
    if sort_by == "title"@ {
        "t.title "@ + dir
    } else if sort_by == "artist_name"@ {
        "a.name "@ + dir
    } else if sort_by == "duration_ms"@ {
        "t.duration_ms "@ + dir
    } else if sort_by == "play_count"@ {
        "t.play_count "@ + dir
    } else if sort_by == "last_played"@ {
        "t.last_played_at DESC NULLS LAST"@
    } else if sort_by == "year"@ {
        "t.year "@ + dir
    } else if sort_by == "random"@ {
        "RANDOM()"@
    } else {
        "t.date_added "@ + dir
    }
}

fn with_dir(col: &str, dir: &str) -> (r: String)
    ensures
        r@ == col@ + dir@,
{
    let mut r = col.to_string();
    r.append(dir);
    r
}

/// Each sort key orders the tracks by its own column in the asked
/// direction (`ASC` only for "asc"): title by the title, artist name by the
/// artist's name, duration by the duration, play count by the play count,
/// year by the year. "last_played" puts the most recently played first
/// whatever the direction, "random" shuffles, and any other key orders by
/// the date added.
pub proof fn law_sort_keys_order_by_their_column(sort_by: Seq<char>, sort_dir: Seq<char>)
    ensures
        spec_sql_dir(sort_dir) == (if sort_dir == "asc"@ { "ASC"@ } else { "DESC"@ }),
        sort_by == "title"@ ==> order_by(sort_by, sort_dir) == "t.title "@ + spec_sql_dir(sort_dir),
        sort_by == "artist_name"@ ==> order_by(sort_by, sort_dir) == "a.name "@ + spec_sql_dir(sort_dir),
        sort_by == "duration_ms"@ ==> order_by(sort_by, sort_dir) == "t.duration_ms "@ + spec_sql_dir(
            sort_dir,
        ),
        sort_by == "play_count"@ ==> order_by(sort_by, sort_dir) == "t.play_count "@ + spec_sql_dir(
            sort_dir,
        ),
        sort_by == "year"@ ==> order_by(sort_by, sort_dir) == "t.year "@ + spec_sql_dir(sort_dir),
        sort_by == "last_played"@ ==> order_by(sort_by, sort_dir) == "t.last_played_at DESC NULLS LAST"@,
        sort_by == "random"@ ==> order_by(sort_by, sort_dir) == "RANDOM()"@,
        !(sort_by == "title"@ || sort_by == "artist_name"@ || sort_by == "duration_ms"@ || sort_by
            == "play_count"@ || sort_by == "last_played"@ || sort_by == "year"@ || sort_by
            == "random"@) ==> order_by(sort_by, sort_dir) == "t.date_added "@ + spec_sql_dir(sort_dir),
{
    reveal_strlit("title");
    reveal_strlit("artist_name");
    reveal_strlit("duration_ms");
    reveal_strlit("play_count");
    reveal_strlit("last_played");
    reveal_strlit("year");
    reveal_strlit("random");
    assert("title"@.len() == 5);
    assert("artist_name"@.len() == 11 && "artist_name"@[0] == 'a');
    assert("duration_ms"@.len() == 11 && "duration_ms"@[0] == 'd');
    assert("play_count"@.len() == 10);
    assert("last_played"@.len() == 11 && "last_played"@[0] == 'l');
    assert("year"@.len() == 4);
    assert("random"@.len() == 6);
    if sort_by == "duration_ms"@ {
        assert(sort_by != "artist_name"@) by { assert(sort_by[0] != "artist_name"@[0]); }
    }
    if sort_by == "last_played"@ {
        assert(sort_by != "artist_name"@) by { assert(sort_by[0] != "artist_name"@[0]); }
        assert(sort_by != "duration_ms"@) by { assert(sort_by[0] != "duration_ms"@[0]); }
    }
}

/// The ORDER BY expression of the track list (see [`order_by`]).
pub fn order_by_clause(sort_by: &str, sort_dir: &str) -> (r: String)
    ensures
        r@ == order_by(sort_by@, sort_dir@),
{
    let dir = sql_dir(sort_dir);
    if str_is(sort_by, "title") {
        with_dir("t.title ", dir)
    } else if str_is(sort_by, "artist_name") {
        with_dir("a.name ", dir)
    } else if str_is(sort_by, "duration_ms") {
        with_dir("t.duration_ms ", dir)
    } else if str_is(sort_by, "play_count") {
        with_dir("t.play_count ", dir)
    } else if str_is(sort_by, "last_played") {
        "t.last_played_at DESC NULLS LAST".to_string()
    } else if str_is(sort_by, "year") {
        with_dir("t.year ", dir)
    } else if str_is(sort_by, "random") {
        "RANDOM()".to_string()
    } else {
        with_dir("t.date_added ", dir)
    }
}

/// How a page of tracks is read: the page size kept within 1..=500, the
/// offset at least 0, the sort, and, for a non-blank search, the full-text
/// query with its join (which shifts LIMIT and OFFSET to `?2` and `?3`).
pub fn tracks_query(
    offset: i64,
    limit: i64,
    sort_by: &str,
    sort_dir: &str,
    search: &Option<String>,
) -> (r: TracksQuery)
    ensures
        r.limit == (if limit < 1 {
            1
        } else if limit > 500 {
            500
        } else {
            limit
        }),
        r.offset == (if offset < 0 {
            0
        } else {
            offset
        }),
        r.order_clause@ == order_by(sort_by@, sort_dir@),
        match search {
            Some(q) if trim(q@).len() > 0 => r.fts matches Some(f) && f@ == fts_query(q@)
                && r.where_clause@
                == "JOIN tracks_fts ON tracks_fts.rowid = t.id WHERE tracks_fts MATCH ?1"@
                && r.limit_param == 2 && r.offset_param == 3,
            _ => r.fts is None && r.where_clause@ == ""@ && r.limit_param == 1 && r.offset_param
                == 2,
        },
{
    let lim = if limit < 1 {
        1
    } else if limit > 500 {
        500
    } else {
        limit
    };
    let off = if offset < 0 {
        0
    } else {
        offset
    };
    let order_clause = order_by_clause(sort_by, sort_dir);
    let fts = match search {
        Some(q) => {
            let qc = chars_of(q.as_str());
            if trim_chars(qc.as_slice()).len() > 0 {
                Some(fts_query_of(q.as_str()))
            } else {
                None
            }
        },
        None => None,
    };
    match fts {
        Some(f) => TracksQuery {
            order_clause,
            fts: Some(f),
            where_clause: "JOIN tracks_fts ON tracks_fts.rowid = t.id WHERE tracks_fts MATCH ?1",
            limit_param: 2,
            offset_param: 3,
            limit: lim,
            offset: off,
        },
        None => TracksQuery {
            order_clause,
            fts: None,
            where_clause: "",
            limit_param: 1,
            offset_param: 2,
            limit: lim,
            offset: off,
        },
    }
}

/// The fields whose presence makes a track's metadata complete.
pub struct CompletenessFields {
    pub title: Option<String>,
    pub artist_id: Option<i64>,
    pub album_id: Option<i64>,
    pub genre: Option<String>,
    pub year: Option<i64>,
    pub track_number: Option<i64>,
    pub cover_art_path: Option<String>,
    pub duration_ms: Option<i64>,
    pub description: Option<String>,
    pub label: Option<String>,
    pub release_date: Option<String>,
}

/// A text field counts when present and non-empty.
pub open spec fn filled_text(o: Option<String>) -> nat {
    match o {
        Some(s) => if s@.len() > 0 {
            1
        } else {
            0
        },
        None => 0,
    }
}

/// A number field counts when present.
pub open spec fn filled_num(o: Option<i64>) -> nat {
    if o is Some {
        1
    } else {
        0
    }
}

/// How many of the eleven fields are filled; a title only counts when it is
/// not the placeholder "Unknown".
pub open spec fn filled_fields(f: CompletenessFields) -> nat {
    (match f.title {
        Some(t) => if t@.len() > 0 && t@ != "Unknown"@ {
            1nat
        } else {
            0nat
        },
        None => 0nat,
    }) + filled_num(f.artist_id) + filled_num(f.album_id) + filled_text(f.genre) + filled_num(
        f.year,
    ) + filled_num(f.track_number) + filled_text(f.cover_art_path) + filled_num(f.duration_ms)
        + filled_text(f.description) + filled_text(f.label) + filled_text(f.release_date)
}

/// The share of filled fields as a whole percentage, rounded to nearest
/// (`filled / 11 * 100` never lies halfway between two integers).
pub open spec fn completeness(f: CompletenessFields) -> int {
    ((200 * filled_fields(f) + 11) / 22) as int
}

fn text_filled(o: &Option<String>) -> (r: u64)
    ensures
        r == filled_text(*o),
{
    match o {
        Some(s) => if s.as_str().is_empty() {
            0
        } else {
            1
        },
        None => 0,
    }
}

fn num_filled(o: &Option<i64>) -> (r: u64)
    ensures
        r == filled_num(*o),
{
    if o.is_some() {
        1
    } else {
        0
    }
}

/// A track's metadata completeness in percent (see [`completeness`]).
pub fn completeness_percent(f: &CompletenessFields) -> (r: i64)
    ensures
        r == completeness(*f),
        0 <= r <= 100,
{
    let title: u64 = match &f.title {
        Some(t) => if !t.as_str().is_empty() && !str_is(t.as_str(), "Unknown") {
            1
        } else {
            0
        },
        None => 0,
    };
    let n = title + num_filled(&f.artist_id) + num_filled(&f.album_id) + text_filled(&f.genre)
        + num_filled(&f.year) + num_filled(&f.track_number) + text_filled(&f.cover_art_path)
        + num_filled(&f.duration_ms) + text_filled(&f.description) + text_filled(&f.label)
        + text_filled(&f.release_date);
    ((200 * n + 11) / 22) as i64
}


/// The numbered placeholders `?first, ?first+1, ...` (`count` of them),
/// separated by commas.
pub open spec fn placeholders(first: nat, count: nat) -> Seq<char> {
    join(
        Seq::new(count, |i: int| "?"@ + crate::text::decimal((first + i) as nat)),
        ","@,
    )
}

/// The numbered placeholders of an `IN (...)` list (see [`placeholders`]).
pub fn placeholder_list(first: u64, count: u64) -> (r: String)
    requires
        first + count <= u64::MAX,
    ensures
        r@ == placeholders(first as nat, count as nat),
{
    let ghost target = Seq::new(
        count as nat,
        |i: int| "?"@ + crate::text::decimal((first + i) as nat),
    );
    let mut parts: Vec<String> = Vec::new();
    let mut i: u64 = 0;
    while i < count
        invariant
            i <= count,
            first + count <= u64::MAX,
            target == Seq::new(count as nat, |i: int| "?"@ + crate::text::decimal((first + i) as nat)),
            parts@.map_values(|s: String| s@) == target.take(i as int),
        decreases count - i,
    {
        let mut p = "?".to_string();
        let d = crate::text::u64_to_string(first + i);
        p.append(d.as_str());
        let ghost before = parts@.map_values(|s: String| s@);
        let ghost pv = p@;
        parts.push(p);
        assert(parts@.map_values(|s: String| s@) =~= before.push(pv));
        assert(target.take(i + 1) =~= target.take(i as int).push(target[i as int]));
        i = i + 1;
    }
    assert(target.take(i as int) =~= target);
    join_strings(&parts, ",")
}

/// The query for random tracks: how many (at least one), and the SQL that
/// leaves out `exclude_count` given ids (`?1..`) with the count as the last
/// parameter.
pub fn random_tracks_query(exclude_count: u64, limit: u64) -> (r: (String, u64))
    requires
        exclude_count < u64::MAX,
    ensures
        r.1 == (if limit == 0 {
            1
        } else {
            limit
        }),
        exclude_count == 0 ==> r.0@ == "SELECT id FROM tracks ORDER BY RANDOM() LIMIT ?1"@,
        exclude_count > 0 ==> r.0@ == "SELECT id FROM tracks WHERE id NOT IN ("@ + placeholders(
            1,
            exclude_count as nat,
        ) + ") ORDER BY RANDOM() LIMIT ?"@ + crate::text::decimal((exclude_count + 1) as nat),
{
    let n = if limit == 0 {
        1
    } else {
        limit
    };
    if exclude_count == 0 {
        return ("SELECT id FROM tracks ORDER BY RANDOM() LIMIT ?1".to_string(), n);
    }
    let mut sql = "SELECT id FROM tracks WHERE id NOT IN (".to_string();
    let ph = placeholder_list(1, exclude_count);
    sql.append(ph.as_str());
    sql.append(") ORDER BY RANDOM() LIMIT ?");
    let last = crate::text::u64_to_string(exclude_count + 1);
    sql.append(last.as_str());
    (sql, n)
}


/// A failure of one track in a batch tag edit: `track ID: message`.
pub fn track_failure(id: i64, message: &str) -> (r: String)
    ensures
        r@ == "track "@ + crate::text::signed_decimal(id as int) + ": "@ + message@,
{
    let mut r = "track ".to_string();
    let n = crate::text::i64_to_string(id);
    r.append(n.as_str());
    r.append(": ");
    r.append(message);
    r
}

/// How a batch tag edit ends: without failures it succeeds; otherwise it
/// reports how many of the requested tracks were updated and every failure.
pub fn batch_edit_error(updated: u64, requested: u64, failures: &Vec<String>) -> (r: Option<String>)
    ensures
        match r {
            Some(e) => failures@.len() > 0 && e@ == "Updated "@ + crate::text::decimal(updated as nat)
                + " of "@ + crate::text::decimal(requested as nat) + " tracks; failures: "@ + join(
                failures@.map_values(|f: String| f@),
                "; "@,
            ),
            None => failures@.len() == 0,
        },
{
    if failures.len() == 0 {
        return None;
    }
    let mut e = "Updated ".to_string();
    let a = crate::text::u64_to_string(updated);
    e.append(a.as_str());
    e.append(" of ");
    let b = crate::text::u64_to_string(requested);
    e.append(b.as_str());
    e.append(" tracks; failures: ");
    let j = join_strings(failures, "; ");
    e.append(j.as_str());
    Some(e)
}

/// The ids of an `IN (...)` list: their decimal forms joined by commas.
pub open spec fn id_list(ids: Seq<i64>) -> Seq<char> {
    join(ids.map_values(|id: i64| crate::text::signed_decimal(id as int)), ","@)
}

/// The statements that delete an album's tracks (their search rows,
/// playlist entries and the tracks themselves), keeping the album.
pub fn album_tracks_delete_sql(ids: &Vec<i64>) -> (r: String)
    ensures
        r@ == "DELETE FROM tracks_fts WHERE rowid IN ("@ + id_list(ids@)
            + ");\n         DELETE FROM playlist_tracks WHERE track_id IN ("@ + id_list(ids@)
            + ");\n         DELETE FROM tracks WHERE id IN ("@ + id_list(ids@) + ");"@,
{
    let mut parts: Vec<String> = Vec::new();
    let mut i: usize = 0;
    while i < ids.len()
        invariant
            i <= ids@.len(),
            parts@.map_values(|s: String| s@) == ids@.take(i as int).map_values(
                |id: i64| crate::text::signed_decimal(id as int),
            ),
        decreases ids@.len() - i,
    {
        let ghost before = parts@.map_values(|s: String| s@);
        let d = crate::text::i64_to_string(ids[i]);
        parts.push(d);
        assert(parts@.map_values(|s: String| s@) =~= before.push(
            crate::text::signed_decimal(ids@[i as int] as int),
        ));
        assert(ids@.take(i + 1).map_values(|id: i64| crate::text::signed_decimal(id as int))
            =~= ids@.take(i as int).map_values(|id: i64| crate::text::signed_decimal(id as int)).push(
            crate::text::signed_decimal(ids@[i as int] as int),
        ));
        i = i + 1;
    }
    assert(ids@.take(i as int) =~= ids@);
    let list = join_strings(&parts, ",");
    let mut r = "DELETE FROM tracks_fts WHERE rowid IN (".to_string();
    r.append(list.as_str());
    r.append(");\n         DELETE FROM playlist_tracks WHERE track_id IN (");
    r.append(list.as_str());
    r.append(");\n         DELETE FROM tracks WHERE id IN (");
    r.append(list.as_str());
    r.append(");");
    r
}

} // verus!
