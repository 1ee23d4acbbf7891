//! M3U playlists: writing them (exports and device playlists) and reading
//! them back (imports).

use crate::naming::{last_component, last_component_exec, last_dot, last_dot_exec, sanitize_filename, spec_device_file_name};
use crate::text::{
    lacks, lemma_find_char, rfind, rfind_chars, chars_eq, lemma_find_char_none, lemma_signed_decimal_plain,
    lemma_trim_after_trim_end, lemma_trim_end_after, trim_end, trim_start,
    chars_eq_str, chars_of, find, find_chars, i64_to_string, opt_chars, signed_decimal,
    slice_chars, starts_with, starts_with_chars, string_of, trim, trim_chars, trim_start_char,
    trim_start_char_chars,
};
use vstd::prelude::*;

verus! {

/// One entry to write: the path line, the text after `#EXTINF:secs,` and
/// the duration in milliseconds.
pub struct M3uItem {
    pub path: String,
    pub display: String,
    pub duration_ms: Option<i64>,
}

/// Whole seconds of a duration (Rust's `/`, rounding toward zero), 0 when
/// unknown.
pub open spec fn duration_secs(duration_ms: Option<i64>) -> int {
    let d = match duration_ms {
        Some(d) => d as int,
        None => 0,
    };
    if d >= 0 {
        d / 1000
    } else {
        -((-d) / 1000)
    }
}

/// The lines of one entry: `#EXTINF:secs,display` and the path.
pub open spec fn item_text(item: M3uItem) -> Seq<char> {
    "#EXTINF:"@ + signed_decimal(duration_secs(item.duration_ms)) + ","@ + item.display@
        + "\n"@ + item.path@ + "\n"@
}

/// The whole playlist text: `#EXTM3U` and then each entry.
pub open spec fn playlist_text(items: Seq<M3uItem>) -> Seq<char>
    decreases items.len(),
{
    if items.len() == 0 {
        "#EXTM3U\n"@
    } else {
        playlist_text(items.drop_last()) + item_text(items.last())
    }
}

fn secs_of(duration_ms: Option<i64>) -> (r: i64)
    ensures
        r as int == duration_secs(duration_ms),
{
    let d = match duration_ms {
        Some(d) => d,
        None => 0,
    };
    if d >= 0 {
        d / 1000
    } else {
        let m: i128 = -(d as i128);
        let q: i128 = m / 1000;
        -(q as i64)
    }
}

/// The text of an M3U playlist holding the given entries.
pub fn m3u_content(items: &Vec<M3uItem>) -> (r: String)
    ensures
        r@ == playlist_text(items@),
{
    let mut r = String::from_str("#EXTM3U\n");
    let mut i: usize = 0;
    assert(items@.take(0) =~= Seq::<M3uItem>::empty());
    while i < items.len()
        invariant
            i <= items@.len(),
            r@ == playlist_text(items@.take(i as int)),
        decreases items@.len() - i,
    {
        let item = &items[i];
        r.append("#EXTINF:");
        let secs = i64_to_string(secs_of(item.duration_ms));
        r.append(secs.as_str());
        r.append(",");
        r.append(item.display.as_str());
        r.append("\n");
        r.append(item.path.as_str());
        r.append("\n");
        assert(items@.take(i + 1).drop_last() =~= items@.take(i as int));
        i = i + 1;
        assert(r@ =~= playlist_text(items@.take(i as int)));
    }
    assert(items@.take(i as int) =~= items@);
    r
}

/// What an exported entry shows: `Artist - Title`, or the title alone
/// when the artist is missing or empty.
pub open spec fn spec_export_display(title: Seq<char>, artist: Option<Seq<char>>) -> Seq<char> {
    match artist {
        Some(a) => if a.len() > 0 {
            a + " - "@ + title
        } else {
            title
        },
        None => title,
    }
}

/// The display text of an exported entry.
pub fn export_display(title: &str, artist: Option<&str>) -> (r: String)
    ensures
        r@ == spec_export_display(
            title@,
            match artist {
                Some(a) => Some(a@),
                None => None,
            },
        ),
{
    match artist {
        Some(a) => {
            if !a.is_empty() {
                let mut r = String::from_str(a);
                r.append(" - ");
                r.append(title);
                r
            } else {
                String::from_str(title)
            }
        },
        None => String::from_str(title),
    }
}

/// A path line read from an M3U file, with the artist and title of the
/// `#EXTINF` line before it.
pub struct M3uEntry {
    pub raw_path: String,
    pub artist: Option<String>,
    pub title: Option<String>,
}

/// Abstract imported entry.
pub struct EntryView {
    pub raw_path: Seq<char>,
    pub artist: Option<Seq<char>>,
    pub title: Option<Seq<char>>,
}

impl View for M3uEntry {
    type V = EntryView;

    open spec fn view(&self) -> EntryView {
        EntryView { raw_path: self.raw_path@, artist: opt_chars(self.artist), title: opt_chars(self.title) }
    }
}

/// The pieces of `s` between newlines.
pub open spec fn split_newlines(s: Seq<char>) -> Seq<Seq<char>>
    decreases s.len(),
{
    match find(s, seq!['\n']) {
        Some(i) => if 0 <= i < s.len() {
            seq![s.subrange(0, i)] + split_newlines(s.subrange(i + 1, s.len() as int))
        } else {
            seq![s]
        },
        None => seq![s],
    }
}

/// `Some(s)` unless `s` is empty.
pub open spec fn non_blank(s: Seq<char>) -> Option<Seq<char>> {
    if s.len() > 0 {
        Some(s)
    } else {
        None
    }
}

/// The artist and title of an entry's description: split at the first
/// ` - ` into artist and title (each trimmed, empty ones dropped), or all
/// title when there is no ` - `; nothing when the description is empty.
pub open spec fn desc_meta(desc: Seq<char>) -> Option<(Option<Seq<char>>, Option<Seq<char>>)> {
    if desc.len() == 0 {
        None
    } else {
        match find(desc, " - "@) {
            Some(j) => Some(
                (
                    non_blank(trim(desc.subrange(0, j))),
                    non_blank(trim(desc.subrange(j + 3, desc.len() as int))),
                ),
            ),
            None => Some((None, Some(desc))),
        }
    }
}

/// What an `#EXTINF:` line carries after its prefix: the description
/// after the first comma, trimmed (see [`desc_meta`]).
pub open spec fn extinf_meta(rest: Seq<char>) -> Option<(Option<Seq<char>>, Option<Seq<char>>)> {
    desc_meta(
        match find(rest, seq![',']) {
            Some(i) => trim(rest.subrange(i + 1, rest.len() as int)),
            None => Seq::empty(),
        },
    )
}

/// Parser state: entries so far and the metadata waiting for a path.
pub type M3uState = (Seq<EntryView>, Option<(Option<Seq<char>>, Option<Seq<char>>)>);

/// One line of input: blank lines and comments are skipped, `#EXTINF:`
/// lines set the pending metadata, and any other line is a path that takes
/// (and clears) it. A byte-order mark at the start of a line is ignored.
pub open spec fn m3u_step(state: M3uState, raw: Seq<char>) -> M3uState {
    let line = trim(trim_start_char(raw, '\u{feff}'));
    if line.len() == 0 {
        state
    } else if starts_with(line, "#EXTINF:"@) {
        (state.0, extinf_meta(line.subrange(8, line.len() as int)))
    } else if starts_with(line, seq!['#']) {
        state
    } else {
        let (artist, title) = match state.1 {
            Some(p) => p,
            None => (None, None),
        };
        (state.0.push(EntryView { raw_path: line, artist, title }), None)
    }
}

/// The state after the given lines.
pub open spec fn m3u_run(lines: Seq<Seq<char>>) -> M3uState
    decreases lines.len(),
{
    if lines.len() == 0 {
        (Seq::empty(), None)
    } else {
        m3u_step(m3u_run(lines.drop_last()), lines.last())
    }
}

/// The entries of an M3U text.
pub open spec fn spec_parse_m3u(content: Seq<char>) -> Seq<EntryView> {
    m3u_run(split_newlines(content)).0
}

fn non_blank_exec(s: Vec<char>) -> (r: Option<String>)
    ensures
        opt_chars(r) == non_blank(s@),
{
    if s.len() > 0 {
        Some(string_of(s.as_slice()))
    } else {
        None
    }
}

fn extinf_meta_exec(rest: &[char]) -> (r: Option<(Option<String>, Option<String>)>)
    ensures
        match (r, extinf_meta(rest@)) {
            (Some((a, t)), Some((sa, st))) => opt_chars(a) == sa && opt_chars(t) == st,
            (None, None) => true,
            _ => false,
        },
{
    let comma = vec![','];
    assert(comma@ =~= seq![',']);
    let n = rest.len();
    let desc = match find_chars(rest, comma.as_slice()) {
        Some(i) => trim_chars(slice_chars(rest, i + 1, n).as_slice()),
        None => Vec::new(),
    };
    if desc.len() == 0 {
        return None;
    }
    let sep = chars_of(" - ");
    proof {
        reveal_strlit(" - ");
    }
    let m = desc.len();
    match find_chars(desc.as_slice(), sep.as_slice()) {
        Some(j) => {
            let a = trim_chars(slice_chars(desc.as_slice(), 0, j).as_slice());
            let t = trim_chars(slice_chars(desc.as_slice(), j + 3, m).as_slice());
            Some((non_blank_exec(a), non_blank_exec(t)))
        },
        None => Some((None, Some(string_of(desc.as_slice())))),
    }
}

fn clone_meta(p: &Option<(Option<String>, Option<String>)>) -> (r: (Option<String>, Option<String>))
    ensures
        match *p {
            Some((a, t)) => opt_chars(r.0) == opt_chars(a) && opt_chars(r.1) == opt_chars(t),
            None => r.0 is None && r.1 is None,
        },
{
    match p {
        Some((a, t)) => (
            match a {
                Some(x) => Some(x.clone()),
                None => None,
            },
            match t {
                Some(x) => Some(x.clone()),
                None => None,
            },
        ),
        None => (None, None),
    }
}

/// Reads the entries of an M3U playlist.
pub fn parse_m3u(content: &str) -> (r: Vec<M3uEntry>)
    ensures
        r@.map_values(|e: M3uEntry| e@) == spec_parse_m3u(content@),
{
    let s = chars_of(content);
    let n = s.len();
    let nl = vec!['\n'];
    assert(nl@ =~= seq!['\n']);
    let mut entries: Vec<M3uEntry> = Vec::new();
    let mut pending: Option<(Option<String>, Option<String>)> = None;
    let mut start: usize = 0;
    let ghost mut done: Seq<Seq<char>> = Seq::empty();
    let mut finished = false;
    assert(s@.subrange(0, n as int) =~= s@);
    while !finished
        invariant
            n == s@.len(),
            nl@ == seq!['\n'],
            start <= n,
            !finished ==> done + split_newlines(s@.subrange(start as int, n as int))
                == split_newlines(s@),
            finished ==> done == split_newlines(s@),
            m3u_run(done).0 == entries@.map_values(|e: M3uEntry| e@),
            m3u_run(done).1 == match pending {
                Some((a, t)) => Some((opt_chars(a), opt_chars(t))),
                None => None,
            },
        decreases 2 * (n - start) + (if finished {
            0int
        } else {
            1int
        }),
    {
        let rest = slice_chars(s.as_slice(), start, n);
        let (line, next) = match find_chars(rest.as_slice(), nl.as_slice()) {
            Some(i) => (slice_chars(rest.as_slice(), 0, i), Some(start + i + 1)),
            None => (rest, None),
        };
        let ghost prev_done = done;
        proof {
            done = done.push(line@);
        }
        // process one line
        let l1 = trim_start_char_chars(line.as_slice(), '\u{feff}');
        let l = trim_chars(l1.as_slice());
        let ext = chars_of("#EXTINF:");
        proof {
            reveal_strlit("#EXTINF:");
        }
        let hash = vec!['#'];
        assert(hash@ =~= seq!['#']);
        assert(done.drop_last() =~= prev_done);
        if l.len() == 0 {
        } else if starts_with_chars(l.as_slice(), ext.as_slice()) {
            let m = l.len();
            let meta_rest = slice_chars(l.as_slice(), 8, m);
            pending = extinf_meta_exec(meta_rest.as_slice());
        } else if starts_with_chars(l.as_slice(), hash.as_slice()) {
        } else {
            let (artist, title) = clone_meta(&pending);
            entries.push(M3uEntry { raw_path: string_of(l.as_slice()), artist, title });
            pending = None;
            assert(entries@.map_values(|e: M3uEntry| e@) =~= m3u_run(done).0);
        }
        match next {
            Some(nx) => {
                proof {
                    let r = s@.subrange(start as int, n as int);
                    assert(s@.subrange(nx as int, n as int) =~= r.subrange(
                        (nx - start) as int,
                        r.len() as int,
                    ));
                    assert(done =~= prev_done + seq![line@]);
                    assert(prev_done + split_newlines(r) =~= done + split_newlines(
                        s@.subrange(nx as int, n as int),
                    ));
                }
                start = nx;
            },
            None => {
                proof {
                    let r = s@.subrange(start as int, n as int);
                    assert(split_newlines(r) =~= seq![r]);
                    assert(done =~= prev_done + split_newlines(r));
                }
                finished = true;
            },
        }
    }
    entries
}

/// The file name of a path without its last extension (`Path::file_stem`).
pub open spec fn path_stem(path: Seq<char>) -> Option<Seq<char>> {
    let name = last_component(path);
    if name.len() == 0 || name == ".."@ {
        None
    } else {
        match last_dot(name) {
            Some(i) => if i == 0 {
                Some(name)
            } else {
                Some(name.subrange(0, i))
            },
            None => Some(name),
        }
    }
}

/// The name of a playlist imported from a file: the file's stem, or
/// `Imported Playlist` when the path names no file.
pub open spec fn spec_imported_playlist_name(path: Seq<char>) -> Seq<char> {
    match path_stem(path) {
        Some(s) => s,
        None => "Imported Playlist"@,
    }
}

/// Name for a playlist imported from `path`.
pub fn imported_playlist_name(path: &str) -> (r: String)
    ensures
        r@ == spec_imported_playlist_name(path@),
{
    let p = chars_of(path);
    let name = last_component_exec(p.as_slice());
    if name.len() == 0 || chars_eq_str(name.as_slice(), "..") {
        return String::from_str("Imported Playlist");
    }
    match last_dot_exec(name.as_slice()) {
        Some(i) => if i == 0 {
            string_of(name.as_slice())
        } else {
            string_of(slice_chars(name.as_slice(), 0, i).as_slice())
        },
        None => string_of(name.as_slice()),
    }
}

/// The file name of a device playlist: the playlist's name made safe for
/// the device, with `.m3u` appended.
pub fn m3u_file_name(playlist_name: &str) -> (r: String)
    ensures
        r@ == spec_device_file_name(playlist_name@) + ".m3u"@,
{
    let mut r = sanitize_filename(playlist_name);
    r.append(".m3u");
    r
}


/// The pieces of `s` between newlines (see [`split_newlines`]).
pub fn split_newline_chars(s: &[char]) -> (r: Vec<Vec<char>>)
    ensures
        r@.map_values(|l: Vec<char>| l@) == split_newlines(s@),
{
    let n = s.len();
    let nl = vec!['\n'];
    assert(nl@ =~= seq!['\n']);
    let mut out: Vec<Vec<char>> = Vec::new();
    let mut start: usize = 0;
    let mut finished = false;
    assert(s@.subrange(0, n as int) =~= s@);
    assert(out@.map_values(|l: Vec<char>| l@) =~= Seq::<Seq<char>>::empty());
    while !finished
        invariant
            n == s@.len(),
            nl@ == seq!['\n'],
            start <= n,
            !finished ==> out@.map_values(|l: Vec<char>| l@) + split_newlines(
                s@.subrange(start as int, n as int),
            ) == split_newlines(s@),
            finished ==> out@.map_values(|l: Vec<char>| l@) == split_newlines(s@),
        decreases 2 * (n - start) + (if finished {
            0int
        } else {
            1int
        }),
    {
        let rest = slice_chars(s, start, n);
        let (line, next) = match find_chars(rest.as_slice(), nl.as_slice()) {
            Some(i) => (slice_chars(rest.as_slice(), 0, i), Some(start + i + 1)),
            None => (rest, None),
        };
        let ghost prev = out@.map_values(|l: Vec<char>| l@);
        let ghost lv = line@;
        out.push(line);
        assert(out@.map_values(|l: Vec<char>| l@) =~= prev.push(lv));
        match next {
            Some(nx) => {
                proof {
                    let r = s@.subrange(start as int, n as int);
                    assert(s@.subrange(nx as int, n as int) =~= r.subrange(
                        (nx - start) as int,
                        r.len() as int,
                    ));
                    assert(prev + split_newlines(r) =~= prev.push(lv) + split_newlines(
                        s@.subrange(nx as int, n as int),
                    ));
                }
                start = nx;
            },
            None => {
                proof {
                    let r = s@.subrange(start as int, n as int);
                    assert(split_newlines(r) =~= seq![r]);
                    assert(prev.push(lv) =~= prev + split_newlines(r));
                }
                finished = true;
            },
        }
    }
    out
}


/// Lines joined with line breaks between them.
pub open spec fn join_lines(lines: Seq<Seq<char>>) -> Seq<char>
    decreases lines.len(),
{
    if lines.len() == 0 {
        Seq::empty()
    } else if lines.len() == 1 {
        lines[0]
    } else {
        lines[0] + seq!['\n'] + join_lines(lines.drop_first())
    }
}

proof fn lemma_split_joined(lines: Seq<Seq<char>>)
    requires
        lines.len() > 0,
        forall|i: int| 0 <= i < lines.len() ==> lacks(#[trigger] lines[i], '\n'),
    ensures
        split_newlines(join_lines(lines)) == lines,
    decreases lines.len(),
{
    let a = lines[0];
    if lines.len() == 1 {
        lemma_find_char_none(a, '\n', 0);
        assert(seq![a] =~= lines);
    } else {
        let rest = lines.drop_first();
        let s = join_lines(lines);
        lemma_find_char(a, join_lines(rest), '\n', 0);
        assert(s.subrange(0, a.len() as int) =~= a);
        assert(s.subrange(a.len() + 1int, s.len() as int) =~= join_lines(rest));
        assert forall|i: int| 0 <= i < rest.len() implies lacks(#[trigger] rest[i], '\n') by {
            assert(rest[i] == lines[i + 1]);
        }
        lemma_split_joined(rest);
        assert(seq![a] + rest =~= lines);
    }
}

proof fn lemma_join_concat(a: Seq<Seq<char>>, b: Seq<Seq<char>>)
    requires
        a.len() > 0,
        b.len() > 0,
    ensures
        join_lines(a + b) == join_lines(a) + seq!['\n'] + join_lines(b),
    decreases a.len(),
{
    let ab = a + b;
    assert(ab[0] == a[0]);
    if a.len() == 1 {
        assert(ab.drop_first() =~= b);
    } else {
        assert(ab.drop_first() =~= a.drop_first() + b);
        lemma_join_concat(a.drop_first(), b);
        assert(join_lines(ab) =~= join_lines(a) + seq!['\n'] + join_lines(b));
    }
}

/// The `#EXTINF` line of an entry.
pub open spec fn ext_line(item: M3uItem) -> Seq<char> {
    "#EXTINF:"@ + signed_decimal(duration_secs(item.duration_ms)) + ","@ + item.display@
}

/// The lines of an exported playlist before its final line break.
pub open spec fn body_lines(items: Seq<M3uItem>) -> Seq<Seq<char>>
    decreases items.len(),
{
    if items.len() == 0 {
        seq!["#EXTM3U"@]
    } else {
        body_lines(items.drop_last()) + seq![ext_line(items.last()), items.last().path@]
    }
}

proof fn lemma_body_len(items: Seq<M3uItem>)
    ensures
        body_lines(items).len() == 2 * items.len() + 1,
    decreases items.len(),
{
    if items.len() > 0 {
        lemma_body_len(items.drop_last());
    }
}

proof fn lemma_text_lines(items: Seq<M3uItem>)
    ensures
        playlist_text(items) == join_lines(body_lines(items)) + seq!['\n'],
    decreases items.len(),
{
    reveal_strlit("\n");
    if items.len() == 0 {
        reveal_strlit("#EXTM3U\n");
        reveal_strlit("#EXTM3U");
        assert(body_lines(items) =~= seq!["#EXTM3U"@]);
        assert(playlist_text(items) =~= "#EXTM3U"@ + seq!['\n']);
    } else {
        let dl = items.drop_last();
        let it = items.last();
        lemma_text_lines(dl);
        lemma_body_len(dl);
        let two = seq![ext_line(it), it.path@];
        assert(two.drop_first() =~= seq![it.path@]);
        assert(join_lines(seq![it.path@]) == it.path@);
        assert(two[0] == ext_line(it));
        assert(join_lines(two) == ext_line(it) + seq!['\n'] + it.path@);
        lemma_join_concat(body_lines(dl), two);
        assert(playlist_text(items) =~= join_lines(body_lines(items)) + seq!['\n']);
    }
}

/// A path line the reader keeps as it is: not blank, no line break, no
/// surrounding white space or byte-order mark, not a comment.
pub open spec fn plain_path(p: Seq<char>) -> bool {
    &&& p.len() > 0
    &&& p[0] != '#'
    &&& lacks(p, '\n')
    &&& trim(trim_start_char(p, '\u{feff}')) == p
}

/// What reading back an exported entry gives: its path, with the artist and
/// title read from its display text.
pub open spec fn read_back(item: M3uItem) -> EntryView {
    let (artist, title) = match desc_meta(trim(item.display@)) {
        Some(m) => m,
        None => (None, None),
    };
    EntryView { raw_path: item.path@, artist, title }
}

proof fn lemma_ext_step(state: Seq<EntryView>, item: M3uItem)
    ensures
        m3u_step((state, None), ext_line(item)) == (state, desc_meta(trim(item.display@))),
{
    reveal_strlit("#EXTINF:");
    reveal_strlit(",");
    let secs = signed_decimal(duration_secs(item.duration_ms));
    lemma_signed_decimal_plain(duration_secs(item.duration_ms));
    let d = item.display@;
    let head = "#EXTINF:"@ + secs + ","@;
    let raw = ext_line(item);
    assert(raw =~= head + d);
    assert(raw[0] == '#');
    assert(trim_start_char(raw, '\u{feff}') == raw);
    assert(trim_start(raw) == raw);
    assert(head.last() == ',');
    lemma_trim_end_after(head, d);
    let line = head + trim_end(d);
    assert(trim(raw) == line);
    assert(line.subrange(0, 8) =~= "#EXTINF:"@);
    assert(starts_with(line, "#EXTINF:"@));
    let rest = line.subrange(8, line.len() as int);
    assert(rest =~= secs + seq![','] + trim_end(d));
    lemma_find_char(secs, trim_end(d), ',', 0);
    assert(rest.subrange(secs.len() + 1int, rest.len() as int) =~= trim_end(d));
    lemma_trim_after_trim_end(d);
}

proof fn lemma_path_step(state: Seq<EntryView>, meta: Option<(Option<Seq<char>>, Option<Seq<char>>)>, p: Seq<char>)
    requires
        plain_path(p),
    ensures
        m3u_step((state, meta), p) == (
            state.push(
                EntryView {
                    raw_path: p,
                    artist: match meta {
                        Some(m) => m.0,
                        None => None,
                    },
                    title: match meta {
                        Some(m) => m.1,
                        None => None,
                    },
                },
            ),
            None::<(Option<Seq<char>>, Option<Seq<char>>)>,
        ),
{
    reveal_strlit("#EXTINF:");
    if starts_with(p, "#EXTINF:"@) {
        assert(p.subrange(0, 8)[0] == p[0]);
    }
    if starts_with(p, seq!['#']) {
        assert(p.subrange(0, 1)[0] == p[0]);
    }
}

proof fn lemma_run_body(items: Seq<M3uItem>)
    requires
        forall|i: int| 0 <= i < items.len() ==> plain_path((#[trigger] items[i]).path@),
    ensures
        m3u_run(body_lines(items)) == (
            items.map_values(|it: M3uItem| read_back(it)),
            None::<(Option<Seq<char>>, Option<Seq<char>>)>,
        ),
    decreases items.len(),
{
    if items.len() == 0 {
        reveal_strlit("#EXTM3U");
        reveal_strlit("#EXTINF:");
        let h = "#EXTM3U"@;
        let lines = body_lines(items);
        assert(lines.drop_last() =~= Seq::<Seq<char>>::empty());
        assert(h[0] == '#');
        assert(trim_start_char(h, '\u{feff}') == h);
        assert(trim_start(h) == h);
        assert(trim_end(h) == h);
        assert(h.subrange(0, 1) =~= seq!['#']);
        assert(!starts_with(h, "#EXTINF:"@));
        assert(starts_with(h, seq!['#']));
        assert(lines.last() == h);
        assert(m3u_run(lines.drop_last()) == (Seq::<EntryView>::empty(), None::<(Option<Seq<char>>, Option<Seq<char>>)>));
        assert(m3u_run(lines) == m3u_step(m3u_run(lines.drop_last()), h));
        assert(items.map_values(|it: M3uItem| read_back(it)) =~= Seq::<EntryView>::empty());
    } else {
        let dl = items.drop_last();
        let it = items.last();
        assert forall|i: int| 0 <= i < dl.len() implies plain_path((#[trigger] dl[i]).path@) by {
            assert(dl[i] == items[i]);
        }
        lemma_run_body(dl);
        let prev = body_lines(dl);
        let lines = body_lines(items);
        assert(lines.drop_last() =~= prev.push(ext_line(it)));
        assert(lines.drop_last().drop_last() =~= prev);
        assert(plain_path(items[items.len() - 1].path@));
        let done = dl.map_values(|x: M3uItem| read_back(x));
        lemma_ext_step(done, it);
        lemma_path_step(done, desc_meta(trim(it.display@)), it.path@);
        assert(lines.last() == it.path@);
        assert(lines.drop_last().last() == ext_line(it));
        assert(m3u_run(lines.drop_last()) == m3u_step(m3u_run(prev), ext_line(it)));
        assert(m3u_run(lines) == m3u_step(m3u_run(lines.drop_last()), it.path@));
        assert(items.map_values(|x: M3uItem| read_back(x)) =~= done.push(read_back(it)));
    }
}

/// Reading back an exported playlist gives its entries: each path, in
/// order, with the artist and title of its display text (split at the
/// first ` - `). Paths must be single plain lines the reader keeps as they
/// are, and display texts single lines.
pub proof fn law_export_reads_back(items: Seq<M3uItem>)
    requires
        forall|i: int| 0 <= i < items.len() ==> plain_path((#[trigger] items[i]).path@),
        forall|i: int| 0 <= i < items.len() ==> lacks((#[trigger] items[i]).display@, '\n'),
    ensures
        spec_parse_m3u(playlist_text(items)) == items.map_values(|it: M3uItem| read_back(it)),
{
    reveal_strlit("#EXTM3U");
    reveal_strlit("#EXTINF:");
    reveal_strlit(",");
    lemma_text_lines(items);
    lemma_body_len(items);
    let body = body_lines(items);
    let all = body + seq![Seq::<char>::empty()];
    lemma_join_concat(body, seq![Seq::<char>::empty()]);
    assert(join_lines(all) =~= join_lines(body) + seq!['\n']);
    assert forall|i: int| 0 <= i < all.len() implies lacks(#[trigger] all[i], '\n') by {
        lemma_body_line_plain(items, i);
    }
    lemma_split_joined(all);
    lemma_run_body(items);
    assert(all.drop_last() =~= body);
    assert(trim_start_char(Seq::<char>::empty(), '\u{feff}') == Seq::<char>::empty());
}

proof fn lemma_body_line_plain(items: Seq<M3uItem>, i: int)
    requires
        forall|k: int| 0 <= k < items.len() ==> plain_path((#[trigger] items[k]).path@),
        forall|k: int| 0 <= k < items.len() ==> lacks((#[trigger] items[k]).display@, '\n'),
        0 <= i < body_lines(items).len() + 1,
    ensures
        lacks((body_lines(items) + seq![Seq::<char>::empty()])[i], '\n'),
    decreases items.len(),
{
    reveal_strlit("#EXTM3U");
    reveal_strlit("#EXTINF:");
    reveal_strlit(",");
    lemma_body_len(items);
    let body = body_lines(items);
    let all = body + seq![Seq::<char>::empty()];
    if i == body.len() {
        assert(all[i] == Seq::<char>::empty());
    } else if items.len() == 0 {
        assert(all[i] == "#EXTM3U"@);
    } else {
        let dl = items.drop_last();
        let it = items.last();
        lemma_body_len(dl);
        let prev = body_lines(dl);
        if i < prev.len() {
            assert forall|k: int| 0 <= k < dl.len() implies plain_path((#[trigger] dl[k]).path@) by {
                assert(dl[k] == items[k]);
            }
            assert forall|k: int| 0 <= k < dl.len() implies lacks((#[trigger] dl[k]).display@, '\n') by {
                assert(dl[k] == items[k]);
            }
            lemma_body_line_plain(dl, i);
            assert(all[i] == (prev + seq![Seq::<char>::empty()])[i]);
        } else if i == prev.len() {
            assert(all[i] == ext_line(it));
            lemma_signed_decimal_plain(duration_secs(it.duration_ms));
            assert(lacks(items[items.len() - 1].display@, '\n'));
            let e = ext_line(it);
            let secs = signed_decimal(duration_secs(it.duration_ms));
            assert forall|k: int| 0 <= k < e.len() implies #[trigger] e[k] != '\n' by {
                if k < 8 {
                    assert(e[k] == "#EXTINF:"@[k]);
                } else if k < 8 + secs.len() {
                    assert(e[k] == secs[k - 8]);
                } else if k == 8 + secs.len() {
                    assert(e[k] == ',');
                } else {
                    assert(e[k] == it.display@[k - 9 - secs.len()]);
                }
            }
        } else {
            assert(all[i] == it.path@);
            assert(plain_path(items[items.len() - 1].path@));
        }
    }
}


/// The directory an M3U file sits in, as text to join entries to: the text
/// before its last `/` (`/` itself for a file in the root), or nothing for
/// a bare file name. Paths are read as on Unix-like systems.
pub open spec fn m3u_base_dir(m3u_path: Seq<char>) -> Seq<char> {
    match rfind(m3u_path, seq!['/']) {
        Some(i) => if i == 0 {
            seq!['/']
        } else {
            m3u_path.subrange(0, i)
        },
        None => Seq::empty(),
    }
}

/// Where an entry of an M3U file points: an absolute path (starting with
/// `/`) as it is, any other path joined to the file's directory.
pub open spec fn resolve_entry(m3u_path: Seq<char>, raw_path: Seq<char>) -> Seq<char> {
    let base = m3u_base_dir(m3u_path);
    if starts_with(raw_path, seq!['/']) || base.len() == 0 {
        raw_path
    } else if base.last() == '/' {
        base + raw_path
    } else {
        base + seq!['/'] + raw_path
    }
}

/// The library paths an entry is looked up under, in order: the path as
/// written, then the resolved path when it differs.
pub open spec fn entry_candidates(m3u_path: Seq<char>, raw_path: Seq<char>) -> Seq<Seq<char>> {
    let r = resolve_entry(m3u_path, raw_path);
    if r == raw_path {
        seq![raw_path]
    } else {
        seq![raw_path, r]
    }
}

/// The paths an M3U entry is looked up under (see [`entry_candidates`]).
pub fn m3u_entry_candidates(m3u_path: &str, raw_path: &str) -> (r: Vec<String>)
    ensures
        r@.map_values(|c: String| c@) == entry_candidates(m3u_path@, raw_path@),
{
    let mp = chars_of(m3u_path);
    let rp = chars_of(raw_path);
    let slash = vec!['/'];
    assert(slash@ =~= seq!['/']);
    let base: Vec<char> = match rfind_chars(mp.as_slice(), slash.as_slice()) {
        Some(i) => if i == 0 {
            slash.clone()
        } else {
            slice_chars(mp.as_slice(), 0, i)
        },
        None => Vec::new(),
    };
    assert(base@ == m3u_base_dir(m3u_path@));
    let resolved: Vec<char> = if starts_with_chars(rp.as_slice(), slash.as_slice()) || base.len() == 0 {
        rp.clone()
    } else {
        let mut v = base.clone();
        if base[base.len() - 1] != '/' {
            v.push('/');
        }
        let mut k: usize = 0;
        let ghost head = v@;
        while k < rp.len()
            invariant
                k <= rp@.len(),
                v@ == head + rp@.take(k as int),
            decreases rp@.len() - k,
        {
            v.push(rp[k]);
            k = k + 1;
            assert(v@ =~= head + rp@.take(k as int));
        }
        assert(rp@.take(k as int) =~= rp@);
        v
    };
    proof {
        if !(starts_with(raw_path@, seq!['/']) || base@.len() == 0) {
            if base@.last() == '/' {
                assert(resolved@ =~= base@ + raw_path@);
            } else {
                assert(resolved@ =~= base@ + seq!['/'] + raw_path@);
            }
        }
    }
    assert(resolved@ == resolve_entry(m3u_path@, raw_path@));
    let mut r: Vec<String> = Vec::new();
    r.push(string_of(rp.as_slice()));
    if !chars_eq(resolved.as_slice(), rp.as_slice()) {
        r.push(string_of(resolved.as_slice()));
    }
    assert(r@.map_values(|c: String| c@) =~= entry_candidates(m3u_path@, raw_path@));
    r
}

} // verus!
