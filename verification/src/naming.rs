//! File-name rules: safe names on removable media and in exports, file
//! extensions, and the names tracks get on a device.

use crate::text::{
    chars_eq_str, chars_of, decimal, lowercase_chars, opt_chars, slice_chars, string_of, trim,
    trim_chars, trim_end_char, trim_end_char_chars, trim_start_char, trim_start_char_chars,
    unicode_lowercase, is_whitespace, spec_is_whitespace, trim_start, trim_start_chars,
};
use vstd::prelude::*;

verus! {

/// Characters that FAT32, exFAT and NTFS refuse in names.
pub open spec fn is_illegal_name_char(c: char) -> bool {
    c == '/' || c == '\\' || c == ':' || c == '*' || c == '?' || c == '"' || c == '<' || c == '>'
        || c == '|'
}

fn is_illegal_name_char_exec(c: char) -> (r: bool)
    ensures
        r == is_illegal_name_char(c),
{
    c == '/' || c == '\\' || c == ':' || c == '*' || c == '?' || c == '"' || c == '<' || c == '>'
        || c == '|'
}

/// Illegal characters and control characters (below U+0020) as `_`.
pub open spec fn device_safe_chars(s: Seq<char>) -> Seq<char> {
    s.map_values(|c: char| if is_illegal_name_char(c) || (c as u32) < 0x20 { '_' } else { c })
}

/// Illegal characters as `_`.
pub open spec fn export_safe_chars(s: Seq<char>) -> Seq<char> {
    s.map_values(|c: char| if is_illegal_name_char(c) { '_' } else { c })
}

fn map_name_chars(s: &[char], control_too: bool) -> (r: Vec<char>)
    ensures
        control_too ==> r@ == device_safe_chars(s@),
        !control_too ==> r@ == export_safe_chars(s@),
{
    let mut r: Vec<char> = Vec::new();
    let mut i: usize = 0;
    while i < s.len()
        invariant
            i <= s@.len(),
            control_too ==> r@ == device_safe_chars(s@.take(i as int)),
            !control_too ==> r@ == export_safe_chars(s@.take(i as int)),
        decreases s@.len() - i,
    {
        let c = s[i];
        let bad = is_illegal_name_char_exec(c) || (control_too && (c as u32) < 0x20);
        r.push(if bad { '_' } else { c });
        i = i + 1;
        assert(control_too ==> r@ =~= device_safe_chars(s@.take(i as int)));
        assert(!control_too ==> r@ =~= export_safe_chars(s@.take(i as int)));
    }
    assert(s@.take(i as int) =~= s@);
    r
}

/// ASCII uppercase of one character.
pub open spec fn ascii_upper(c: char) -> char {
    if 'a' <= c <= 'z' {
        ((c as u32) - 32) as char
    } else {
        c
    }
}

/// ASCII lowercase of one character.
pub open spec fn ascii_lower(c: char) -> char {
    if 'A' <= c <= 'Z' {
        ((c as u32) + 32) as char
    } else {
        c
    }
}

/// `str::to_ascii_uppercase`.
pub open spec fn ascii_uppercase(s: Seq<char>) -> Seq<char> {
    s.map_values(|c: char| ascii_upper(c))
}

/// `str::to_ascii_lowercase`.
pub open spec fn ascii_lowercase(s: Seq<char>) -> Seq<char> {
    s.map_values(|c: char| ascii_lower(c))
}

fn ascii_upper_exec(c: char) -> (r: char)
    ensures
        r == ascii_upper(c),
{
    if 'a' <= c && c <= 'z' {
        let n = (c as u8) - 32;
        assert(n as char == ((c as u32) - 32) as char);
        n as char
    } else {
        c
    }
}

fn ascii_lower_exec(c: char) -> (r: char)
    ensures
        r == ascii_lower(c),
{
    if 'A' <= c && c <= 'Z' {
        let n = (c as u8) + 32;
        assert(n as char == ((c as u32) + 32) as char);
        n as char
    } else {
        c
    }
}

/// The ASCII-uppercase characters of `s`.
pub fn ascii_uppercase_chars(s: &[char]) -> (r: Vec<char>)
    ensures
        r@ == ascii_uppercase(s@),
{
    let mut r: Vec<char> = Vec::new();
    let mut i: usize = 0;
    while i < s.len()
        invariant
            i <= s@.len(),
            r@ == ascii_uppercase(s@.take(i as int)),
        decreases s@.len() - i,
    {
        r.push(ascii_upper_exec(s[i]));
        i = i + 1;
        assert(r@ =~= ascii_uppercase(s@.take(i as int)));
    }
    assert(s@.take(i as int) =~= s@);
    r
}

/// The ASCII-lowercase characters of `s`.
pub fn ascii_lowercase_chars(s: &[char]) -> (r: Vec<char>)
    ensures
        r@ == ascii_lowercase(s@),
{
    let mut r: Vec<char> = Vec::new();
    let mut i: usize = 0;
    while i < s.len()
        invariant
            i <= s@.len(),
            r@ == ascii_lowercase(s@.take(i as int)),
        decreases s@.len() - i,
    {
        r.push(ascii_lower_exec(s[i]));
        i = i + 1;
        assert(r@ =~= ascii_lowercase(s@.take(i as int)));
    }
    assert(s@.take(i as int) =~= s@);
    r
}

/// DOS device names that no file may be called.
pub open spec fn is_reserved_dos_name(s: Seq<char>) -> bool {
    ||| s == "CON"@
    ||| s == "PRN"@
    ||| s == "AUX"@
    ||| s == "NUL"@
    ||| s == "COM1"@
    ||| s == "COM2"@
    ||| s == "COM3"@
    ||| s == "COM4"@
    ||| s == "COM5"@
    ||| s == "COM6"@
    ||| s == "COM7"@
    ||| s == "COM8"@
    ||| s == "COM9"@
    ||| s == "LPT1"@
    ||| s == "LPT2"@
    ||| s == "LPT3"@
    ||| s == "LPT4"@
    ||| s == "LPT5"@
    ||| s == "LPT6"@
    ||| s == "LPT7"@
    ||| s == "LPT8"@
    ||| s == "LPT9"@
}

fn is_reserved_dos_name_exec(s: &[char]) -> (r: bool)
    ensures
        r == is_reserved_dos_name(s@),
{
    chars_eq_str(s, "CON") || chars_eq_str(s, "PRN") || chars_eq_str(s, "AUX") || chars_eq_str(
        s,
        "NUL",
    ) || chars_eq_str(s, "COM1") || chars_eq_str(s, "COM2") || chars_eq_str(s, "COM3")
        || chars_eq_str(s, "COM4") || chars_eq_str(s, "COM5") || chars_eq_str(s, "COM6")
        || chars_eq_str(s, "COM7") || chars_eq_str(s, "COM8") || chars_eq_str(s, "COM9")
        || chars_eq_str(s, "LPT1") || chars_eq_str(s, "LPT2") || chars_eq_str(s, "LPT3")
        || chars_eq_str(s, "LPT4") || chars_eq_str(s, "LPT5") || chars_eq_str(s, "LPT6")
        || chars_eq_str(s, "LPT7") || chars_eq_str(s, "LPT8") || chars_eq_str(s, "LPT9")
}

/// A character that Windows drops from the end of a name: a dot or white
/// space.
pub open spec fn is_dot_or_space(c: char) -> bool {
    c == '.' || spec_is_whitespace(c)
}

/// `s` without its trailing dots and white space, removed until neither
/// ends it.
pub open spec fn trim_end_dots_spaces(s: Seq<char>) -> Seq<char>
    decreases s.len(),
{
    if s.len() > 0 && is_dot_or_space(s.last()) {
        trim_end_dots_spaces(s.drop_last())
    } else {
        s
    }
}

/// What is left after the trailing dots and white space go is a prefix,
/// and it ends in neither.
proof fn lemma_trim_end_dots_spaces(s: Seq<char>)
    ensures
        trim_end_dots_spaces(s).len() <= s.len(),
        trim_end_dots_spaces(s) == s.subrange(0, trim_end_dots_spaces(s).len() as int),
        trim_end_dots_spaces(s).len() > 0 ==> !is_dot_or_space(trim_end_dots_spaces(s).last()),
    decreases s.len(),
{
    if s.len() > 0 && is_dot_or_space(s.last()) {
        lemma_trim_end_dots_spaces(s.drop_last());
        let t = trim_end_dots_spaces(s);
        assert(s.drop_last().subrange(0, t.len() as int) =~= s.subrange(0, t.len() as int));
    } else {
        assert(s.subrange(0, s.len() as int) =~= s);
    }
}

fn trim_end_dots_spaces_chars(s: &[char]) -> (r: Vec<char>)
    ensures
        r@ == trim_end_dots_spaces(s@),
{
    let mut j: usize = s.len();
    assert(s@.subrange(0, j as int) =~= s@);
    while j > 0 && (s[j - 1] == '.' || is_whitespace(s[j - 1]))
        invariant
            j <= s@.len(),
            trim_end_dots_spaces(s@) == trim_end_dots_spaces(s@.subrange(0, j as int)),
        decreases j,
    {
        assert(s@.subrange(0, j as int).drop_last() =~= s@.subrange(0, j - 1));
        assert(s@.subrange(0, j as int).last() == s@[j - 1]);
        j = j - 1;
    }
    proof {
        if j > 0 {
            assert(s@.subrange(0, j as int).last() == s@[j - 1]);
        }
    }
    slice_chars(s, 0, j)
}

/// A file or directory name that is safe on FAT32/exFAT/NTFS media:
/// illegal and control characters become `_`, leading white space goes,
/// trailing dots and white space go until neither ends the name (Windows
/// drops them), a reserved DOS device name gets a `_` appended, and an
/// empty result becomes `untitled`.
pub open spec fn spec_device_file_name(name: Seq<char>) -> Seq<char> {
    let s = trim_end_dots_spaces(trim_start(device_safe_chars(name)));
    let s = if is_reserved_dos_name(ascii_uppercase(s)) {
        s.push('_')
    } else {
        s
    };
    if s.len() == 0 {
        "untitled"@
    } else {
        s
    }
}

/// A name that is safe to create on removable media.
pub fn sanitize_filename(name: &str) -> (r: String)
    ensures
        r@ == spec_device_file_name(name@),
{
    let chars = chars_of(name);
    let mapped = map_name_chars(chars.as_slice(), true);
    let a = trim_start_chars(mapped.as_slice());
    let mut s = trim_end_dots_spaces_chars(a.as_slice());
    let up = ascii_uppercase_chars(s.as_slice());
    if is_reserved_dos_name_exec(up.as_slice()) {
        s.push('_');
    }
    if s.len() == 0 {
        return String::from_str("untitled");
    }
    string_of(s.as_slice())
}

/// A character a device name may hold: not illegal, not a control character.
pub open spec fn is_device_name_char(c: char) -> bool {
    !is_illegal_name_char(c) && c as u32 >= 0x20
}

/// A name that is safe on removable media as it is: not empty, only
/// allowed characters, no white space in front, neither a dot nor white
/// space at the end, and not a reserved DOS device name.
pub open spec fn is_safe_device_name(r: Seq<char>) -> bool {
    &&& r.len() > 0
    &&& forall|i: int| 0 <= i < r.len() ==> is_device_name_char(#[trigger] r[i])
    &&& !spec_is_whitespace(r[0])
    &&& !is_dot_or_space(r.last())
    &&& !is_reserved_dos_name(ascii_uppercase(r))
}

proof fn lemma_trim_start_shape(s: Seq<char>)
    ensures
        trim_start(s).len() <= s.len(),
        trim_start(s) == s.subrange(s.len() - trim_start(s).len(), s.len() as int),
        trim_start(s).len() > 0 ==> !spec_is_whitespace(trim_start(s)[0]),
    decreases s.len(),
{
    if s.len() > 0 && spec_is_whitespace(s[0]) {
        lemma_trim_start_shape(s.drop_first());
        let t = trim_start(s);
        assert(s.drop_first().subrange(s.drop_first().len() - t.len(), s.drop_first().len() as int)
            =~= s.subrange(s.len() - t.len(), s.len() as int));
    } else {
        assert(s.subrange(0, s.len() as int) =~= s);
    }
}

/// No reserved DOS device name ends in `_`, and each has three or four
/// characters.
proof fn lemma_reserved_shape(x: Seq<char>)
    requires
        is_reserved_dos_name(x),
    ensures
        3 <= x.len() <= 4,
        x.last() != '_',
{
    reveal_strlit("CON");
    reveal_strlit("PRN");
    reveal_strlit("AUX");
    reveal_strlit("NUL");
    reveal_strlit("COM1");
    reveal_strlit("COM2");
    reveal_strlit("COM3");
    reveal_strlit("COM4");
    reveal_strlit("COM5");
    reveal_strlit("COM6");
    reveal_strlit("COM7");
    reveal_strlit("COM8");
    reveal_strlit("COM9");
    reveal_strlit("LPT1");
    reveal_strlit("LPT2");
    reveal_strlit("LPT3");
    reveal_strlit("LPT4");
    reveal_strlit("LPT5");
    reveal_strlit("LPT6");
    reveal_strlit("LPT7");
    reveal_strlit("LPT8");
    reveal_strlit("LPT9");
}

/// Every device name is safe: not empty, only allowed characters, no white
/// space in front, neither a dot nor white space at the end, and no
/// reserved DOS device name.
pub proof fn law_device_file_name_is_safe(name: Seq<char>)
    ensures
        is_safe_device_name(spec_device_file_name(name)),
{
    let d = device_safe_chars(name);
    assert forall|i: int| 0 <= i < d.len() implies is_device_name_char(#[trigger] d[i]) by {
        assert(d[i] == (if is_illegal_name_char(name[i]) || (name[i] as u32) < 0x20 { '_' } else { name[i] }));
    }
    lemma_trim_start_shape(d);
    let t = trim_start(d);
    lemma_trim_end_dots_spaces(t);
    let u = trim_end_dots_spaces(t);
    assert forall|i: int| 0 <= i < u.len() implies is_device_name_char(#[trigger] u[i]) by {
        assert(u[i] == t[i]);
        assert(t[i] == d[d.len() - t.len() + i]);
    }
    if u.len() > 0 {
        assert(u[0] == t[0]);
    }
    let r = spec_device_file_name(name);
    if is_reserved_dos_name(ascii_uppercase(u)) {
        lemma_reserved_shape(ascii_uppercase(u));
        let v = u.push('_');
        assert(ascii_uppercase(v) =~= ascii_uppercase(u).push('_'));
        if is_reserved_dos_name(ascii_uppercase(v)) {
            lemma_reserved_shape(ascii_uppercase(v));
        }
        assert(v[0] == u[0]);
        assert(r == v);
        assert forall|i: int| 0 <= i < v.len() implies is_device_name_char(#[trigger] v[i]) by {
            if i < u.len() {
                assert(v[i] == u[i]);
            }
        }
    } else if u.len() == 0 {
        reveal_strlit("untitled");
        let un = "untitled"@;
        assert(r == un);
        if is_reserved_dos_name(ascii_uppercase(un)) {
            lemma_reserved_shape(ascii_uppercase(un));
        }
        assert(un[0] == 'u');
        assert(un.last() == 'd');
        assert forall|i: int| 0 <= i < un.len() implies is_device_name_char(#[trigger] un[i]) by {
            assert('a' <= un[i] <= 'z');
        }
    }
}

/// A name that is already safe on removable media stays as it is.
pub proof fn law_safe_device_name_is_kept(name: Seq<char>)
    requires
        is_safe_device_name(name),
    ensures
        spec_device_file_name(name) == name,
{
    let d = device_safe_chars(name);
    assert(d =~= name) by {
        assert forall|i: int| 0 <= i < name.len() implies d[i] == name[i] by {
            assert(is_device_name_char(name[i]));
        }
    }
}

/// A file name for an exported file: illegal characters become `_`, white
/// space and dots at both ends go, and an empty result becomes `Unknown`.
pub open spec fn spec_export_file_name(name: Seq<char>) -> Seq<char> {
    let s = trim_end_char(trim_start_char(trim(export_safe_chars(name)), '.'), '.');
    if s.len() == 0 {
        "Unknown"@
    } else {
        s
    }
}

/// A name for a file written by an export.
pub fn sanitize_export_filename(name: &str) -> (r: String)
    ensures
        r@ == spec_export_file_name(name@),
{
    let chars = chars_of(name);
    let mapped = map_name_chars(chars.as_slice(), false);
    let a = trim_chars(mapped.as_slice());
    let b = trim_start_char_chars(a.as_slice(), '.');
    let c = trim_end_char_chars(b.as_slice(), '.');
    if c.len() == 0 {
        String::from_str("Unknown")
    } else {
        string_of(c.as_slice())
    }
}

/// A path separator. Paths are read as `std::path::Path` reads them on
/// Unix-like systems, where `/` is the only separator (a `\\` is part of a
/// name there).
pub open spec fn is_separator(c: char) -> bool {
    c == '/'
}

/// A path without what ends it but names no file: trailing separators and
/// `.` components (`Path` skips a `.` that is not the first component, and
/// a path that is only `.` names no file).
pub open spec fn strip_tail(p: Seq<char>) -> Seq<char>
    decreases p.len(),
{
    if p.len() > 0 && is_separator(p.last()) {
        strip_tail(p.drop_last())
    } else if p.len() == 1 && p[0] == '.' {
        Seq::empty()
    } else if p.len() >= 2 && p.last() == '.' && is_separator(p[p.len() - 2]) {
        strip_tail(p.drop_last())
    } else {
        p
    }
}

/// The last component of a path as `Path::file_name` finds it: the last
/// part between separators that is neither empty nor `.` (empty when there
/// is none). A `..` here means the path names no file.
pub open spec fn last_component(path: Seq<char>) -> Seq<char> {
    after_last_separator(strip_tail(path))
}

/// The text after the last separator of `s` (all of `s` if there is none).
pub open spec fn after_last_separator(s: Seq<char>) -> Seq<char>
    decreases s.len(),
{
    if s.len() == 0 {
        s
    } else if is_separator(s.last()) {
        Seq::empty()
    } else {
        after_last_separator(s.drop_last()).push(s.last())
    }
}

/// The extension of a file name: the text after its last `.`; none when
/// there is no `.`, when the only `.` starts the name, or for `..`.
pub open spec fn name_extension(name: Seq<char>) -> Option<Seq<char>> {
    if name == ".."@ {
        None
    } else {
        match last_dot(name) {
            Some(i) => if i == 0 {
                None
            } else {
                Some(name.subrange(i + 1, name.len() as int))
            },
            None => None,
        }
    }
}

/// The index of the last `.` in `s`.
pub open spec fn last_dot(s: Seq<char>) -> Option<int>
    decreases s.len(),
{
    if s.len() == 0 {
        None
    } else if s.last() == '.' {
        Some(s.len() - 1)
    } else {
        last_dot(s.drop_last())
    }
}

/// The extension of the file a path names.
pub open spec fn path_extension(path: Seq<char>) -> Option<Seq<char>> {
    name_extension(last_component(path))
}

pub(crate) fn last_component_exec(path: &[char]) -> (r: Vec<char>)
    ensures
        r@ == last_component(path@),
{
    let mut end: usize = path.len();
    assert(path@.take(end as int) =~= path@);
    while end > 0 && (path[end - 1] == '/' || (path[end - 1] == '.' && (end == 1 || path[end
        - 2] == '/')))
        invariant
            end <= path@.len(),
            strip_tail(path@) == strip_tail(path@.take(end as int)),
        decreases end,
    {
        let ghost t = path@.take(end as int);
        assert(t.drop_last() =~= path@.take(end - 1));
        assert(t.last() == path@[end - 1]);
        if end >= 2 {
            assert(t[t.len() - 2] == path@[end - 2]);
        }
        if end == 1 && path[0] == '.' {
            assert(path@.take(0) =~= Seq::<char>::empty());
            assert(strip_tail(path@.take(0)) == Seq::<char>::empty());
        }
        end = end - 1;
    }
    proof {
        let t = path@.take(end as int);
        if end > 0 {
            assert(t.last() == path@[end - 1]);
            if end >= 2 {
                assert(t[t.len() - 2] == path@[end - 2]);
            }
            if end == 1 {
                assert(t[0] == path@[0]);
            }
        }
        assert(strip_tail(t) == t);
    }
    let mut start: usize = end;
    while start > 0 && path[start - 1] != '/'
        invariant
            start <= end <= path@.len(),
            forall|k: int| start <= k < end ==> !is_separator(#[trigger] path@[k]),
            after_last_separator(path@.take(end as int)) == after_last_separator(
                path@.take(start as int),
            ) + path@.subrange(start as int, end as int),
        decreases start,
    {
        assert(path@.take(start as int).drop_last() =~= path@.take(start - 1));
        assert(path@.subrange(start - 1, end as int) =~= seq![path@[start - 1]] + path@.subrange(
            start as int,
            end as int,
        ));
        start = start - 1;
    }
    assert(after_last_separator(path@.take(start as int)) =~= Seq::<char>::empty()) by {
        if start > 0 {
        } else {
            assert(path@.take(0) =~= Seq::<char>::empty());
        }
    }
    slice_chars(path, start, end)
}

pub(crate) fn last_dot_exec(s: &[char]) -> (r: Option<usize>)
    ensures
        match r {
            Some(i) => last_dot(s@) == Some(i as int) && i < s@.len(),
            None => last_dot(s@) is None,
        },
{
    let mut k: usize = s.len();
    assert(s@.take(k as int) =~= s@);
    while k > 0 && s[k - 1] != '.'
        invariant
            k <= s@.len(),
            last_dot(s@) == last_dot(s@.take(k as int)),
        decreases k,
    {
        assert(s@.take(k as int).drop_last() =~= s@.take(k - 1));
        k = k - 1;
    }
    if k == 0 {
        assert(s@.take(0) =~= Seq::<char>::empty());
        None
    } else {
        Some(k - 1)
    }
}

/// The extension of the file a path names (`Path::extension`, with paths
/// read as on Unix-like systems; see [`is_separator`]).
pub fn file_extension(path: &str) -> (r: Option<String>)
    ensures
        opt_chars(r) == path_extension(path@),
{
    let p = chars_of(path);
    let name = last_component_exec(p.as_slice());
    if chars_eq_str(name.as_slice(), "..") {
        return None;
    }
    let n = name.len();
    match last_dot_exec(name.as_slice()) {
        Some(i) => {
            if i == 0 {
                None
            } else {
                Some(string_of(slice_chars(name.as_slice(), i + 1, name.len()).as_slice()))
            }
        },
        None => None,
    }
}

/// Extensions that the decoder cannot read natively.
pub open spec fn is_transcode_extension(e: Seq<char>) -> bool {
    e == "opus"@ || e == "wma"@ || e == "ape"@ || e == "wv"@
}

/// Whether a file must be transcoded before playback: its extension,
/// lowercase, is opus, wma, ape or wv.
pub open spec fn spec_needs_transcode(file_path: Seq<char>) -> bool {
    match path_extension(file_path) {
        Some(e) => is_transcode_extension(unicode_lowercase(e)),
        None => false,
    }
}

/// Checks whether a file extension requires transcoding via ffmpeg.
pub fn needs_transcode(file_path: &str) -> (r: bool)
    ensures
        r == spec_needs_transcode(file_path@),
{
    match file_extension(file_path) {
        Some(e) => {
            let ev = chars_of(e.as_str());
            let low = lowercase_chars(ev.as_slice());
            chars_eq_str(low.as_slice(), "opus") || chars_eq_str(low.as_slice(), "wma")
                || chars_eq_str(low.as_slice(), "ape") || chars_eq_str(low.as_slice(), "wv")
        },
        None => false,
    }
}


/// `n` as `{:02}` writes it: zero-padded to two characters.
pub open spec fn padded2(n: int) -> Seq<char> {
    if 0 <= n < 10 {
        seq!['0'] + crate::text::decimal(n as nat)
    } else {
        crate::text::signed_decimal(n)
    }
}

fn padded2_exec(n: i64) -> (r: String)
    ensures
        r@ == padded2(n as int),
{
    if 0 <= n && n < 10 {
        let d = crate::text::u64_to_string(n as u64);
        let mut z = "0".to_string();
        z.append(d.as_str());
        proof {
            reveal_strlit("0");
        }
        assert(z@ =~= seq!['0'] + crate::text::decimal(n as nat));
        z
    } else {
        crate::text::i64_to_string(n)
    }
}

/// The number before an exported file's title: `D-NN` on discs after the
/// first, `NN` otherwise, nothing without a track number.
pub open spec fn export_prefix(disc: Option<i64>, num: Option<i64>) -> Seq<char> {
    match (disc, num) {
        (Some(d), Some(n)) if d > 1 => crate::text::signed_decimal(d as int) + "-"@ + padded2(
            n as int,
        ),
        (_, Some(n)) => padded2(n as int),
        _ => Seq::empty(),
    }
}

/// Where an exported track goes: `Artist/Album/` folders (`Unknown Artist`,
/// `Unknown Album` when missing) and a file name `PREFIX - Title.ext` (or
/// `Title [id].ext` without a number), with `PREFIX - Title [id].ext` as
/// the name to use when the first one is taken. The extension is the
/// source file's (`mp3` when it has none).
pub struct ExportNames {
    pub artist_dir: String,
    pub album_dir: String,
    pub file_name: String,
    pub fallback_name: String,
}

/// The names of an exported track (see [`ExportNames`]).
pub open spec fn export_names(
    id: i64,
    file_path: Seq<char>,
    artist: Option<Seq<char>>,
    album: Option<Seq<char>>,
    disc: Option<i64>,
    num: Option<i64>,
    title: Seq<char>,
) -> (Seq<char>, Seq<char>, Seq<char>, Seq<char>) {
    let ext = match path_extension(file_path) {
        Some(e) => e,
        None => "mp3"@,
    };
    let prefix = export_prefix(disc, num);
    let safe = spec_export_file_name(title);
    let tag = " ["@ + crate::text::signed_decimal(id as int) + "]"@;
    (
        spec_export_file_name(
            match artist {
                Some(a) => a,
                None => "Unknown Artist"@,
            },
        ),
        spec_export_file_name(
            match album {
                Some(a) => a,
                None => "Unknown Album"@,
            },
        ),
        if prefix.len() == 0 {
            safe + tag + "."@ + ext
        } else {
            prefix + " - "@ + safe + "."@ + ext
        },
        if prefix.len() == 0 {
            safe + tag + "."@ + ext
        } else {
            prefix + " - "@ + safe + tag + "."@ + ext
        },
    )
}

/// The names of an exported track (see [`export_names`]).
pub fn export_track_names(
    id: i64,
    file_path: &str,
    artist: Option<&str>,
    album: Option<&str>,
    disc: Option<i64>,
    num: Option<i64>,
    title: &str,
) -> (r: ExportNames)
    ensures
        (r.artist_dir@, r.album_dir@, r.file_name@, r.fallback_name@) == export_names(
            id,
            file_path@,
            crate::text::opt_str(artist),
            crate::text::opt_str(album),
            disc,
            num,
            title@,
        ),
{
    let ext = match file_extension(file_path) {
        Some(e) => e,
        None => "mp3".to_string(),
    };
    let prefix = match (disc, num) {
        (Some(d), Some(n)) => if d > 1 {
            let mut p = crate::text::i64_to_string(d);
            p.append("-");
            let q = padded2_exec(n);
            p.append(q.as_str());
            p
        } else {
            padded2_exec(n)
        },
        (None, Some(n)) => padded2_exec(n),
        _ => String::new(),
    };
    let safe = sanitize_export_filename(title);
    let mut tag = " [".to_string();
    let idt = crate::text::i64_to_string(id);
    tag.append(idt.as_str());
    tag.append("]");
    let artist_dir = sanitize_export_filename(
        match artist {
            Some(a) => a,
            None => "Unknown Artist",
        },
    );
    let album_dir = sanitize_export_filename(
        match album {
            Some(a) => a,
            None => "Unknown Album",
        },
    );
    let (file_name, fallback_name) = if prefix.as_str().is_empty() {
        let mut f = safe.clone();
        f.append(tag.as_str());
        f.append(".");
        f.append(ext.as_str());
        let g = f.clone();
        (f, g)
    } else {
        let mut f = prefix.clone();
        f.append(" - ");
        f.append(safe.as_str());
        let mut g = f.clone();
        f.append(".");
        f.append(ext.as_str());
        g.append(tag.as_str());
        g.append(".");
        g.append(ext.as_str());
        (f, g)
    };
    ExportNames { artist_dir, album_dir, file_name, fallback_name }
}

} // verus!
