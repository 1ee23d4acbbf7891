//! Pure parts of removable-device detection: GVfs mount names of phones and
//! cameras, and reading values out of `diskutil` property lists.

use crate::text::{
    chars_eq_str, chars_of, find, find_chars, find_chars_from, find_from, occurs_at,
    opt_chars, slice_chars, starts_with, starts_with_chars, string_of, trim, trim_chars,
    trim_start, trim_start_chars,
};
use vstd::prelude::*;

verus! {

/// The part of `s` before the first `c` (all of `s` when there is none).
pub open spec fn before_char(s: Seq<char>, c: char) -> Seq<char> {
    match find(s, seq![c]) {
        Some(i) => s.subrange(0, i),
        None => s,
    }
}

fn before_char_exec(s: &[char], c: char) -> (r: Vec<char>)
    ensures
        r@ == before_char(s@, c),
{
    let pat = vec![c];
    assert(pat@ =~= seq![c]);
    match find_chars(s, pat.as_slice()) {
        Some(i) => slice_chars(s, 0, i),
        None => slice_chars(s, 0, s.len()),
    }
}

/// GVfs schemes of portable devices: MTP phones, PTP cameras, iPhones (AFC).
pub open spec fn spec_is_portable_gvfs_scheme(dir_name: Seq<char>) -> bool {
    let scheme = before_char(dir_name, ':');
    scheme == "mtp"@ || scheme == "mtp2"@ || scheme == "gphoto2"@ || scheme == "afc"@
}

/// Whether a GVfs mount name (`scheme:host=...`) belongs to a portable
/// device rather than a network share, disk mount or the trash.
pub fn is_portable_gvfs_scheme(dir_name: &str) -> (r: bool)
    ensures
        r == spec_is_portable_gvfs_scheme(dir_name@),
{
    let s = chars_of(dir_name);
    let scheme = before_char_exec(s.as_slice(), ':');
    chars_eq_str(scheme.as_slice(), "mtp") || chars_eq_str(scheme.as_slice(), "mtp2")
        || chars_eq_str(scheme.as_slice(), "gphoto2") || chars_eq_str(scheme.as_slice(), "afc")
}

/// The text after the first `host=` up to the next `host=` (or the end);
/// empty when there is no `host=`.
pub open spec fn host_segment(s: Seq<char>) -> Seq<char> {
    match find(s, "host="@) {
        Some(i) => match find_from(s, "host="@, i + 5) {
            Some(j) => s.subrange(i + 5, j),
            None => s.subrange(i + 5, s.len() as int),
        },
        None => Seq::empty(),
    }
}

/// `s` with every `from` replaced by `to`.
pub open spec fn replace_char(s: Seq<char>, from: char, to: char) -> Seq<char> {
    s.map_values(|c: char| if c == from { to } else { c })
}

fn replace_char_exec(s: &[char], from: char, to: char) -> (r: Vec<char>)
    ensures
        r@ == replace_char(s@, from, to),
{
    let mut r: Vec<char> = Vec::new();
    let mut i: usize = 0;
    while i < s.len()
        invariant
            i <= s@.len(),
            r@ == replace_char(s@.take(i as int), from, to),
        decreases s@.len() - i,
    {
        r.push(if s[i] == from { to } else { s[i] });
        i = i + 1;
        assert(r@ =~= replace_char(s@.take(i as int), from, to));
    }
    assert(s@.take(i as int) =~= s@);
    r
}

/// The readable name of a GVfs mount: its host part (without a `;serial=`
/// suffix, underscores as spaces, trimmed), or the whole mount name when it
/// has no host part.
pub open spec fn spec_friendly_gvfs_name(dir_name: Seq<char>) -> Seq<char> {
    let host = before_char(host_segment(dir_name), ';');
    let raw = if host.len() == 0 {
        dir_name
    } else {
        host
    };
    trim(replace_char(raw, '_', ' '))
}

/// "mtp:host=Google_Pixel_7a_3ABC" → "Google Pixel 7a 3ABC".
pub fn friendly_gvfs_name(dir_name: &str) -> (r: String)
    ensures
        r@ == spec_friendly_gvfs_name(dir_name@),
{
    let s = chars_of(dir_name);
    let needle = chars_of("host=");
    proof {
        reveal_strlit("host=");
    }
    let seg = match find_chars(s.as_slice(), needle.as_slice()) {
        Some(i) => {
            let n = s.len();
            match find_chars_from(s.as_slice(), needle.as_slice(), i + 5) {
                Some(j) => slice_chars(s.as_slice(), i + 5, j),
                None => slice_chars(s.as_slice(), i + 5, n),
            }
        },
        None => Vec::new(),
    };
    assert(seg@ =~= host_segment(dir_name@));
    let host = before_char_exec(seg.as_slice(), ';');
    let raw = if host.len() == 0 {
        s
    } else {
        host
    };
    let spaced = replace_char_exec(raw.as_slice(), '_', ' ');
    let t = trim_chars(spaced.as_slice());
    string_of(t.as_slice())
}

/// The device id of a GVfs mount: `gvfs:` and the mount name, which encodes
/// the device's serial.
pub fn gvfs_device_uid(dir_name: &str) -> (r: String)
    ensures
        r@ == "gvfs:"@ + dir_name@,
{
    let mut r = String::from_str("gvfs:");
    r.append(dir_name);
    r
}

/// `<key>KEY</key>`.
pub open spec fn plist_key_tag(key: Seq<char>) -> Seq<char> {
    "<key>"@ + key + "</key>"@
}

/// The text after the first `<key>KEY</key>`, leading white space removed.
pub open spec fn after_plist_key(info: Seq<char>, key: Seq<char>) -> Option<Seq<char>> {
    let needle = plist_key_tag(key);
    match find(info, needle) {
        Some(pos) => Some(trim_start(info.subrange(pos + needle.len(), info.len() as int))),
        None => None,
    }
}

fn after_plist_key_exec(info: &str, key: &str) -> (r: Option<Vec<char>>)
    ensures
        match r {
            Some(v) => after_plist_key(info@, key@) == Some(v@),
            None => after_plist_key(info@, key@) is None,
        },
{
    let mut needle_s = String::from_str("<key>");
    needle_s.append(key);
    needle_s.append("</key>");
    let needle = chars_of(needle_s.as_str());
    let s = chars_of(info);
    match find_chars(s.as_slice(), needle.as_slice()) {
        Some(pos) => {
            let n = s.len();
            let rest = slice_chars(s.as_slice(), pos + needle.len(), n);
            Some(trim_start_chars(rest.as_slice()))
        },
        None => None,
    }
}

/// The boolean tag right after `<key>KEY</key>`: `Some(true)` for
/// `<true/>`, `Some(false)` for `<false/>`, `None` when the key is absent or
/// followed by something else.
pub open spec fn spec_plist_bool_after_key(info: Seq<char>, key: Seq<char>) -> Option<bool> {
    match after_plist_key(info, key) {
        Some(rest) => if starts_with(rest, "<true/>"@) {
            Some(true)
        } else if starts_with(rest, "<false/>"@) {
            Some(false)
        } else {
            None
        },
        None => None,
    }
}

/// Reads the boolean that follows a key in a property list.
pub fn plist_bool_after_key(info: &str, key: &str) -> (r: Option<bool>)
    ensures
        r == spec_plist_bool_after_key(info@, key@),
{
    let rest = match after_plist_key_exec(info, key) {
        Some(rest) => rest,
        None => {
            return None;
        },
    };
    let t = chars_of("<true/>");
    let f = chars_of("<false/>");
    if starts_with_chars(rest.as_slice(), t.as_slice()) {
        Some(true)
    } else if starts_with_chars(rest.as_slice(), f.as_slice()) {
        Some(false)
    } else {
        None
    }
}

/// The `<string>` value right after `<key>KEY</key>`: the text between
/// `<string>` and the first `</string>` after it.
pub open spec fn spec_plist_string_after_key(info: Seq<char>, key: Seq<char>) -> Option<
    Seq<char>,
> {
    match after_plist_key(info, key) {
        Some(rest) => if starts_with(rest, "<string>"@) {
            let value = rest.subrange(8, rest.len() as int);
            match find(value, "</string>"@) {
                Some(end) => Some(value.subrange(0, end)),
                None => None,
            }
        } else {
            None
        },
        None => None,
    }
}

/// Reads the string that follows a key in a property list.
pub fn plist_string_after_key(info: &str, key: &str) -> (r: Option<String>)
    ensures
        opt_chars(r) == spec_plist_string_after_key(info@, key@),
{
    let rest = match after_plist_key_exec(info, key) {
        Some(rest) => rest,
        None => {
            return None;
        },
    };
    let open = chars_of("<string>");
    proof {
        reveal_strlit("<string>");
    }
    if !starts_with_chars(rest.as_slice(), open.as_slice()) {
        return None;
    }
    let value = slice_chars(rest.as_slice(), 8, rest.len());
    let close = chars_of("</string>");
    match find_chars(value.as_slice(), close.as_slice()) {
        Some(end) => Some(string_of(slice_chars(value.as_slice(), 0, end).as_slice())),
        None => None,
    }
}

} // verus!
