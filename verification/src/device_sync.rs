//! Decisions of syncing playlists to removable devices: which settings a
//! device accepts, which tracks need (re)syncing, what each track is called
//! on the device, and the M3U playlist written next to the music.

use crate::naming::{
    ascii_lowercase, ascii_lowercase_chars, is_separator, path_extension, sanitize_filename,
    spec_device_file_name, file_extension,
};
use crate::text::{
    chars_eq, chars_eq_str, chars_of, str_is, decimal, i64_to_string, opt_chars, signed_decimal,
    string_of, trim, trim_chars, u64_to_string,
};
use vstd::prelude::*;

verus! {

/// Output formats a device can be set to.
pub open spec fn is_device_format(f: Seq<char>) -> bool {
    f == "original"@ || f == "mp3"@ || f == "opus"@ || f == "flac"@
}

fn is_device_format_exec(f: &[char]) -> (r: bool)
    ensures
        r == is_device_format(f@),
{
    chars_eq_str(f, "original") || chars_eq_str(f, "mp3") || chars_eq_str(f, "opus")
        || chars_eq_str(f, "flac")
}

/// A `..` component starts at index `i` (components are separated by `/`,
/// as `Path` reads them on Unix-like systems).
pub open spec fn parent_at(p: Seq<char>, i: int) -> bool {
    &&& 0 <= i
    &&& i + 2 <= p.len()
    &&& p[i] == '.'
    &&& p[i + 1] == '.'
    &&& (i == 0 || is_separator(p[i - 1]))
    &&& (i + 2 == p.len() || is_separator(p[i + 2]))
}

/// The path has a `..` component.
pub open spec fn has_parent_component(p: Seq<char>) -> bool {
    exists|i: int| parent_at(p, i)
}

/// A directory inside the device, as `Path` reads it on Unix-like systems:
/// not empty, not rooted (starting with `/`) and without `..` components.
pub open spec fn is_relative_inside(p: Seq<char>) -> bool {
    &&& p.len() > 0
    &&& !is_separator(p[0])
    &&& !has_parent_component(p)
}

fn is_relative_inside_exec(p: &[char]) -> (r: bool)
    ensures
        r == is_relative_inside(p@),
{
    let n = p.len();
    if n == 0 {
        return false;
    }
    if p[0] == '/' {
        return false;
    }
    let mut i: usize = 0;
    while i < n && n - i >= 2
        invariant
            n == p@.len(),
            forall|k: int| 0 <= k < i ==> !#[trigger] parent_at(p@, k),
        decreases n - i,
    {
        if p[i] == '.' && p[i + 1] == '.' && (i == 0 || p[i - 1] == '/') && (i + 2 == n
            || p[i + 2] == '/') {
            assert(parent_at(p@, i as int));
            return false;
        }
        i = i + 1;
    }
    assert(!has_parent_component(p@)) by {
        if has_parent_component(p@) {
            let k = choose|k: int| parent_at(p@, k);
            assert(k < i);
        }
    }
    true
}

/// Bitrates offered for lossy output.
pub open spec fn is_device_bitrate(b: Seq<char>) -> bool {
    b == "128"@ || b == "192"@ || b == "256"@ || b == "320"@
}

/// The settings a device stores when they are valid: music directory
/// (trimmed), output format (trimmed, ASCII lowercase) and bitrate
/// (trimmed); otherwise the error. The bitrate matters only for lossy
/// formats (mp3, opus).
pub open spec fn spec_device_config(music_dir: Seq<char>, output_format: Seq<char>, output_bitrate: Seq<char>) -> Result<(Seq<char>, Seq<char>, Seq<char>), Seq<char>> {
    let fmt = ascii_lowercase(trim(output_format));
    let dir = trim(music_dir);
    let rate = trim(output_bitrate);
    if !is_device_format(fmt) {
        Err("Unsupported device output format: "@ + fmt)
    } else if !is_relative_inside(dir) {
        Err("Music directory must be a relative path inside the device"@)
    } else if fmt != "original"@ && fmt != "flac"@ && !is_device_bitrate(rate) {
        Err("Unsupported device output bitrate"@)
    } else {
        Ok((dir, fmt, rate))
    }
}

/// Checks and normalizes a device's sync settings.
pub fn validate_device_config(music_dir: &str, output_format: &str, output_bitrate: &str) -> (r: Result<(String, String, String), String>)
    ensures
        match (r, spec_device_config(music_dir@, output_format@, output_bitrate@)) {
            (Ok((d, f, b)), Ok((sd, sf, sb))) => d@ == sd && f@ == sf && b@ == sb,
            (Err(e), Err(se)) => e@ == se,
            _ => false,
        },
{
    let fv = chars_of(output_format);
    let ft = trim_chars(fv.as_slice());
    let fmt = ascii_lowercase_chars(ft.as_slice());
    let dv = chars_of(music_dir);
    let dir = trim_chars(dv.as_slice());
    let bv = chars_of(output_bitrate);
    let rate = trim_chars(bv.as_slice());
    if !is_device_format_exec(fmt.as_slice()) {
        let mut e = String::from_str("Unsupported device output format: ");
        e.append(string_of(fmt.as_slice()).as_str());
        return Err(e);
    }
    if !is_relative_inside_exec(dir.as_slice()) {
        return Err(String::from_str("Music directory must be a relative path inside the device"));
    }
    if !chars_eq_str(fmt.as_slice(), "original") && !chars_eq_str(fmt.as_slice(), "flac") && !(
    chars_eq_str(rate.as_slice(), "128") || chars_eq_str(rate.as_slice(), "192") || chars_eq_str(
        rate.as_slice(),
        "256",
    ) || chars_eq_str(rate.as_slice(), "320")) {
        return Err(String::from_str("Unsupported device output bitrate"));
    }
    Ok((string_of(dir.as_slice()), string_of(fmt.as_slice()), string_of(rate.as_slice())))
}

/// The format of a source file for syncing: its extension, ASCII
/// lowercase, or `mp3` when it has none.
pub open spec fn spec_source_format(file_path: Seq<char>) -> Seq<char> {
    match path_extension(file_path) {
        Some(e) => ascii_lowercase(e),
        None => ascii_lowercase("mp3"@),
    }
}

fn source_format(file_path: &str) -> (r: Vec<char>)
    ensures
        r@ == spec_source_format(file_path@),
{
    match file_extension(file_path) {
        Some(e) => {
            let ev = chars_of(e.as_str());
            ascii_lowercase_chars(ev.as_slice())
        },
        None => {
            let m = chars_of("mp3");
            ascii_lowercase_chars(m.as_slice())
        },
    }
}

/// How one track is synced: its source format, whether it must be
/// converted, and the extension it gets on the device.
pub struct TrackSyncPlan {
    pub source_format: String,
    pub needs_conversion: bool,
    pub dest_ext: String,
}

/// A track is converted when the device's format is not `original` and
/// differs from the source format; it keeps its own extension under
/// `original`, else takes the device's format.
pub open spec fn spec_sync_plan(file_path: Seq<char>, target_format: Seq<char>) -> (Seq<char>, bool, Seq<char>) {
    let src = spec_source_format(file_path);
    let convert = target_format != "original"@ && src != target_format;
    let ext = if target_format == "original"@ {
        src
    } else {
        target_format
    };
    (src, convert, ext)
}

/// A track is converted exactly when the extension it gets on the device
/// differs from its own format: under `original` it keeps its format and is
/// copied; under another output format it takes that format, and is
/// converted only when its own format is a different one. A track already
/// in the device's format is never re-encoded.
pub proof fn law_convert_only_when_formats_differ(file_path: Seq<char>, target_format: Seq<char>)
    ensures
        spec_sync_plan(file_path, target_format).0 == spec_source_format(file_path),
        spec_sync_plan(file_path, target_format).1 == (spec_sync_plan(file_path, target_format).2
            != spec_sync_plan(file_path, target_format).0),
        target_format == "original"@ ==> spec_sync_plan(file_path, target_format).2
            == spec_source_format(file_path),
        target_format != "original"@ ==> spec_sync_plan(file_path, target_format).2 == target_format,
        spec_source_format(file_path) == target_format ==> !spec_sync_plan(file_path, target_format).1,
{
}

/// Plans how a track is written to a device with output format
/// `target_format` (already lowercase).
pub fn plan_track_sync(file_path: &str, target_format: &str) -> (r: TrackSyncPlan)
    ensures
        (r.source_format@, r.needs_conversion, r.dest_ext@) == spec_sync_plan(
            file_path@,
            target_format@,
        ),
{
    let src = source_format(file_path);
    let tv = chars_of(target_format);
    let original = chars_eq_str(tv.as_slice(), "original");
    let convert = !original && !chars_eq(src.as_slice(), tv.as_slice());
    let ext = if original {
        string_of(src.as_slice())
    } else {
        string_of(tv.as_slice())
    };
    TrackSyncPlan { source_format: string_of(src.as_slice()), needs_conversion: convert, dest_ext: ext }
}

/// `n` written with at least two digits (`{:02}`), for `n >= 0`.
pub open spec fn two_digits(n: nat) -> Seq<char> {
    if n < 10 {
        seq!['0'] + decimal(n)
    } else {
        decimal(n)
    }
}

/// The file name of a track on a device: `NN - Title.ext` with the track
/// number zero-padded to two digits, or `Title [id].ext` without a track
/// number (so same-titled tracks do not overwrite each other).
pub open spec fn spec_device_track_filename(track_number: Option<i64>, title: Seq<char>, id: i64, ext: Seq<char>) -> Seq<char> {
    let t = spec_device_file_name(title);
    let n = match track_number {
        Some(n) => n,
        None => 0,
    };
    if n > 0 {
        two_digits(n as nat) + " - "@ + t + "."@ + ext
    } else {
        t + " ["@ + signed_decimal(id as int) + "]."@ + ext
    }
}

/// File name of a track on a device.
pub fn device_track_filename(track_number: Option<i64>, title: &str, id: i64, ext: &str) -> (r: String)
    ensures
        r@ == spec_device_track_filename(track_number, title@, id, ext@),
{
    let t = sanitize_filename(title);
    let n = match track_number {
        Some(n) => n,
        None => 0,
    };
    if n > 0 {
        let d = u64_to_string(n as u64);
        let mut r = if n < 10 {
            let mut z = String::from_str("0");
            z.append(d.as_str());
            proof {
                reveal_strlit("0");
            }
            z
        } else {
            d
        };
        assert(r@ =~= two_digits(n as nat));
        r.append(" - ");
        r.append(t.as_str());
        r.append(".");
        r.append(ext);
        r
    } else {
        let mut r = t;
        r.append(" [");
        let d = i64_to_string(id);
        r.append(d.as_str());
        r.append("].");
        r.append(ext);
        r
    }
}

/// Where a track lives under the device's music directory:
/// `Artist/Album/file`, with `Unknown Artist`/`Unknown Album` for missing
/// names and every part made safe for the device.
pub open spec fn spec_device_relative_path(artist: Option<Seq<char>>, album: Option<Seq<char>>, filename: Seq<char>) -> Seq<char> {
    let a = spec_device_file_name(
        match artist {
            Some(a) => a,
            None => "Unknown Artist"@,
        },
    );
    let b = spec_device_file_name(
        match album {
            Some(b) => b,
            None => "Unknown Album"@,
        },
    );
    a + "/"@ + b + "/"@ + filename
}

/// The on-device path of a track relative to the music directory, with
/// forward slashes (as the M3U lists it).
pub fn device_relative_path(artist: Option<&str>, album: Option<&str>, filename: &str) -> (r: String)
    ensures
        r@ == spec_device_relative_path(
            match artist {
                Some(a) => Some(a@),
                None => None,
            },
            match album {
                Some(b) => Some(b@),
                None => None,
            },
            filename@,
        ),
{
    let a = sanitize_filename(
        match artist {
            Some(a) => a,
            None => "Unknown Artist",
        },
    );
    let b = sanitize_filename(
        match album {
            Some(b) => b,
            None => "Unknown Album",
        },
    );
    let mut r = a;
    r.append("/");
    r.append(b.as_str());
    r.append("/");
    r.append(filename);
    r
}

/// ASCII case-insensitive equality.
pub open spec fn eq_ignore_ascii_case(a: Seq<char>, b: Seq<char>) -> bool {
    ascii_lowercase(a) == ascii_lowercase(b)
}

/// Whether a playlist track must be (re)synced to a device: never synced
/// for this playlist; synced in another format than the device's output
/// would now produce (the file's own format under `original`); or synced
/// from a source file whose size has since changed. Rows without a
/// recorded size count as up to date.
pub open spec fn spec_needs_resync(
    synced_format: Option<Seq<char>>,
    output_format: Seq<char>,
    file_path: Seq<char>,
    recorded_size: Option<i64>,
    current_size: Option<i64>,
) -> bool {
    match synced_format {
        None => true,
        Some(f) => {
            let expected = if eq_ignore_ascii_case(output_format, "original"@) {
                spec_source_format(file_path)
            } else {
                ascii_lowercase(output_format)
            };
            if !eq_ignore_ascii_case(f, expected) {
                true
            } else {
                match (recorded_size, current_size) {
                    (Some(r), Some(c)) => r != c,
                    _ => false,
                }
            }
        },
    }
}

/// What a sync records is seen as synced: a track written with the
/// extension its plan gives under the device's output format is not
/// pending on the next scan while its source file keeps its size.
pub proof fn law_synced_track_stays_synced(file_path: Seq<char>, output_format: Seq<char>, size: Option<i64>)
    ensures
        !spec_needs_resync(
            Some(spec_sync_plan(file_path, ascii_lowercase(output_format)).2),
            output_format,
            file_path,
            size,
            size,
        ),
{
    reveal_strlit("original");
    let o = "original"@;
    assert(ascii_lowercase(o) =~= o) by {
        assert forall|i: int| 0 <= i < o.len() implies ascii_lowercase(o)[i] == o[i] by {
            assert(!('A' <= o[i] <= 'Z'));
        }
    }
}

/// A track is pending for a device when it was never synced there, and
/// when its source file changed size since it was synced, even in the
/// format the device still asks for.
pub proof fn law_changed_tracks_are_pending(file_path: Seq<char>, output_format: Seq<char>, recorded: i64, current: i64)
    ensures
        spec_needs_resync(None, output_format, file_path, Some(recorded), Some(current)),
        recorded != current ==> spec_needs_resync(
            Some(spec_sync_plan(file_path, ascii_lowercase(output_format)).2),
            output_format,
            file_path,
            Some(recorded),
            Some(current),
        ),
{
    law_synced_track_stays_synced(file_path, output_format, Some(recorded));
}

/// Decides whether a playlist track is pending for a device.
pub fn needs_resync(
    synced_format: Option<&str>,
    output_format: &str,
    file_path: &str,
    recorded_size: Option<i64>,
    current_size: Option<i64>,
) -> (r: bool)
    ensures
        r == spec_needs_resync(
            match synced_format {
                Some(f) => Some(f@),
                None => None,
            },
            output_format@,
            file_path@,
            recorded_size,
            current_size,
        ),
{
    let f = match synced_format {
        None => {
            return true;
        },
        Some(f) => f,
    };
    let ov = chars_of(output_format);
    let olow = ascii_lowercase_chars(ov.as_slice());
    let orig = chars_of("original");
    let orig_low = ascii_lowercase_chars(orig.as_slice());
    let expected = if chars_eq(olow.as_slice(), orig_low.as_slice()) {
        source_format(file_path)
    } else {
        olow
    };
    let fv = chars_of(f);
    let flow = ascii_lowercase_chars(fv.as_slice());
    let elow = ascii_lowercase_chars(expected.as_slice());
    if !chars_eq(flow.as_slice(), elow.as_slice()) {
        return true;
    }
    match (recorded_size, current_size) {
        (Some(r), Some(c)) => r != c,
        _ => false,
    }
}


/// The output format a sync writes, checked again when a sync starts: the
/// music directory must lie inside the device and the format (ASCII
/// lowercase) must be one a device accepts.
pub open spec fn spec_sync_target(music_dir: Seq<char>, output_format: Seq<char>) -> Result<Seq<char>, Seq<char>> {
    let fmt = ascii_lowercase(output_format);
    if !is_relative_inside(music_dir) {
        Err("Invalid device music directory"@)
    } else if !is_device_format(fmt) {
        Err("Unsupported device output format: "@ + fmt)
    } else {
        Ok(fmt)
    }
}

/// The output format a sync writes (see [`spec_sync_target`]).
pub fn sync_target(music_dir: &str, output_format: &str) -> (r: Result<String, String>)
    ensures
        match (r, spec_sync_target(music_dir@, output_format@)) {
            (Ok(f), Ok(sf)) => f@ == sf,
            (Err(e), Err(se)) => e@ == se,
            _ => false,
        },
{
    let dv = chars_of(music_dir);
    if !is_relative_inside_exec(dv.as_slice()) {
        return Err("Invalid device music directory".to_string());
    }
    let fv = chars_of(output_format);
    let fmt = ascii_lowercase_chars(fv.as_slice());
    if !is_device_format_exec(fmt.as_slice()) {
        let mut e = "Unsupported device output format: ".to_string();
        e.append(string_of(fmt.as_slice()).as_str());
        return Err(e);
    }
    Ok(string_of(fmt.as_slice()))
}

/// Lossless source formats (stored format, ASCII lowercase).
pub open spec fn is_lossless(fmt: Seq<char>) -> bool {
    fmt == "flac"@ || fmt == "wav"@ || fmt == "aiff"@ || fmt == "aif"@ || fmt == "alac"@
}

/// Whether a track's stored format is lossless (a missing one is not).
pub fn lossless_source(format: &Option<String>) -> (r: bool)
    ensures
        r == is_lossless(
            ascii_lowercase(
                match format {
                    Some(f) => f@,
                    None => Seq::empty(),
                },
            ),
        ),
{
    let fv = match format {
        Some(f) => chars_of(f.as_str()),
        None => Vec::new(),
    };
    let low = ascii_lowercase_chars(fv.as_slice());
    chars_eq_str(low.as_slice(), "flac") || chars_eq_str(low.as_slice(), "wav") || chars_eq_str(
        low.as_slice(),
        "aiff",
    ) || chars_eq_str(low.as_slice(), "aif") || chars_eq_str(low.as_slice(), "alac")
}

/// The bytes a sync needs: each source file's size, six times over when a
/// lossy source is converted to FLAC.
pub open spec fn needed_bytes(files: Seq<(u64, bool)>, to_flac: bool) -> int
    decreases files.len(),
{
    if files.len() == 0 {
        0
    } else {
        needed_bytes(files.drop_last(), to_flac) + if to_flac && !files.last().1 {
            6 * files.last().0
        } else {
            files.last().0 as int
        }
    }
}

/// The needs of a prefix of the files are at most those of all of them.
proof fn lemma_needed_prefix(files: Seq<(u64, bool)>, to_flac: bool, k: int)
    requires
        0 <= k <= files.len(),
    ensures
        0 <= needed_bytes(files.take(k), to_flac) <= needed_bytes(files, to_flac),
    decreases files.len() - k,
{
    if k < files.len() {
        lemma_needed_prefix(files, to_flac, k + 1);
        assert(files.take(k + 1).drop_last() =~= files.take(k));
        lemma_needed_nonneg(files.take(k), to_flac);
    } else {
        assert(files.take(k) =~= files);
        lemma_needed_nonneg(files, to_flac);
    }
}

proof fn lemma_needed_nonneg(files: Seq<(u64, bool)>, to_flac: bool)
    ensures
        needed_bytes(files, to_flac) >= 0,
    decreases files.len(),
{
    if files.len() > 0 {
        lemma_needed_nonneg(files.drop_last(), to_flac);
    }
}

/// The bytes a sync needs (see [`needed_bytes`]); each entry is a source
/// file's size and whether its format is lossless. The estimate is exact
/// for files below 2^50 bytes; the total must fit in `u64`.
pub fn estimate_sync_bytes(files: &Vec<(u64, bool)>, to_flac: bool) -> (r: u64)
    requires
        forall|k: int| 0 <= k < files@.len() ==> (#[trigger] files@[k]).0 < 0x4_0000_0000_0000,
        needed_bytes(files@, to_flac) <= u64::MAX,
    ensures
        r == needed_bytes(files@, to_flac),
{
    let mut total: u64 = 0;
    let mut i: usize = 0;
    while i < files.len()
        invariant
            i <= files@.len(),
            forall|k: int| 0 <= k < files@.len() ==> (#[trigger] files@[k]).0 < 0x4_0000_0000_0000,
            needed_bytes(files@, to_flac) <= u64::MAX,
            total == needed_bytes(files@.take(i as int), to_flac),
        decreases files@.len() - i,
    {
        assert(files@.take(i + 1).drop_last() =~= files@.take(i as int));
        proof {
            lemma_needed_prefix(files@, to_flac, i + 1);
        }
        let (len, lossless) = files[i];
        if to_flac && !lossless {
            total = total + 6 * len;
        } else {
            total = total + len;
        }
        i = i + 1;
    }
    assert(files@.take(i as int) =~= files@);
    total
}

/// Whether a sync must refuse to start: when it needs more than the free
/// space minus a 5% margin. The error names both in whole MiB.
pub fn room_error(needed: u64, free: i64) -> (r: Option<String>)
    requires
        needed <= i64::MAX,
        free >= 0,
    ensures
        match r {
            Some(e) => needed > free - free / 20 && e@ == "Not enough space on device: need ~"@
                + decimal((needed / 1048576) as nat) + " MB but only "@ + decimal(
                (free / 1048576) as nat,
            ) + " MB free"@,
            None => needed <= free - free / 20,
        },
{
    if (needed as i64) > free - free / 20 {
        let mut e = "Not enough space on device: need ~".to_string();
        let a = u64_to_string(needed / 1048576);
        e.append(a.as_str());
        e.append(" MB but only ");
        let b = u64_to_string((free / 1048576) as u64);
        e.append(b.as_str());
        e.append(" MB free");
        Some(e)
    } else {
        None
    }
}

/// A sync with failed tracks ends in an error naming how many.
pub fn sync_failure(failed: i64) -> (r: Option<String>)
    ensures
        match r {
            Some(e) => failed > 0 && e@ == signed_decimal(failed as int) + (if failed == 1 {
                " track failed to sync"@
            } else {
                " tracks failed to sync"@
            }),
            None => failed <= 0,
        },
{
    if failed > 0 {
        let mut e = i64_to_string(failed);
        if failed == 1 {
            e.append(" track failed to sync");
        } else {
            e.append(" tracks failed to sync");
        }
        Some(e)
    } else {
        None
    }
}


/// The leading ASCII digits of `s`.
pub open spec fn leading_digits(s: Seq<char>) -> Seq<char>
    decreases s.len(),
{
    if s.len() == 0 || !('0' <= s[0] <= '9') {
        Seq::empty()
    } else {
        seq![s[0]] + leading_digits(s.drop_first())
    }
}

/// The bitrate handed to the encoder: the stored value's leading digits
/// ("320k" gives "320"), or "320" when it has none.
pub open spec fn encoder_bitrate(stored: Seq<char>) -> Seq<char> {
    let d = leading_digits(stored);
    if d.len() == 0 {
        "320"@
    } else {
        d
    }
}

/// The encoder arguments of a conversion to `format`: MP3 and Opus at the
/// bitrate, FLAC without one, any other format at the bitrate with the
/// container's default encoder.
pub open spec fn codec_args(format: Seq<char>, bitrate: Seq<char>) -> Seq<Seq<char>> {
    let rate = bitrate + "k"@;
    if format == "mp3"@ {
        seq!["-codec:a"@, "libmp3lame"@, "-b:a"@, rate]
    } else if format == "opus"@ {
        seq!["-codec:a"@, "libopus"@, "-b:a"@, rate]
    } else if format == "flac"@ {
        seq!["-codec:a"@, "flac"@]
    } else {
        seq!["-b:a"@, rate]
    }
}

/// The full ffmpeg argument list of a conversion from `src` into `out`.
pub open spec fn transcode_args(src: Seq<char>, format: Seq<char>, stored_bitrate: Seq<char>, out: Seq<char>) -> Seq<Seq<char>> {
    seq!["-i"@, src, "-y"@] + codec_args(format, encoder_bitrate(stored_bitrate)) + seq![out]
}

fn leading_digits_exec(s: &[char]) -> (r: Vec<char>)
    ensures
        r@ == leading_digits(s@),
{
    let mut i: usize = 0;
    while i < s.len() && '0' <= s[i] && s[i] <= '9'
        invariant
            i <= s@.len(),
            forall|k: int| 0 <= k < i ==> '0' <= #[trigger] s@[k] <= '9',
        decreases s@.len() - i,
    {
        i = i + 1;
    }
    proof {
        lemma_leading_digits(s@, i as int);
    }
    crate::text::slice_chars(s, 0, i)
}

proof fn lemma_leading_digits(s: Seq<char>, i: int)
    requires
        0 <= i <= s.len(),
        forall|k: int| 0 <= k < i ==> '0' <= #[trigger] s[k] <= '9',
        i == s.len() || !('0' <= s[i] <= '9'),
    ensures
        leading_digits(s) == s.subrange(0, i),
    decreases i,
{
    if i == 0 {
        assert(s.subrange(0, 0) =~= Seq::<char>::empty());
    } else {
        let t = s.drop_first();
        assert forall|k: int| 0 <= k < i - 1 implies '0' <= #[trigger] t[k] <= '9' by {
            assert(t[k] == s[k + 1]);
        }
        if i - 1 < t.len() {
            assert(t[i - 1] == s[i]);
        }
        lemma_leading_digits(t, i - 1);
        assert(s.subrange(0, i) =~= seq![s[0]] + t.subrange(0, i - 1));
    }
}

fn push_all(out: &mut Vec<String>, items: &[&str])
    ensures
        final(out)@.map_values(|x: String| x@) == old(out)@.map_values(|x: String| x@)
            + items@.map_values(|x: &str| x@),
{
    let ghost base = out@.map_values(|x: String| x@);
    let mut i: usize = 0;
    while i < items.len()
        invariant
            i <= items@.len(),
            out@.map_values(|x: String| x@) == base + items@.map_values(|x: &str| x@).take(i as int),
        decreases items@.len() - i,
    {
        let ghost before = out@.map_values(|x: String| x@);
        let piece = String::from_str(items[i]);
        assert(piece@ == items@[i as int]@);
        out.push(piece);
        assert(out@.map_values(|x: String| x@) =~= before.push(items@[i as int]@));
        assert(items@.map_values(|x: &str| x@).take(i + 1) =~= items@.map_values(|x: &str| x@).take(
            i as int,
        ).push(items@[i as int]@));
        i = i + 1;
    }
    assert(items@.map_values(|x: &str| x@).take(i as int) =~= items@.map_values(|x: &str| x@));
}

/// The ffmpeg arguments of a conversion (see [`transcode_args`]).
pub fn transcode_arg_list(src: &str, format: &str, stored_bitrate: &str, out: &str) -> (r: Vec<String>)
    ensures
        r@.map_values(|x: String| x@) == transcode_args(src@, format@, stored_bitrate@, out@),
{
    let bc = chars_of(stored_bitrate);
    let digits = leading_digits_exec(bc.as_slice());
    let bitrate = if digits.len() == 0 {
        "320".to_string()
    } else {
        string_of(digits.as_slice())
    };
    let mut rate = bitrate.clone();
    rate.append("k");
    let mut r: Vec<String> = Vec::new();
    push_all(&mut r, &["-i", src, "-y"]);
    let ghost head = r@.map_values(|x: String| x@);
    assert(head =~= seq!["-i"@, src@, "-y"@]);
    if str_is(format, "mp3") {
        push_all(&mut r, &["-codec:a", "libmp3lame", "-b:a", rate.as_str()]);
    } else if str_is(format, "opus") {
        push_all(&mut r, &["-codec:a", "libopus", "-b:a", rate.as_str()]);
    } else if str_is(format, "flac") {
        push_all(&mut r, &["-codec:a", "flac"]);
    } else {
        push_all(&mut r, &["-b:a", rate.as_str()]);
    }
    assert(r@.map_values(|x: String| x@) =~= head + codec_args(format@, encoder_bitrate(stored_bitrate@)));
    push_all(&mut r, &[out]);
    assert(r@.map_values(|x: String| x@) =~= transcode_args(src@, format@, stored_bitrate@, out@));
    r
}

/// The extension a conversion writes to first (renamed when done): the
/// destination's extension after `part.`, so ffmpeg still sees the format.
pub fn part_extension(dest: &str) -> (r: String)
    ensures
        r@ == "part."@ + (match path_extension(dest@) {
            Some(e) => e,
            None => "tmp"@,
        }),
{
    let mut r = "part.".to_string();
    match file_extension(dest) {
        Some(e) => r.append(e.as_str()),
        None => r.append("tmp"),
    }
    r
}


/// Counts of a playlist sync in progress: how many tracks there are, how
/// many were taken up so far, and how those went.
pub struct SyncProgress {
    pub device_id: i64,
    pub playlist_id: i64,
    pub total: i64,
    pub attempted: i64,
    pub synced: i64,
    pub failed: i64,
}

impl SyncProgress {
    /// Every track taken up was synced or failed, and no more were taken
    /// up than there are.
    pub open spec fn wf(&self) -> bool {
        &&& 0 <= self.attempted <= self.total
        &&& self.synced >= 0 && self.failed >= 0
        &&& self.synced + self.failed == self.attempted
    }
}

/// What a sync does before the next track.
pub enum SyncStep {
    /// Stop: the sync was cancelled; the tracks not yet taken up count as
    /// skipped.
    Cancelled(crate::models::DeviceSyncResult),
    /// Stop with an error: the device went away.
    Disconnected(String),
    /// The source file is missing: the track failed, go to the next one.
    SourceMissing,
    /// Write this track.
    Write,
}

/// How a track gets onto the device.
pub enum WriteMethod {
    /// Another playlist already put the same file at the same path.
    Reuse,
    Transcode,
    Copy,
}

/// A sync of `total` tracks, none taken up yet.
pub fn sync_progress(device_id: i64, playlist_id: i64, total: i64) -> (r: SyncProgress)
    requires
        total >= 0,
    ensures
        r.wf(),
        r == (SyncProgress { device_id, playlist_id, total, attempted: 0, synced: 0, failed: 0 }),
{
    SyncProgress { device_id, playlist_id, total, attempted: 0, synced: 0, failed: 0 }
}

/// Decides what happens before the next track (`attempted < total`): a
/// cancel is checked first, then that the device is still mounted, then
/// that the source file exists. A missing source counts as a failed track.
pub fn sync_before_track(p: &mut SyncProgress, cancelled: bool, mounted: bool, source_present: bool) -> (r: SyncStep)
    requires
        old(p).wf(),
        old(p).attempted < old(p).total,
    ensures
        final(p).wf(),
        cancelled ==> *final(p) == *old(p),
        cancelled ==> (r matches SyncStep::Cancelled(res) && res.device_id == old(p).device_id
            && res.playlist_id == old(p).playlist_id && res.synced == old(p).synced && res.skipped
            == old(p).total - old(p).attempted && res.failed == old(p).failed),
        !cancelled && !mounted ==> *final(p) == *old(p),
        !cancelled && !mounted ==> (r matches SyncStep::Disconnected(e) && e@
            == "Device disconnected during sync"@),
        !cancelled && mounted && !source_present ==> r is SourceMissing,
        !cancelled && mounted && !source_present ==> final(p).attempted == old(p).attempted + 1
            && final(p).failed == old(p).failed + 1 && final(p).synced == old(p).synced
            && final(p).total == old(p).total && final(p).device_id == old(p).device_id
            && final(p).playlist_id == old(p).playlist_id,
        !cancelled && mounted && source_present ==> r is Write && *final(p) == *old(p),
{
    if cancelled {
        return SyncStep::Cancelled(
            crate::models::DeviceSyncResult {
                device_id: p.device_id,
                playlist_id: p.playlist_id,
                synced: p.synced,
                skipped: p.total - p.attempted,
                failed: p.failed,
            },
        );
    }
    if !mounted {
        return SyncStep::Disconnected("Device disconnected during sync".to_string());
    }
    if !source_present {
        p.attempted = p.attempted + 1;
        p.failed = p.failed + 1;
        return SyncStep::SourceMissing;
    }
    SyncStep::Write
}

/// How a track that is written gets onto the device: reused when it is
/// already there under the same path, converted when its format needs it,
/// else copied.
pub fn write_method(already_on_device: bool, needs_conversion: bool) -> (r: WriteMethod)
    ensures
        r == if already_on_device {
            WriteMethod::Reuse
        } else if needs_conversion {
            WriteMethod::Transcode
        } else {
            WriteMethod::Copy
        },
{
    if already_on_device {
        WriteMethod::Reuse
    } else if needs_conversion {
        WriteMethod::Transcode
    } else {
        WriteMethod::Copy
    }
}

/// Records how writing the track went.
pub fn sync_after_track(p: &mut SyncProgress, written: bool)
    requires
        old(p).wf(),
        old(p).attempted < old(p).total,
    ensures
        final(p).wf(),
        final(p).attempted == old(p).attempted + 1,
        final(p).synced == old(p).synced + if written { 1int } else { 0int },
        final(p).failed == old(p).failed + if written { 0int } else { 1int },
        final(p).total == old(p).total,
        final(p).device_id == old(p).device_id,
        final(p).playlist_id == old(p).playlist_id,
{
    p.attempted = p.attempted + 1;
    if written {
        p.synced = p.synced + 1;
    } else {
        p.failed = p.failed + 1;
    }
}

/// The result of a sync that got through all its tracks; nothing skipped.
pub fn sync_result(p: &SyncProgress) -> (r: crate::models::DeviceSyncResult)
    ensures
        r == (crate::models::DeviceSyncResult {
            device_id: p.device_id,
            playlist_id: p.playlist_id,
            synced: p.synced,
            skipped: 0,
            failed: p.failed,
        }),
{
    crate::models::DeviceSyncResult {
        device_id: p.device_id,
        playlist_id: p.playlist_id,
        synced: p.synced,
        skipped: 0,
        failed: p.failed,
    }
}

/// Whether the file a track was synced to before goes from the device:
/// when it was somewhere else than the new path and no sync record refers
/// to it any more.
pub fn removes_superseded(previous_path: &Option<String>, new_path: &str, still_referenced: bool) -> (r: bool)
    ensures
        r == match previous_path {
            Some(p) => p@ != new_path@ && !still_referenced,
            None => false,
        },
{
    match previous_path {
        Some(p) => !str_is(p.as_str(), new_path) && !still_referenced,
        None => false,
    }
}

/// A cancelled sync accounts for every track: synced, failed and skipped
/// add up to the total.
pub proof fn law_cancelled_sync_accounts_for_all(p: SyncProgress)
    requires
        p.wf(),
    ensures
        p.synced + p.failed + (p.total - p.attempted) == p.total,
{
}

} // verus!
