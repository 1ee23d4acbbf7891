//! Reading ffmpeg's loudness report, and the progress of a library-wide
//! gain scan.

use crate::m3u::{split_newline_chars, split_newlines};
use crate::text::{
    chars_of, contains, contains_chars, leading_word, leading_word_exec, slice_chars, starts_with,
    starts_with_chars, string_of, trim, trim_chars,
};
use vstd::prelude::*;

verus! {

/// The value token of an integrated-loudness summary line: a line that,
/// trimmed, starts with `I:` and mentions `LUFS` gives the first word after
/// `I:`.
pub open spec fn loudness_token(line: Seq<char>) -> Option<Seq<char>> {
    let t = trim(line);
    if starts_with(t, "I:"@) && contains(t, "LUFS"@) {
        let rest = trim(t.subrange(2, t.len() as int));
        if rest.len() == 0 {
            None
        } else {
            Some(leading_word(rest))
        }
    } else {
        None
    }
}

/// The tokens of the given lines, last line first.
pub open spec fn tokens_last_first(lines: Seq<Seq<char>>) -> Seq<Seq<char>>
    decreases lines.len(),
{
    if lines.len() == 0 {
        Seq::empty()
    } else {
        let head: Seq<Seq<char>> = match loudness_token(lines.last()) {
            Some(t) => seq![t],
            None => Seq::empty(),
        };
        head + tokens_last_first(lines.drop_last())
    }
}

/// The candidate loudness values in a report, in the order they are tried:
/// the summary comes last, so lines are read from the end. The value is the
/// first candidate that reads as a number.
pub open spec fn loudness_candidates(report: Seq<char>) -> Seq<Seq<char>> {
    tokens_last_first(split_newlines(report))
}

fn loudness_token_exec(line: &[char]) -> (r: Option<Vec<char>>)
    ensures
        match r {
            Some(v) => loudness_token(line@) == Some(v@),
            None => loudness_token(line@) is None,
        },
{
    let t = trim_chars(line);
    let tag = chars_of("I:");
    let unit = chars_of("LUFS");
    if starts_with_chars(t.as_slice(), tag.as_slice()) && contains_chars(
        t.as_slice(),
        unit.as_slice(),
    ) {
        let n = t.len();
        proof {
            reveal_strlit("I:");
        }
        let rest = trim_chars(slice_chars(t.as_slice(), 2, n).as_slice());
        if rest.len() == 0 {
            None
        } else {
            Some(leading_word_exec(rest.as_slice()))
        }
    } else {
        None
    }
}

/// The candidate loudness values of an ffmpeg report (see
/// [`loudness_candidates`]).
pub fn loudness_candidate_list(report: &str) -> (r: Vec<String>)
    ensures
        r@.map_values(|s: String| s@) == loudness_candidates(report@),
{
    let cs = chars_of(report);
    let lines = split_newline_chars(cs.as_slice());
    let ghost lv = lines@.map_values(|l: Vec<char>| l@);
    let mut out: Vec<String> = Vec::new();
    let mut k: usize = lines.len();
    assert(lv.take(lines@.len() as int) =~= lv);
    while k > 0
        invariant
            k <= lines@.len(),
            lv == lines@.map_values(|l: Vec<char>| l@),
            out@.map_values(|s: String| s@) + tokens_last_first(lv.take(k as int))
                == tokens_last_first(lv),
        decreases k,
    {
        let ghost before = out@.map_values(|s: String| s@);
        let tok = loudness_token_exec(lines[k - 1].as_slice());
        proof {
            assert(lv.take(k as int).drop_last() =~= lv.take(k - 1));
            assert(lv.take(k as int).last() == lines@[k - 1]@);
        }
        match tok {
            Some(v) => {
                out.push(string_of(v.as_slice()));
                assert(out@.map_values(|s: String| s@) =~= before + seq![v@]);
            },
            None => {},
        }
        k = k - 1;
    }
    assert(lv.take(0) =~= Seq::<Seq<char>>::empty());
    assert(out@.map_values(|s: String| s@) =~= out@.map_values(|s: String| s@)
        + tokens_last_first(lv.take(0)));
    out
}

/// Counts of a running gain scan.
pub struct GainScanTally {
    pub scanned: u64,
    pub failed: u64,
    pub total: u64,
}

impl GainScanTally {
    /// A scan of `total` pending tracks.
    pub fn new(total: u64) -> (r: Self)
        ensures
            r.scanned == 0 && r.failed == 0 && r.total == total,
    {
        GainScanTally { scanned: 0, failed: 0, total }
    }

    /// Records one track's outcome; says whether to report progress (every
    /// fifth track).
    pub fn record(&mut self, measured: bool) -> (report: bool)
        requires
            old(self).scanned + old(self).failed < u64::MAX,
        ensures
            final(self).total == old(self).total,
            measured ==> final(self).scanned == old(self).scanned + 1 && final(self).failed == old(
                self,
            ).failed,
            !measured ==> final(self).failed == old(self).failed + 1 && final(self).scanned == old(
                self,
            ).scanned,
            report == ((final(self).scanned + final(self).failed) % 5 == 0),
    {
        if measured {
            self.scanned = self.scanned + 1;
        } else {
            self.failed = self.failed + 1;
        }
        (self.scanned + self.failed) % 5 == 0
    }
}


/// Whether a gain scan runs and whether it was asked to stop. A stop may
/// be asked for at any time, even when no scan runs.
pub struct GainScanControl {
    pub running: bool,
    pub cancel_requested: bool,
}

impl GainScanControl {
    /// No scan running and no stop asked for.
    pub fn new() -> (r: Self)
        ensures
            !r.running && !r.cancel_requested,
    {
        GainScanControl { running: false, cancel_requested: false }
    }

    /// Starts a scan: refused while one runs (nothing changes); otherwise
    /// the scan runs and a stop asked for earlier is forgotten, so it cannot
    /// end the new scan.
    pub fn start(&mut self) -> (r: Result<(), String>)
        ensures
            old(self).running ==> (r matches Err(e) && e@ == "Loudness scan already running"@),
            old(self).running ==> *final(self) == *old(self),
            !old(self).running ==> r is Ok && final(self).running && !final(self).cancel_requested,
    {
        if self.running {
            return Err("Loudness scan already running".to_string());
        }
        self.running = true;
        self.cancel_requested = false;
        Ok(())
    }

    /// Asks the scan to stop after the track it is on.
    pub fn cancel(&mut self)
        ensures
            final(self).cancel_requested,
            final(self).running == old(self).running,
    {
        self.cancel_requested = true;
    }

    /// Whether the scan goes on to the next track.
    pub fn goes_on(&self) -> (r: bool)
        ensures
            r == !self.cancel_requested,
    {
        !self.cancel_requested
    }

    /// Ends the scan; another may start.
    pub fn finish(&mut self)
        ensures
            !final(self).running,
            final(self).cancel_requested == old(self).cancel_requested,
    {
        self.running = false;
    }
}

} // verus!
