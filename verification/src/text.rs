//! Character-level string helpers shared by the rest of the library.
//!
//! Strings are handled as sequences of `char`s (their view); every helper
//! here is specified over `Seq<char>`.

use vstd::prelude::*;

verus! {

broadcast use vstd::string::group_string_axioms;

/// `String::push` appends one character.
pub assume_specification[ String::push ](s: &mut String, ch: char)
    ensures
        final(s)@ == old(s)@.push(ch),
;

/// The lowercase form of a string as computed by `str::to_lowercase`
/// (full Unicode case mapping, including the final-sigma rule).
pub uninterp spec fn unicode_lowercase(s: Seq<char>) -> Seq<char>;

/// `str::to_lowercase`: its result is the Unicode lowercase mapping of the
/// whole string, a function of the string alone.
pub assume_specification[ str::to_lowercase ](s: &str) -> (res: String)
    ensures
        res@ == unicode_lowercase(s@),
;

/// The characters that `char::is_whitespace` accepts: the Unicode
/// `White_Space` property.
pub open spec fn spec_is_whitespace(c: char) -> bool {
    let n = c as u32;
    ||| 0x09 <= n <= 0x0d
    ||| n == 0x20
    ||| n == 0x85
    ||| n == 0xa0
    ||| n == 0x1680
    ||| 0x2000 <= n <= 0x200a
    ||| n == 0x2028
    ||| n == 0x2029
    ||| n == 0x202f
    ||| n == 0x205f
    ||| n == 0x3000
}

/// Whether `c` is Unicode white space.
pub fn is_whitespace(c: char) -> (r: bool)
    ensures
        r == spec_is_whitespace(c),
{
    let n = c as u32;
    (0x09 <= n && n <= 0x0d) || n == 0x20 || n == 0x85 || n == 0xa0 || n == 0x1680 || (0x2000
        <= n && n <= 0x200a) || n == 0x2028 || n == 0x2029 || n == 0x202f || n == 0x205f || n
        == 0x3000
}

/// The characters of an optional string.
pub open spec fn opt_str(o: Option<&str>) -> Option<Seq<char>> {
    match o {
        Some(s) => Some(s@),
        None => None,
    }
}

/// The characters of an optional owned string.
pub open spec fn opt_chars(o: Option<String>) -> Option<Seq<char>> {
    match o {
        Some(s) => Some(s@),
        None => None,
    }
}

/// The characters of a string slice.
pub fn chars_of(s: &str) -> (v: Vec<char>)
    ensures
        v@ == s@,
{
    let mut v: Vec<char> = Vec::new();
    for c in it: s.chars()
        invariant
            it.seq() == s@,
            v@ == s@.take(it.index() as int),
    {
        v.push(c);
        assert(v@ =~= s@.take(it.index() + 1));
    }
    assert(v@ =~= s@);
    v
}

/// A `String` holding exactly the given characters.
pub fn string_of(v: &[char]) -> (s: String)
    ensures
        s@ == v@,
{
    let mut s = String::new();
    let mut i: usize = 0;
    while i < v.len()
        invariant
            i <= v@.len(),
            s@ == v@.take(i as int),
        decreases v@.len() - i,
    {
        s.push(v[i]);
        i = i + 1;
        assert(s@ =~= v@.take(i as int));
    }
    assert(v@.take(i as int) =~= v@);
    s
}


/// A copy of `s[lo..hi]`.
pub fn slice_chars(s: &[char], lo: usize, hi: usize) -> (r: Vec<char>)
    requires
        lo <= hi <= s@.len(),
    ensures
        r@ == s@.subrange(lo as int, hi as int),
{
    let mut r: Vec<char> = Vec::new();
    let mut i = lo;
    while i < hi
        invariant
            lo <= i <= hi <= s@.len(),
            r@ == s@.subrange(lo as int, i as int),
        decreases hi - i,
    {
        r.push(s[i]);
        i = i + 1;
        assert(r@ =~= s@.subrange(lo as int, i as int));
    }
    r
}

/// Whether two character sequences are equal.
pub fn chars_eq(a: &[char], b: &[char]) -> (r: bool)
    ensures
        r == (a@ == b@),
{
    if a.len() != b.len() {
        return false;
    }
    let mut i: usize = 0;
    while i < a.len()
        invariant
            a@.len() == b@.len(),
            i <= a@.len(),
            forall|j: int| 0 <= j < i ==> a@[j] == b@[j],
        decreases a@.len() - i,
    {
        if a[i] != b[i] {
            return false;
        }
        i = i + 1;
    }
    assert(a@ =~= b@);
    true
}

/// Whether two string slices hold the same characters.
pub fn str_is(a: &str, b: &str) -> (r: bool)
    ensures
        r == (a@ == b@),
{
    let av = chars_of(a);
    chars_eq_str(av.as_slice(), b)
}

/// Whether the characters of `a` are exactly those of the string `b`.
pub fn chars_eq_str(a: &[char], b: &str) -> (r: bool)
    ensures
        r == (a@ == b@),
{
    let bv = chars_of(b);
    chars_eq(a, bv.as_slice())
}

/// `p` occurs in `s` starting at index `i`.
pub open spec fn occurs_at(s: Seq<char>, p: Seq<char>, i: int) -> bool {
    0 <= i && i + p.len() <= s.len() && s.subrange(i, i + p.len()) == p
}

/// The first index `>= i` at which `p` occurs in `s`.
pub open spec fn find_from(s: Seq<char>, p: Seq<char>, i: int) -> Option<int>
    decreases s.len() + 1 - i,
{
    if i < 0 || i + p.len() > s.len() {
        None
    } else if occurs_at(s, p, i) {
        Some(i)
    } else {
        find_from(s, p, i + 1)
    }
}

/// The first index at which `p` occurs in `s` (`str::find`).
pub open spec fn find(s: Seq<char>, p: Seq<char>) -> Option<int> {
    find_from(s, p, 0)
}

/// The last index `< k` at which `p` occurs in `s`.
pub open spec fn rfind_below(s: Seq<char>, p: Seq<char>, k: int) -> Option<int>
    decreases k,
{
    if k <= 0 {
        None
    } else if occurs_at(s, p, k - 1) {
        Some(k - 1)
    } else {
        rfind_below(s, p, k - 1)
    }
}

/// The last index at which `p` occurs in `s` (`str::rfind`).
pub open spec fn rfind(s: Seq<char>, p: Seq<char>) -> Option<int> {
    rfind_below(s, p, s.len() + 1int)
}

/// `s` contains `p` (`str::contains`).
pub open spec fn contains(s: Seq<char>, p: Seq<char>) -> bool {
    find(s, p) is Some
}

/// `s` starts with `p`.
pub open spec fn starts_with(s: Seq<char>, p: Seq<char>) -> bool {
    occurs_at(s, p, 0)
}

/// `s` ends with `p`.
pub open spec fn ends_with(s: Seq<char>, p: Seq<char>) -> bool {
    occurs_at(s, p, s.len() - p.len())
}

/// Whether `p` occurs in `s` at index `i`.
pub fn matches_at(s: &[char], p: &[char], i: usize) -> (r: bool)
    ensures
        r == occurs_at(s@, p@, i as int),
{
    if i > s.len() || p.len() > s.len() - i {
        return false;
    }
    let mut j: usize = 0;
    while j < p.len()
        invariant
            i + p@.len() <= s@.len(),
            s@.len() <= usize::MAX,
            j <= p@.len(),
            forall|k: int| 0 <= k < j ==> s@[i + k] == p@[k],
        decreases p@.len() - j,
    {
        if s[i + j] != p[j] {
            assert(s@.subrange(i as int, i + p@.len())[j as int] != p@[j as int]);
            return false;
        }
        j = j + 1;
    }
    assert(s@.subrange(i as int, i + p@.len()) =~= p@);
    true
}

/// The first index `>= start` at which `p` occurs in `s`.
pub fn find_chars_from(s: &[char], p: &[char], start: usize) -> (r: Option<usize>)
    ensures
        r matches Some(i) ==> start <= i && find_from(s@, p@, start as int) == Some(i as int) && occurs_at(
            s@,
            p@,
            i as int,
        ),
        r is None ==> find_from(s@, p@, start as int) is None,
{
    let n = s.len();
    let mut i = start;
    while i <= n && p.len() <= n - i
        invariant
            start <= i,
            n == s@.len(),
            s@.len() <= usize::MAX,
            find_from(s@, p@, start as int) == find_from(s@, p@, i as int),
        decreases s@.len() + 1 - i,
    {
        if matches_at(s, p, i) {
            return Some(i);
        }
        if i == n {
            assert(find_from(s@, p@, i + 1) is None);
            return None;
        }
        i = i + 1;
    }
    None
}

/// The first index at which `p` occurs in `s`.
pub fn find_chars(s: &[char], p: &[char]) -> (r: Option<usize>)
    ensures
        r matches Some(i) ==> find(s@, p@) == Some(i as int) && occurs_at(s@, p@, i as int),
        r is None ==> find(s@, p@) is None,
{
    find_chars_from(s, p, 0)
}

/// Whether `p` occurs in `s`.
pub fn contains_chars(s: &[char], p: &[char]) -> (r: bool)
    ensures
        r == contains(s@, p@),
{
    find_chars(s, p).is_some()
}

/// The last index at which `p` occurs in `s`.
pub fn rfind_chars(s: &[char], p: &[char]) -> (r: Option<usize>)
    ensures
        r matches Some(i) ==> rfind(s@, p@) == Some(i as int) && occurs_at(s@, p@, i as int),
        r is None ==> rfind(s@, p@) is None,
{
    let mut k: usize = s.len();
    assert(!occurs_at(s@, p@, s@.len() as int) || p@.len() == 0);
    if p.len() == 0 {
        assert(s@.subrange(s@.len() as int, s@.len() as int) =~= p@);
        return Some(s.len());
    }
    assert(rfind(s@, p@) == rfind_below(s@, p@, k as int));
    while k > 0
        invariant
            k <= s@.len(),
            rfind(s@, p@) == rfind_below(s@, p@, k as int),
        decreases k,
    {
        if matches_at(s, p, k - 1) {
            return Some(k - 1);
        }
        k = k - 1;
    }
    None
}

/// Whether `s` starts with `p`.
pub fn starts_with_chars(s: &[char], p: &[char]) -> (r: bool)
    ensures
        r == starts_with(s@, p@),
{
    matches_at(s, p, 0)
}

/// Whether `s` ends with `p`.
pub fn ends_with_chars(s: &[char], p: &[char]) -> (r: bool)
    ensures
        r == ends_with(s@, p@),
{
    if p.len() > s.len() {
        false
    } else {
        matches_at(s, p, s.len() - p.len())
    }
}

/// `s` with leading white space removed.
pub open spec fn trim_start(s: Seq<char>) -> Seq<char>
    decreases s.len(),
{
    if s.len() > 0 && spec_is_whitespace(s[0]) {
        trim_start(s.drop_first())
    } else {
        s
    }
}

/// `s` with trailing white space removed.
pub open spec fn trim_end(s: Seq<char>) -> Seq<char>
    decreases s.len(),
{
    if s.len() > 0 && spec_is_whitespace(s.last()) {
        trim_end(s.drop_last())
    } else {
        s
    }
}

/// `s` with white space removed at both ends (`str::trim`).
pub open spec fn trim(s: Seq<char>) -> Seq<char> {
    trim_end(trim_start(s))
}

/// `s` with leading copies of `c` removed (`str::trim_start_matches`).
pub open spec fn trim_start_char(s: Seq<char>, c: char) -> Seq<char>
    decreases s.len(),
{
    if s.len() > 0 && s[0] == c {
        trim_start_char(s.drop_first(), c)
    } else {
        s
    }
}

/// `s` with trailing copies of `c` removed (`str::trim_end_matches`).
pub open spec fn trim_end_char(s: Seq<char>, c: char) -> Seq<char>
    decreases s.len(),
{
    if s.len() > 0 && s.last() == c {
        trim_end_char(s.drop_last(), c)
    } else {
        s
    }
}

proof fn lemma_trim_start_skip(s: Seq<char>, i: int)
    requires
        0 <= i <= s.len(),
        forall|j: int| 0 <= j < i ==> spec_is_whitespace(#[trigger] s[j]),
    ensures
        trim_start(s) == trim_start(s.subrange(i, s.len() as int)),
    decreases i,
{
    if i > 0 {
        lemma_trim_start_skip(s.drop_first(), i - 1);
        assert(s.drop_first().subrange(i - 1, s.len() - 1) =~= s.subrange(i, s.len() as int));
    } else {
        assert(s.subrange(0, s.len() as int) =~= s);
    }
}

proof fn lemma_trim_end_skip(s: Seq<char>, i: int)
    requires
        0 <= i <= s.len(),
        forall|j: int| i <= j < s.len() ==> spec_is_whitespace(#[trigger] s[j]),
    ensures
        trim_end(s) == trim_end(s.subrange(0, i)),
    decreases s.len() - i,
{
    if i < s.len() {
        lemma_trim_end_skip(s.drop_last(), i);
        assert(s.drop_last().subrange(0, i) =~= s.subrange(0, i));
    } else {
        assert(s.subrange(0, i) =~= s);
    }
}

proof fn lemma_trim_start_char_skip(s: Seq<char>, c: char, i: int)
    requires
        0 <= i <= s.len(),
        forall|j: int| 0 <= j < i ==> #[trigger] s[j] == c,
    ensures
        trim_start_char(s, c) == trim_start_char(s.subrange(i, s.len() as int), c),
    decreases i,
{
    if i > 0 {
        lemma_trim_start_char_skip(s.drop_first(), c, i - 1);
        assert(s.drop_first().subrange(i - 1, s.len() - 1) =~= s.subrange(i, s.len() as int));
    } else {
        assert(s.subrange(0, s.len() as int) =~= s);
    }
}

proof fn lemma_trim_end_char_skip(s: Seq<char>, c: char, i: int)
    requires
        0 <= i <= s.len(),
        forall|j: int| i <= j < s.len() ==> #[trigger] s[j] == c,
    ensures
        trim_end_char(s, c) == trim_end_char(s.subrange(0, i), c),
    decreases s.len() - i,
{
    if i < s.len() {
        lemma_trim_end_char_skip(s.drop_last(), c, i);
        assert(s.drop_last().subrange(0, i) =~= s.subrange(0, i));
    } else {
        assert(s.subrange(0, i) =~= s);
    }
}

/// `s` without leading white space.
pub fn trim_start_chars(s: &[char]) -> (r: Vec<char>)
    ensures
        r@ == trim_start(s@),
{
    let mut i: usize = 0;
    while i < s.len() && is_whitespace(s[i])
        invariant
            i <= s@.len(),
            forall|j: int| 0 <= j < i ==> spec_is_whitespace(#[trigger] s@[j]),
        decreases s@.len() - i,
    {
        i = i + 1;
    }
    proof {
        lemma_trim_start_skip(s@, i as int);
    }
    slice_chars(s, i, s.len())
}

/// `s` without trailing white space.
pub fn trim_end_chars(s: &[char]) -> (r: Vec<char>)
    ensures
        r@ == trim_end(s@),
{
    let mut i: usize = s.len();
    while i > 0 && is_whitespace(s[i - 1])
        invariant
            i <= s@.len(),
            forall|j: int| i <= j < s@.len() ==> spec_is_whitespace(#[trigger] s@[j]),
        decreases i,
    {
        i = i - 1;
    }
    proof {
        lemma_trim_end_skip(s@, i as int);
    }
    slice_chars(s, 0, i)
}

/// `s` without white space at either end.
pub fn trim_chars(s: &[char]) -> (r: Vec<char>)
    ensures
        r@ == trim(s@),
{
    let a = trim_start_chars(s);
    trim_end_chars(a.as_slice())
}

/// `s` without leading copies of `c`.
pub fn trim_start_char_chars(s: &[char], c: char) -> (r: Vec<char>)
    ensures
        r@ == trim_start_char(s@, c),
{
    let mut i: usize = 0;
    while i < s.len() && s[i] == c
        invariant
            i <= s@.len(),
            forall|j: int| 0 <= j < i ==> #[trigger] s@[j] == c,
        decreases s@.len() - i,
    {
        i = i + 1;
    }
    proof {
        lemma_trim_start_char_skip(s@, c, i as int);
    }
    slice_chars(s, i, s.len())
}

/// `s` without trailing copies of `c`.
pub fn trim_end_char_chars(s: &[char], c: char) -> (r: Vec<char>)
    ensures
        r@ == trim_end_char(s@, c),
{
    let mut i: usize = s.len();
    while i > 0 && s[i - 1] == c
        invariant
            i <= s@.len(),
            forall|j: int| i <= j < s@.len() ==> #[trigger] s@[j] == c,
        decreases i,
    {
        i = i - 1;
    }
    proof {
        lemma_trim_end_char_skip(s@, c, i as int);
    }
    slice_chars(s, 0, i)
}

/// The lowercase characters of `s`, as `str::to_lowercase` computes them.
pub fn lowercase_chars(s: &[char]) -> (r: Vec<char>)
    ensures
        r@ == unicode_lowercase(s@),
{
    let st = string_of(s);
    let low = st.as_str().to_lowercase();
    chars_of(low.as_str())
}

/// The decimal digits of `n`, most significant first (`"0"` for 0).
pub open spec fn decimal(n: nat) -> Seq<char>
    decreases n,
{
    if n < 10 {
        seq![digit_char(n)]
    } else {
        decimal(n / 10).push(digit_char(n % 10))
    }
}

/// The ASCII digit for `d < 10`.
pub open spec fn digit_char(d: nat) -> char {
    if d == 0 {
        '0'
    } else if d == 1 {
        '1'
    } else if d == 2 {
        '2'
    } else if d == 3 {
        '3'
    } else if d == 4 {
        '4'
    } else if d == 5 {
        '5'
    } else if d == 6 {
        '6'
    } else if d == 7 {
        '7'
    } else if d == 8 {
        '8'
    } else {
        '9'
    }
}

/// The decimal form of a signed integer (`-` before negative numbers).
pub open spec fn signed_decimal(n: int) -> Seq<char> {
    if n < 0 {
        seq!['-'] + decimal((-n) as nat)
    } else {
        decimal(n as nat)
    }
}

fn digit_char_exec(d: u64) -> (c: char)
    requires
        d < 10,
    ensures
        c == digit_char(d as nat),
{
    if d == 0 {
        '0'
    } else if d == 1 {
        '1'
    } else if d == 2 {
        '2'
    } else if d == 3 {
        '3'
    } else if d == 4 {
        '4'
    } else if d == 5 {
        '5'
    } else if d == 6 {
        '6'
    } else if d == 7 {
        '7'
    } else if d == 8 {
        '8'
    } else {
        '9'
    }
}

/// `s` has no character `c`.
pub open spec fn lacks(s: Seq<char>, c: char) -> bool {
    forall|i: int| 0 <= i < s.len() ==> #[trigger] s[i] != c
}

/// The first `c` in `a`, `c`, `b` (with no `c` in `a`) is the one after `a`.
pub(crate) proof fn lemma_find_char(a: Seq<char>, b: Seq<char>, c: char, i: int)
    requires
        lacks(a, c),
        0 <= i <= a.len(),
    ensures
        find_from(a + seq![c] + b, seq![c], i) == Some(a.len() as int),
    decreases a.len() - i,
{
    let s = a + seq![c] + b;
    if i < a.len() {
        assert(!occurs_at(s, seq![c], i)) by {
            if s.subrange(i, i + 1) == seq![c] {
                assert(s.subrange(i, i + 1)[0] == s[i]);
                assert(s[i] == a[i]);
            }
        }
        lemma_find_char(a, b, c, i + 1);
    } else {
        assert(s.subrange(i, i + 1) =~= seq![c]);
    }
}

/// A text without `c` has no `c` to find.
pub(crate) proof fn lemma_find_char_none(a: Seq<char>, c: char, i: int)
    requires
        lacks(a, c),
        0 <= i,
    ensures
        find_from(a, seq![c], i) is None,
    decreases a.len() + 1 - i,
{
    if i + 1 <= a.len() {
        assert(!occurs_at(a, seq![c], i)) by {
            if a.subrange(i, i + 1) == seq![c] {
                assert(a.subrange(i, i + 1)[0] == a[i]);
            }
        }
        lemma_find_char_none(a, c, i + 1);
    }
}

/// Trailing white space of `b` is all that goes from `a` then `b` when `a`
/// ends in another character.
pub(crate) proof fn lemma_trim_end_after(a: Seq<char>, b: Seq<char>)
    requires
        a.len() > 0,
        !spec_is_whitespace(a.last()),
    ensures
        trim_end(a + b) == a + trim_end(b),
    decreases b.len(),
{
    if b.len() == 0 {
        assert(a + b =~= a);
        assert(a + trim_end(b) =~= a);
    } else if spec_is_whitespace(b.last()) {
        assert((a + b).drop_last() =~= a + b.drop_last());
        lemma_trim_end_after(a, b.drop_last());
    } else {
        assert((a + b).last() == b.last());
    }
}

/// Leading white space removed from `s` and one more character.
proof fn lemma_trim_start_push(s: Seq<char>, x: char)
    ensures
        trim_start(s.push(x)) == if trim_start(s).len() == 0 {
            trim_start(seq![x])
        } else {
            trim_start(s).push(x)
        },
    decreases s.len(),
{
    if s.len() == 0 {
        assert(s.push(x) =~= seq![x]);
    } else if spec_is_whitespace(s[0]) {
        assert(s.push(x).drop_first() =~= s.drop_first().push(x));
        lemma_trim_start_push(s.drop_first(), x);
    } else {
        assert(s.push(x)[0] == s[0]);
    }
}

/// Trimming the end first does not change what `trim` leaves.
pub(crate) proof fn lemma_trim_after_trim_end(d: Seq<char>)
    ensures
        trim(trim_end(d)) == trim(d),
    decreases d.len(),
{
    if d.len() > 0 && spec_is_whitespace(d.last()) {
        let dl = d.drop_last();
        let x = d.last();
        assert(dl.push(x) =~= d);
        assert(trim_end(d) == trim_end(dl));
        lemma_trim_after_trim_end(dl);
        lemma_trim_start_push(dl, x);
        assert(seq![x].drop_first() =~= Seq::<char>::empty());
        assert(seq![x][0] == x);
        assert(trim_start(Seq::<char>::empty()) == Seq::<char>::empty());
        assert(trim_start(seq![x]) == trim_start(seq![x].drop_first()));
        assert(trim_start(seq![x]) == Seq::<char>::empty());
        if trim_start(dl).len() > 0 {
            let t = trim_start(dl).push(x);
            assert(t.drop_last() =~= trim_start(dl));
            assert(trim_end(t) == trim_end(trim_start(dl)));
        }
    }
}

/// Every character of a decimal form is an ASCII digit.
pub(crate) proof fn lemma_decimal_digits(n: nat)
    ensures
        forall|i: int| 0 <= i < decimal(n).len() ==> '0' <= #[trigger] decimal(n)[i] <= '9',
    decreases n,
{
    let d = decimal(n);
    if n < 10 {
        assert(d == seq![digit_char(n)]);
        assert('0' <= digit_char(n) <= '9');
        assert forall|i: int| 0 <= i < d.len() implies '0' <= #[trigger] d[i] <= '9' by {
            assert(d[i] == digit_char(n));
        }
    } else {
        lemma_decimal_digits(n / 10);
        let e = decimal(n / 10);
        assert(d == e.push(digit_char(n % 10)));
        assert('0' <= digit_char(n % 10) <= '9');
        assert forall|i: int| 0 <= i < d.len() implies '0' <= #[trigger] d[i] <= '9' by {
            if i < e.len() {
                assert(d[i] == e[i]);
            } else {
                assert(d[i] == digit_char(n % 10));
            }
        }
    }
}

/// A signed decimal form holds no comma and no line break.
pub(crate) proof fn lemma_signed_decimal_plain(n: int)
    ensures
        lacks(signed_decimal(n), ','),
        lacks(signed_decimal(n), '\n'),
{
    let m: nat = if n < 0 {
        (-n) as nat
    } else {
        n as nat
    };
    lemma_decimal_digits(m);
    let s = signed_decimal(n);
    assert forall|i: int| 0 <= i < s.len() implies #[trigger] s[i] != ',' && s[i] != '\n' by {
        if n < 0 {
            if i > 0 {
                assert(s[i] == decimal(m)[i - 1]);
            }
        } else {
            assert(s[i] == decimal(m)[i]);
        }
    }
}

/// The decimal digits of `n`.
pub fn decimal_chars(n: u64) -> (r: Vec<char>)
    ensures
        r@ == decimal(n as nat),
    decreases n,
{
    if n < 10 {
        let v = vec![digit_char_exec(n)];
        assert(v@ =~= seq![digit_char(n as nat)]);
        v
    } else {
        let mut v = decimal_chars(n / 10);
        v.push(digit_char_exec(n % 10));
        v
    }
}

/// The decimal form of a `u64`, as `to_string` writes it.
pub fn u64_to_string(n: u64) -> (s: String)
    ensures
        s@ == decimal(n as nat),
{
    let v = decimal_chars(n);
    string_of(v.as_slice())
}

/// The decimal form of an `i64`, as `to_string` writes it.
pub fn i64_to_string(n: i64) -> (s: String)
    ensures
        s@ == signed_decimal(n as int),
{
    if n < 0 {
        let m: u64 = if n == i64::MIN {
            9223372036854775808u64
        } else {
            (-n) as u64
        };
        let mut v = vec!['-'];
        let d = decimal_chars(m);
        let mut i: usize = 0;
        while i < d.len()
            invariant
                i <= d@.len(),
                v@ == seq!['-'] + d@.take(i as int),
            decreases d@.len() - i,
        {
            v.push(d[i]);
            i = i + 1;
            assert(v@ =~= seq!['-'] + d@.take(i as int));
        }
        assert(d@.take(i as int) =~= d@);
        string_of(v.as_slice())
    } else {
        u64_to_string(n as u64)
    }
}

/// The parts joined with `sep` between them.
pub open spec fn join(parts: Seq<Seq<char>>, sep: Seq<char>) -> Seq<char>
    decreases parts.len(),
{
    if parts.len() == 0 {
        Seq::empty()
    } else if parts.len() == 1 {
        parts[0]
    } else {
        join(parts.drop_last(), sep) + sep + parts.last()
    }
}

/// The strings joined with `sep` between them.
pub fn join_strings(parts: &Vec<String>, sep: &str) -> (r: String)
    ensures
        r@ == join(parts@.map_values(|s: String| s@), sep@),
{
    let ghost pv = parts@.map_values(|s: String| s@);
    let mut r = String::new();
    let mut i: usize = 0;
    while i < parts.len()
        invariant
            i <= parts@.len(),
            pv == parts@.map_values(|s: String| s@),
            r@ == join(pv.take(i as int), sep@),
        decreases parts@.len() - i,
    {
        if i > 0 {
            r.append(sep);
        }
        r.append(parts[i].as_str());
        i = i + 1;
        assert(pv.take(i as int).drop_last() =~= pv.take(i - 1));
        if i == 1 {
            assert(r@ =~= pv.take(1)[0]);
        }
    }
    assert(pv.take(i as int) =~= pv);
    r
}

/// The ASCII digit value of `c`, if it is one.
pub open spec fn digit_value(c: char) -> Option<int> {
    if '0' <= c && c <= '9' {
        Some(c as int - '0' as int)
    } else {
        None
    }
}

/// The value of a string of ASCII digits (`None` if empty or another
/// character occurs).
pub open spec fn digits_value(s: Seq<char>) -> Option<int>
    decreases s.len(),
{
    if s.len() == 0 {
        None
    } else {
        match digit_value(s.last()) {
            None => None,
            Some(d) => if s.len() == 1 {
                Some(d)
            } else {
                match digits_value(s.drop_last()) {
                    Some(v) => Some(10 * v + d),
                    None => None,
                }
            },
        }
    }
}

/// A short number as `str::parse::<i64>` reads it: an optional `+` or `-`
/// and then at least one digit.
pub open spec fn signed_value(s: Seq<char>) -> Option<int> {
    if s.len() > 0 && s[0] == '-' {
        match digits_value(s.drop_first()) {
            Some(v) => Some(-v),
            None => None,
        }
    } else if s.len() > 0 && s[0] == '+' {
        digits_value(s.drop_first())
    } else {
        digits_value(s)
    }
}

fn digit_of(c: char) -> (r: Option<i64>)
    ensures
        match r {
            Some(d) => digit_value(c) == Some(d as int) && 0 <= d <= 9,
            None => digit_value(c) is None,
        },
{
    if '0' <= c && c <= '9' {
        Some((c as u32 - '0' as u32) as i64)
    } else {
        None
    }
}

pub(crate) fn digits_of(s: &[char]) -> (r: Option<i64>)
    requires
        s@.len() <= 4,
    ensures
        match r {
            Some(v) => digits_value(s@) == Some(v as int) && 0 <= v < 10000,
            None => digits_value(s@) is None,
        },
{
    if s.len() == 0 {
        return None;
    }
    let mut v: i64 = 0;
    let mut i: usize = 0;
    while i < s.len()
        invariant
            0 <= i <= s@.len(),
            s@.len() <= 4,
            s@.len() > 0,
            i > 0 ==> digits_value(s@.take(i as int)) == Some(v as int),
            i == 0 ==> v == 0,
            0 <= v < (if i == 0 { 1int } else if i == 1 { 10int } else if i == 2 { 100int } else if i == 3 { 1000int } else { 10000int }),
        decreases s@.len() - i,
    {
        let d = match digit_of(s[i]) {
            Some(d) => d,
            None => {
                proof {
                    lemma_digits_stop(s@, i as int);
                }
                return None;
            },
        };
        assert(s@.take(i + 1).drop_last() =~= s@.take(i as int));
        v = 10 * v + d;
        i = i + 1;
    }
    assert(s@.take(i as int) =~= s@);
    Some(v)
}

/// A non-digit at `i` makes every longer prefix, and so the whole, no
/// number.
proof fn lemma_digits_stop(s: Seq<char>, i: int)
    requires
        0 <= i < s.len(),
        digit_value(s[i]) is None,
    ensures
        digits_value(s) is None,
    decreases s.len(),
{
    if i < s.len() - 1 {
        lemma_digits_stop(s.drop_last(), i);
    }
}


/// What `str::parse::<i64>` gives: the signed number, if it fits in `i64`.
pub open spec fn parse_i64(s: Seq<char>) -> Option<int> {
    match signed_value(s) {
        Some(v) => if i64::MIN <= v <= i64::MAX {
            Some(v)
        } else {
            None
        },
        None => None,
    }
}

/// A number's digits are worth at least those of each non-empty prefix.
proof fn lemma_digits_prefix(s: Seq<char>, k: int)
    requires
        1 <= k <= s.len(),
        digits_value(s) is Some,
    ensures
        digits_value(s.take(k)) is Some,
        digits_value(s.take(k)).unwrap() <= digits_value(s).unwrap(),
        digits_value(s.take(k)).unwrap() >= 0,
    decreases s.len(),
{
    if k == s.len() {
        assert(s.take(k) =~= s);
        lemma_digits_nonneg(s);
    } else {
        lemma_digits_prefix(s.drop_last(), k);
        assert(s.drop_last().take(k) =~= s.take(k));
        lemma_digits_nonneg(s.drop_last());
    }
}

proof fn lemma_digits_nonneg(s: Seq<char>)
    requires
        digits_value(s) is Some,
    ensures
        digits_value(s).unwrap() >= 0,
    decreases s.len(),
{
    if s.len() > 1 {
        lemma_digits_nonneg(s.drop_last());
    }
}

/// The magnitude of a run of digits, if it fits in `u64`.
fn digits_magnitude(s: &[char]) -> (r: Option<u64>)
    ensures
        match r {
            Some(v) => digits_value(s@) == Some(v as int),
            None => digits_value(s@) is None || digits_value(s@).unwrap() > u64::MAX,
        },
{
    if s.len() == 0 {
        return None;
    }
    let mut v: u64 = 0;
    let mut i: usize = 0;
    while i < s.len()
        invariant
            0 <= i <= s@.len(),
            s@.len() > 0,
            i > 0 ==> digits_value(s@.take(i as int)) == Some(v as int),
            i == 0 ==> v == 0,
        decreases s@.len() - i,
    {
        let d = match digit_of(s[i]) {
            Some(d) => d,
            None => {
                proof {
                    lemma_digits_stop(s@, i as int);
                }
                return None;
            },
        };
        assert(s@.take(i + 1).drop_last() =~= s@.take(i as int));
        let next = match v.checked_mul(10) {
            Some(t) => t.checked_add(d as u64),
            None => None,
        };
        match next {
            Some(n) => {
                v = n;
            },
            None => {
                proof {
                    if digits_value(s@) is Some {
                        lemma_digits_prefix(s@, i + 1);
                    }
                }
                return None;
            },
        }
        i = i + 1;
    }
    assert(s@.take(i as int) =~= s@);
    Some(v)
}

/// `str::parse::<i64>` (see [`parse_i64`]).
pub fn parse_i64_chars(s: &[char]) -> (r: Option<i64>)
    ensures
        match r {
            Some(v) => parse_i64(s@) == Some(v as int),
            None => parse_i64(s@) is None,
        },
{
    if s.len() > 0 && (s[0] == '-' || s[0] == '+') {
        let rest = slice_chars(s, 1, s.len());
        assert(rest@ =~= s@.drop_first());
        match digits_magnitude(rest.as_slice()) {
            Some(m) => {
                if s[0] == '-' {
                    if m <= 9223372036854775807 {
                        Some(-(m as i64))
                    } else if m == 9223372036854775808 {
                        Some(i64::MIN)
                    } else {
                        None
                    }
                } else if m <= 9223372036854775807 {
                    Some(m as i64)
                } else {
                    None
                }
            },
            None => None,
        }
    } else {
        match digits_magnitude(s) {
            Some(m) => if m <= 9223372036854775807 {
                Some(m as i64)
            } else {
                None
            },
            None => None,
        }
    }
}
/// The characters of `s` before its first white space.
pub open spec fn leading_word(s: Seq<char>) -> Seq<char>
    decreases s.len(),
{
    if s.len() == 0 || spec_is_whitespace(s[0]) {
        Seq::empty()
    } else {
        seq![s[0]] + leading_word(s.drop_first())
    }
}

/// The characters of `s` before its first white space (see [`leading_word`]).
pub fn leading_word_exec(s: &[char]) -> (r: Vec<char>)
    ensures
        r@ == leading_word(s@),
{
    let mut i: usize = 0;
    while i < s.len() && !is_whitespace(s[i])
        invariant
            i <= s@.len(),
            forall|k: int| 0 <= k < i ==> !spec_is_whitespace(#[trigger] s@[k]),
        decreases s@.len() - i,
    {
        i = i + 1;
    }
    proof {
        lemma_leading_word(s@, i as int);
    }
    slice_chars(s, 0, i)
}

pub proof fn lemma_leading_word(s: Seq<char>, i: int)
    requires
        0 <= i <= s.len(),
        forall|k: int| 0 <= k < i ==> !spec_is_whitespace(#[trigger] s[k]),
        i == s.len() || spec_is_whitespace(s[i]),
    ensures
        leading_word(s) == s.subrange(0, i),
    decreases i,
{
    if i == 0 {
        assert(s.subrange(0, 0) =~= Seq::<char>::empty());
    } else {
        let t = s.drop_first();
        assert forall|k: int| 0 <= k < i - 1 implies !spec_is_whitespace(#[trigger] t[k]) by {
            assert(t[k] == s[k + 1]);
        }
        if i - 1 < t.len() {
            assert(t[i - 1] == s[i]);
        }
        lemma_leading_word(t, i - 1);
        assert(s.subrange(0, i) =~= seq![s[0]] + t.subrange(0, i - 1));
    }
}


/// The leading word is a prefix of the text.
pub proof fn lemma_leading_word_len(s: Seq<char>)
    ensures
        leading_word(s).len() <= s.len(),
        leading_word(s) == s.subrange(0, leading_word(s).len() as int),
    decreases s.len(),
{
    if s.len() > 0 && !spec_is_whitespace(s[0]) {
        lemma_leading_word_len(s.drop_first());
        assert(leading_word(s) =~= s.subrange(0, leading_word(s).len() as int));
    } else {
        assert(leading_word(s) =~= s.subrange(0, 0));
    }
}
} // verus!
