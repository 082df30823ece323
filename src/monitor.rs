use vstd::prelude::*;

verus! {

/// How many times the sound server is asked for the capture stream before
/// giving up.
pub const MAX_ATTEMPTS: u32 = 10;

/// What to do after one query of the sound server for the capture stream.
#[derive(Debug, Clone, Copy, PartialEq, Eq, Structural)]
pub enum RetryAction {
    /// The stream was found: go on and rebind it.
    Found,
    /// Not yet listed: wait the fixed delay and ask again.
    Retry,
    /// Attempts used up: leave the stream where it is.
    GiveUp,
}

pub open spec fn retry_spec(attempts: u32, found: bool) -> RetryAction {
    if found {
        RetryAction::Found
    } else if attempts + 1 < MAX_ATTEMPTS {
        RetryAction::Retry
    } else {
        RetryAction::GiveUp
    }
}

/// Decides after the query numbered `attempts` (counting from zero), given
/// whether it found the stream. Rebinding is best effort: running out of
/// attempts never stops capture.
pub fn retry_action(attempts: u32, found: bool) -> (r: RetryAction)
    ensures
        r == retry_spec(attempts, found),
{
    if found {
        RetryAction::Found
    } else if attempts < MAX_ATTEMPTS - 1 {
        RetryAction::Retry
    } else {
        RetryAction::GiveUp
    }
}

/// Space, tab, line feed, vertical tab, form feed, carriage return.
pub open spec fn is_space(b: u8) -> bool {
    b == 32 || b == 9 || b == 10 || b == 11 || b == 12 || b == 13
}

/// Start of the first blank-line separator (two line feeds) at or after `i`,
/// or the end of `s` when there is none.
pub open spec fn separator_from(s: Seq<u8>, i: int) -> int
    decreases s.len() - i,
{
    if i + 1 >= s.len() {
        s.len() as int
    } else if s[i] == 10 && s[i + 1] == 10 {
        i
    } else {
        separator_from(s, i + 1)
    }
}

/// End of the line that starts at `i` within `s[..hi]`: the next line feed,
/// or `hi`.
pub open spec fn line_end_from(s: Seq<u8>, i: int, hi: int) -> int
    decreases hi - i,
{
    if i >= hi {
        hi
    } else if s[i] == 10 {
        i
    } else {
        line_end_from(s, i + 1, hi)
    }
}

/// First position at or after `i` within `s[..hi]` that is not a `#`.
pub open spec fn hashes_end(s: Seq<u8>, i: int, hi: int) -> int
    decreases hi - i,
{
    if i < hi && s[i] == 35 {
        hashes_end(s, i + 1, hi)
    } else {
        i
    }
}

/// First space at or after `i` within `s[..hi]`, or `hi`.
pub open spec fn word_end(s: Seq<u8>, i: int, hi: int) -> int
    decreases hi - i,
{
    if i < hi && !is_space(s[i]) {
        word_end(s, i + 1, hi)
    } else {
        i
    }
}

/// `pat` occurs in `s[lo..hi]`.
pub open spec fn occurs_in(s: Seq<u8>, lo: int, hi: int, pat: Seq<u8>) -> bool {
    exists|i: int| lo <= i && i + pat.len() <= hi && #[trigger] s.subrange(i, i + pat.len()) == pat
}

/// `s[lo..hi]` starts with `pat`.
pub open spec fn starts_with_at(s: Seq<u8>, lo: int, hi: int, pat: Seq<u8>) -> bool {
    lo + pat.len() <= hi && s.subrange(lo, lo + pat.len()) == pat
}

/// The word right after `prefix` on the line `s[lo..hi]`, its leading `#`
/// marks removed.
pub open spec fn word_after(s: Seq<u8>, lo: int, hi: int, prefix: Seq<u8>) -> Seq<u8> {
    let a = hashes_end(s, lo + prefix.len(), hi);
    s.subrange(a, word_end(s, a, hi))
}

/// Within the block `s[lo..hi]`, the word after `prefix` on the first line
/// that starts with it; empty when no line does.
pub open spec fn id_in_block(s: Seq<u8>, lo: int, hi: int, prefix: Seq<u8>) -> Seq<u8>
    decreases hi - lo,
{
    let le = line_end_from(s, lo, hi);
    if lo >= hi || le < lo {
        Seq::empty()
    } else if starts_with_at(s, lo, le, prefix) {
        word_after(s, lo, le, prefix)
    } else if le >= hi {
        Seq::empty()
    } else {
        id_in_block(s, le + 1, hi, prefix)
    }
}

/// Splitting `s` into blocks at blank lines and starting with the block at
/// `lo`: the id that [`id_in_block`] finds in the first block holding
/// `marker`, or empty when no block holds it.
pub open spec fn stream_id_from(s: Seq<u8>, marker: Seq<u8>, prefix: Seq<u8>, lo: int) -> Seq<u8>
    decreases s.len() - lo,
{
    let be = separator_from(s, lo);
    if lo > s.len() || be < lo {
        Seq::empty()
    } else if occurs_in(s, lo, be, marker) {
        id_in_block(s, lo, be, prefix)
    } else if be + 2 > s.len() {
        Seq::empty()
    } else {
        stream_id_from(s, marker, prefix, be + 2)
    }
}

/// Finds the id of the capture stream in a listing of the sound server's
/// source outputs. The listing is a sequence of blocks separated by blank
/// lines; the stream's block is the first one that contains `marker` (the
/// line naming the application), and its id is the word that follows
/// `prefix` on the block's first line that starts with `prefix`, without
/// leading `#`. Empty when there is no such block or line.
pub fn find_stream_id(listing: &Vec<u8>, marker: &Vec<u8>, prefix: &Vec<u8>) -> (r: Vec<u8>)
    ensures
        r@ == stream_id_from(listing@, marker@, prefix@, 0),
{
    let n = listing.len();
    let mut lo: usize = 0;
    while lo <= n
        invariant
            n == listing@.len(),
            stream_id_from(listing@, marker@, prefix@, lo as int) == stream_id_from(
                listing@,
                marker@,
                prefix@,
                0,
            ),
        decreases n + 1 - lo,
    {
        let be = separator_from_exec(listing, lo);
        proof {
            lemma_separator_bounds(listing@, lo as int);
        }
        if occurs_in_exec(listing, lo, be, marker) {
            return id_in_block_exec(listing, lo, be, prefix);
        }
        if be >= n {
            return Vec::new();
        }
        lo = be + 2;
    }
    Vec::new()
}

proof fn lemma_separator_bounds(s: Seq<u8>, i: int)
    requires
        0 <= i <= s.len(),
    ensures
        i <= separator_from(s, i) <= s.len(),
        separator_from(s, i) < s.len() ==> separator_from(s, i) + 2 <= s.len(),
    decreases s.len() - i,
{
    if i + 1 < s.len() && !(s[i] == 10 && s[i + 1] == 10) {
        lemma_separator_bounds(s, i + 1);
    }
}

proof fn lemma_line_end_bounds(s: Seq<u8>, i: int, hi: int)
    requires
        i <= hi,
    ensures
        i <= line_end_from(s, i, hi) <= hi,
    decreases hi - i,
{
    if i < hi && s[i] != 10 {
        lemma_line_end_bounds(s, i + 1, hi);
    }
}

proof fn lemma_hashes_end_bounds(s: Seq<u8>, i: int, hi: int)
    requires
        i <= hi,
    ensures
        i <= hashes_end(s, i, hi) <= hi,
    decreases hi - i,
{
    if i < hi && s[i] == 35 {
        lemma_hashes_end_bounds(s, i + 1, hi);
    }
}

proof fn lemma_word_end_bounds(s: Seq<u8>, i: int, hi: int)
    requires
        i <= hi,
    ensures
        i <= word_end(s, i, hi) <= hi,
    decreases hi - i,
{
    if i < hi && !is_space(s[i]) {
        lemma_word_end_bounds(s, i + 1, hi);
    }
}

fn separator_from_exec(s: &Vec<u8>, lo: usize) -> (r: usize)
    requires
        lo <= s@.len(),
    ensures
        r == separator_from(s@, lo as int),
        lo <= r <= s@.len(),
{
    proof {
        lemma_separator_bounds(s@, lo as int);
    }
    let n = s.len();
    let mut i = lo;
    while n > 0 && i < n - 1
        invariant
            n == s@.len(),
            lo <= i <= n,
            separator_from(s@, i as int) == separator_from(s@, lo as int),
        decreases n - i,
    {
        if s[i] == 10 && s[i + 1] == 10 {
            return i;
        }
        i = i + 1;
    }
    n
}

fn line_end_exec(s: &Vec<u8>, lo: usize, hi: usize) -> (r: usize)
    requires
        lo <= hi <= s@.len(),
    ensures
        r == line_end_from(s@, lo as int, hi as int),
        lo <= r <= hi,
{
    proof {
        lemma_line_end_bounds(s@, lo as int, hi as int);
    }
    let mut i = lo;
    while i < hi
        invariant
            lo <= i <= hi <= s@.len(),
            line_end_from(s@, i as int, hi as int) == line_end_from(s@, lo as int, hi as int),
        decreases hi - i,
    {
        if s[i] == 10 {
            return i;
        }
        i = i + 1;
    }
    hi
}

/// Whether `s[at..]` begins with `pat`.
fn matches_at(s: &Vec<u8>, at: usize, pat: &Vec<u8>) -> (r: bool)
    requires
        at + pat@.len() <= s@.len(),
    ensures
        r == (s@.subrange(at as int, at + pat@.len()) == pat@),
{
    let m = pat.len();
    let n = s.len();
    let mut k: usize = 0;
    while k < m
        invariant
            m == pat@.len(),
            n == s@.len(),
            at + m <= n,
            k <= pat@.len(),
            s@.subrange(at as int, at + k) == pat@.subrange(0, k as int),
        decreases pat@.len() - k,
    {
        if s[at + k] != pat[k] {
            assert(s@.subrange(at as int, at + pat@.len())[k as int] != pat@[k as int]);
            return false;
        }
        assert(s@.subrange(at as int, at + k + 1) == s@.subrange(at as int, at + k).push(
            s@[at + k],
        ));
        assert(pat@.subrange(0, k + 1) == pat@.subrange(0, k as int).push(pat@[k as int]));
        k = k + 1;
    }
    assert(pat@.subrange(0, pat@.len() as int) == pat@);
    true
}

fn occurs_in_exec(s: &Vec<u8>, lo: usize, hi: usize, pat: &Vec<u8>) -> (r: bool)
    requires
        lo <= hi <= s@.len(),
    ensures
        r == occurs_in(s@, lo as int, hi as int, pat@),
{
    let m = pat.len();
    if m == 0 {
        assert(s@.subrange(lo as int, lo + pat@.len()) == pat@);
        return true;
    }
    if m > hi - lo {
        return false;
    }
    let mut i = lo;
    while i <= hi - m
        invariant
            m == pat@.len(),
            1 <= m <= hi - lo,
            lo <= i <= hi - m + 1,
            hi <= s@.len(),
            forall|j: int|
                lo <= j < i ==> #[trigger] s@.subrange(j, j + pat@.len()) != pat@,
        decreases hi - i,
    {
        if matches_at(s, i, pat) {
            return true;
        }
        i = i + 1;
    }
    false
}

fn hashes_end_exec(s: &Vec<u8>, lo: usize, hi: usize) -> (r: usize)
    requires
        lo <= hi <= s@.len(),
    ensures
        r == hashes_end(s@, lo as int, hi as int),
        lo <= r <= hi,
{
    proof {
        lemma_hashes_end_bounds(s@, lo as int, hi as int);
    }
    let mut i = lo;
    while i < hi && s[i] == 35
        invariant
            lo <= i <= hi <= s@.len(),
            hashes_end(s@, i as int, hi as int) == hashes_end(s@, lo as int, hi as int),
        decreases hi - i,
    {
        i = i + 1;
    }
    i
}

fn word_end_exec(s: &Vec<u8>, lo: usize, hi: usize) -> (r: usize)
    requires
        lo <= hi <= s@.len(),
    ensures
        r == word_end(s@, lo as int, hi as int),
        lo <= r <= hi,
{
    proof {
        lemma_word_end_bounds(s@, lo as int, hi as int);
    }
    let mut i = lo;
    while i < hi && !is_space_exec(s[i])
        invariant
            lo <= i <= hi <= s@.len(),
            word_end(s@, i as int, hi as int) == word_end(s@, lo as int, hi as int),
        decreases hi - i,
    {
        i = i + 1;
    }
    i
}

fn is_space_exec(b: u8) -> (r: bool)
    ensures
        r == is_space(b),
{
    b == 32 || b == 9 || b == 10 || b == 11 || b == 12 || b == 13
}

/// `s[lo..hi]` as a vector of its own.
fn copy_range(s: &Vec<u8>, lo: usize, hi: usize) -> (r: Vec<u8>)
    requires
        lo <= hi <= s@.len(),
    ensures
        r@ == s@.subrange(lo as int, hi as int),
{
    let mut out: Vec<u8> = Vec::new();
    let mut i = lo;
    while i < hi
        invariant
            lo <= i <= hi <= s@.len(),
            out@ == s@.subrange(lo as int, i as int),
        decreases hi - i,
    {
        out.push(s[i]);
        i = i + 1;
    }
    out
}

fn id_in_block_exec(s: &Vec<u8>, block_lo: usize, hi: usize, prefix: &Vec<u8>) -> (r: Vec<u8>)
    requires
        block_lo <= hi <= s@.len(),
    ensures
        r@ == id_in_block(s@, block_lo as int, hi as int, prefix@),
{
    let mut lo = block_lo;
    while lo < hi
        invariant
            block_lo <= lo,
            hi <= s@.len(),
            lo <= hi + 1,
            id_in_block(s@, lo as int, hi as int, prefix@) == id_in_block(
                s@,
                block_lo as int,
                hi as int,
                prefix@,
            ),
        decreases hi + 1 - lo,
    {
        let le = line_end_exec(s, lo, hi);
        if prefix.len() <= le - lo && matches_at(s, lo, prefix) {
            let a = hashes_end_exec(s, lo + prefix.len(), le);
            let b = word_end_exec(s, a, le);
            return copy_range(s, a, b);
        }
        if le >= hi {
            return Vec::new();
        }
        lo = le + 1;
    }
    Vec::new()
}

} // verus!
