//! The `yt-dlp` command line that downloads a video's audio, and the file
//! name read back from what `yt-dlp` prints.

use crate::state::YoutubeConfig;
use crate::text::{char_vec, push_char, push_str};
use vstd::prelude::*;
use vstd::string::*;

verus! {

/// The text that marks the line naming the downloaded file.
pub open spec fn destination_marker() -> Seq<char> {
    "Destination:"@
}

/// What precedes the file name on that line.
pub open spec fn destination_prefix() -> Seq<char> {
    "[download] Destination: "@
}

/// `pat` occurs in `s`.
pub open spec fn contains_text(s: Seq<char>, pat: Seq<char>) -> bool {
    exists|i: int| 0 <= i <= s.len() - pat.len() && #[trigger] s.subrange(i, i + pat.len()) == pat
}

/// `s` begins with `pat`.
pub open spec fn starts_with(s: Seq<char>, pat: Seq<char>) -> bool {
    pat.len() <= s.len() && s.subrange(0, pat.len() as int) == pat
}

/// Index of the first line break at or after `i` in `s`, or `s.len()`.
pub open spec fn line_end(s: Seq<char>, i: int) -> int
    decreases s.len() - i,
{
    if i >= s.len() || s[i] == '\n' {
        i
    } else {
        line_end(s, i + 1)
    }
}

proof fn lemma_line_end(s: Seq<char>, i: int)
    requires
        0 <= i <= s.len(),
    ensures
        i <= line_end(s, i) <= s.len(),
        line_end(s, i) < s.len() ==> s[line_end(s, i)] == '\n',
        forall|j: int| i <= j < line_end(s, i) ==> s[j] != '\n',
    decreases s.len() - i,
{
    if i < s.len() && s[i] != '\n' {
        lemma_line_end(s, i + 1);
    }
}

/// The first line of `s` from index `i` on (lines are what lies between
/// `'\n'` characters) that holds the destination marker.
pub open spec fn marked_line_from(s: Seq<char>, i: int) -> Option<Seq<char>>
    decreases s.len() - i,
{
    if i < 0 || i > s.len() {
        None
    } else {
        let k = line_end(s, i);
        if contains_text(s.subrange(i, k), destination_marker()) {
            Some(s.subrange(i, k))
        } else if k >= s.len() || k < i {
            None
        } else {
            marked_line_from(s, k + 1)
        }
    }
}

/// Why no file name could be read from `yt-dlp`'s output.
#[derive(PartialEq, Eq, Structural, Clone, Copy, Debug)]
pub enum DestinationError {
    /// No line mentions a destination.
    NoDestinationLine,
    /// The first such line does not start with `[download] Destination: `.
    UnexpectedLine,
}

/// The downloaded file's name read from `yt-dlp`'s output: the rest of the
/// first line that mentions `Destination:`, after the `[download]
/// Destination: ` that must begin it.
pub open spec fn destination_path(output: Seq<char>) -> Result<Seq<char>, DestinationError> {
    match marked_line_from(output, 0) {
        None => Err(DestinationError::NoDestinationLine),
        Some(line) => if starts_with(line, destination_prefix()) {
            Ok(line.skip(destination_prefix().len() as int))
        } else {
            Err(DestinationError::UnexpectedLine)
        },
    }
}

/// `h[i..i + p.len()]` equals `p`.
fn matches_at(h: &Vec<char>, i: usize, p: &Vec<char>) -> (r: bool)
    requires
        i + p.len() <= h.len(),
    ensures
        r == (h@.subrange(i as int, i + p.len()) == p@),
{
    let mut j: usize = 0;
    while j < p.len()
        invariant
            i + p.len() <= h.len(),
            j <= p.len(),
            forall|k: int| 0 <= k < j ==> h@[i + k] == p@[k],
        decreases p.len() - j,
    {
        if h[i + j] != p[j] {
            assert(h@.subrange(i as int, i + p.len())[j as int] != p@[j as int]);
            return false;
        }
        j = j + 1;
    }
    assert(h@.subrange(i as int, i + p.len()) =~= p@);
    true
}

/// `p` occurs in `h[lo..hi]`.
fn contains_in(h: &Vec<char>, lo: usize, hi: usize, p: &Vec<char>) -> (r: bool)
    requires
        lo <= hi <= h.len(),
    ensures
        r == contains_text(h@.subrange(lo as int, hi as int), p@),
{
    let ghost line = h@.subrange(lo as int, hi as int);
    if p.len() > hi - lo {
        return false;
    }
    let last = hi - p.len();
    let mut i: usize = lo;
    loop
        invariant
            lo <= i <= last,
            last + p.len() == hi,
            hi <= h.len(),
            line == h@.subrange(lo as int, hi as int),
            forall|k: int| 0 <= k < i - lo ==> #[trigger] line.subrange(k, k + p.len()) != p@,
        decreases last - i,
    {
        assert(line.subrange(i - lo, i - lo + p.len()) =~= h@.subrange(i as int, i + p.len()));
        if matches_at(h, i, p) {
            return true;
        }
        if i == last {
            return false;
        }
        i = i + 1;
    }
}

/// The characters `h[a..b]` as a string.
fn string_of(h: &Vec<char>, a: usize, b: usize) -> (res: String)
    requires
        a <= b <= h.len(),
    ensures
        res@ == h@.subrange(a as int, b as int),
{
    let mut res = String::new();
    let mut i = a;
    while i < b
        invariant
            a <= i <= b,
            b <= h.len(),
            res@ == h@.subrange(a as int, i as int),
        decreases b - i,
    {
        push_char(&mut res, h[i]);
        assert(h@.subrange(a as int, i + 1) =~= h@.subrange(a as int, i as int).push(h@[i as int]));
        i = i + 1;
    }
    res
}

/// Reads the downloaded file's name, or why there is none, from `yt-dlp`'s
/// standard output.
fn scan_destination(output: &str) -> (res: Result<String, DestinationError>)
    ensures
        match res {
            Ok(path) => destination_path(output@) == Ok::<Seq<char>, DestinationError>(path@),
            Err(e) => destination_path(output@) == Err::<Seq<char>, DestinationError>(e),
        },
{
    let h = char_vec(output);
    let marker = char_vec("Destination:");
    let prefix = char_vec("[download] Destination: ");
    let n = h.len();
    let mut start: usize = 0;
    loop
        invariant
            h@ == output@,
            n == h.len(),
            start <= n,
            marker@ == destination_marker(),
            prefix@ == destination_prefix(),
            marked_line_from(output@, 0) == marked_line_from(output@, start as int),
        decreases n - start,
    {
        let mut k = start;
        while k < n && h[k] != '\n'
            invariant
                start <= k <= n,
                n == h.len(),
                forall|j: int| start <= j < k ==> h@[j] != '\n',
            decreases n - k,
        {
            k = k + 1;
        }
        proof {
            lemma_line_end(h@, start as int);
            lemma_line_end_is(h@, start as int, k as int);
        }
        if contains_in(&h, start, k, &marker) {
            let ghost line = h@.subrange(start as int, k as int);
            if k - start >= prefix.len() && matches_at(&h, start, &prefix) {
                assert(line.subrange(0, prefix@.len() as int) =~= h@.subrange(
                    start as int,
                    start + prefix.len(),
                ));
                let path = string_of(&h, start + prefix.len(), k);
                assert(line.skip(prefix@.len() as int) =~= path@);
                return Ok(path);
            } else {
                proof {
                    if k - start >= prefix.len() {
                        assert(line.subrange(0, prefix@.len() as int) =~= h@.subrange(
                            start as int,
                            start + prefix.len(),
                        ));
                    }
                }
                return Err(DestinationError::UnexpectedLine);
            }
        }
        if k >= n {
            return Err(DestinationError::NoDestinationLine);
        }
        start = k + 1;
    }
}

/// Why `yt-dlp`'s output names no downloaded file, or `None` when it names
/// one: the test that `parse_destination` asks for.
pub fn destination_failure(output: &str) -> (res: Option<DestinationError>)
    ensures
        res == match destination_path(output@) {
            Ok(_) => None::<DestinationError>,
            Err(e) => Some(e),
        },
{
    match scan_destination(output) {
        Ok(_) => None,
        Err(e) => Some(e),
    }
}

/// Reads the downloaded file's name from `yt-dlp`'s standard output, which
/// must hold a well-formed destination line.
pub fn parse_destination(output: &str) -> (res: String)
    requires
        destination_path(output@) is Ok,
    ensures
        destination_path(output@) == Ok::<Seq<char>, DestinationError>(res@),
{
    match scan_destination(output) {
        Ok(path) => path,
        Err(_) => {
            assert(false);
            String::new()
        },
    }
}

proof fn lemma_line_end_is(s: Seq<char>, i: int, k: int)
    requires
        0 <= i <= k <= s.len(),
        forall|j: int| i <= j < k ==> s[j] != '\n',
        k == s.len() || s[k] == '\n',
    ensures
        line_end(s, i) == k,
    decreases k - i,
{
    if i < k {
        lemma_line_end_is(s, i + 1, k);
    }
}

/// The program and arguments that download the audio of `url`.
pub struct DownloadCommand {
    pub program: String,
    pub args: Vec<String>,
}

/// The `yt-dlp` invocation that extracts the audio of `url` into the
/// configured download directory.
pub fn download_command(url: String, config: &YoutubeConfig) -> (res: DownloadCommand)
    ensures
        res.program@ == config.yt_dlp_path@,
        res.args.len() == 3,
        res.args[0]@ == url@,
        res.args[1]@ == "--extract-audio"@,
        res.args[2]@ == "-P "@ + config.audio_download_path@,
{
    let mut target = String::from_str("-P ");
    push_str(&mut target, config.audio_download_path.as_str());
    let mut args: Vec<String> = Vec::new();
    args.push(url);
    args.push(String::from_str("--extract-audio"));
    args.push(target);
    DownloadCommand { program: config.yt_dlp_path.clone(), args }
}

proof fn lemma_contains_widen(s: Seq<char>, a: int, c: int, i: int, j: int, pat: Seq<char>)
    requires
        0 <= i <= a <= c <= j <= s.len(),
        contains_text(s.subrange(a, c), pat),
    ensures
        contains_text(s.subrange(i, j), pat),
{
    let p = choose|p: int|
        0 <= p <= s.subrange(a, c).len() - pat.len() && #[trigger] s.subrange(a, c).subrange(
            p,
            p + pat.len(),
        ) == pat;
    let q = p + (a - i);
    assert(s.subrange(i, j).subrange(q, q + pat.len()) =~= s.subrange(a, c).subrange(
        p,
        p + pat.len(),
    ));
}

proof fn lemma_skip_unmarked_lines(s: Seq<char>, i: int, j: int)
    requires
        0 <= i <= j <= s.len(),
        j == i || s[j - 1] == '\n',
        !contains_text(s.subrange(i, j), destination_marker()),
    ensures
        marked_line_from(s, i) == marked_line_from(s, j),
    decreases j - i,
{
    if i < j {
        lemma_line_end(s, i);
        let k = line_end(s, i);
        assert(k <= j - 1);
        if contains_text(s.subrange(i, k), destination_marker()) {
            lemma_contains_widen(s, i, k, i, j, destination_marker());
        }
        if contains_text(s.subrange(k + 1, j), destination_marker()) {
            lemma_contains_widen(s, k + 1, j, i, j, destination_marker());
        }
        lemma_skip_unmarked_lines(s, k + 1, j);
    }
}

/// Lines that never mention a destination, then the line
/// `[download] Destination: <path>` (ending the output or followed by a
/// line break), give `<path>` back.
pub proof fn lemma_destination_round_trip(before: Seq<char>, path: Seq<char>, after: Seq<char>)
    requires
        before.len() == 0 || before.last() == '\n',
        !contains_text(before, destination_marker()),
        forall|j: int| 0 <= j < path.len() ==> path[j] != '\n',
        after.len() == 0 || after[0] == '\n',
    ensures
        destination_path(before + destination_prefix() + path + after) == Ok::<
            Seq<char>,
            DestinationError,
        >(path),
{
    reveal_strlit("[download] Destination: ");
    reveal_strlit("Destination:");
    let pre = destination_prefix();
    let s = before + pre + path + after;
    let b = before.len() as int;
    let e = b + pre.len() + path.len();
    assert(s.subrange(0, b) =~= before);
    lemma_skip_unmarked_lines(s, 0, b);
    assert forall|j: int| b <= j < e implies s[j] != '\n' by {
        if j < b + pre.len() {
            assert(s[j] == pre[j - b]);
        } else {
            assert(s[j] == path[j - b - pre.len()]);
        }
    }
    if e < s.len() {
        assert(s[e] == after[0]);
    }
    lemma_line_end_is(s, b, e);
    let line = s.subrange(b, e);
    assert(line =~= pre + path);
    assert(line.subrange(11, 23) =~= destination_marker());
    assert(destination_marker().len() == 12);
    assert(line.subrange(11, 11int + destination_marker().len()) == destination_marker());
    assert(contains_text(line, destination_marker()));
    assert(marked_line_from(s, b) == Some(line));
    assert(line.subrange(0, pre.len() as int) =~= pre);
    assert(starts_with(line, pre));
    assert(line.skip(pre.len() as int) =~= path);
}

} // verus!
