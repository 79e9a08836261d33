//! Finding the video that belongs to a subtitle-only file: the base names
//! under which a companion file may lie, and which of the resolutions found
//! is taken.

use crate::text::{ends_with, ends_with_at, is_digit, str_chars, string_from_range};
use vstd::prelude::*;
use vstd::string::StrSliceExecFns;

verus! {

/// The length of the tag that the first `n` characters end with: the
/// first that fits of `.forced`, `.jpn`, `.eng`, `.japanese`, `.english`;
/// zero where none does.
pub open spec fn tag_len(s: Seq<char>, n: int) -> int {
    if ends_with_at(s, n, ".forced"@) {
        ".forced"@.len() as int
    } else if ends_with_at(s, n, ".jpn"@) {
        ".jpn"@.len() as int
    } else if ends_with_at(s, n, ".eng"@) {
        ".eng"@.len() as int
    } else if ends_with_at(s, n, ".japanese"@) {
        ".japanese"@.len() as int
    } else if ends_with_at(s, n, ".english"@) {
        ".english"@.len() as int
    } else {
        0
    }
}

/// What is left of the first `n` characters, step by step, as tags are
/// taken off their end; an empty rest is not listed.
pub open spec fn tag_candidates(s: Seq<char>, n: int) -> Seq<Seq<char>>
    decreases n,
{
    let k = tag_len(s, n);
    if 0 < k <= n {
        (if n - k > 0 {
            seq![s.take(n - k)]
        } else {
            Seq::empty()
        }) + tag_candidates(s, n - k)
    } else {
        Seq::empty()
    }
}

/// How many characters are left once every tag is taken off the end of
/// the first `n`.
pub open spec fn after_tags(s: Seq<char>, n: int) -> int
    decreases n,
{
    let k = tag_len(s, n);
    if 0 < k <= n {
        after_tags(s, n - k)
    } else {
        n
    }
}

/// Where the decimal digits at the end of the first `n` characters begin.
pub open spec fn digits_start(s: Seq<char>, n: int) -> int
    decreases n,
{
    if n > 0 && is_digit(s[n - 1]) {
        digits_start(s, n - 1)
    } else {
        n
    }
}

/// How many characters are left once a track number (`.` and at least one
/// digit) is taken off the end of the first `n`; none where they do not
/// end with one.
pub open spec fn number_stripped(s: Seq<char>, n: int) -> Option<int> {
    let start = digits_start(s, n);
    if start < n && start > 0 && s[start - 1] == '.' {
        Some(start - 1)
    } else {
        None
    }
}

/// What is left of the first `n` characters, step by step, as track
/// numbers are taken off their end; an empty rest is not listed.
pub open spec fn number_candidates(s: Seq<char>, n: int) -> Seq<Seq<char>>
    decreases n,
{
    match number_stripped(s, n) {
        Some(m) => if 0 <= m < n {
            (if m > 0 {
                seq![s.take(m)]
            } else {
                Seq::empty()
            }) + number_candidates(s, m)
        } else {
            Seq::empty()
        },
        None => Seq::empty(),
    }
}

/// The base names to try for the stem of a subtitle file: the stem itself,
/// then the stem with its tags taken off one by one, then with its track
/// numbers taken off one by one. An empty stem has none.
pub open spec fn candidates(stem: Seq<char>) -> Seq<Seq<char>> {
    if stem.len() == 0 {
        Seq::empty()
    } else {
        seq![stem] + tag_candidates(stem, stem.len() as int) + number_candidates(
            stem,
            after_tags(stem, stem.len() as int),
        )
    }
}

/// The texts of a list of strings.
pub open spec fn texts(names: Seq<String>) -> Seq<Seq<char>> {
    Seq::new(names.len(), |i: int| names[i]@)
}

fn tag_len_exec(chars: &Vec<char>, n: usize) -> (k: usize)
    requires
        n <= chars@.len(),
    ensures
        k == tag_len(chars@, n as int),
{
    if ends_with(chars, n, ".forced") {
        ".forced".unicode_len()
    } else if ends_with(chars, n, ".jpn") {
        ".jpn".unicode_len()
    } else if ends_with(chars, n, ".eng") {
        ".eng".unicode_len()
    } else if ends_with(chars, n, ".japanese") {
        ".japanese".unicode_len()
    } else if ends_with(chars, n, ".english") {
        ".english".unicode_len()
    } else {
        0
    }
}

fn number_stripped_exec(chars: &Vec<char>, n: usize) -> (rest: Option<usize>)
    requires
        n <= chars@.len(),
    ensures
        match number_stripped(chars@, n as int) {
            Some(m) => rest == Some(m as usize) && 0 <= m < n,
            None => rest is None,
        },
{
    let mut start: usize = n;
    while start > 0 && '0' <= chars[start - 1] && chars[start - 1] <= '9'
        invariant
            start <= n <= chars@.len(),
            digits_start(chars@, n as int) == digits_start(chars@, start as int),
        decreases start,
    {
        start -= 1;
    }
    if start < n && start > 0 && chars[start - 1] == '.' {
        Some(start - 1)
    } else {
        None
    }
}

/// The text without the track number at its end (`.01`, `.001`); none
/// where the text does not end with one.
pub fn strip_trailing_digits(s: &str) -> (rest: Option<String>)
    ensures
        match number_stripped(s@, s@.len() as int) {
            Some(m) => rest matches Some(t) && t@ == s@.take(m),
            None => rest is None,
        },
{
    let chars = str_chars(s);
    match number_stripped_exec(&chars, chars.len()) {
        Some(m) => Some(string_from_range(&chars, 0, m)),
        None => None,
    }
}

/// The base names under which the video of a subtitle file may lie, from
/// the most to the least specific.
pub fn companion_mkv_base_candidates(stem: &str) -> (out: Vec<String>)
    ensures
        texts(out@) == candidates(stem@),
{
    let chars = str_chars(stem);
    let len: usize = chars.len();
    let mut out: Vec<String> = Vec::new();
    if len == 0 {
        assert(texts(out@) == Seq::<Seq<char>>::empty());
        return out;
    }
    out.push(string_from_range(&chars, 0, len));
    assert(chars@.subrange(0, len as int) == chars@);
    assert(texts(out@) == seq![stem@]);
    let mut n: usize = len;
    loop
        invariant_except_break
            n <= len,
            texts(out@) + tag_candidates(chars@, n as int) == seq![stem@] + tag_candidates(
                chars@,
                len as int,
            ),
            after_tags(chars@, n as int) == after_tags(chars@, len as int),
        invariant
            len == chars@.len(),
            chars@ == stem@,
        ensures
            n == after_tags(chars@, len as int),
            n <= len,
            texts(out@) == seq![stem@] + tag_candidates(chars@, len as int),
        decreases n,
    {
        let k = tag_len_exec(&chars, n);
        if k == 0 || k > n {
            assert(texts(out@) + Seq::<Seq<char>>::empty() == texts(out@));
            break;
        }
        let ghost before = texts(out@);
        let ghost rest = tag_candidates(chars@, (n - k) as int);
        n = n - k;
        if n > 0 {
            out.push(string_from_range(&chars, 0, n));
            assert(chars@.subrange(0, n as int) == chars@.take(n as int));
            assert(texts(out@) == before.push(chars@.take(n as int)));
            assert(texts(out@) + rest == before + (seq![chars@.take(n as int)] + rest));
        } else {
            assert(before + (Seq::<Seq<char>>::empty() + rest) == before + rest);
        }
    }
    let ghost tags = texts(out@);
    let ghost base = n;
    loop
        invariant_except_break
            n <= base,
            texts(out@) + number_candidates(chars@, n as int) == tags + number_candidates(
                chars@,
                base as int,
            ),
        invariant
            base <= len,
            len == chars@.len(),
            chars@ == stem@,
        ensures
            texts(out@) == tags + number_candidates(chars@, base as int),
        decreases n,
    {
        match number_stripped_exec(&chars, n) {
            None => {
                assert(texts(out@) + Seq::<Seq<char>>::empty() == texts(out@));
                break;
            },
            Some(m) => {
                let ghost before = texts(out@);
                let ghost rest = number_candidates(chars@, m as int);
                n = m;
                if n > 0 {
                    out.push(string_from_range(&chars, 0, n));
                    assert(chars@.subrange(0, n as int) == chars@.take(n as int));
                    assert(texts(out@) == before.push(chars@.take(n as int)));
                    assert(texts(out@) + rest == before + (seq![chars@.take(n as int)] + rest));
                } else {
                    assert(before + (Seq::<Seq<char>>::empty() + rest) == before + rest);
                }
            },
        }
    }
    out
}

/// Whether a companion video of this resolution settles the canvas.
pub open spec fn is_companion_resolution(width: i32, height: i32) -> bool {
    (width == 1440 && height == 1080) || (width == 1280 && height == 720) || (width == 720
        && height == 480)
}

/// The first of the first `n` resolutions that settles the canvas, or
/// `(0, 0)`.
pub open spec fn first_companion(found: Seq<(i32, i32)>, n: int) -> (i32, i32)
    decreases n,
{
    if n <= 0 {
        (0i32, 0i32)
    } else if first_companion(found, n - 1) != (0i32, 0i32) {
        first_companion(found, n - 1)
    } else if is_companion_resolution(found[n - 1].0, found[n - 1].1) {
        found[n - 1]
    } else {
        (0i32, 0i32)
    }
}

/// The resolution to work with: the video's own where it is known; else,
/// for anamorphic output, that of the first companion video with a
/// resolution that settles the canvas; else unknown, `(0, 0)`.
pub open spec fn effective_resolution(
    width: i32,
    height: i32,
    anamorphic: bool,
    found: Seq<(i32, i32)>,
) -> (i32, i32) {
    if width != 0 || height != 0 {
        (width, height)
    } else if !anamorphic {
        (0i32, 0i32)
    } else {
        first_companion(found, found.len() as int)
    }
}

/// Whether companion videos have to be looked for at all.
pub fn needs_companion(video_width: i32, video_height: i32, anamorphic: bool) -> (needed: bool)
    ensures
        needed == (video_width == 0 && video_height == 0 && anamorphic),
{
    video_width == 0 && video_height == 0 && anamorphic
}

/// Settles the resolution to work with, given the resolutions of the
/// companion videos that were found, in the order of their candidates.
pub fn resolve_effective_resolution(
    video_width: i32,
    video_height: i32,
    anamorphic: bool,
    found: &Vec<(i32, i32)>,
) -> (resolution: (i32, i32))
    ensures
        resolution == effective_resolution(video_width, video_height, anamorphic, found@),
{
    if video_width != 0 || video_height != 0 {
        return (video_width, video_height);
    }
    if !anamorphic {
        return (0, 0);
    }
    let mut i: usize = 0;
    while i < found.len()
        invariant
            i <= found@.len(),
            video_width == 0,
            video_height == 0,
            anamorphic,
            first_companion(found@, i as int) == (0i32, 0i32),
        decreases found@.len() - i,
    {
        let (w, h) = found[i];
        if (w == 1440 && h == 1080) || (w == 1280 && h == 720) || (w == 720 && h == 480) {
            proof {
                assert(found@[i as int] == (w, h));
                assert(is_companion_resolution(found@[i as int].0, found@[i as int].1));
                assert(first_companion(found@, i as int + 1) == (w, h));
                assert((w, h) != (0i32, 0i32));
                lemma_first_companion_stays(found@, i as int + 1, found@.len() as int);
            }
            return (w, h);
        }
        i += 1;
    }
    (0, 0)
}

/// Once a companion resolution is found, later ones do not change it.
proof fn lemma_first_companion_stays(found: Seq<(i32, i32)>, n: int, m: int)
    requires
        0 <= n <= m,
        first_companion(found, n) != (0i32, 0i32),
    ensures
        first_companion(found, m) == first_companion(found, n),
    decreases m - n,
{
    if n < m {
        lemma_first_companion_stays(found, n, m - 1);
    }
}

} // verus!
