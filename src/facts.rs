//! Facts learned from a compiler's banner: which compiler it is, and its version.
use vstd::prelude::*;
use vstd::slice::slice_subrange;
use crate::text::{string_of, opt_view};

verus! {

/// `pat` occurs in `text` as a contiguous run.
pub open spec fn occurs_in(pat: Seq<char>, text: Seq<char>) -> bool {
    exists|i: int| 0 <= i <= text.len() - pat.len() && #[trigger] text.subrange(i, i + pat.len()) == pat
}

/// The hint of entry `k` of `compilers` occurs in `text`, and no earlier hint does.
pub open spec fn first_hint_at(text: Seq<char>, compilers: Seq<(String, String)>, k: int) -> bool {
    &&& 0 <= k < compilers.len()
    &&& occurs_in(compilers[k].1@, text)
    &&& forall|m: int| 0 <= m < k ==> !occurs_in(#[trigger] compilers[m].1@, text)
}

/// No hint of `compilers` occurs in `text`.
pub open spec fn no_hint(text: Seq<char>, compilers: Seq<(String, String)>) -> bool {
    forall|m: int| 0 <= m < compilers.len() ==> !occurs_in(#[trigger] compilers[m].1@, text)
}

/// The name of the first compiler whose hint occurs in `text`, if any.
pub open spec fn identify(text: Seq<char>, compilers: Seq<(String, String)>) -> Option<Seq<char>> {
    if no_hint(text, compilers) {
        None
    } else {
        Some(compilers[choose|k: int| first_hint_at(text, compilers, k)].0@)
    }
}

proof fn lemma_first_hint_unique(text: Seq<char>, compilers: Seq<(String, String)>, k: int, m: int)
    requires
        first_hint_at(text, compilers, k),
        first_hint_at(text, compilers, m),
    ensures
        k == m,
{
    if k < m {
        assert(!occurs_in(compilers[k].1@, text));
    } else if m < k {
        assert(!occurs_in(compilers[m].1@, text));
    }
}

/// `text[i..i + pat.len()]` equals `pat`.
fn matches_at(text: &Vec<char>, i: usize, pat: &Vec<char>) -> (r: bool)
    requires
        i + pat@.len() <= text@.len(),
    ensures
        r == (text@.subrange(i as int, i + pat@.len()) == pat@),
{
    let tl = text.len();
    let mut k: usize = 0;
    while k < pat.len()
        invariant
            i + pat@.len() <= text@.len(),
            tl == text@.len(),
            k <= pat@.len(),
            forall|m: int| 0 <= m < k ==> text@[i + m] == pat@[m],
        decreases pat@.len() - k,
    {
        if text[i + k] != pat[k] {
            assert(text@.subrange(i as int, i + pat@.len())[k as int] != pat@[k as int]);
            return false;
        }
        k = k + 1;
    }
    assert(text@.subrange(i as int, i + pat@.len()) =~= pat@);
    true
}

/// Whether `pat` occurs in `text`.
pub fn occurs(pat: &Vec<char>, text: &Vec<char>) -> (r: bool)
    ensures
        r == occurs_in(pat@, text@),
{
    if pat.len() > text.len() {
        return false;
    }
    let last = text.len() - pat.len();
    let mut i: usize = 0;
    while i < last
        invariant
            last == text@.len() - pat@.len(),
            i <= last,
            forall|m: int| 0 <= m < i ==> #[trigger] text@.subrange(m, m + pat@.len()) != pat@,
        decreases last - i,
    {
        if matches_at(text, i, pat) {
            return true;
        }
        i = i + 1;
    }
    matches_at(text, last, pat)
}

/// The name of the first compiler in `compilers` whose hint occurs in `text`.
pub fn find_compiler(text: &Vec<char>, compilers: &Vec<(String, String)>) -> (r: Option<String>)
    ensures
        r is None <==> no_hint(text@, compilers@),
        r matches Some(name) ==> exists|k: int|
            first_hint_at(text@, compilers@, k) && #[trigger] compilers@[k].0@ == name@,
        opt_view(r) == identify(text@, compilers@),
{
    let mut k: usize = 0;
    while k < compilers.len()
        invariant
            k <= compilers@.len(),
            forall|m: int| 0 <= m < k ==> !occurs_in(#[trigger] compilers@[m].1@, text@),
        decreases compilers@.len() - k,
    {
        let hint = crate::text::chars_of(compilers[k].1.as_str());
        if occurs(&hint, text) {
            let name = compilers[k].0.clone();
            assert(name@ == compilers@[k as int].0@);
            assert(first_hint_at(text@, compilers@, k as int));
            proof {
                let m = choose|m: int| first_hint_at(text@, compilers@, m);
                lemma_first_hint_unique(text@, compilers@, k as int, m);
            }
            return Some(name);
        }
        k = k + 1;
    }
    None
}

/// `c` is white space as `char::is_whitespace` has it: a character with
/// Unicode's `White_Space` property.
pub open spec fn is_ws(c: char) -> bool {
    let u = c as u32;
    (0x9 <= u <= 0xd) || u == 0x20 || u == 0x85 || u == 0xa0 || u == 0x1680 || (0x2000 <= u
        <= 0x200a) || u == 0x2028 || u == 0x2029 || u == 0x202f || u == 0x205f || u == 0x3000
}

/// Whether `c` is white space.
pub fn whitespace(c: char) -> (r: bool)
    ensures
        r == is_ws(c),
{
    let u = c as u32;
    (0x9 <= u && u <= 0xd) || u == 0x20 || u == 0x85 || u == 0xa0 || u == 0x1680 || (0x2000 <= u
        && u <= 0x200a) || u == 0x2028 || u == 0x2029 || u == 0x202f || u == 0x205f || u == 0x3000
}

/// `s[i..j]` is a word of `s`: a maximal run of characters that are not white space.
pub open spec fn word_at(s: Seq<char>, i: int, j: int) -> bool {
    &&& 0 <= i < j <= s.len()
    &&& forall|k: int| i <= k < j ==> !is_ws(#[trigger] s[k])
    &&& (i == 0 || is_ws(s[i - 1]))
    &&& (j == s.len() || is_ws(s[j]))
}

/// What `semver::Version::parse` accepts: a semantic version.
pub uninterp spec fn is_semver(s: Seq<char>) -> bool;

/// Relies on `semver::Version::parse`: whether `word` parses as a semantic
/// version, a property of the text alone.
#[verifier::external_body]
fn parses_as_version(word: &str) -> (r: bool)
    ensures
        r == is_semver(word@),
{
    semver::Version::parse(word).is_ok()
}

/// The word of `s` at `i..j` parses as a version, and no word before it does.
pub open spec fn first_version_at(s: Seq<char>, i: int, j: int) -> bool {
    &&& word_at(s, i, j)
    &&& is_semver(s.subrange(i, j))
    &&& forall|a: int, b: int|
        #![trigger word_at(s, a, b)]
        word_at(s, a, b) && a < i ==> !is_semver(s.subrange(a, b))
}

/// No word of `s` parses as a version.
pub open spec fn no_version(s: Seq<char>) -> bool {
    forall|a: int, b: int| #![trigger word_at(s, a, b)] word_at(s, a, b) ==> !is_semver(s.subrange(a, b))
}

/// The first word of `s` that parses as a semantic version, if any.
pub open spec fn version_token(s: Seq<char>) -> Option<Seq<char>> {
    if no_version(s) {
        None
    } else {
        let (i, j) = choose|i: int, j: int| first_version_at(s, i, j);
        Some(s.subrange(i, j))
    }
}

proof fn lemma_first_version_unique(s: Seq<char>, i: int, j: int, i2: int, j2: int)
    requires
        first_version_at(s, i, j),
        first_version_at(s, i2, j2),
    ensures
        i == i2 && j == j2,
{
    if i < i2 {
        assert(word_at(s, i, j));
    } else if i2 < i {
        assert(word_at(s, i2, j2));
    } else {
        lemma_word_end_unique(s, i, j, j2);
    }
}

proof fn lemma_word_end_unique(s: Seq<char>, i: int, j: int, j2: int)
    requires
        word_at(s, i, j),
        word_at(s, i, j2),
    ensures
        j == j2,
{
    if j < j2 {
        assert(!is_ws(s[j]));
    } else if j2 < j {
        assert(!is_ws(s[j2]));
    }
}

/// The first word of `text` that parses as a semantic version.
pub fn find_version(text: &Vec<char>) -> (r: Option<String>)
    ensures
        r is None <==> no_version(text@),
        r matches Some(v) ==> exists|i: int, j: int|
            first_version_at(text@, i, j) && v@ == #[trigger] text@.subrange(i, j),
        opt_view(r) == version_token(text@),
{
    let ghost s = text@;
    let n = text.len();
    let mut i: usize = 0;
    while i < n
        invariant
            n == s.len(),
            s == text@,
            i <= n,
            i == 0 || i == n || is_ws(s[i - 1]) || is_ws(s[i as int]),
            forall|a: int, b: int|
                #![trigger word_at(s, a, b)]
                word_at(s, a, b) && a < i ==> !is_semver(s.subrange(a, b)),
        decreases n - i,
    {
        let start = i;
        while i < n && whitespace(text[i])
            invariant
                n == s.len(),
                s == text@,
                start <= i <= n,
                start == 0 || start == n || is_ws(s[start - 1]) || is_ws(s[start as int]),
                forall|k: int| start <= k < i ==> is_ws(#[trigger] s[k]),
            decreases n - i,
        {
            i = i + 1;
        }
        assert forall|a: int, b: int| word_at(s, a, b) && a < i implies !is_semver(s.subrange(a, b)) by {
            if a >= start {
                assert(is_ws(s[a]));
            }
        }
        if i == n {
            return None;
        }
        let w = i;
        while i < n && !whitespace(text[i])
            invariant
                n == s.len(),
                s == text@,
                w <= i <= n,
                forall|k: int| w <= k < i ==> !is_ws(#[trigger] s[k]),
            decreases n - i,
        {
            i = i + 1;
        }
        assert(word_at(s, w as int, i as int));
        let word = string_of(slice_subrange(text.as_slice(), w, i));
        assert(word@ == s.subrange(w as int, i as int));
        if parses_as_version(word.as_str()) {
            assert(first_version_at(s, w as int, i as int));
            proof {
                let (a, b) = choose|a: int, b: int| first_version_at(s, a, b);
                lemma_first_version_unique(s, w as int, i as int, a, b);
            }
            return Some(word);
        }
        assert forall|a: int, b: int| word_at(s, a, b) && a < i implies !is_semver(s.subrange(a, b)) by {
            if a == w {
                lemma_word_end_unique(s, a, b, i as int);
            } else if a > w {
                assert(!is_ws(s[a - 1]));
            }
        }
    }
    None
}

} // verus!
