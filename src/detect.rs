//! Deciding from a directory listing whether a subject is present.
use vstd::prelude::*;
use crate::config::CcConfig;
use crate::text::chars_of;

verus! {

/// The entries of one directory: the names of its files and of its folders.
pub struct DirContents {
    pub files: Vec<String>,
    pub folders: Vec<String>,
}

/// `ext` is an extension of the file `name`: the text after its last dot, or
/// after its first dot (`gz` and `tar.gz` for `a.tar.gz`). Hidden files, whose
/// names begin with a dot, have none.
pub open spec fn has_extension(name: Seq<char>, ext: Seq<char>) -> bool {
    &&& name.len() > 0
    &&& name[0] != '.'
    &&& exists|i: int|
        #![trigger name[i]]
        0 <= i < name.len() && name[i] == '.' && ext == name.subrange(i + 1, name.len() as int)
            && ((forall|k: int| 0 <= k < i ==> name[k] != '.') || (forall|k: int|
            i < k < name.len() ==> name[k] != '.'))
}

/// Some name of `names` equals `s`.
pub open spec fn holds_name(names: Seq<String>, s: Seq<char>) -> bool {
    exists|i: int| 0 <= i < names.len() && #[trigger] names[i]@ == s
}

/// Some name of `a` is also in `b`.
pub open spec fn shares_name(a: Seq<String>, b: Seq<String>) -> bool {
    exists|i: int| 0 <= i < a.len() && holds_name(b, #[trigger] a[i]@)
}

/// Some file of `files` has an extension listed in `exts`.
pub open spec fn has_listed_extension(files: Seq<String>, exts: Seq<String>) -> bool {
    exists|i: int, j: int|
        0 <= i < files.len() && 0 <= j < exts.len() && has_extension(
            #[trigger] files[i]@,
            #[trigger] exts[j]@,
        )
}

/// The listing shows any of the descriptor's detection signals.
pub open spec fn signals_present(config: CcConfig, dir: DirContents) -> bool {
    ||| has_listed_extension(dir.files@, config.detect_extensions@)
    ||| shares_name(dir.files@, config.detect_files@)
    ||| shares_name(dir.folders@, config.detect_folders@)
}

/// `s[start..]` equals `t`.
fn suffix_equals(s: &Vec<char>, start: usize, t: &Vec<char>) -> (r: bool)
    requires
        start <= s@.len(),
    ensures
        r == (s@.subrange(start as int, s@.len() as int) == t@),
{
    if s.len() - start != t.len() {
        assert(s@.subrange(start as int, s@.len() as int).len() != t@.len());
        return false;
    }
    let mut k: usize = 0;
    while k < t.len()
        invariant
            start <= s@.len(),
            start + t@.len() == s@.len(),
            s@.len() <= usize::MAX,
            k <= t@.len(),
            forall|m: int| 0 <= m < k ==> s@[start + m] == t@[m],
        decreases t@.len() - k,
    {
        if s[start + k] != t[k] {
            assert(s@.subrange(start as int, s@.len() as int)[k as int] != t@[k as int]);
            return false;
        }
        k = k + 1;
    }
    assert(s@.subrange(start as int, s@.len() as int) =~= t@);
    true
}

/// Whether `ext` is an extension of the file `name`.
pub fn extension_matches(name: &Vec<char>, ext: &Vec<char>) -> (r: bool)
    ensures
        r == has_extension(name@, ext@),
{
    if name.len() == 0 || name[0] == '.' {
        return false;
    }
    let mut first: Option<usize> = None;
    let mut last: Option<usize> = None;
    let mut i: usize = 0;
    while i < name.len()
        invariant
            i <= name@.len(),
            first is None <==> last is None,
            first is None ==> forall|k: int| 0 <= k < i ==> name@[k] != '.',
            first matches Some(f) ==> f < i && name@[f as int] == '.' && forall|k: int|
                0 <= k < f ==> name@[k] != '.',
            last matches Some(l) ==> l < i && name@[l as int] == '.' && forall|k: int|
                l < k < i ==> name@[k] != '.',
        decreases name@.len() - i,
    {
        if name[i] == '.' {
            if first.is_none() {
                first = Some(i);
            }
            last = Some(i);
        }
        i = i + 1;
    }
    match (first, last) {
        (Some(f), Some(l)) => {
            let r = suffix_equals(name, f + 1, ext) || suffix_equals(name, l + 1, ext);
            proof {
                if has_extension(name@, ext@) {
                    let j = choose|j: int|
                        #![trigger name@[j]]
                        0 <= j < name@.len() && name@[j] == '.' && ext@ == name@.subrange(
                            j + 1,
                            name@.len() as int,
                        ) && ((forall|k: int| 0 <= k < j ==> name@[k] != '.') || (forall|k: int|
                            j < k < name@.len() ==> name@[k] != '.'));
                    if forall|k: int| 0 <= k < j ==> name@[k] != '.' {
                        assert(j == f);
                    } else {
                        assert(j == l);
                    }
                }
                if r {
                    if suffix_equals_spec(name@, f as int, ext@) {
                        assert(name@[f as int] == '.');
                    } else {
                        assert(name@[l as int] == '.');
                    }
                }
            }
            r
        },
        _ => false,
    }
}

spec fn suffix_equals_spec(s: Seq<char>, dot: int, t: Seq<char>) -> bool {
    s.subrange(dot + 1, s.len() as int) == t
}

/// Whether `names` holds `s`.
pub fn holds(names: &Vec<String>, s: &String) -> (r: bool)
    ensures
        r == holds_name(names@, s@),
{
    let mut i: usize = 0;
    while i < names.len()
        invariant
            i <= names@.len(),
            forall|k: int| 0 <= k < i ==> names@[k]@ != s@,
        decreases names@.len() - i,
    {
        if names[i] == *s {
            return true;
        }
        i = i + 1;
    }
    false
}

/// Whether some name of `a` is also in `b`.
pub fn shares(a: &Vec<String>, b: &Vec<String>) -> (r: bool)
    ensures
        r == shares_name(a@, b@),
{
    let mut i: usize = 0;
    while i < a.len()
        invariant
            i <= a@.len(),
            forall|k: int| 0 <= k < i ==> !holds_name(b@, #[trigger] a@[k]@),
        decreases a@.len() - i,
    {
        if holds(b, &a[i]) {
            return true;
        }
        i = i + 1;
    }
    false
}

/// Whether some file of `files` has an extension listed in `exts`.
pub fn any_extension(files: &Vec<String>, exts: &Vec<String>) -> (r: bool)
    ensures
        r == has_listed_extension(files@, exts@),
{
    let mut i: usize = 0;
    while i < files.len()
        invariant
            i <= files@.len(),
            forall|a: int, b: int|
                0 <= a < i && 0 <= b < exts@.len() ==> !has_extension(
                    #[trigger] files@[a]@,
                    #[trigger] exts@[b]@,
                ),
        decreases files@.len() - i,
    {
        let name = chars_of(files[i].as_str());
        let mut j: usize = 0;
        while j < exts.len()
            invariant
                i < files@.len(),
                j <= exts@.len(),
                name@ == files@[i as int]@,
                forall|a: int, b: int|
                    0 <= a < i && 0 <= b < exts@.len() ==> !has_extension(
                        #[trigger] files@[a]@,
                        #[trigger] exts@[b]@,
                    ),
                forall|b: int| 0 <= b < j ==> !has_extension(files@[i as int]@, #[trigger] exts@[b]@),
            decreases exts@.len() - j,
        {
            let ext = chars_of(exts[j].as_str());
            if extension_matches(&name, &ext) {
                return true;
            }
            j = j + 1;
        }
        i = i + 1;
    }
    false
}

/// Whether the listing shows any of the descriptor's detection signals: a
/// file with a listed extension, a listed file name or a listed folder name.
pub fn is_cc_project(config: &CcConfig, dir: &DirContents) -> (r: bool)
    ensures
        r == signals_present(*config, *dir),
{
    any_extension(&dir.files, &config.detect_extensions) || shares(&dir.files, &config.detect_files)
        || shares(&dir.folders, &config.detect_folders)
}

} // verus!
