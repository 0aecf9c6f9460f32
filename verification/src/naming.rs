//! Rules for interpreting file names: hidden-name detection, locating
//! the extension, and matching it against the supported data-file
//! extensions (`arrow`, `parquet`, `feather`).
//!
//! A "name" here is a single path component, such as `orders.parquet`.

use vstd::prelude::*;
use vstd::string::*;

verus! {

/// A name is hidden when its first character is a dot.
pub open spec fn spec_hidden(name: Seq<char>) -> bool {
    name.len() > 0 && name[0] == '.'
}

/// Index of the last `'.'` in `name`, or `-1` when there is none.
pub open spec fn spec_last_dot(name: Seq<char>) -> int
    decreases name.len(),
{
    if name.len() == 0 {
        -1
    } else if name.last() == '.' {
        name.len() - 1
    } else {
        spec_last_dot(name.drop_last())
    }
}

/// `spec_last_dot` returns a position of `'.'` with nothing but
/// non-dots to its right, or `-1` when the name holds no dot at all.
pub proof fn lemma_last_dot(name: Seq<char>)
    ensures
        spec_last_dot(name) >= -1,
        spec_last_dot(name) == -1 ==> forall|j: int| 0 <= j < name.len() ==> name[j] != '.',
        spec_last_dot(name) >= 0 ==> {
            &&& spec_last_dot(name) < name.len()
            &&& name[spec_last_dot(name)] == '.'
            &&& forall|j: int| spec_last_dot(name) < j < name.len() ==> name[j] != '.'
        },
    decreases name.len(),
{
    if name.len() > 0 && name.last() != '.' {
        lemma_last_dot(name.drop_last());
        assert forall|j: int| 0 <= j < name.len() - 1 implies name[j] == name.drop_last()[j] by {}
    }
}

/// The characterization of `lemma_last_dot` also determines
/// `spec_last_dot` uniquely: a dot with no dot to its right is the
/// last dot.
pub proof fn lemma_last_dot_at(name: Seq<char>, k: int)
    requires
        0 <= k < name.len(),
        name[k] == '.',
        forall|j: int| k < j < name.len() ==> name[j] != '.',
    ensures
        spec_last_dot(name) == k,
    decreases name.len(),
{
    if k == name.len() - 1 {
    } else {
        assert(name.last() != '.');
        assert forall|j: int| 0 <= j < name.len() - 1 implies name.drop_last()[j] == name[j] by {}
        lemma_last_dot_at(name.drop_last(), k);
    }
}

/// Finds the index of the last `'.'` in `name`, if any.
pub fn find_last_dot(name: &str) -> (r: Option<usize>)
    ensures
        match r {
            Some(k) => k == spec_last_dot(name@),
            None => spec_last_dot(name@) == -1,
        },
{
    let n = name.unicode_len();
    let mut k = n;
    while k > 0
        invariant
            k <= n,
            n == name@.len(),
            forall|j: int| k <= j < n ==> name@[j] != '.',
        decreases k,
    {
        if name.get_char(k - 1) == '.' {
            proof {
                lemma_last_dot_at(name@, k - 1);
            }
            return Some(k - 1);
        }
        k = k - 1;
    }
    proof {
        lemma_last_dot(name@);
        if spec_last_dot(name@) >= 0 {
            let d = spec_last_dot(name@);
            assert(0 <= d < n);
            assert(name@[d] == '.');
            assert(false);
        }
    }
    None
}

/// The characters of `name` strictly before its last dot.
pub open spec fn spec_stem(name: Seq<char>) -> Seq<char> {
    name.subrange(0, spec_last_dot(name))
}

/// The characters of `name` strictly after its last dot.
pub open spec fn spec_ext(name: Seq<char>) -> Seq<char> {
    name.subrange(spec_last_dot(name) + 1, name.len() as int)
}

/// One candidate character matches one lowercase reference character
/// when they are equal, or when the candidate is the uppercase ASCII
/// form of the reference.
pub open spec fn spec_char_matches_ci(c: char, lower: char) -> bool {
    c == lower || (65 <= c as int && c as int <= 90 && c as int + 32 == lower as int)
}

/// Equality with a lowercase reference word, ignoring ASCII case in
/// the candidate.
pub open spec fn spec_eq_ci(s: Seq<char>, lower: Seq<char>) -> bool {
    s.len() == lower.len() && forall|i: int| 0 <= i < s.len() ==> spec_char_matches_ci(#[trigger] s[i], lower[i])
}

fn char_matches_ci(c: char, lower: char) -> (r: bool)
    ensures
        r == spec_char_matches_ci(c, lower),
{
    let cu = c as u32;
    let lu = lower as u32;
    c == lower || (65 <= cu && cu <= 90 && cu + 32 == lu)
}

/// Compares `s` against a lowercase reference word, ignoring ASCII
/// case in `s`.
fn eq_ignore_ascii_case(s: &str, lower: &str) -> (r: bool)
    ensures
        r == spec_eq_ci(s@, lower@),
{
    let n = s.unicode_len();
    if n != lower.unicode_len() {
        return false;
    }
    let mut i: usize = 0;
    while i < n
        invariant
            i <= n,
            n == s@.len(),
            n == lower@.len(),
            forall|j: int| 0 <= j < i ==> spec_char_matches_ci(#[trigger] s@[j], lower@[j]),
        decreases n - i,
    {
        if !char_matches_ci(s.get_char(i), lower.get_char(i)) {
            return false;
        }
        i = i + 1;
    }
    true
}

/// Exact equality of two strings, character by character.
pub fn str_eq(a: &str, b: &str) -> (r: bool)
    ensures
        r == (a@ == b@),
{
    let r = a.to_owned() == b.to_owned();
    proof {
        if a@ =~= b@ {
            assert(a@ == b@);
        }
    }
    r
}

/// The supported data-file extensions, compared ignoring ASCII case.
pub open spec fn spec_supported_ext_ci(ext: Seq<char>) -> bool {
    ||| spec_eq_ci(ext, "arrow"@)
    ||| spec_eq_ci(ext, "parquet"@)
    ||| spec_eq_ci(ext, "feather"@)
}

/// The supported data-file extensions, compared exactly.
pub open spec fn spec_supported_ext_exact(ext: Seq<char>) -> bool {
    ||| ext == "arrow"@
    ||| ext == "feather"@
    ||| ext == "parquet"@
}

/// Whether `ext` names a supported data-file format, ignoring ASCII
/// case.
pub fn supported_ext_ci(ext: &str) -> (r: bool)
    ensures
        r == spec_supported_ext_ci(ext@),
{
    eq_ignore_ascii_case(ext, "arrow") || eq_ignore_ascii_case(ext, "parquet") || eq_ignore_ascii_case(
        ext,
        "feather",
    )
}

/// Whether `ext` names a supported data-file format, compared
/// exactly.
pub fn supported_ext_exact(ext: &str) -> (r: bool)
    ensures
        r == spec_supported_ext_exact(ext@),
{
    str_eq(ext, "arrow") || str_eq(ext, "feather") || str_eq(ext, "parquet")
}

/// A name becomes a table entry when it is not hidden and carries a
/// supported extension, compared ignoring ASCII case.
pub open spec fn spec_is_table_name(name: Seq<char>) -> bool {
    &&& !spec_hidden(name)
    &&& spec_last_dot(name) >= 0
    &&& spec_supported_ext_ci(spec_ext(name))
}

/// A name is a data file for discovery purposes when it is not hidden
/// and carries a supported extension, compared exactly.
pub open spec fn spec_is_data_file_name(name: Seq<char>) -> bool {
    &&& !spec_hidden(name)
    &&& spec_last_dot(name) >= 0
    &&& spec_supported_ext_exact(spec_ext(name))
}

/// Returns the display name (stem) of a table entry when `name`
/// qualifies as one, and `None` otherwise.
pub fn table_stem(name: &str) -> (r: Option<String>)
    ensures
        match r {
            Some(s) => spec_is_table_name(name@) && s@ == spec_stem(name@),
            None => !spec_is_table_name(name@),
        },
{
    let n = name.unicode_len();
    if n == 0 {
        return None;
    }
    if name.get_char(0) == '.' {
        return None;
    }
    match find_last_dot(name) {
        None => None,
        Some(k) => {
            proof {
                lemma_last_dot(name@);
            }
            let ext = name.substring_char(k + 1, n);
            if supported_ext_ci(ext) {
                Some(String::from_str(name.substring_char(0, k)))
            } else {
                None
            }
        },
    }
}

/// Whether `name` is a data file for discovery purposes.
pub fn is_data_file_name(name: &str) -> (r: bool)
    ensures
        r == spec_is_data_file_name(name@),
{
    let n = name.unicode_len();
    if n == 0 {
        return false;
    }
    if name.get_char(0) == '.' {
        return false;
    }
    match find_last_dot(name) {
        None => false,
        Some(k) => {
            proof {
                lemma_last_dot(name@);
            }
            supported_ext_exact(name.substring_char(k + 1, n))
        },
    }
}

} // verus!
