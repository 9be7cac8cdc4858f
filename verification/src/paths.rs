//! Path text rules: the folder-prefix form used to prune the index cache,
//! image-file recognition, and ignore-folder matching.
use vstd::prelude::*;
use crate::text::{push_char, str_equal};

verus! {

/// Every `/` turned into `\`.
pub open spec fn backslashed(s: Seq<char>) -> Seq<char> {
    Seq::new(s.len(), |i: int| if s[i] == '/' { '\\' } else { s[i] })
}

/// The prefix form of a folder path: `/` replaced by `\`, and a trailing `\`
/// added unless one is already there.
pub open spec fn normalized_path(s: Seq<char>) -> Seq<char> {
    let t = backslashed(s);
    if t.len() > 0 && t.last() == '\\' {
        t
    } else {
        t.push('\\')
    }
}

/// Brings a (canonicalized) folder path into the form that index entries are
/// matched against: separators become `\` and the text ends with `\`.
pub fn normalize_path(path: &str) -> (r: String)
    ensures
        r@ == normalized_path(path@),
{
    let n = path.unicode_len();
    let mut out = String::new();
    let mut i: usize = 0;
    while i < n
        invariant
            n == path@.len(),
            i <= n,
            out@ =~= backslashed(path@.subrange(0, i as int)),
        decreases n - i,
    {
        let c = path.get_char(i);
        if c == '/' {
            push_char(&mut out, '\\');
        } else {
            push_char(&mut out, c);
        }
        i = i + 1;
        assert(out@ =~= backslashed(path@.subrange(0, i as int)));
    }
    assert(path@.subrange(0, n as int) =~= path@);
    let len = out.unicode_len();
    if len > 0 && out.as_str().get_char(len - 1) == '\\' {
        out
    } else {
        push_char(&mut out, '\\');
        out
    }
}

/// The prefix form changes only `/` characters: each one becomes `\`, every
/// other character (spaces included) stays where it is, and one `\` follows
/// unless the path already ends with a separator.
pub proof fn normalize_path_changes_only_slashes(s: Seq<char>)
    ensures
        forall|i: int|
            0 <= i < s.len() ==> #[trigger] normalized_path(s)[i] == (if s[i] == '/' {
                '\\'
            } else {
                s[i]
            }),
        normalized_path(s).len() == (if s.len() > 0 && (s.last() == '/' || s.last() == '\\') {
            s.len()
        } else {
            s.len() + 1
        }),
        normalized_path(s).last() == '\\',
{
}

/// The prefix form of a path is never empty, ends with `\`, holds no `/`,
/// and normalizing it again changes nothing.
pub proof fn normalize_path_idempotent(s: Seq<char>)
    ensures
        normalized_path(normalized_path(s)) == normalized_path(s),
        normalized_path(s).len() > 0,
        normalized_path(s).last() == '\\',
        !normalized_path(s).contains('/'),
{
    let t = normalized_path(s);
    assert(backslashed(t) =~= t);
    if normalized_path(s).contains('/') {
        let k = choose|k: int| 0 <= k < t.len() && t[k] == '/';
        assert(false);
    }
}

/// What `Path::file_name` gives back for a path text: its final component
/// when that is a normal name.
pub uninterp spec fn file_name_of(path: Seq<char>) -> Option<Seq<char>>;

/// `Path::file_name` on `path`, named `file_name_of`; nothing else is
/// claimed of it.
#[verifier::external_body]
fn path_file_name(path: &str) -> (r: Option<String>)
    ensures
        match r {
            Some(n) => file_name_of(path@) == Some(n@),
            None => file_name_of(path@) is None,
        },
{
    std::path::Path::new(path).file_name().map(|n| n.to_string_lossy().into_owned())
}

/// What `Path::starts_with` gives back: whether `base` is a prefix of `path`
/// made of whole components.
pub uninterp spec fn path_has_prefix(path: Seq<char>, base: Seq<char>) -> bool;

/// `Path::starts_with`, named `path_has_prefix`; nothing else is claimed of it.
#[verifier::external_body]
fn path_starts_with(path: &str, base: &str) -> (r: bool)
    ensures
        r == path_has_prefix(path@, base@),
{
    std::path::Path::new(path).starts_with(base)
}

/// What `str::to_lowercase` gives back for a text (Unicode lower-casing).
pub uninterp spec fn unicode_lowercase(s: Seq<char>) -> Seq<char>;

/// `str::to_lowercase`, named `unicode_lowercase`; nothing else is claimed
/// of it.
#[verifier::external_body]
fn to_lowercase(s: &str) -> (r: String)
    ensures
        r@ == unicode_lowercase(s@),
{
    s.to_lowercase()
}

/// Index of the last `c` in `s`, or -1 when there is none.
pub open spec fn last_index_of(s: Seq<char>, c: char) -> int
    decreases s.len(),
{
    if s.len() == 0 {
        -1
    } else if s.last() == c {
        s.len() - 1
    } else {
        last_index_of(s.drop_last(), c)
    }
}

/// The extension of a file name: the text after its final `.`, where that
/// `.` is not the name's first character; `..` has none.
pub open spec fn extension_of(name: Seq<char>) -> Option<Seq<char>> {
    let k = last_index_of(name, '.');
    if name == seq!['.', '.'] || k <= 0 {
        None
    } else {
        Some(name.subrange(k + 1, name.len() as int))
    }
}

proof fn lemma_last_index_bounds(s: Seq<char>, c: char)
    ensures
        -1 <= last_index_of(s, c) < s.len(),
        last_index_of(s, c) >= 0 ==> s[last_index_of(s, c)] == c,
        forall|j: int| last_index_of(s, c) < j < s.len() ==> s[j] != c,
    decreases s.len(),
{
    if s.len() > 0 && s.last() != c {
        lemma_last_index_bounds(s.drop_last(), c);
        assert forall|j: int| last_index_of(s, c) < j < s.len() implies s[j] != c by {
            if j < s.len() - 1 {
                assert(s[j] == s.drop_last()[j]);
            }
        }
    }
}

/// The extension of a file name (see `extension_of`).
pub fn file_extension(name: &str) -> (r: Option<String>)
    ensures
        match extension_of(name@) {
            Some(e) => r matches Some(x) && x@ == e,
            None => r is None,
        },
{
    let n = name.unicode_len();
    let mut k: usize = n;
    while k > 0 && name.get_char(k - 1) != '.'
        invariant
            n == name@.len(),
            k <= n,
            forall|j: int| k <= j < n ==> name@[j] != '.',
        decreases k,
    {
        k = k - 1;
    }
    proof {
        lemma_last_index_bounds(name@, '.');
        assert(last_index_of(name@, '.') == k - 1) by {
            let l = last_index_of(name@, '.');
            if l > k - 1 {
                assert(name@[l] == '.');
            }
            if l < k - 1 {
                assert(name@[k - 1] == '.');
            }
        }
    }
    if n == 2 && name.get_char(0) == '.' && name.get_char(1) == '.' {
        assert(name@ =~= seq!['.', '.']);
        return None;
    }
    assert(name@ != seq!['.', '.']);
    if k <= 1 {
        None
    } else {
        Some(String::from_str(name.substring_char(k, n)))
    }
}

/// Extensions of the images that get indexed, compared after lower-casing.
pub open spec fn is_image_extension(lowered: Seq<char>) -> bool {
    lowered == "jpg"@ || lowered == "jpeg"@ || lowered == "png"@
}

/// Whether a path names a JPEG or PNG image, judged by its extension.
pub open spec fn is_image_path(path: Seq<char>) -> bool {
    match file_name_of(path) {
        Some(name) => match extension_of(name) {
            Some(ext) => is_image_extension(unicode_lowercase(ext)),
            None => false,
        },
        None => false,
    }
}

/// Whether the file at `path` is one the indexer handles: its extension,
/// lower-cased, is `jpg`, `jpeg` or `png`.
pub fn is_image_file(path: &str) -> (r: bool)
    ensures
        r == is_image_path(path@),
{
    match path_file_name(path) {
        Some(name) => match file_extension(name.as_str()) {
            Some(ext) => {
                let lowered = to_lowercase(ext.as_str());
                let l = lowered.as_str();
                str_equal(l, "jpg") || str_equal(l, "jpeg") || str_equal(l, "png")
            },
            None => false,
        },
        None => false,
    }
}

/// Whether some ignore folder is a whole-component prefix of `path`.
pub open spec fn is_ignored_path(path: Seq<char>, ignore_prefixes: Seq<String>) -> bool {
    exists|i: int| 0 <= i < ignore_prefixes.len() && path_has_prefix(path, #[trigger] ignore_prefixes[i]@)
}

/// Ignore folders act as path prefixes: a file under any of them is ignored.
pub fn is_ignored(path: &str, ignore_prefixes: &Vec<String>) -> (r: bool)
    ensures
        r == is_ignored_path(path@, ignore_prefixes@),
{
    let n = ignore_prefixes.len();
    let mut i: usize = 0;
    while i < n
        invariant
            n == ignore_prefixes@.len(),
            i <= n,
            forall|j: int| 0 <= j < i ==> !path_has_prefix(path@, #[trigger] ignore_prefixes@[j]@),
        decreases n - i,
    {
        if path_starts_with(path, ignore_prefixes[i].as_str()) {
            return true;
        }
        i = i + 1;
    }
    false
}

/// Whether a regular file found while walking a folder gets indexed: it is an
/// image and lies under no ignore folder.
pub open spec fn is_indexable_path(path: Seq<char>, ignore_prefixes: Seq<String>) -> bool {
    is_image_path(path) && !is_ignored_path(path, ignore_prefixes)
}

/// See `is_indexable_path`.
pub fn is_indexable(path: &str, ignore_prefixes: &Vec<String>) -> (r: bool)
    ensures
        r == is_indexable_path(path@, ignore_prefixes@),
{
    is_image_file(path) && !is_ignored(path, ignore_prefixes)
}

/// Adding ignore folders never brings an ignored file back: the ignored set
/// only grows with the list.
pub proof fn ignoring_more_hides_more(path: Seq<char>, ignore: Seq<String>, more: Seq<String>)
    ensures
        is_ignored_path(path, ignore) ==> is_ignored_path(path, ignore + more),
        is_ignored_path(path, more) ==> is_ignored_path(path, ignore + more),
{
    if is_ignored_path(path, ignore) {
        let i = choose|i: int| 0 <= i < ignore.len() && path_has_prefix(path, #[trigger] ignore[i]@);
        assert((ignore + more)[i] == ignore[i]);
    }
    if is_ignored_path(path, more) {
        let i = choose|i: int| 0 <= i < more.len() && path_has_prefix(path, #[trigger] more[i]@);
        assert((ignore + more)[ignore.len() + i] == more[i]);
    }
}

} // verus!
