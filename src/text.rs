//! String helpers shared by the path and mount logic.
use vstd::prelude::*;

verus! {

/// What `str::to_lowercase` returns for a string.
pub uninterp spec fn lower_of(s: Seq<char>) -> Seq<char>;

/// Relies on `str::to_lowercase`: the result depends on the characters alone.
#[verifier::external_body]
pub fn lowercase(s: &str) -> (r: String)
    ensures
        r@ == lower_of(s@),
{
    s.to_lowercase()
}

/// Segments joined with `/` between neighbours.
pub open spec fn join_segments(segments: Seq<Seq<char>>) -> Seq<char>
    decreases segments.len(),
{
    if segments.len() == 0 {
        Seq::empty()
    } else if segments.len() == 1 {
        segments[0]
    } else {
        segments[0] + seq!['/'] + join_segments(segments.drop_first())
    }
}

/// Joins the segments with `/`.
pub fn join_with_slash(segments: &[String]) -> (r: String)
    ensures
        r@ == join_segments(segments@.map_values(|s: String| s@)),
{
    let ghost views = segments@.map_values(|s: String| s@);
    if segments.len() == 0 {
        return String::new();
    }
    let mut i: usize = segments.len() - 1;
    let mut r = segments[i].clone();
    proof {
        assert(views.subrange(i as int, views.len() as int) =~= seq![views[i as int]]);
    }
    while i > 0
        invariant
            0 <= i < segments@.len(),
            views == segments@.map_values(|s: String| s@),
            r@ == join_segments(views.subrange(i as int, views.len() as int)),
        decreases i,
    {
        i = i - 1;
        let mut acc = segments[i].clone();
        acc.append("/");
        acc.append(r.as_str());
        proof {
            reveal_strlit("/");
            let tail = views.subrange(i as int, views.len() as int);
            assert(tail.drop_first() =~= views.subrange(i + 1, views.len() as int));
            assert(tail[0] == views[i as int]);
        }
        r = acc;
    }
    assert(views.subrange(0, views.len() as int) =~= views);
    r
}

/// The path without the `/` characters that end it.
pub open spec fn trim_trailing_slashes(s: Seq<char>) -> Seq<char>
    decreases s.len(),
{
    if s.len() > 0 && s.last() == '/' {
        trim_trailing_slashes(s.drop_last())
    } else {
        s
    }
}

/// Index of the last `/` in `s`, or -1 when there is none.
pub open spec fn last_slash(s: Seq<char>) -> int
    decreases s.len(),
{
    if s.len() == 0 {
        -1
    } else if s.last() == '/' {
        s.len() - 1
    } else {
        last_slash(s.drop_last())
    }
}

pub proof fn lemma_last_slash_bounds(s: Seq<char>)
    ensures
        -1 <= last_slash(s) < s.len(),
        last_slash(s) >= 0 ==> s[last_slash(s)] == '/',
    decreases s.len(),
{
    if s.len() > 0 && s.last() != '/' {
        lemma_last_slash_bounds(s.drop_last());
    }
}

/// Length of `s` once the `/` characters that end it are dropped.
pub fn trimmed_len(s: &str) -> (n: usize)
    ensures
        n <= s@.len(),
        s@.subrange(0, n as int) == trim_trailing_slashes(s@),
{
    let len = s.unicode_len();
    let mut n: usize = len;
    assert(s@.subrange(0, len as int) =~= s@);
    while n > 0 && s.get_char(n - 1) == '/'
        invariant
            n <= len == s@.len(),
            trim_trailing_slashes(s@.subrange(0, n as int)) == trim_trailing_slashes(s@),
        decreases n,
    {
        assert(s@.subrange(0, n as int).drop_last() =~= s@.subrange(0, n - 1));
        n = n - 1;
    }
    n
}

/// Index of the last `/` among the first `n` characters of `s`, or -1.
pub fn last_slash_before(s: &str, n: usize) -> (r: i64)
    requires
        n <= s@.len(),
        n < i64::MAX,
    ensures
        r == last_slash(s@.subrange(0, n as int)),
{
    let mut i: usize = n;
    while i > 0
        invariant
            i <= n <= s@.len(),
            n < i64::MAX,
            last_slash(s@.subrange(0, n as int)) == last_slash(s@.subrange(0, i as int)),
        decreases i,
    {
        if s.get_char(i - 1) == '/' {
            return (i - 1) as i64;
        }
        assert(s@.subrange(0, i as int).drop_last() =~= s@.subrange(0, i - 1));
        i = i - 1;
    }
    -1
}

/// `needle` occurs somewhere in `haystack`.
pub open spec fn occurs_in(needle: Seq<char>, haystack: Seq<char>) -> bool {
    exists|i: int|
        0 <= i && i + needle.len() <= haystack.len() && #[trigger] haystack.subrange(i, i + needle.len())
            == needle
}

/// Relies on `str::contains`: true exactly when `needle` occurs in `haystack`.
#[verifier::external_body]
pub fn contains_text(haystack: &str, needle: &str) -> (r: bool)
    ensures
        r == occurs_in(needle@, haystack@),
{
    haystack.contains(needle)
}

/// `part` appended to `base` as a path component: an absolute `part`
/// replaces `base`, and one `/` separates the two.
pub open spec fn push_path(base: Seq<char>, part: Seq<char>) -> Seq<char> {
    if part.len() > 0 && part[0] == '/' {
        part
    } else if base.len() == 0 {
        part
    } else if base.last() == '/' {
        base + part
    } else {
        base + "/"@ + part
    }
}

/// Appends `part` to `base` as a path component.
pub fn push_path_str(base: &str, part: &str) -> (r: String)
    ensures
        r@ == push_path(base@, part@),
{
    let part_len = part.unicode_len();
    if part_len > 0 && part.get_char(0) == '/' {
        return String::from_str(part);
    }
    let base_len = base.unicode_len();
    let mut r = String::from_str(base);
    if base_len > 0 && base.get_char(base_len - 1) != '/' {
        r.append("/");
    }
    r.append(part);
    r
}

/// The path without the `/` characters that start it.
pub open spec fn trim_leading_slashes(s: Seq<char>) -> Seq<char>
    decreases s.len(),
{
    if s.len() > 0 && s[0] == '/' {
        trim_leading_slashes(s.drop_first())
    } else {
        s
    }
}

/// Index of the first character of `s` past its leading `/` characters.
pub fn leading_slashes(s: &str) -> (n: usize)
    ensures
        n <= s@.len(),
        s@.subrange(n as int, s@.len() as int) == trim_leading_slashes(s@),
{
    let len = s.unicode_len();
    let mut n: usize = 0;
    assert(s@.subrange(0, len as int) =~= s@);
    while n < len && s.get_char(n) == '/'
        invariant
            n <= len == s@.len(),
            trim_leading_slashes(s@.subrange(n as int, len as int)) == trim_leading_slashes(s@),
        decreases len - n,
    {
        assert(s@.subrange(n as int, len as int).drop_first() =~= s@.subrange(n + 1, len as int));
        n = n + 1;
    }
    n
}

/// `s` with every non-overlapping occurrence of `from`, scanned left to
/// right, replaced by `to`.
pub open spec fn replace_all(s: Seq<char>, from: Seq<char>, to: Seq<char>) -> Seq<char>
    decreases s.len(),
{
    if from.len() == 0 || s.len() < from.len() {
        s
    } else if s.subrange(0, from.len() as int) == from {
        to + replace_all(s.subrange(from.len() as int, s.len() as int), from, to)
    } else {
        seq![s[0]] + replace_all(s.drop_first(), from, to)
    }
}

/// Relies on `str::replace`: every match of a non-empty `from`, left to right
/// and without overlap, replaced by `to`.
#[verifier::external_body]
pub fn replace_text(s: &str, from: &str, to: &str) -> (r: String)
    requires
        from@.len() > 0,
    ensures
        r@ == replace_all(s@, from@, to@),
{
    s.replace(from, to)
}

/// Joins two paths, the second taken as relative even when it starts with `/`.
pub fn join_paths(path1: String, path2: String) -> (r: String)
    ensures
        r@ == push_path(path1@, trim_leading_slashes(path2@)),
{
    let skip = leading_slashes(path2.as_str());
    let len = path2.unicode_len();
    let rel = path2.as_str().substring_char(skip, len);
    push_path_str(path1.as_str(), rel)
}

/// The listed files with every occurrence of `root` removed, which turns
/// paths under `root` into paths relative to it; an empty `root` leaves them
/// as they are.
pub fn list_files_recursively_relative_flattened(files: Vec<String>, root: &str) -> (r: Vec<String>)
    ensures
        r@.len() == files@.len(),
        forall|k: int| 0 <= k < files@.len() ==> (#[trigger] r@[k])@ == replace_all(files@[k]@, root@, Seq::empty()),
{
    let mut r: Vec<String> = Vec::new();
    let mut i: usize = 0;
    while i < files.len()
        invariant
            i <= files.len(),
            r@.len() == i,
            forall|k: int| 0 <= k < i ==> (#[trigger] r@[k])@ == replace_all(files@[k]@, root@, Seq::empty()),
        decreases files.len() - i,
    {
        let stripped = if root.unicode_len() == 0 {
            files[i].clone()
        } else {
            replace_text(files[i].as_str(), root, "")
        };
        proof {
            reveal_strlit("");
            assert(""@ =~= Seq::<char>::empty());
        }
        r.push(stripped);
        i = i + 1;
    }
    r
}

} // verus!
