//! Paths as text: `/`-separated character sequences and the operations the
//! resolver performs on them.
//!
//! Nothing here touches a file system. A path is whatever its characters say.
//! Separators and `.` segments at its end do not count: the file name of
//! `/usr/bin/` and of `/usr/bin/.` is `bin`, and the parent of both is `/usr`.
//! Joining puts exactly one `/` between two parts.

use vstd::prelude::*;

verus! {

/// Index of the last occurrence of `c` in `text`, or `-1` when there is none.
pub open spec fn last_index_of(text: Seq<char>, c: char) -> int
    decreases text.len(),
{
    if text.len() == 0 {
        -1
    } else if text.last() == c {
        text.len() - 1
    } else {
        last_index_of(text.drop_last(), c)
    }
}

/// `path` without the separators it ends in.
pub open spec fn trim_separators(path: Seq<char>) -> Seq<char>
    decreases path.len(),
{
    if path.len() > 0 && path.last() == '/' {
        trim_separators(path.drop_last())
    } else {
        path
    }
}

/// `path` without the separators and `.` segments it ends in. A `.` that is
/// the whole path stays: it is the current directory.
pub open spec fn trim_end(path: Seq<char>) -> Seq<char>
    decreases path.len(),
{
    if path.len() > 0 && path.last() == '/' {
        trim_end(path.drop_last())
    } else if path.len() >= 2 && path.last() == '.' && path[path.len() - 2] == '/' {
        trim_end(path.take(path.len() - 2))
    } else {
        path
    }
}

/// The file name of `path`: its last segment, not counting the separators
/// and `.` segments it ends in. The empty path, the root and a path whose
/// last segment is `.` or `..` have none.
pub open spec fn file_name(path: Seq<char>) -> Option<Seq<char>> {
    let trimmed = trim_end(path);
    let name = trimmed.skip(last_index_of(trimmed, '/') + 1);
    if name.len() == 0 || name == "."@ || name == ".."@ {
        None
    } else {
        Some(name)
    }
}

/// The extension of `path`: the text after the last `.` of its file name,
/// unless that `.` is the name's first character.
pub open spec fn extension(path: Seq<char>) -> Option<Seq<char>> {
    match file_name(path) {
        None => None,
        Some(name) => {
            let dot = last_index_of(name, '.');
            if dot <= 0 {
                None
            } else {
                Some(name.skip(dot + 1))
            }
        },
    }
}

/// The stem of `path`: its file name without the extension and the `.`
/// before it.
pub open spec fn file_stem(path: Seq<char>) -> Option<Seq<char>> {
    match file_name(path) {
        None => None,
        Some(name) => {
            let dot = last_index_of(name, '.');
            if dot <= 0 {
                Some(name)
            } else {
                Some(name.take(dot))
            }
        },
    }
}

/// `name` followed by a `.` and `ext`.
pub open spec fn add_extension(name: Seq<char>, ext: Seq<char>) -> Seq<char> {
    name + "."@ + ext
}

/// The directory that holds `path`: what is before its last segment, again
/// without the separators and `.` segments that this ends in. The empty path
/// and the root have none; a single segment lies in the empty (current)
/// directory.
pub open spec fn parent(path: Seq<char>) -> Option<Seq<char>> {
    let trimmed = trim_end(path);
    if trimmed.len() == 0 {
        None
    } else {
        let cut = last_index_of(trimmed, '/');
        if cut < 0 {
            Some(Seq::empty())
        } else {
            let dir = trim_end(trimmed.take(cut));
            if dir.len() == 0 {
                Some("/"@)
            } else {
                Some(dir)
            }
        }
    }
}

/// `rel` seen from `dir`. A `rel` that starts at the root stands for itself;
/// otherwise one separator comes between the two unless `dir` is empty or
/// brings its own.
pub open spec fn join(dir: Seq<char>, rel: Seq<char>) -> Seq<char> {
    if rel.len() > 0 && rel[0] == '/' {
        rel
    } else if dir.len() == 0 || dir.last() == '/' {
        dir + rel
    } else {
        dir + "/"@ + rel
    }
}

/// The file called `name` beside `path`: in the directory that holds `path`.
pub open spec fn sibling(path: Seq<char>, name: Seq<char>) -> Seq<char> {
    match parent(path) {
        Some(dir) => join(dir, name),
        None => name,
    }
}

/// The file beside `path` that is called as `path` is, with a `.` and `ext`
/// added. A path without a file name is extended as text.
pub open spec fn extended_path(path: Seq<char>, ext: Seq<char>) -> Seq<char> {
    match file_name(path) {
        Some(name) => sibling(path, add_extension(name, ext)),
        None => add_extension(path, ext),
    }
}

/// The file beside `path` that is called as `path` is, with `ext` in place of
/// its extension.
pub open spec fn replace_extension(path: Seq<char>, ext: Seq<char>) -> Seq<char>
    recommends
        extension(path) is Some,
{
    sibling(path, add_extension(file_stem(path).unwrap(), ext))
}

/// `path` with `separator` in place of each `/`: its spelling on a platform
/// that separates segments otherwise.
pub open spec fn with_separator(path: Seq<char>, separator: Seq<char>) -> Seq<char>
    decreases path.len(),
{
    if path.len() == 0 {
        path
    } else if path.last() == '/' {
        with_separator(path.drop_last(), separator) + separator
    } else {
        with_separator(path.drop_last(), separator).push(path.last())
    }
}

/// `text` with `with` in place of every occurrence of `pattern`, found from
/// the left and without overlap. An empty pattern is found nowhere.
pub open spec fn replaced(text: Seq<char>, pattern: Seq<char>, with: Seq<char>) -> Seq<char>
    decreases text.len(),
{
    if pattern.len() == 0 || text.len() == 0 {
        text
    } else if pattern.is_prefix_of(text) {
        with + replaced(text.skip(pattern.len() as int), pattern, with)
    } else {
        seq![text[0]] + replaced(text.drop_first(), pattern, with)
    }
}

/// `path`, spelled with `separator` between its segments, in the spelling
/// with `/`.
pub open spec fn with_slashes(path: Seq<char>, separator: Seq<char>) -> Seq<char> {
    replaced(path, separator, "/"@)
}

/// `dir` and every directory above it, innermost first.
pub open spec fn ancestors(dir: Seq<char>) -> Seq<Seq<char>>
    decreases dir.len(),
{
    match parent(dir) {
        Some(up) if up.len() < dir.len() => seq![dir] + ancestors(up),
        _ => seq![dir],
    }
}

/// `last_index_of` points at an occurrence of `c` that no later one follows.
pub proof fn lemma_last_index_of(text: Seq<char>, c: char)
    ensures
        -1 <= last_index_of(text, c) < text.len(),
        last_index_of(text, c) >= 0 ==> text[last_index_of(text, c)] == c,
        forall|i: int| last_index_of(text, c) < i < text.len() ==> text[i] != c,
    decreases text.len(),
{
    if text.len() > 0 && text.last() != c {
        let front = text.drop_last();
        lemma_last_index_of(front, c);
        assert forall|i: int| last_index_of(text, c) < i < text.len() implies text[i] != c by {
            if i < front.len() {
                assert(front[i] == text[i]);
            }
        }
    }
}

/// Trimming the end keeps a prefix of the path, and what it keeps does not
/// end in a separator.
pub proof fn lemma_trim_end(path: Seq<char>)
    ensures
        trim_end(path).len() <= path.len(),
        trim_end(path) == path.take(trim_end(path).len() as int),
        trim_end(path).len() > 0 ==> trim_end(path).last() != '/',
    decreases path.len(),
{
    if path.len() > 0 && path.last() == '/' {
        let front = path.drop_last();
        lemma_trim_end(front);
        assert(front.take(trim_end(front).len() as int) =~= path.take(trim_end(front).len() as int));
    } else if path.len() >= 2 && path.last() == '.' && path[path.len() - 2] == '/' {
        let front = path.take(path.len() - 2);
        lemma_trim_end(front);
        assert(front.take(trim_end(front).len() as int) =~= path.take(trim_end(front).len() as int));
    } else {
        assert(path.take(path.len() as int) =~= path);
    }
}

/// A parent is strictly shorter than the path it was taken from, so walking
/// upwards ends.
pub proof fn lemma_parent_is_shorter(path: Seq<char>)
    ensures
        parent(path) matches Some(up) ==> up.len() < path.len(),
{
    reveal_strlit("/");
    let trimmed = trim_end(path);
    lemma_trim_end(path);
    if trimmed.len() > 0 {
        let cut = last_index_of(trimmed, '/');
        lemma_last_index_of(trimmed, '/');
        if cut >= 0 {
            lemma_trim_end(trimmed.take(cut));
        }
    }
}

/// A path with a file name lies in a directory.
pub proof fn lemma_named_path_has_parent(path: Seq<char>)
    ensures
        file_name(path) is Some ==> parent(path) is Some,
{
}

/// Where the text of a path is its directory joined with its file name, its
/// extended spelling is the path followed by a `.` and the extension.
pub proof fn lemma_extended_plain_path(path: Seq<char>, ext: Seq<char>)
    requires
        file_name(path) matches Some(name) && sibling(path, name) == path,
    ensures
        extended_path(path, ext) == add_extension(path, ext),
{
    let name = file_name(path).unwrap();
    let dir = parent(path).unwrap();
    let trimmed = trim_end(path);
    lemma_last_index_of(trimmed, '/');
    assert(name[0] != '/') by {
        assert(name[0] == trimmed[last_index_of(trimmed, '/') + 1]);
    }
    assert(add_extension(name, ext)[0] == name[0]);
    assert(join(dir, add_extension(name, ext)) =~= add_extension(join(dir, name), ext));
}

/// The characters of `text`, in order.
pub fn chars_of(text: &str) -> (out: Vec<char>)
    ensures
        out@ == text@,
{
    let mut out: Vec<char> = Vec::new();
    for ch in it: text.chars()
        invariant
            it.seq() == text@,
            out@ == it.seq().take(it.index()),
    {
        out.push(ch);
    }
    out
}

/// Whether two texts hold the same characters.
pub fn same_text(a: &str, b: &str) -> (same: bool)
    ensures
        same == (a@ == b@),
{
    let left = chars_of(a);
    let right = chars_of(b);
    if left.len() != right.len() {
        return false;
    }
    let mut i: usize = 0;
    while i < left.len()
        invariant
            left@ == a@,
            right@ == b@,
            left.len() == right.len(),
            i <= left.len(),
            left@.take(i as int) == right@.take(i as int),
        decreases left.len() - i,
    {
        if left[i] != right[i] {
            return false;
        }
        i = i + 1;
    }
    assert(left@ =~= left@.take(i as int));
    assert(right@ =~= right@.take(i as int));
    true
}

/// Whether `text` begins with `prefix`.
pub fn starts_with(text: &str, prefix: &str) -> (yes: bool)
    ensures
        yes == prefix@.is_prefix_of(text@),
{
    let whole = chars_of(text);
    let head = chars_of(prefix);
    if head.len() > whole.len() {
        return false;
    }
    let mut i: usize = 0;
    while i < head.len()
        invariant
            whole@ == text@,
            head@ == prefix@,
            head.len() <= whole.len(),
            i <= head.len(),
            forall|k: int| 0 <= k < i ==> head@[k] == whole@[k],
        decreases head.len() - i,
    {
        if head[i] != whole[i] {
            return false;
        }
        i = i + 1;
    }
    true
}

/// Whether `text` ends with `suffix`.
pub fn ends_with(text: &str, suffix: &str) -> (yes: bool)
    ensures
        yes == suffix@.is_suffix_of(text@),
{
    let whole = chars_of(text);
    let tail = chars_of(suffix);
    if tail.len() > whole.len() {
        return false;
    }
    let shift: usize = whole.len() - tail.len();
    let mut i: usize = 0;
    while i < tail.len()
        invariant
            whole@ == text@,
            tail@ == suffix@,
            tail.len() <= whole.len(),
            shift == whole.len() - tail.len(),
            i <= tail.len(),
            forall|k: int| 0 <= k < i ==> tail@[k] == whole@[shift + k],
        decreases tail.len() - i,
    {
        if tail[i] != whole[shift + i] {
            return false;
        }
        i = i + 1;
    }
    true
}

/// Finds the last occurrence of `c` among the first `end` characters.
fn last_index_before(chars: &Vec<char>, end: usize, c: char) -> (at: Option<usize>)
    requires
        end <= chars.len(),
    ensures
        match at {
            Some(i) => i as int == last_index_of(chars@.take(end as int), c),
            None => last_index_of(chars@.take(end as int), c) == -1,
        },
{
    let mut i: usize = end;
    while i > 0
        invariant
            i <= end <= chars.len(),
            forall|k: int| i <= k < end ==> chars@.take(end as int)[k] != c,
        decreases i,
    {
        if chars[i - 1] == c {
            proof {
                lemma_last_index_of(chars@.take(end as int), c);
                assert(chars@.take(end as int)[i - 1] == c);
            }
            return Some(i - 1);
        }
        i = i - 1;
    }
    proof {
        lemma_last_index_of(chars@.take(end as int), c);
    }
    None
}

/// How many of the first `end` characters remain once the separators they
/// end in are dropped.
fn trimmed_length(chars: &Vec<char>, end: usize) -> (kept: usize)
    requires
        end <= chars.len(),
    ensures
        kept <= end,
        chars@.take(kept as int) == trim_separators(chars@.take(end as int)),
{
    let mut kept: usize = end;
    while kept > 0 && chars[kept - 1] == '/'
        invariant
            kept <= end <= chars.len(),
            trim_separators(chars@.take(kept as int)) == trim_separators(chars@.take(end as int)),
        decreases kept,
    {
        assert(chars@.take(kept as int).drop_last() =~= chars@.take(kept - 1));
        kept = kept - 1;
    }
    kept
}

/// How many of the first `end` characters remain once the separators and `.`
/// segments they end in are dropped.
fn trimmed_end_length(chars: &Vec<char>, end: usize) -> (kept: usize)
    requires
        end <= chars.len(),
    ensures
        kept <= end,
        chars@.take(kept as int) == trim_end(chars@.take(end as int)),
{
    let mut kept: usize = end;
    while (kept > 0 && chars[kept - 1] == '/') || (kept >= 2 && chars[kept - 1] == '.' && chars[kept
        - 2] == '/')
        invariant
            kept <= end <= chars.len(),
            trim_end(chars@.take(kept as int)) == trim_end(chars@.take(end as int)),
        decreases kept,
    {
        if chars[kept - 1] == '/' {
            assert(chars@.take(kept as int).drop_last() =~= chars@.take(kept - 1));
            kept = kept - 1;
        } else {
            assert(chars@.take(kept as int).take(kept - 2) =~= chars@.take(kept - 2));
            kept = kept - 2;
        }
    }
    kept
}

/// `path` without the separators it ends in.
pub fn trim_trailing_separators(path: &str) -> (out: String)
    ensures
        out@ == trim_separators(path@),
{
    let chars = chars_of(path);
    assert(chars@.take(chars@.len() as int) =~= chars@);
    let kept = trimmed_length(&chars, chars.len());
    path.substring_char(0, kept).to_string()
}

/// Whether `part` stands in `whole` at place `at`.
fn occurs_at(whole: &Vec<char>, at: usize, part: &Vec<char>) -> (yes: bool)
    requires
        at <= whole.len(),
    ensures
        yes == part@.is_prefix_of(whole@.skip(at as int)),
{
    if part.len() > whole.len() - at {
        return false;
    }
    let ghost rest = whole@.skip(at as int);
    let mut k: usize = 0;
    while k < part.len()
        invariant
            at <= whole.len(),
            part.len() <= whole.len() - at,
            rest == whole@.skip(at as int),
            k <= part.len(),
            forall|j: int| 0 <= j < k ==> part@[j] == rest[j],
        decreases part.len() - k,
    {
        if part[k] != whole[at + k] {
            return false;
        }
        k = k + 1;
    }
    true
}

/// `text` with `with` in place of every occurrence of `pattern`.
pub fn replace_all(text: &str, pattern: &str, with: &str) -> (out: String)
    ensures
        out@ == replaced(text@, pattern@, with@),
{
    let whole = chars_of(text);
    let part = chars_of(pattern);
    if part.len() == 0 {
        return text.to_string();
    }
    let mut out = String::new();
    let mut i: usize = 0;
    assert(text@.skip(0) =~= text@);
    while i < whole.len()
        invariant
            whole@ == text@,
            part@ == pattern@,
            part.len() > 0,
            i <= whole.len(),
            out@ + replaced(text@.skip(i as int), pattern@, with@) == replaced(
                text@,
                pattern@,
                with@,
            ),
        decreases whole.len() - i,
    {
        let ghost rest = text@.skip(i as int);
        let ghost before = out@;
        if occurs_at(&whole, i, &part) {
            assert(rest.skip(pattern@.len() as int) =~= text@.skip(i + part.len()));
            out.append(with);
            assert(out@ + replaced(text@.skip(i + part.len()), pattern@, with@) =~= before + (with@
                + replaced(rest.skip(pattern@.len() as int), pattern@, with@)));
            i = i + part.len();
        } else {
            let one = text.substring_char(i, i + 1);
            assert(rest.drop_first() =~= text@.skip(i + 1));
            out.append(one);
            assert(out@ + replaced(text@.skip(i + 1), pattern@, with@) =~= before + (seq![rest[0]]
                + replaced(rest.drop_first(), pattern@, with@)));
            i = i + 1;
        }
    }
    out
}

/// `path`, as the platform spells it with `separator` between segments, in
/// the spelling with `/` that this library works on.
pub fn from_native(path: &str, separator: &str) -> (out: String)
    ensures
        out@ == with_slashes(path@, separator@),
{
    replace_all(path, separator, "/")
}

/// `path` as the platform spells it: with `separator` in place of each `/`.
/// Resolution itself always works on `/`; only what is handed to the file
/// system is respelled.
pub fn to_native(path: &str, separator: &str) -> (out: String)
    ensures
        out@ == with_separator(path@, separator@),
{
    let chars = chars_of(path);
    let mut out = String::new();
    let mut i: usize = 0;
    while i < chars.len()
        invariant
            chars@ == path@,
            i <= chars.len(),
            out@ == with_separator(path@.take(i as int), separator@),
        decreases chars.len() - i,
    {
        assert(path@.take(i + 1).drop_last() =~= path@.take(i as int));
        if chars[i] == '/' {
            out.append(separator);
        } else {
            let one = path.substring_char(i, i + 1);
            out.append(one);
        }
        i = i + 1;
    }
    assert(path@.take(i as int) =~= path@);
    out
}

/// The directory that holds `path`, if it has one.
pub fn parent_of(path: &str) -> (out: Option<String>)
    ensures
        match out {
            Some(dir) => parent(path@) == Some(dir@),
            None => parent(path@) is None,
        },
{
    let chars = chars_of(path);
    assert(chars@.take(chars@.len() as int) =~= chars@);
    let end = trimmed_end_length(&chars, chars.len());
    if end == 0 {
        return None;
    }
    match last_index_before(&chars, end, '/') {
        None => Some(String::new()),
        Some(cut) => {
            proof {
                lemma_last_index_of(chars@.take(end as int), '/');
                assert(chars@.take(end as int).take(cut as int) =~= chars@.take(cut as int));
            }
            let kept = trimmed_end_length(&chars, cut);
            if kept == 0 {
                Some("/".to_string())
            } else {
                Some(path.substring_char(0, kept).to_string())
            }
        },
    }
}

/// The file name of `path`, if it has one.
pub fn file_name_of(path: &str) -> (out: Option<String>)
    ensures
        match out {
            Some(name) => file_name(path@) == Some(name@),
            None => file_name(path@) is None,
        },
{
    let chars = chars_of(path);
    assert(chars@.take(chars@.len() as int) =~= chars@);
    let end = trimmed_end_length(&chars, chars.len());
    proof {
        lemma_last_index_of(chars@.take(end as int), '/');
    }
    let start: usize = match last_index_before(&chars, end, '/') {
        None => 0,
        Some(cut) => cut + 1,
    };
    let name = path.substring_char(start, end);
    assert(name@ =~= chars@.take(end as int).skip(start as int));
    if start == end || same_text(name, ".") || same_text(name, "..") {
        None
    } else {
        Some(name.to_string())
    }
}

/// Where the last `.` of a file name stands, if the name has an extension.
fn extension_dot(name: &str) -> (at: Option<usize>)
    ensures
        match at {
            Some(dot) => 0 < dot < name@.len() && dot as int == last_index_of(name@, '.'),
            None => last_index_of(name@, '.') <= 0,
        },
{
    let chars = chars_of(name);
    assert(chars@.take(chars@.len() as int) =~= chars@);
    proof {
        lemma_last_index_of(name@, '.');
    }
    match last_index_before(&chars, chars.len(), '.') {
        Some(dot) if dot > 0 => Some(dot),
        _ => None,
    }
}

/// The extension of `path`, if its file name has one.
pub fn extension_of(path: &str) -> (out: Option<String>)
    ensures
        match out {
            Some(ext) => extension(path@) == Some(ext@),
            None => extension(path@) is None,
        },
{
    match file_name_of(path) {
        None => None,
        Some(name) => match extension_dot(name.as_str()) {
            None => None,
            Some(dot) => {
                let total = name.as_str().unicode_len();
                let ext = name.as_str().substring_char(dot + 1, total);
                assert(ext@ =~= name@.skip(dot + 1));
                Some(ext.to_string())
            },
        },
    }
}

/// The stem of `path`, if it has a file name.
pub fn file_stem_of(path: &str) -> (out: Option<String>)
    ensures
        match out {
            Some(stem) => file_stem(path@) == Some(stem@),
            None => file_stem(path@) is None,
        },
{
    match file_name_of(path) {
        None => None,
        Some(name) => match extension_dot(name.as_str()) {
            None => Some(name),
            Some(dot) => {
                let stem = name.as_str().substring_char(0, dot);
                assert(stem@ =~= name@.take(dot as int));
                Some(stem.to_string())
            },
        },
    }
}

/// `name` followed by a `.` and `ext`.
pub fn with_added_extension(name: &str, ext: &str) -> (out: String)
    ensures
        out@ == add_extension(name@, ext@),
{
    let mut out = name.to_string();
    out.append(".");
    out.append(ext);
    out
}

/// `rel` seen from `dir`.
pub fn join_paths(dir: &str, rel: &str) -> (out: String)
    ensures
        out@ == join(dir@, rel@),
{
    let tail = chars_of(rel);
    if tail.len() > 0 && tail[0] == '/' {
        return rel.to_string();
    }
    let head = chars_of(dir);
    let mut out = dir.to_string();
    if head.len() > 0 && head[head.len() - 1] != '/' {
        out.append("/");
    }
    out.append(rel);
    out
}

/// The file called `name` beside `path`.
pub fn sibling_of(path: &str, name: &str) -> (out: String)
    ensures
        out@ == sibling(path@, name@),
{
    match parent_of(path) {
        Some(dir) => join_paths(dir.as_str(), name),
        None => name.to_string(),
    }
}

/// The file beside `path` that is called as `path` is, with a `.` and `ext`
/// added.
pub fn extend_path(path: &str, ext: &str) -> (out: String)
    ensures
        out@ == extended_path(path@, ext@),
{
    match file_name_of(path) {
        Some(name) => {
            let longer = with_added_extension(name.as_str(), ext);
            sibling_of(path, longer.as_str())
        },
        None => with_added_extension(path, ext),
    }
}

/// The file beside `path` that is called as `path` is, with `ext` in place of
/// its extension, if it has one.
pub fn with_extension(path: &str, ext: &str) -> (out: Option<String>)
    ensures
        match out {
            Some(swapped) => extension(path@) is Some && swapped@ == replace_extension(
                path@,
                ext@,
            ),
            None => extension(path@) is None,
        },
{
    if extension_of(path).is_none() {
        return None;
    }
    match file_stem_of(path) {
        Some(stem) => {
            let swapped = with_added_extension(stem.as_str(), ext);
            Some(sibling_of(path, swapped.as_str()))
        },
        None => None,
    }
}

} // verus!
