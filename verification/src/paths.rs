//! Where the script of an import is found: a base directory, the import
//! path, and a forced extension, as text with `/` between the directories.

use vstd::prelude::*;
use vstd::string::*;

verus! {

/// The place of the last `c` among the first `n` characters of `s`, or -1
/// where there is none.
pub open spec fn last_of(s: Seq<char>, c: char, n: int) -> int
    decreases n,
{
    if n <= 0 {
        -1
    } else if s[n - 1] == c {
        n - 1
    } else {
        last_of(s, c, n - 1)
    }
}

/// The path `path` taken from the directory `base`: `path` itself where it
/// starts at the root or `base` is empty, else `base`, a `/` unless `base`
/// ends with one, and `path`.
pub open spec fn join(base: Seq<char>, path: Seq<char>) -> Seq<char> {
    if path.len() > 0 && path[0] == '/' {
        path
    } else if base.len() == 0 {
        path
    } else if base.last() == '/' {
        base + path
    } else {
        base.push('/') + path
    }
}

/// Does the character before place `e` of `s` belong to no name: is it a
/// `/`, or a `.` that stands alone behind a `/`?
pub open spec fn trails(s: Seq<char>, e: int) -> bool {
    ||| e >= 1 && s[e - 1] == '/'
    ||| e >= 2 && s[e - 1] == '.' && s[e - 2] == '/'
}

/// Where the last name among the first `e` characters of `s` ends: what
/// trails it is left out.
pub open spec fn name_end(s: Seq<char>, e: int) -> int
    decreases e,
{
    if e <= 0 {
        0
    } else if trails(s, e) {
        name_end(s, e - 1)
    } else {
        e
    }
}

/// Where the file name of `s` ends.
pub open spec fn file_end(s: Seq<char>) -> int {
    name_end(s, s.len() as int)
}

/// Where the file name of `s` starts: behind the last `/` before its end.
pub open spec fn file_start(s: Seq<char>) -> int {
    last_of(s, '/', file_end(s)) + 1
}

/// Does `s` end in a file name? It does not where nothing but `/` and `.`
/// trails its last `/`, nor where the last name is `.` or `..`, which stand
/// for directories.
pub open spec fn has_file_name(s: Seq<char>) -> bool {
    let start = file_start(s);
    let end = file_end(s);
    &&& start < end
    &&& !(end - start == 1 && s[start] == '.')
    &&& !(end - start == 2 && s[start] == '.' && s[start + 1] == '.')
}

/// Where the stem of the file name of `s` ends: at the last `.` of the name
/// that is not its first character, or at the end of the name where there is
/// none.
pub open spec fn stem_end(s: Seq<char>) -> int {
    let dot = last_of(s, '.', file_end(s));
    if dot > file_start(s) {
        dot
    } else {
        file_end(s)
    }
}

/// The path `s` with the extension of its file name replaced by
/// `extension`: what follows the stem is dropped and, unless `extension` is
/// empty, a `.` and `extension` are put in its place. A path that ends in no
/// file name stays as it is.
pub open spec fn with_extension(s: Seq<char>, extension: Seq<char>) -> Seq<char> {
    if !has_file_name(s) {
        s
    } else if extension.len() == 0 {
        s.subrange(0, stem_end(s))
    } else {
        s.subrange(0, stem_end(s)).push('.') + extension
    }
}

/// The file of the script that the import path `path` names: `path` taken
/// from `base`, with its extension replaced by `extension`.
pub open spec fn script_file(base: Seq<char>, path: Seq<char>, extension: Seq<char>) -> Seq<char> {
    with_extension(join(base, path), extension)
}

/// `last_of` is -1 or a place below `n` that holds `c`, and no later place
/// below `n` holds `c`.
pub proof fn lemma_last_of(s: Seq<char>, c: char, n: int)
    requires
        0 <= n <= s.len(),
    ensures
        -1 <= last_of(s, c, n) < n,
        last_of(s, c, n) >= 0 ==> s[last_of(s, c, n)] == c,
        forall|j: int| last_of(s, c, n) < j < n ==> s[j] != c,
    decreases n,
{
    if n > 0 && s[n - 1] != c {
        lemma_last_of(s, c, n - 1);
    }
}

/// The text of `path` taken from `base`.
pub fn join_path(base: &str, path: &str) -> (s: String)
    ensures
        s@ == join(base@, path@),
{
    let path_len = path.unicode_len();
    let base_len = base.unicode_len();
    if path_len > 0 && path.get_char(0) == '/' {
        return path.to_owned();
    }
    if base_len == 0 {
        return path.to_owned();
    }
    let mut s = base.to_owned();
    if base.get_char(base_len - 1) != '/' {
        proof {
            reveal_strlit("/");
            assert("/"@ =~= seq!['/']);
        }
        s.append("/");
        proof {
            assert(s@ =~= base@.push('/'));
        }
    }
    s.append(path);
    s
}

/// The characters of `s`, one by one.
pub fn chars_of(s: &str) -> (chars: Vec<char>)
    ensures
        chars@ == s@,
{
    let mut chars: Vec<char> = Vec::new();
    for c in it: s.chars()
        invariant
            it.seq() == s@,
            chars@ == s@.subrange(0, it.index() as int),
    {
        chars.push(c);
        proof {
            assert(chars@ =~= s@.subrange(0, it.index() + 1));
        }
    }
    proof {
        assert(chars@ =~= s@);
    }
    chars
}

/// Does the character before place `e` belong to no name?
fn trails_at(chars: &Vec<char>, e: usize) -> (b: bool)
    requires
        e <= chars@.len(),
    ensures
        b == trails(chars@, e as int),
{
    if e >= 1 && chars[e - 1] == '/' {
        true
    } else {
        e >= 2 && chars[e - 1] == '.' && chars[e - 2] == '/'
    }
}

/// The text of `s` with the extension of its file name replaced by
/// `extension`.
pub fn replace_extension(s: &str, extension: &str) -> (out: String)
    ensures
        out@ == with_extension(s@, extension@),
{
    let chars = chars_of(s);
    let total = chars.len();
    let mut end: usize = total;
    while end > 0 && trails_at(&chars, end)
        invariant
            end <= total,
            total == chars@.len(),
            chars@ == s@,
            name_end(s@, end as int) == file_end(s@),
        decreases end,
    {
        end -= 1;
    }
    let mut start: usize = end;
    while start > 0 && chars[start - 1] != '/'
        invariant
            start <= end <= total,
            total == chars@.len(),
            chars@ == s@,
            last_of(s@, '/', start as int) == last_of(s@, '/', end as int),
        decreases start,
    {
        start -= 1;
    }
    if start == end {
        return s.to_owned();
    }
    if end - start == 1 && chars[start] == '.' {
        return s.to_owned();
    }
    if end - start == 2 && chars[start] == '.' && chars[start + 1] == '.' {
        return s.to_owned();
    }
    let mut dot: usize = end;
    while dot > start && chars[dot - 1] != '.'
        invariant
            start <= dot <= end <= total,
            total == chars@.len(),
            chars@ == s@,
            last_of(s@, '.', dot as int) == last_of(s@, '.', end as int),
        decreases dot,
    {
        dot -= 1;
    }
    proof {
        lemma_last_of(s@, '.', start as int);
    }
    let stem: usize = if dot > start + 1 {
        dot - 1
    } else {
        end
    };
    let mut out = s.substring_char(0, stem).to_owned();
    if extension.unicode_len() > 0 {
        proof {
            reveal_strlit(".");
            assert("."@ =~= seq!['.']);
        }
        out.append(".");
        out.append(extension);
        proof {
            assert(out@ =~= s@.subrange(0, stem as int).push('.') + extension@);
        }
    }
    out
}

/// The text of the file of the script that the import path `path` names.
pub fn script_path(base: &str, path: &str, extension: &str) -> (s: String)
    ensures
        s@ == script_file(base@, path@, extension@),
{
    let joined = join_path(base, path);
    replace_extension(joined.as_str(), extension)
}

} // verus!
