//! Path handling on plain strings.
//!
//! The library models a path as its character sequence. The file name is the
//! part after the last `/` (the whole path when there is no `/`). A file name
//! has an extension exactly when it contains a `.` at some position other
//! than the first; the extension is the part after the last such `.`. These
//! definitions drive input validation, directory discovery and output-mode
//! resolution.

use vstd::prelude::*;

verus! {

/// The characters of `s` after the last occurrence of `c` (all of `s` when
/// `c` does not occur).
pub open spec fn after_last(s: Seq<char>, c: char) -> Seq<char>
    decreases s.len(),
{
    if s.len() == 0 {
        Seq::empty()
    } else if s.last() == c {
        Seq::empty()
    } else {
        after_last(s.drop_last(), c).push(s.last())
    }
}

/// The file name of a path: the part after the last `/`.
pub open spec fn spec_file_name(p: Seq<char>) -> Seq<char> {
    after_last(p, '/')
}

/// Whether a path's file name carries an extension: a `.` occurs in the file
/// name at a position other than the first.
pub open spec fn spec_has_extension(p: Seq<char>) -> bool {
    exists|i: int| 1 <= i < spec_file_name(p).len() && spec_file_name(p)[i] == '.'
}

/// The extension of a path: the part of the file name after its last `.`.
/// Meaningful only when `spec_has_extension` holds.
pub open spec fn spec_extension(p: Seq<char>) -> Seq<char> {
    after_last(spec_file_name(p), '.')
}

/// Whether three characters spell `pdf` case-insensitively.
pub open spec fn is_pdf_ext(e: Seq<char>) -> bool {
    e.len() == 3 && (e[0] == 'p' || e[0] == 'P') && (e[1] == 'd' || e[1] == 'D') && (e[2] == 'f'
        || e[2] == 'F')
}

/// Whether a path names a supported document: it has an extension and the
/// extension is `pdf`, compared case-insensitively.
pub open spec fn spec_is_pdf_path(p: Seq<char>) -> bool {
    spec_has_extension(p) && is_pdf_ext(spec_extension(p))
}

/// Whether `pre` is a prefix of `s`.
pub open spec fn spec_starts_with(s: Seq<char>, pre: Seq<char>) -> bool {
    pre.len() <= s.len() && s.subrange(0, pre.len() as int) == pre
}

/// A directory path joined with a file name: a `/` is inserted unless the
/// directory part already ends with one.
pub open spec fn spec_join(dir: Seq<char>, name: Seq<char>) -> Seq<char> {
    if dir.len() > 0 && dir.last() == '/' {
        dir + name
    } else {
        dir + seq!['/'] + name
    }
}

/// Lexicographic order on character sequences, the order in which discovered
/// inputs are processed.
pub open spec fn lex_le(a: Seq<char>, b: Seq<char>) -> bool
    decreases a.len(),
{
    if a.len() == 0 {
        true
    } else if b.len() == 0 {
        false
    } else if a[0] != b[0] {
        a[0] < b[0]
    } else {
        lex_le(a.subrange(1, a.len() as int), b.subrange(1, b.len() as int))
    }
}

/// `after_last` of a sequence whose tail from position `i` on is free of `c`
/// is that tail, provided position `i - 1` holds `c` or `i` is 0.
proof fn lemma_after_last_tail(s: Seq<char>, c: char, i: int)
    requires
        0 <= i <= s.len(),
        forall|k: int| i <= k < s.len() ==> s[k] != c,
        i == 0 || s[i - 1] == c,
    ensures
        after_last(s, c) == s.subrange(i, s.len() as int),
    decreases s.len() - i,
{
    if i == s.len() {
        if i == 0 {
            assert(after_last(s, c) =~= s.subrange(0, 0));
        } else {
            assert(s.last() == c);
            assert(after_last(s, c) =~= s.subrange(i, s.len() as int));
        }
    } else {
        lemma_after_last_snoc(s.subrange(0, s.len() - 1), s.last(), c);
        assert(s.subrange(0, s.len() - 1) =~= s.drop_last());
        lemma_after_last_tail(s.subrange(0, s.len() - 1), c, i);
        assert(after_last(s, c) =~= s.subrange(i, s.len() as int)) by {
            assert(s.subrange(0, s.len() - 1).subrange(i, s.len() - 1) =~= s.subrange(
                i,
                s.len() - 1,
            ));
            assert(s.subrange(i, s.len() - 1).push(s.last()) =~= s.subrange(i, s.len() as int));
        }
    }
}

/// Unfolds `after_last` over appending one character.
proof fn lemma_after_last_snoc(s: Seq<char>, x: char, c: char)
    ensures
        after_last(s.push(x), c) == (if x == c {
            Seq::<char>::empty()
        } else {
            after_last(s, c).push(x)
        }),
{
    assert(s.push(x).last() == x);
    assert(s.push(x).drop_last() =~= s);
}

/// Finds the position right after the last occurrence of `c` in `s` (0 when
/// `c` does not occur).
fn find_after_last(s: &str, c: char) -> (i: usize)
    ensures
        i <= s@.len(),
        forall|k: int| i <= k < s@.len() ==> s@[k] != c,
        i == 0 || s@[i - 1] == c,
{
    let n = s.unicode_len();
    let mut i = n;
    while i > 0
        invariant
            n == s@.len(),
            i <= n,
            forall|k: int| i <= k < n ==> s@[k] != c,
        decreases i,
    {
        if s.get_char(i - 1) == c {
            return i;
        }
        i -= 1;
    }
    i
}

/// The file name of a path: the part after the last `/`, possibly empty.
pub fn file_name(path: &String) -> (r: String)
    ensures
        r@ == spec_file_name(path@),
{
    let s = path.as_str();
    let i = find_after_last(s, '/');
    let n = s.unicode_len();
    proof {
        lemma_after_last_tail(s@, '/', i as int);
    }
    s.substring_char(i, n).to_owned()
}

/// Whether a path's file name has an extension.
pub fn has_extension(path: &String) -> (b: bool)
    ensures
        b == spec_has_extension(path@),
{
    let f = file_name(path);
    let fs = f.as_str();
    let n = fs.unicode_len();
    let mut i: usize = 1;
    while i < n
        invariant
            n == fs@.len(),
            fs@ == spec_file_name(path@),
            1 <= i,
            forall|k: int| 1 <= k < i ==> fs@[k] != '.',
        decreases n - i,
    {
        if fs.get_char(i) == '.' {
            return true;
        }
        i += 1;
    }
    false
}

/// The extension of a path: the part of the file name after its last `.`, or
/// `None` when the file name has no `.` past its first character.
pub fn extension(path: &String) -> (r: Option<String>)
    ensures
        match r {
            Some(e) => spec_has_extension(path@) && e@ == spec_extension(path@),
            None => !spec_has_extension(path@),
        },
{
    if !has_extension(path) {
        return None;
    }
    let f = file_name(path);
    let fs = f.as_str();
    let n = fs.unicode_len();
    let i = find_after_last(fs, '.');
    proof {
        lemma_after_last_tail(fs@, '.', i as int);
        assert(i >= 1) by {
            let w = choose|w: int| 1 <= w < spec_file_name(path@).len() && spec_file_name(path@)[w]
                == '.';
            assert(!(i <= w < n));
        }
    }
    Some(fs.substring_char(i, n).to_owned())
}

/// Whether a path names a supported document (`pdf` extension,
/// case-insensitive).
pub fn is_pdf_path(path: &String) -> (b: bool)
    ensures
        b == spec_is_pdf_path(path@),
{
    match extension(path) {
        None => false,
        Some(e) => {
            let es = e.as_str();
            if es.unicode_len() != 3 {
                return false;
            }
            let c0 = es.get_char(0);
            let c1 = es.get_char(1);
            let c2 = es.get_char(2);
            (c0 == 'p' || c0 == 'P') && (c1 == 'd' || c1 == 'D') && (c2 == 'f' || c2 == 'F')
        },
    }
}

/// Whether the file name of `path` starts with the literal prefix `pre`
/// (case-sensitive).
pub fn file_name_starts_with(path: &String, pre: &String) -> (b: bool)
    ensures
        b == spec_starts_with(spec_file_name(path@), pre@),
{
    let f = file_name(path);
    let fs = f.as_str();
    let ps = pre.as_str();
    let fn_len = fs.unicode_len();
    let pre_len = ps.unicode_len();
    if pre_len > fn_len {
        return false;
    }
    let mut i: usize = 0;
    while i < pre_len
        invariant
            fn_len == fs@.len(),
            pre_len == ps@.len(),
            pre_len <= fn_len,
            fs@ == spec_file_name(path@),
            ps@ == pre@,
            i <= pre_len,
            forall|k: int| 0 <= k < i ==> fs@[k] == ps@[k],
        decreases pre_len - i,
    {
        if fs.get_char(i) != ps.get_char(i) {
            proof {
                let sub = fs@.subrange(0, pre_len as int);
                assert(sub[i as int] == fs@[i as int]);
                assert(sub[i as int] != ps@[i as int]);
                assert(sub != ps@);
                assert(ps@ == pre@);
                assert(fs@ == spec_file_name(path@));
                assert(spec_file_name(path@).subrange(0, pre@.len() as int) == sub);
                assert(!spec_starts_with(spec_file_name(path@), pre@));
            }
            return false;
        }
        i += 1;
    }
    proof {
        assert(fs@.subrange(0, pre_len as int) =~= ps@);
    }
    true
}

/// Joins a directory path and a file name, inserting a `/` unless the
/// directory part already ends with one.
pub fn join_path(dir: &String, name: &String) -> (r: String)
    ensures
        r@ == spec_join(dir@, name@),
{
    let ds = dir.as_str();
    let n = ds.unicode_len();
    if n > 0 && ds.get_char(n - 1) == '/' {
        let out = ds.to_owned().concat(name.as_str());
        out
    } else {
        proof {
            reveal_strlit("/");
        }
        let out = ds.to_owned().concat("/").concat(name.as_str());
        proof {
            assert(out@ =~= dir@ + seq!['/'] + name@);
        }
        out
    }
}

} // verus!
