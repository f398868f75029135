//! A character-level model of file paths, sufficient for the pipeline's
//! needs: extracting the file name, its extension and stem, replacing the
//! extension, and taking the trailing `_`-delimited segment of a stem.
//!
//! Both `/` and `\` are treated as directory separators. The extension is
//! the part of the file name after its last `.`, except that a name whose
//! only `.` is its first character (a hidden file) has no extension.
use vstd::prelude::*;

verus! {

/// Whether `c` separates directory components.
pub open spec fn is_separator(c: char) -> bool {
    c == '/' || c == '\\'
}

/// Index at which the file name begins: one past the last separator,
/// or 0 when the path has no separator.
pub open spec fn file_name_start(p: Seq<char>) -> int
    decreases p.len(),
{
    if p.len() == 0 {
        0
    } else if is_separator(p.last()) {
        p.len() as int
    } else {
        file_name_start(p.drop_last())
    }
}

/// The file-name part of the path (everything after the last separator).
pub open spec fn file_name(p: Seq<char>) -> Seq<char> {
    p.subrange(file_name_start(p), p.len() as int)
}

/// The index of the last occurrence of `c` in `s`, if any.
pub open spec fn last_index_of(s: Seq<char>, c: char) -> Option<int>
    decreases s.len(),
{
    if s.len() == 0 {
        Option::None
    } else if s.last() == c {
        Option::Some(s.len() - 1)
    } else {
        last_index_of(s.drop_last(), c)
    }
}

/// The extension of the path's file name, when it has one.
pub open spec fn extension_of(p: Seq<char>) -> Option<Seq<char>> {
    let name = file_name(p);
    match last_index_of(name, '.') {
        Option::None => Option::None,
        Option::Some(d) => if d == 0 {
            Option::None
        } else {
            Option::Some(name.subrange(d + 1, name.len() as int))
        },
    }
}

/// The stem of the path's file name: the name with its extension (and the
/// `.` before it) removed; the whole name when there is no extension.
pub open spec fn file_stem_of(p: Seq<char>) -> Seq<char> {
    let name = file_name(p);
    match last_index_of(name, '.') {
        Option::None => name,
        Option::Some(d) => if d == 0 {
            name
        } else {
            name.subrange(0, d)
        },
    }
}

/// The path with the file name's extension replaced by `ext` (or appended,
/// when the name has none); an empty `ext` leaves just the stem.
pub open spec fn with_extension(p: Seq<char>, ext: Seq<char>) -> Seq<char> {
    p.subrange(0, file_name_start(p)) + file_stem_of(p) + (if ext.len() == 0 {
        Seq::<char>::empty()
    } else {
        seq!['.'] + ext
    })
}

/// The part of `stem` after its last `_`; the whole of `stem` when it has
/// no `_`.
pub open spec fn trailing_segment(stem: Seq<char>) -> Seq<char> {
    match last_index_of(stem, '_') {
        Option::None => stem,
        Option::Some(u) => stem.subrange(u + 1, stem.len() as int),
    }
}

pub proof fn lemma_file_name_start_bounds(p: Seq<char>)
    ensures
        0 <= file_name_start(p) <= p.len(),
    decreases p.len(),
{
    if p.len() > 0 && !is_separator(p.last()) {
        lemma_file_name_start_bounds(p.drop_last());
    }
}

/// `file_name_start` is the unique cut point `k` with a separator just
/// before it (unless `k == 0`) and none at or after it.
pub proof fn lemma_file_name_start_characterized(p: Seq<char>, k: int)
    requires
        0 <= k <= p.len(),
        k > 0 ==> is_separator(p[k - 1]),
        forall|j: int| k <= j < p.len() ==> !is_separator(p[j]),
    ensures
        file_name_start(p) == k,
    decreases p.len(),
{
    if p.len() == 0 {
    } else if is_separator(p.last()) {
        assert(k == p.len());
    } else {
        assert(k < p.len());
        lemma_file_name_start_characterized(p.drop_last(), k);
    }
}

/// The file name contains no separator.
pub proof fn lemma_file_name_no_separator(p: Seq<char>)
    ensures
        forall|j: int| file_name_start(p) <= j < p.len() ==> !is_separator(p[j]),
    decreases p.len(),
{
    if p.len() > 0 && !is_separator(p.last()) {
        lemma_file_name_no_separator(p.drop_last());
        lemma_file_name_start_bounds(p.drop_last());
        assert forall|j: int| file_name_start(p) <= j < p.len() implies !is_separator(p[j]) by {
            if j < p.len() - 1 {
                assert(p.drop_last()[j] == p[j]);
            }
        }
    }
}

pub proof fn lemma_last_index_of_some(s: Seq<char>, c: char, k: int)
    requires
        0 <= k < s.len(),
        s[k] == c,
        forall|j: int| k < j < s.len() ==> s[j] != c,
    ensures
        last_index_of(s, c) == Option::Some(k),
    decreases s.len(),
{
    if k < s.len() - 1 {
        lemma_last_index_of_some(s.drop_last(), c, k);
    }
}

pub proof fn lemma_last_index_of_none(s: Seq<char>, c: char)
    requires
        forall|j: int| 0 <= j < s.len() ==> s[j] != c,
    ensures
        last_index_of(s, c) is None,
    decreases s.len(),
{
    if s.len() > 0 {
        lemma_last_index_of_none(s.drop_last(), c);
    }
}

/// Where `last_index_of` answers `Some(k)`, `k` really is the last
/// occurrence; where it answers `None`, there is none.
pub proof fn lemma_last_index_of_properties(s: Seq<char>, c: char)
    ensures
        match last_index_of(s, c) {
            Option::Some(k) => 0 <= k < s.len() && s[k] == c && (forall|j: int|
                k < j < s.len() ==> s[j] != c),
            Option::None => forall|j: int| 0 <= j < s.len() ==> s[j] != c,
        },
    decreases s.len(),
{
    if s.len() > 0 && s.last() != c {
        lemma_last_index_of_properties(s.drop_last(), c);
        match last_index_of(s.drop_last(), c) {
            Option::Some(k) => {
                assert(s[k] == s.drop_last()[k]);
                assert forall|j: int| k < j < s.len() implies s[j] != c by {
                    if j < s.len() - 1 {
                        assert(s[j] == s.drop_last()[j]);
                    }
                }
            },
            Option::None => {
                assert forall|j: int| 0 <= j < s.len() implies s[j] != c by {
                    if j < s.len() - 1 {
                        assert(s[j] == s.drop_last()[j]);
                    }
                }
            },
        }
    }
}

/// Index at which the file name of `p` begins.
pub fn name_start_index(p: &str) -> (i: usize)
    ensures
        i as int == file_name_start(p@),
        i <= p@.len(),
{
    let n = p.unicode_len();
    let mut i = n;
    while i > 0
        invariant
            n == p@.len(),
            i <= n,
            forall|j: int| i <= j < n ==> !is_separator(p@[j]),
        decreases i,
    {
        let c = p.get_char(i - 1);
        if c == '/' || c == '\\' {
            proof {
                lemma_file_name_start_characterized(p@, i as int);
            }
            return i;
        }
        i -= 1;
    }
    proof {
        lemma_file_name_start_characterized(p@, 0);
    }
    0
}

/// Index of the last occurrence of `c` in `s`, if any.
pub fn last_char_index(s: &str, c: char) -> (r: Option<usize>)
    ensures
        match r {
            Option::Some(i) => last_index_of(s@, c) == Option::Some(i as int),
            Option::None => last_index_of(s@, c) is None,
        },
{
    let n = s.unicode_len();
    let mut i = n;
    while i > 0
        invariant
            n == s@.len(),
            i <= n,
            forall|j: int| i <= j < n ==> s@[j] != c,
        decreases i,
    {
        if s.get_char(i - 1) == c {
            proof {
                lemma_last_index_of_some(s@, c, i - 1);
            }
            return Option::Some(i - 1);
        }
        i -= 1;
    }
    proof {
        lemma_last_index_of_none(s@, c);
    }
    Option::None
}

/// The extension of the path's file name, when it has one.
pub fn path_extension(p: &str) -> (r: Option<String>)
    ensures
        match r {
            Option::Some(e) => extension_of(p@) == Option::Some(e@),
            Option::None => extension_of(p@) is None,
        },
{
    let ns = name_start_index(p);
    let n = p.unicode_len();
    let name = p.substring_char(ns, n);
    proof {
        assert(name@ == file_name(p@));
    }
    match last_char_index(name, '.') {
        Option::Some(d) => {
            if d == 0 {
                Option::None
            } else {
                proof {
                    lemma_last_index_of_properties(name@, '.');
                }
                let e = name.substring_char(d + 1, name.unicode_len());
                Option::Some(e.to_owned())
            }
        },
        Option::None => Option::None,
    }
}

/// The path with its extension replaced by `ext`.
pub fn path_with_extension(p: &str, ext: &str) -> (r: String)
    ensures
        r@ == with_extension(p@, ext@),
{
    let ns = name_start_index(p);
    let n = p.unicode_len();
    let name = p.substring_char(ns, n);
    proof {
        assert(name@ == file_name(p@));
    }
    let stem_len = match last_char_index(name, '.') {
        Option::Some(d) => if d == 0 {
            name.unicode_len()
        } else {
            d
        },
        Option::None => name.unicode_len(),
    };
    proof {
        lemma_last_index_of_properties(name@, '.');
        assert(file_stem_of(p@) == name@.subrange(0, stem_len as int));
    }
    let mut out = String::new();
    out.append(p.substring_char(0, ns + stem_len));
    proof {
        assert(p@.subrange(0, ns + stem_len as int) =~= p@.subrange(0, ns as int)
            + name@.subrange(0, stem_len as int));
    }
    if ext.unicode_len() > 0 {
        out.append(".");
        out.append(ext);
        proof {
            reveal_strlit(".");
            assert(out@ =~= with_extension(p@, ext@));
        }
    } else {
        proof {
            assert(out@ =~= with_extension(p@, ext@));
        }
    }
    out
}

/// The trailing `_`-delimited segment of the path's file stem: the
/// candidate hint token of the file name.
pub fn stem_trailing_segment(p: &str) -> (r: String)
    ensures
        r@ == trailing_segment(file_stem_of(p@)),
{
    let ns = name_start_index(p);
    let n = p.unicode_len();
    let name = p.substring_char(ns, n);
    proof {
        assert(name@ == file_name(p@));
    }
    let stem_len = match last_char_index(name, '.') {
        Option::Some(d) => if d == 0 {
            name.unicode_len()
        } else {
            d
        },
        Option::None => name.unicode_len(),
    };
    proof {
        lemma_last_index_of_properties(name@, '.');
        assert(file_stem_of(p@) == name@.subrange(0, stem_len as int));
    }
    let stem = name.substring_char(0, stem_len);
    match last_char_index(stem, '_') {
        Option::Some(u) => {
            proof {
                lemma_last_index_of_properties(stem@, '_');
            }
            stem.substring_char(u + 1, stem_len).to_owned()
        },
        Option::None => stem.to_owned(),
    }
}

} // verus!
