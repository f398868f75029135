//! Character and string helpers: ASCII lowercasing and character-wise
//! string comparison, with exact specifications over `Seq<char>` views.
use vstd::prelude::*;

verus! {

/// ASCII lowercasing of a single character; characters outside 'A'..='Z'
/// are left unchanged.
pub open spec fn lower_char(c: char) -> char {
    if 65 <= c as u32 && c as u32 <= 90 {
        (((c as u32 + 32) as u8) as char)
    } else {
        c
    }
}

/// ASCII lowercasing of a whole character sequence.
pub open spec fn lower(s: Seq<char>) -> Seq<char> {
    s.map_values(|c: char| lower_char(c))
}

/// Executable ASCII lowercasing of a single character.
fn lower_char_exec(c: char) -> (r: char)
    ensures
        r == lower_char(c),
{
    let u = c as u32;
    if 65 <= u && u <= 90 {
        ((u + 32) as u8) as char
    } else {
        c
    }
}

/// Character-wise string equality.
pub fn str_eq(a: &str, b: &str) -> (r: bool)
    ensures
        r == (a@ == b@),
{
    let n = a.unicode_len();
    if n != b.unicode_len() {
        proof {
            assert(a@ != b@) by {
                if a@ == b@ {
                    assert(a@.len() == b@.len());
                }
            }
        }
        return false;
    }
    let mut i: usize = 0;
    while i < n
        invariant
            n == a@.len(),
            n == b@.len(),
            i <= n,
            forall|j: int| 0 <= j < i ==> a@[j] == b@[j],
        decreases n - i,
    {
        if a.get_char(i) != b.get_char(i) {
            return false;
        }
        i += 1;
    }
    proof {
        assert(a@ =~= b@);
    }
    true
}

/// Whether `s`, lowercased ASCII-wise, equals `t` (`t` is expected to be
/// already lowercase, typically a literal).
pub fn eq_lowered(s: &str, t: &str) -> (r: bool)
    ensures
        r == (lower(s@) == t@),
{
    let n = s.unicode_len();
    if n != t.unicode_len() {
        proof {
            assert(lower(s@).len() == s@.len());
            assert(lower(s@) != t@) by {
                if lower(s@) == t@ {
                    assert(lower(s@).len() == t@.len());
                }
            }
        }
        return false;
    }
    let mut i: usize = 0;
    while i < n
        invariant
            n == s@.len(),
            n == t@.len(),
            i <= n,
            forall|j: int| 0 <= j < i ==> lower_char(s@[j]) == t@[j],
        decreases n - i,
    {
        if lower_char_exec(s.get_char(i)) != t.get_char(i) {
            proof {
                assert(lower(s@)[i as int] == lower_char(s@[i as int]));
            }
            return false;
        }
        i += 1;
    }
    proof {
        assert(lower(s@) =~= t@);
    }
    true
}

} // verus!
