use vstd::prelude::*;

use crate::value::push_char;

verus! {

/// Compares two string slices character by character.
pub fn str_eq(a: &str, b: &str) -> (r: bool)
    ensures
        r == (a@ == b@),
{
    let n = a.unicode_len();
    let m = b.unicode_len();
    if n != m {
        assert(a@ != b@) by {
            assert(a@.len() != b@.len());
        }
        return false;
    }
    let mut i: usize = 0;
    while i < n
        invariant
            n == a@.len(),
            n == b@.len(),
            i <= n,
            forall|j: int| 0 <= j < i ==> a@[j] == b@[j],
        decreases n - i,
    {
        let ca = a.get_char(i);
        let cb = b.get_char(i);
        if ca != cb {
            assert(a@ != b@) by {
                assert(a@[i as int] != b@[i as int]);
            }
            return false;
        }
        i = i + 1;
    }
    assert(a@ =~= b@);
    true
}

/// Whether a key carries the attribute-reference marker `oa_`.
pub open spec fn spec_is_tagged(key: Seq<char>) -> bool {
    key.len() >= 3 && key.subrange(0, 3) == "oa_"@
}

/// The key with every leading `oa_` marker removed.
pub open spec fn spec_strip_marker(key: Seq<char>) -> Seq<char>
    decreases key.len(),
{
    if spec_is_tagged(key) {
        spec_strip_marker(key.subrange(3, key.len() as int))
    } else {
        key
    }
}

/// Underscore-separated segments rewritten to the hyphen-separated form of
/// a canonical attribute identifier.
pub open spec fn spec_dashes(s: Seq<char>) -> Seq<char> {
    s.map_values(|c: char| if c == '_' { '-' } else { c })
}

/// The canonical attribute identifier a reference-tagged key stands for.
pub open spec fn spec_canon_id(key: Seq<char>) -> Seq<char> {
    spec_dashes(spec_strip_marker(key))
}

/// Whether this string starts with the attribute-reference marker.
pub fn is_tagged(s: &str) -> (r: bool)
    ensures
        r == spec_is_tagged(s@),
{
    proof {
        reveal_strlit("oa_");
    }
    let n = s.unicode_len();
    if n < 3 {
        return false;
    }
    let r = s.get_char(0) == 'o' && s.get_char(1) == 'a' && s.get_char(2) == '_';
    if r {
        assert(s@.subrange(0, 3) =~= "oa_"@);
    } else {
        assert(s@.subrange(0, 3) != "oa_"@) by {
            if s@.subrange(0, 3) == "oa_"@ {
                assert(s@.subrange(0, 3)[0] == 'o');
                assert(s@.subrange(0, 3)[1] == 'a');
                assert(s@.subrange(0, 3)[2] == '_');
            }
        }
    }
    r
}

/// Rewrites a reference-tagged key into the canonical identifier it names:
/// every leading marker is stripped and underscores become hyphens.
pub fn canon_id(s: &str) -> (r: String)
    ensures
        r@ == spec_canon_id(s@),
{
    let mut t: &str = s;
    while is_tagged(t)
        invariant
            spec_strip_marker(t@) == spec_strip_marker(s@),
        decreases t@.len(),
    {
        let n = t.unicode_len();
        t = t.substring_char(3, n);
    }
    let n = t.unicode_len();
    let mut out = String::new();
    let mut i: usize = 0;
    while i < n
        invariant
            n == t@.len(),
            i <= n,
            out@ == spec_dashes(t@.take(i as int)),
        decreases n - i,
    {
        let c = t.get_char(i);
        if c == '_' {
            push_char(&mut out, '-');
        } else {
            push_char(&mut out, c);
        }
        assert(out@ =~= spec_dashes(t@.take(i + 1)));
        i = i + 1;
    }
    assert(t@.take(n as int) =~= t@);
    out
}

} // verus!
