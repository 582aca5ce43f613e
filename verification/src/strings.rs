use vstd::prelude::*;
use vstd::string::StrSliceExecFns;
use vstd::string::StringSliceAdditionalSpecFns;

verus! {

/// True when the byte sequence `sub` occurs in `s` starting at byte
/// offset `i`.
pub open spec fn match_at(s: Seq<u8>, sub: Seq<u8>, i: int) -> bool {
    &&& 0 <= i
    &&& i + sub.len() <= s.len()
    &&& s.subrange(i, i + sub.len()) =~= sub
}

/// True when the byte sequence `sub` occurs nowhere in `s`.
pub open spec fn no_match(s: Seq<u8>, sub: Seq<u8>) -> bool {
    forall|i: int| !match_at(s, sub, i)
}

/// Index returns the byte offset of the first occurrence of `substr`
/// in `s`, or -1 if `substr` is not present in `s`.  An empty
/// `substr` is found at offset 0.
pub fn index(s: &str, substr: &str) -> (r: i32)
    requires
        s.spec_bytes().len() < 0x8000_0000,
    ensures
        -1 <= r <= s.spec_bytes().len(),
        r == -1 ==> no_match(s.spec_bytes(), substr.spec_bytes()),
        r >= 0 ==> match_at(s.spec_bytes(), substr.spec_bytes(), r as int),
        r >= 0 ==> forall|j: int| 0 <= j < r ==> !match_at(s.spec_bytes(), substr.spec_bytes(), j),
{
    let sb: Vec<u8> = s.as_bytes_vec();
    let tb: Vec<u8> = substr.as_bytes_vec();
    let n: usize = sb.len();
    let m: usize = tb.len();
    if m > n {
        assert(no_match(s.spec_bytes(), substr.spec_bytes()));
        return -1;
    }
    let mut i: usize = 0;
    while i <= n - m
        invariant
            sb@ == s.spec_bytes(),
            tb@ == substr.spec_bytes(),
            m <= n < 0x8000_0000,
            n == sb@.len(),
            m == tb@.len(),
            i <= n - m + 1,
            forall|j: int| 0 <= j < i ==> !match_at(sb@, tb@, j),
        decreases n - m + 1 - i,
    {
        if match_here(&sb, &tb, i) {
            return i as i32;
        }
        i = i + 1;
    }
    assert(no_match(s.spec_bytes(), substr.spec_bytes()));
    -1
}

/// Compares `sub` against the bytes of `s` starting at offset `i`.
fn match_here(s: &Vec<u8>, sub: &Vec<u8>, i: usize) -> (r: bool)
    requires
        i + sub@.len() <= s@.len(),
        s@.len() < usize::MAX,
    ensures
        r == match_at(s@, sub@, i as int),
{
    let m: usize = sub.len();
    let mut k: usize = 0;
    while k < m
        invariant
            m == sub@.len(),
            i + m <= s@.len(),
            s@.len() < usize::MAX,
            k <= m,
            forall|t: int| 0 <= t < k ==> s@[i + t] == sub@[t],
        decreases m - k,
    {
        if s[i + k] != sub[k] {
            assert(!match_at(s@, sub@, i as int)) by {
                assert(s@.subrange(i as int, i + m)[k as int] == s@[i + k]);
            }
            return false;
        }
        k = k + 1;
    }
    assert(s@.subrange(i as int, i + m) =~= sub@);
    true
}

/// IndexFunc returns the index into `s`, counted in code points, of
/// the first character satisfying `f`, or -1 if none does: at the
/// returned position `f` answered true, before it `f` answered false
/// everywhere, and -1 means `f` answered false at every position.
pub fn index_func<F: Fn(char) -> bool>(s: &str, f: F) -> (r: i32)
    requires
        s@.len() < 0x8000_0000,
        forall|c: char| #[trigger] f.requires((c,)),
    ensures
        -1 <= r < s@.len(),
        r >= 0 ==> f.ensures((s@[r as int],), true) && forall|j: int|
            0 <= j < r ==> f.ensures((#[trigger] s@[j],), false),
        r == -1 ==> forall|j: int| 0 <= j < s@.len() ==> f.ensures((#[trigger] s@[j],), false),
{
    index_func_impl(s, f, true)
}

/// The same search as `index_func`, except that when `truth == false`
/// the sense of the predicate is inverted.
fn index_func_impl<F: Fn(char) -> bool>(s: &str, f: F, truth: bool) -> (r: i32)
    requires
        s@.len() < 0x8000_0000,
        forall|c: char| #[trigger] f.requires((c,)),
    ensures
        -1 <= r < s@.len(),
        r >= 0 ==> f.ensures((s@[r as int],), truth) && forall|j: int|
            0 <= j < r ==> f.ensures((#[trigger] s@[j],), !truth),
        r == -1 ==> forall|j: int| 0 <= j < s@.len() ==> f.ensures((#[trigger] s@[j],), !truth),
{
    let n: usize = s.unicode_len();
    let mut i: usize = 0;
    while i < n
        invariant
            n == s@.len(),
            n < 0x8000_0000,
            i <= n,
            forall|c: char| #[trigger] f.requires((c,)),
            forall|j: int| 0 <= j < i ==> f.ensures((#[trigger] s@[j],), !truth),
        decreases n - i,
    {
        let c = s.get_char(i);
        let got = f(c);
        if got == truth {
            return i as i32;
        }
        proof {
            assert(got == !truth);
            assert(f.ensures((s@[i as int],), !truth));
        }
        i = i + 1;
    }
    -1
}

} // verus!
