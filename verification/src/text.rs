//! Character-level text utilities used by validation and display logic.

use vstd::prelude::*;

verus! {

/// Whether `c` has the Unicode `White_Space` property, the set of
/// characters that `char::is_whitespace` recognizes.
pub open spec fn is_ws_char(c: char) -> bool {
    let u = c as u32;
    u == 0x09 || u == 0x0A || u == 0x0B || u == 0x0C || u == 0x0D || u == 0x20 || u == 0x85 || u
        == 0xA0 || u == 0x1680 || (0x2000 <= u && u <= 0x200A) || u == 0x2028 || u == 0x2029 || u
        == 0x202F || u == 0x205F || u == 0x3000
}

/// Whether `s` holds nothing but whitespace: the empty string and
/// whitespace-only strings are blank.
pub open spec fn seq_is_blank(s: Seq<char>) -> bool {
    forall|i: int| 0 <= i < s.len() ==> is_ws_char(#[trigger] s[i])
}

/// Whether `c` is a whitespace character.
pub fn char_is_ws(c: char) -> (r: bool)
    ensures
        r == is_ws_char(c),
{
    let u = c as u32;
    u == 0x09 || u == 0x0A || u == 0x0B || u == 0x0C || u == 0x0D || u == 0x20 || u == 0x85 || u
        == 0xA0 || u == 0x1680 || (0x2000 <= u && u <= 0x200A) || u == 0x2028 || u == 0x2029 || u
        == 0x202F || u == 0x205F || u == 0x3000
}

/// Whether `s` trims to the empty string.
#[verifier::loop_isolation(false)]
pub fn is_blank(s: &str) -> (r: bool)
    ensures
        r == seq_is_blank(s@),
{
    let len = s.unicode_len();
    let mut i: usize = 0;
    while i < len
        invariant
            0 <= i <= len,
            forall|j: int| 0 <= j < i ==> is_ws_char(#[trigger] s@[j]),
        decreases len - i,
    {
        let c = s.get_char(i);
        if !char_is_ws(c) {
            assert(!is_ws_char(s@[i as int]));
            return false;
        }
        i += 1;
    }
    true
}

/// Whether two string slices hold the same characters.
pub fn str_eq(a: &str, b: &str) -> (r: bool)
    ensures
        r == (a@ == b@),
{
    let ao = a.to_owned();
    let bo = b.to_owned();
    ao == bo
}

/// Whether `prefix` is a prefix of `s`.
#[verifier::loop_isolation(false)]
pub fn starts_with_str(s: &str, prefix: &str) -> (r: bool)
    ensures
        r == prefix@.is_prefix_of(s@),
{
    let plen = prefix.unicode_len();
    let slen = s.unicode_len();
    if plen > slen {
        return false;
    }
    let mut i: usize = 0;
    while i < plen
        invariant
            0 <= i <= plen,
            plen <= slen,
            forall|j: int| 0 <= j < i ==> prefix@[j] == s@[j],
        decreases plen - i,
    {
        if prefix.get_char(i) != s.get_char(i) {
            assert(prefix@[i as int] != s@.subrange(0, plen as int)[i as int]);
            return false;
        }
        i += 1;
    }
    assert(prefix@ =~= s@.subrange(0, plen as int));
    true
}

/// Whether `s` holds two consecutive dots.
pub open spec fn has_dotdot(s: Seq<char>) -> bool {
    exists|i: int| 0 <= i && i + 1 < s.len() && #[trigger] s[i] == '.' && s[i + 1] == '.'
}

/// Whether `s` contains the substring `".."`.
#[verifier::loop_isolation(false)]
pub fn contains_dotdot(s: &str) -> (r: bool)
    ensures
        r == has_dotdot(s@),
{
    let len = s.unicode_len();
    if len < 2 {
        return false;
    }
    let mut i: usize = 1;
    while i < len
        invariant
            1 <= i <= len,
            forall|j: int| 1 <= j < i ==> !(#[trigger] s@[j - 1] == '.' && s@[j] == '.'),
        decreases len - i,
    {
        if s.get_char(i - 1) == '.' && s.get_char(i) == '.' {
            assert(has_dotdot(s@)) by {
                assert(0 <= i - 1 && (i - 1) + 1 < s@.len() && s@[i - 1] == '.' && s@[i as int]
                    == '.');
            }
            return true;
        }
        i += 1;
    }
    assert(!has_dotdot(s@)) by {
        if has_dotdot(s@) {
            let k = choose|k: int|
                0 <= k && k + 1 < s@.len() && #[trigger] s@[k] == '.' && s@[k + 1] == '.';
            assert(!(s@[(k + 1) - 1] == '.' && s@[k + 1] == '.'));
        }
    }
    false
}

/// The number of whitespace characters `s` starts with.
pub open spec fn leading_ws(s: Seq<char>) -> int
    decreases s.len(),
{
    if s.len() == 0 {
        0
    } else if is_ws_char(s.first()) {
        1 + leading_ws(s.drop_first())
    } else {
        0
    }
}

/// The number of whitespace characters `s` ends with.
pub open spec fn trailing_ws(s: Seq<char>) -> int
    decreases s.len(),
{
    if s.len() == 0 {
        0
    } else if is_ws_char(s.last()) {
        1 + trailing_ws(s.drop_last())
    } else {
        0
    }
}

/// `s` without its leading and trailing whitespace.
pub open spec fn trim_spec(s: Seq<char>) -> Seq<char> {
    if leading_ws(s) == s.len() {
        Seq::empty()
    } else {
        s.subrange(leading_ws(s), s.len() - trailing_ws(s))
    }
}

/// The leading whitespace really is the leading run: everything before it
/// is whitespace and the character after it, if any, is not.
pub proof fn lemma_leading_ws(s: Seq<char>)
    ensures
        0 <= leading_ws(s) <= s.len(),
        leading_ws(s) < s.len() ==> !is_ws_char(s[leading_ws(s)]),
        forall|j: int| 0 <= j < leading_ws(s) ==> is_ws_char(#[trigger] s[j]),
    decreases s.len(),
{
    if s.len() == 0 {
    } else if is_ws_char(s.first()) {
        lemma_leading_ws(s.drop_first());
        let n = leading_ws(s.drop_first());
        assert forall|j: int| 0 <= j < 1 + n implies is_ws_char(#[trigger] s[j]) by {
            if j > 0 {
                assert(is_ws_char(s.drop_first()[j - 1]));
            }
        }
    }
}

/// The trailing whitespace really is the trailing run.
pub proof fn lemma_trailing_ws(s: Seq<char>)
    ensures
        0 <= trailing_ws(s) <= s.len(),
        trailing_ws(s) < s.len() ==> !is_ws_char(s[s.len() - trailing_ws(s) - 1]),
        forall|j: int| s.len() - trailing_ws(s) <= j < s.len() ==> is_ws_char(#[trigger] s[j]),
    decreases s.len(),
{
    if s.len() == 0 {
    } else if is_ws_char(s.last()) {
        lemma_trailing_ws(s.drop_last());
        let n = trailing_ws(s.drop_last());
        assert forall|j: int| s.len() - (1 + n) <= j < s.len() implies is_ws_char(
            #[trigger] s[j],
        ) by {
            if j < s.len() - 1 {
                assert(is_ws_char(s.drop_last()[j]));
            }
        }
    }
}

/// Remove leading and trailing whitespace.
#[verifier::loop_isolation(false)]
pub fn trim_str(s: &str) -> (r: String)
    ensures
        r@ == trim_spec(s@),
{
    proof {
        lemma_leading_ws(s@);
        lemma_trailing_ws(s@);
    }
    let len = s.unicode_len();
    let mut a: usize = 0;
    while a < len && char_is_ws(s.get_char(a))
        invariant
            0 <= a <= len,
            forall|j: int| 0 <= j < a ==> is_ws_char(#[trigger] s@[j]),
        decreases len - a,
    {
        a += 1;
    }
    proof {
        let lw = leading_ws(s@);
        assert(a as int == lw) by {
            if lw < a {
                assert(is_ws_char(s@[lw]));
            } else if lw > a {
                assert(is_ws_char(s@[a as int]));
            }
        }
    }
    if a == len {
        return String::new();
    }
    let mut b: usize = len;
    while b > a && char_is_ws(s.get_char(b - 1))
        invariant
            a <= b <= len,
            forall|j: int| b <= j < len ==> is_ws_char(#[trigger] s@[j]),
        decreases b,
    {
        b -= 1;
    }
    proof {
        let tw = trailing_ws(s@);
        assert(tw < s@.len()) by {
            if tw == s@.len() {
                assert(is_ws_char(s@[a as int]));
            }
        }
        assert(b as int == s@.len() - tw) by {
            if s@.len() - tw < b {
                assert(is_ws_char(s@[b - 1]));
            } else if s@.len() - tw > b {
                if b > a {
                    assert(is_ws_char(s@[s@.len() - tw - 1]));
                } else {
                    assert(is_ws_char(s@[s@.len() - tw - 1]));
                }
            }
        }
    }
    s.substring_char(a, b).to_owned()
}

/// The index of the first occurrence of `c` in `s`, or the length of `s`
/// when `c` does not occur.
pub open spec fn char_index(s: Seq<char>, c: char) -> int
    decreases s.len(),
{
    if s.len() == 0 {
        0
    } else if s.first() == c {
        0
    } else {
        1 + char_index(s.drop_first(), c)
    }
}

/// The first occurrence really is the first: nothing before it matches,
/// and it matches unless `c` does not occur at all.
pub proof fn lemma_char_index(s: Seq<char>, c: char)
    ensures
        0 <= char_index(s, c) <= s.len(),
        char_index(s, c) < s.len() ==> s[char_index(s, c)] == c,
        forall|j: int| 0 <= j < char_index(s, c) ==> s[j] != c,
    decreases s.len(),
{
    if s.len() == 0 {
    } else if s.first() == c {
    } else {
        lemma_char_index(s.drop_first(), c);
        let n = char_index(s.drop_first(), c);
        assert forall|j: int| 0 <= j < 1 + n implies s[j] != c by {
            if j > 0 {
                assert(s.drop_first()[j - 1] != c);
            }
        }
    }
}

/// The index of the first occurrence of `c`, or the character length of
/// `s` when `c` does not occur.
#[verifier::loop_isolation(false)]
pub fn index_of_char(s: &str, c: char) -> (r: usize)
    ensures
        r as int == char_index(s@, c),
{
    proof {
        lemma_char_index(s@, c);
    }
    let len = s.unicode_len();
    let mut i: usize = 0;
    while i < len
        invariant
            0 <= i <= len,
            forall|j: int| 0 <= j < i ==> s@[j] != c,
        decreases len - i,
    {
        if s.get_char(i) == c {
            let ghost ci = char_index(s@, c);
            assert(i as int == ci) by {
                if ci < i {
                    assert(s@[ci] == c);
                } else if ci > i {
                    assert(s@[i as int] != c);
                }
            }
            return i;
        }
        i += 1;
    }
    assert(len as int == char_index(s@, c)) by {
        if char_index(s@, c) < len {
            assert(s@[char_index(s@, c)] == c);
        }
    }
    len
}

} // verus!
