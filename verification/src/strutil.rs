//! Conversions between strings, character vectors and bytes, together with
//! small verified helpers on ASCII characters.

use vstd::prelude::*;

verus! {

/// Relies on str::chars collected into a Vec: the characters of the string,
/// in order.
#[verifier::external_body]
pub fn str_to_chars(s: &str) -> (r: Vec<char>)
    ensures
        r@ == s@,
{
    s.chars().collect()
}

/// Relies on String::from_iter over chars: builds the string holding exactly
/// the given characters, in order.
#[verifier::external_body]
pub fn chars_to_string(v: &Vec<char>) -> (r: String)
    ensures
        r@ == v@,
{
    v.iter().collect()
}

/// What String::from_utf8_lossy returns for a byte sequence.
pub uninterp spec fn lossy_of(bytes: Seq<u8>) -> Seq<char>;

/// Relies on String::from_utf8_lossy: the result depends on the bytes alone,
/// and valid UTF-8 input decodes without replacement characters.
#[verifier::external_body]
pub fn utf8_lossy(bytes: &Vec<u8>) -> (r: String)
    ensures
        r@ == lossy_of(bytes@),
        bytes@.len() == 0 ==> r@.len() == 0,
        vstd::utf8::valid_utf8(bytes@) ==> r@ == vstd::utf8::decode_utf8(bytes@),
{
    String::from_utf8_lossy(bytes).into_owned()
}

/// Relies on String::from_utf8: succeeds exactly on valid UTF-8 and decodes
/// it.
#[verifier::external_body]
pub fn bytes_to_string(b: Vec<u8>) -> (r: Option<String>)
    ensures
        match r {
            Some(s) => vstd::utf8::valid_utf8(b@) && s@ == vstd::utf8::decode_utf8(b@),
            None => !vstd::utf8::valid_utf8(b@),
        },
{
    String::from_utf8(b).ok()
}

/// Relies on char::from_u32: succeeds exactly for Unicode scalar values
/// and yields the character with that value.
#[verifier::external_body]
pub fn char_from_u32(u: u32) -> (r: Option<char>)
    ensures
        match r {
            Some(c) => (u < 0xD800 || (0xE000 <= u && u <= 0x10FFFF)) && c as u32 == u,
            None => !(u < 0xD800 || (0xE000 <= u && u <= 0x10FFFF)),
        },
{
    char::from_u32(u)
}

/// Relies on char::encode_utf8: the UTF-8 bytes of one character.
#[verifier::external_body]
pub fn char_utf8(c: char) -> (r: Vec<u8>)
    ensures
        r@ == vstd::utf8::encode_scalar(c as u32),
{
    let mut buf = [0u8; 4];
    c.encode_utf8(&mut buf).as_bytes().to_vec()
}

/// Whether `c` is an ASCII letter.
pub open spec fn is_ascii_letter_spec(c: char) -> bool {
    (65 <= c as u32 && c as u32 <= 90) || (97 <= c as u32 && c as u32 <= 122)
}

/// Whether `c` is an ASCII letter, a-z or A-Z.
pub fn is_ascii_letter(c: char) -> (r: bool)
    ensures
        r == is_ascii_letter_spec(c),
{
    let u = c as u32;
    (65 <= u && u <= 90) || (97 <= u && u <= 122)
}

/// The ASCII upper-case counterpart of `c`: a-z map to A-Z, all else stays.
pub open spec fn ascii_upper_spec(c: char) -> char {
    if 97 <= c as u32 && c as u32 <= 122 {
        ((c as u32) - 32) as char
    } else {
        c
    }
}

/// Upper-cases one ASCII character.
pub fn ascii_upper(c: char) -> (r: char)
    ensures
        r == ascii_upper_spec(c),
{
    let u = c as u32;
    if 97 <= u && u <= 122 {
        let b = (u - 32) as u8;
        b as char
    } else {
        c
    }
}

/// Whether `sub` occurs in `s` starting at position `at`.
pub open spec fn occurs_at(s: Seq<char>, sub: Seq<char>, at: int) -> bool {
    &&& 0 <= at
    &&& at + sub.len() <= s.len()
    &&& s.subrange(at, at + sub.len() as int) == sub
}

/// Whether `sub` occurs anywhere in `s`.
pub open spec fn contains_seq(s: Seq<char>, sub: Seq<char>) -> bool {
    exists|at: int| occurs_at(s, sub, at)
}

/// Whether `sub` matches the characters of `s` starting at `at`.
pub fn chars_match_at(s: &Vec<char>, sub: &Vec<char>, at: usize) -> (r: bool)
    requires
        at + sub.len() <= s.len(),
    ensures
        r == occurs_at(s@, sub@, at as int),
{
    let mut k: usize = 0;
    while k < sub.len()
        invariant
            at + sub.len() <= s.len(),
            k <= sub.len(),
            forall|j: int| 0 <= j < k ==> s@[at + j] == sub@[j],
        decreases sub.len() - k,
    {
        if s[at + k] != sub[k] {
            proof {
                assert(s@.subrange(at as int, at + sub@.len() as int)[k as int] == s@[at + k]);
            }
            return false;
        }
        k = k + 1;
    }
    proof {
        assert(s@.subrange(at as int, at + sub@.len() as int) =~= sub@);
    }
    true
}

/// Whether the character vector `s` holds `sub` as a contiguous subsequence.
pub fn chars_contain(s: &Vec<char>, sub: &Vec<char>) -> (r: bool)
    ensures
        r == contains_seq(s@, sub@),
{
    if sub.len() > s.len() {
        proof {
            assert(forall|at: int| !occurs_at(s@, sub@, at));
        }
        return false;
    }
    if sub.len() == 0 {
        proof {
            assert(s@.subrange(0, 0) =~= sub@);
            assert(occurs_at(s@, sub@, 0));
        }
        return true;
    }
    let mut at: usize = 0;
    while at <= s.len() - sub.len()
        invariant
            1 <= sub.len() <= s.len(),
            at <= s.len() - sub.len() + 1,
            forall|j: int| 0 <= j < at ==> !occurs_at(s@, sub@, j),
        decreases s.len() - sub.len() - at + 1,
    {
        if chars_match_at(s, sub, at) {
            return true;
        }
        at = at + 1;
    }
    proof {
        assert(forall|j: int| occurs_at(s@, sub@, j) ==> 0 <= j <= s@.len() - sub@.len());
    }
    false
}

/// Whether the characters of `v` spell exactly the string `s`.
pub fn chars_eq_str(v: &Vec<char>, s: &str) -> (r: bool)
    ensures
        r == (v@ == s@),
{
    let cs = str_to_chars(s);
    if v.len() != cs.len() {
        proof {
            assert(v@.len() != s@.len());
        }
        return false;
    }
    let mut i: usize = 0;
    while i < v.len()
        invariant
            i <= v.len(),
            v@.len() == cs@.len(),
            cs@ == s@,
            forall|j: int| 0 <= j < i ==> v@[j] == cs@[j],
        decreases v.len() - i,
    {
        if v[i] != cs[i] {
            return false;
        }
        i = i + 1;
    }
    proof {
        assert(v@ =~= s@);
    }
    true
}

/// Whether two strings hold the same characters.
pub fn str_eq(a: &str, b: &str) -> (r: bool)
    ensures
        r == (a@ == b@),
{
    let ca = str_to_chars(a);
    let cb = str_to_chars(b);
    if ca.len() != cb.len() {
        proof {
            assert(a@.len() != b@.len());
        }
        return false;
    }
    let mut i: usize = 0;
    while i < ca.len()
        invariant
            i <= ca.len(),
            ca@.len() == cb@.len(),
            ca@ == a@,
            cb@ == b@,
            forall|j: int| 0 <= j < i ==> ca@[j] == cb@[j],
        decreases ca.len() - i,
    {
        if ca[i] != cb[i] {
            return false;
        }
        i = i + 1;
    }
    proof {
        assert(a@ =~= b@);
    }
    true
}

/// Whether the character `c` occurs in `s`.
pub fn chars_contain_char(s: &Vec<char>, c: char) -> (r: bool)
    ensures
        r == s@.contains(c),
{
    let mut i: usize = 0;
    while i < s.len()
        invariant
            i <= s.len(),
            forall|j: int| 0 <= j < i ==> s@[j] != c,
        decreases s.len() - i,
    {
        if s[i] == c {
            return true;
        }
        i = i + 1;
    }
    false
}

} // verus!
