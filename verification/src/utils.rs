use vstd::prelude::*;
use vstd::string::*;
use vstd::utf8::*;

verus! {

/// Whether `c` may stand first in a Rust identifier: an ASCII letter or `_`.
pub open spec fn is_ident_head(c: char) -> bool {
    c == '_' || ('a' <= c && c <= 'z') || ('A' <= c && c <= 'Z')
}

/// Whether `c` may stand after the first character of a Rust identifier:
/// an ASCII letter, an ASCII digit or `_`.
pub open spec fn is_ident_tail(c: char) -> bool {
    is_ident_head(c) || ('0' <= c && c <= '9')
}

/// A proper Rust identifier: not empty, an ASCII letter or `_` first,
/// and only ASCII letters, digits and `_` after it.
pub open spec fn spec_is_rust_identifier(s: Seq<char>) -> bool {
    &&& s.len() > 0
    &&& is_ident_head(s[0])
    &&& forall|i: int| 1 <= i < s.len() ==> is_ident_tail(#[trigger] s[i])
}

/// What counts as a Rust identifier, built up one character at a time: the
/// empty string is none; a single character is one exactly where it is an
/// ASCII letter or `_`; and an identifier followed by one more character is
/// one exactly where that character is an ASCII letter, an ASCII digit or
/// `_`, wherever in the string it stands.
pub proof fn lemma_identifier_rules(s: Seq<char>, c: char)
    ensures
        !spec_is_rust_identifier(Seq::<char>::empty()),
        spec_is_rust_identifier(seq![c]) <==> (c == '_' || ('a' <= c && c <= 'z') || ('A' <= c && c
            <= 'Z')),
        s.len() > 0 ==> (spec_is_rust_identifier(s.push(c)) <==> (spec_is_rust_identifier(s) && (c
            == '_' || ('a' <= c && c <= 'z') || ('A' <= c && c <= 'Z') || ('0' <= c && c <= '9')))),
{
    if s.len() > 0 {
        let t = s.push(c);
        assert(t[0] == s[0]);
        assert(t[t.len() - 1] == c);
        if spec_is_rust_identifier(t) {
            assert forall|i: int| 1 <= i < s.len() implies is_ident_tail(#[trigger] s[i]) by {
                assert(t[i] == s[i]);
            }
        }
        if spec_is_rust_identifier(s) && is_ident_tail(c) {
            assert forall|i: int| 1 <= i < t.len() implies is_ident_tail(#[trigger] t[i]) by {
                if i < s.len() {
                    assert(t[i] == s[i]);
                }
            }
        }
    }
}

fn byte_is_ident_head(b: u8) -> (r: bool)
    ensures
        r == (b == 95 || (97 <= b && b <= 122) || (65 <= b && b <= 90)),
{
    b == 95u8 || (b >= 97u8 && b <= 122u8) || (b >= 65u8 && b <= 90u8)
}

fn byte_is_ident_tail(b: u8) -> (r: bool)
    ensures
        r == (b == 95 || (97 <= b && b <= 122) || (65 <= b && b <= 90) || (48 <= b && b <= 57)),
{
    byte_is_ident_head(b) || (b >= 48u8 && b <= 57u8)
}

/// Returns `true` if the given string is a proper Rust identifier.
pub fn is_rust_identifier(s: &str) -> (r: bool)
    ensures
        r == spec_is_rust_identifier(s@),
{
    broadcast use is_ascii_spec_bytes;

    // Only ASCII encoding is allowed.
    if !s.is_ascii() {
        proof {
            if spec_is_rust_identifier(s@) {
                assert forall|i: int| 0 <= i < s@.len() implies '\0' <= #[trigger] s@[i] <= '\u{7f}' by {
                    if i > 0 {
                        assert(is_ident_tail(s@[i]));
                    }
                }
            }
        }
        return false;
    }
    let bytes = s.as_bytes();
    assert(bytes@ =~= Seq::new(s@.len(), |i| s@.index(i) as u8));
    let n = bytes.len();
    if n == 0 {
        return false;
    }
    if !byte_is_ident_head(bytes[0]) {
        return false;
    }
    let mut i: usize = 1;
    while i < n
        invariant
            1 <= i <= n,
            n == bytes@.len(),
            n == s@.len(),
            is_ascii_chars(s@),
            bytes@ =~= Seq::new(s@.len(), |k| s@.index(k) as u8),
            forall|k: int| 1 <= k < i ==> is_ident_tail(#[trigger] s@[k]),
        decreases n - i,
    {
        if !byte_is_ident_tail(bytes[i]) {
            assert(!is_ident_tail(s@[i as int]));
            return false;
        }
        i = i + 1;
    }
    true
}

/// Whether two string slices hold the same text.
pub fn same_text(a: &str, b: &str) -> (r: bool)
    ensures
        r == (a@ == b@),
{
    let x = a.as_bytes();
    let y = b.as_bytes();
    proof {
        encode_utf8_decode_utf8(a@);
        encode_utf8_decode_utf8(b@);
    }
    if x.len() != y.len() {
        return false;
    }
    let n = x.len();
    let mut i: usize = 0;
    while i < n
        invariant
            n == x@.len(),
            n == y@.len(),
            x@ == a.spec_bytes(),
            y@ == b.spec_bytes(),
            i <= n,
            forall|k: int| 0 <= k < i ==> x@[k] == y@[k],
        decreases n - i,
    {
        if x[i] != y[i] {
            return false;
        }
        i = i + 1;
    }
    assert(x@ =~= y@);
    true
}

} // verus!
