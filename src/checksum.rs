use sha2::Digest;
use vstd::prelude::*;

use crate::text::{ascii_lower, ascii_lower_char, eq_ignore_ascii_case};

verus! {

/// The SHA-256 digest of `data`.
pub uninterp spec fn sha256_of(data: Seq<u8>) -> Seq<u8>;

/// Relies on `sha2::Sha256::digest`: the SHA-256 digest of the bytes, which is 32 bytes long.
#[verifier::external_body]
fn sha256(data: &[u8]) -> (r: Vec<u8>)
    ensures
        r@ == sha256_of(data@),
        r@.len() == 32,
{
    sha2::Sha256::digest(data).to_vec()
}

/// The upper-case hexadecimal digit of `n`, which is below 16.
pub open spec fn hex_digit(n: int) -> char {
    if n < 10 {
        (48 + n) as char
    } else {
        (55 + n) as char
    }
}

/// `bytes` in upper-case hexadecimal, two digits per byte, high digit first.
pub open spec fn hex_upper(bytes: Seq<u8>) -> Seq<char>
    decreases bytes.len(),
{
    if bytes.len() == 0 {
        Seq::empty()
    } else {
        hex_upper(bytes.drop_last()) + seq![
            hex_digit(bytes.last() as int / 16),
            hex_digit(bytes.last() as int % 16),
        ]
    }
}

/// The whitespace that separates the tokens of a checksum object.
pub open spec fn is_space(c: char) -> bool {
    c == ' ' || c == '\t' || c == '\n' || c == '\r' || c == '\x0C'
}

/// `s` without its leading whitespace.
pub open spec fn skip_spaces(s: Seq<char>) -> Seq<char>
    decreases s.len(),
{
    if s.len() > 0 && is_space(s[0]) {
        skip_spaces(s.drop_first())
    } else {
        s
    }
}

/// The characters of `s` up to its first whitespace.
pub open spec fn take_word(s: Seq<char>) -> Seq<char>
    decreases s.len(),
{
    if s.len() == 0 || is_space(s[0]) {
        Seq::empty()
    } else {
        seq![s[0]] + take_word(s.drop_first())
    }
}

/// The first whitespace-separated token of `s` (empty when `s` holds none).
pub open spec fn first_token(s: Seq<char>) -> Seq<char> {
    take_word(skip_spaces(s))
}

/// The body of a checksum object agrees with a digest: its first token is the digest in
/// hexadecimal, in either case.
pub open spec fn checksum_agrees(body: Seq<char>, digest: Seq<u8>) -> bool {
    eq_ignore_ascii_case(first_token(body), hex_upper(digest))
}

fn hex_char(n: u8) -> (c: char)
    requires
        n < 16,
    ensures
        c == hex_digit(n as int),
{
    if n < 10 {
        (n + 48) as char
    } else {
        (n + 55) as char
    }
}

/// `bytes` in upper-case hexadecimal.
pub fn to_hex_upper(bytes: &[u8]) -> (r: Vec<char>)
    ensures
        r@ == hex_upper(bytes@),
{
    let mut r: Vec<char> = Vec::new();
    let mut i: usize = 0;
    while i < bytes.len()
        invariant
            i <= bytes@.len(),
            r@ == hex_upper(bytes@.subrange(0, i as int)),
        decreases bytes@.len() - i,
    {
        let b = bytes[i];
        r.push(hex_char(b / 16));
        r.push(hex_char(b % 16));
        proof {
            let t = bytes@.subrange(0, i + 1);
            assert(t.drop_last() =~= bytes@.subrange(0, i as int));
            assert(t.last() == b);
        }
        i = i + 1;
    }
    assert(bytes@.subrange(0, bytes@.len() as int) =~= bytes@);
    r
}

fn space(c: char) -> (r: bool)
    ensures
        r == is_space(c),
{
    c == ' ' || c == '\t' || c == '\n' || c == '\r' || c == '\x0C'
}

/// The first whitespace-separated token of `s`.
pub fn first_token_of(s: &Vec<char>) -> (r: Vec<char>)
    ensures
        r@ == first_token(s@),
{
    let n = s.len();
    let mut i: usize = 0;
    assert(s@.subrange(0, n as int) =~= s@);
    while i < n && space(s[i])
        invariant
            n == s@.len(),
            i <= n,
            skip_spaces(s@) == skip_spaces(s@.subrange(i as int, n as int)),
        decreases n - i,
    {
        assert(s@.subrange(i as int, n as int).drop_first() =~= s@.subrange(i + 1, n as int));
        i = i + 1;
    }
    let mut r: Vec<char> = Vec::new();
    let mut j: usize = i;
    assert(r@ + s@.subrange(i as int, n as int) =~= s@.subrange(i as int, n as int));
    while j < n && !space(s[j])
        invariant
            n == s@.len(),
            i <= j <= n,
            take_word(s@.subrange(i as int, n as int)) == r@ + take_word(
                s@.subrange(j as int, n as int),
            ),
        decreases n - j,
    {
        let c = s[j];
        let ghost rest = s@.subrange(j as int, n as int);
        assert(rest.drop_first() =~= s@.subrange(j + 1, n as int));
        assert(take_word(rest) == seq![c] + take_word(rest.drop_first()));
        let ghost before = r@;
        r.push(c);
        assert(before + (seq![c] + take_word(rest.drop_first())) =~= r@ + take_word(
            rest.drop_first(),
        ));
        j = j + 1;
    }
    assert(take_word(s@.subrange(j as int, n as int)) =~= Seq::<char>::empty());
    assert(r@ + Seq::<char>::empty() =~= r@);
    r
}

fn lower(c: char) -> (r: char)
    ensures
        r == ascii_lower_char(c),
{
    if 'A' <= c && c <= 'Z' {
        ((c as u8) + 32) as char
    } else {
        c
    }
}

/// Equality up to ASCII case.
pub fn equal_ignoring_ascii_case(a: &Vec<char>, b: &Vec<char>) -> (r: bool)
    ensures
        r == eq_ignore_ascii_case(a@, b@),
{
    if a.len() != b.len() {
        return false;
    }
    let mut i: usize = 0;
    while i < a.len()
        invariant
            a@.len() == b@.len(),
            i <= a@.len(),
            forall|j: int| 0 <= j < i ==> #[trigger] ascii_lower_char(a@[j]) == ascii_lower_char(b@[j]),
        decreases a@.len() - i,
    {
        if lower(a[i]) != lower(b[i]) {
            return false;
        }
        i = i + 1;
    }
    true
}

/// Whether the body of a checksum object agrees with `digest`.
pub fn digest_matches(body: &str, digest: &[u8]) -> (r: bool)
    ensures
        r == checksum_agrees(body@, digest@),
{
    let token = first_token_of(&crate::text::chars_of(body));
    let hex = to_hex_upper(digest);
    equal_ignoring_ascii_case(&token, &hex)
}

/// Whether the body of a checksum object agrees with the SHA-256 digest of `contents`.
pub fn contents_match(body: &str, contents: &[u8]) -> (r: bool)
    ensures
        r == checksum_agrees(body@, sha256_of(contents@)),
{
    let digest = sha256(contents);
    digest_matches(body, digest.as_slice())
}

proof fn lemma_hex_has_no_space(bytes: Seq<u8>)
    ensures
        forall|i: int| 0 <= i < hex_upper(bytes).len() ==> !is_space(#[trigger] hex_upper(bytes)[i]),
        hex_upper(bytes).len() == 2 * bytes.len(),
    decreases bytes.len(),
{
    if bytes.len() > 0 {
        lemma_hex_has_no_space(bytes.drop_last());
        let h = hex_upper(bytes.drop_last());
        let b = bytes.last() as int;
        assert forall|i: int| 0 <= i < hex_upper(bytes).len() implies !is_space(
            #[trigger] hex_upper(bytes)[i],
        ) by {
            if i < h.len() {
                assert(hex_upper(bytes)[i] == h[i]);
            }
        }
    }
}

proof fn lemma_take_word_of_word(w: Seq<char>, rest: Seq<char>)
    requires
        forall|i: int| 0 <= i < w.len() ==> !is_space(#[trigger] w[i]),
        rest.len() == 0 || is_space(rest[0]),
    ensures
        take_word(w + rest) == w,
    decreases w.len(),
{
    if w.len() == 0 {
        assert(w + rest =~= rest);
    } else {
        assert((w + rest).drop_first() =~= w.drop_first() + rest);
        assert((w + rest)[0] == w[0]);
        lemma_take_word_of_word(w.drop_first(), rest);
        assert(seq![w[0]] + w.drop_first() =~= w);
    }
}

proof fn lemma_lower_keeps_spaces(w: Seq<char>)
    requires
        forall|i: int| 0 <= i < w.len() ==> !is_space(#[trigger] w[i]),
    ensures
        forall|i: int| 0 <= i < w.len() ==> !is_space(#[trigger] ascii_lower(w)[i]),
        eq_ignore_ascii_case(ascii_lower(w), w),
{
    assert forall|i: int| 0 <= i < w.len() implies !is_space(#[trigger] ascii_lower(w)[i]) by {
        assert(!is_space(w[i]));
    }
}

/// A checksum object whose body is the hexadecimal SHA-256 digest of the contents, in upper
/// or lower case, agrees with those contents.
pub proof fn lemma_checksum_round_trip(contents: Seq<u8>)
    ensures
        checksum_agrees(hex_upper(sha256_of(contents)), sha256_of(contents)),
        checksum_agrees(ascii_lower(hex_upper(sha256_of(contents))), sha256_of(contents)),
{
    let d = sha256_of(contents);
    lemma_listing_body_agrees(d, Seq::empty());
    assert(hex_upper(d) + Seq::<char>::empty() =~= hex_upper(d));
    assert(ascii_lower(hex_upper(d)) + Seq::<char>::empty() =~= ascii_lower(hex_upper(d)));
}

/// A body that starts with the hexadecimal digest, in upper or lower case, followed by nothing
/// or by whitespace and more (such as the file name), agrees with a digest of at least one
/// byte.
pub proof fn lemma_listing_body_agrees(digest: Seq<u8>, rest: Seq<char>)
    requires
        digest.len() > 0 || rest.len() == 0,
        rest.len() == 0 || is_space(rest[0]),
    ensures
        checksum_agrees(hex_upper(digest) + rest, digest),
        checksum_agrees(ascii_lower(hex_upper(digest)) + rest, digest),
{
    let h = hex_upper(digest);
    lemma_hex_has_no_space(digest);
    lemma_lower_keeps_spaces(h);
    let l = ascii_lower(h);
    lemma_take_word_of_word(h, rest);
    lemma_take_word_of_word(l, rest);
    if h.len() > 0 {
        assert((h + rest)[0] == h[0]);
        assert((l + rest)[0] == l[0]);
    } else {
        assert(h + rest =~= Seq::<char>::empty());
        assert(l + rest =~= Seq::<char>::empty());
    }
    assert(eq_ignore_ascii_case(h, h));
}

} // verus!
