//! Redaction of the local user name: a short, stable digest stands in for it.
use sha2::digest::Digest;
use vstd::prelude::*;
use vstd::string::StringExecFns;

verus! {

/// The SHA-256 digest of the UTF-8 encoding of a text.
pub uninterp spec fn sha256_digest(s: Seq<char>) -> Seq<u8>;

/// Relies on sha2's `Sha256::digest`: the SHA-256 digest of the UTF-8 bytes of
/// `s`, which is 32 bytes long.
#[verifier::external_body]
fn sha256_of(s: &str) -> (r: Vec<u8>)
    ensures
        r@ == sha256_digest(s@),
        r@.len() == 32,
{
    sha2::Sha256::digest(s.as_bytes()).to_vec()
}

/// The lower-case hexadecimal digit of a value below sixteen.
pub open spec fn hex_digit(d: nat) -> char {
    if d < 10 {
        crate::text::digit_char(d)
    } else if d == 10 {
        'a'
    } else if d == 11 {
        'b'
    } else if d == 12 {
        'c'
    } else if d == 13 {
        'd'
    } else if d == 14 {
        'e'
    } else {
        'f'
    }
}

/// Whether `c` is a lower-case hexadecimal digit.
pub open spec fn is_hex_char(c: char) -> bool {
    ('0' <= c && c <= '9') || ('a' <= c && c <= 'f')
}

/// Two lower-case hexadecimal digits per byte, most significant digit first.
pub open spec fn hex_of(b: Seq<u8>) -> Seq<char>
    decreases b.len(),
{
    if b.len() == 0 {
        Seq::empty()
    } else {
        hex_of(b.drop_last()) + seq![hex_digit(b.last() as nat / 16), hex_digit(b.last() as nat % 16)]
    }
}

/// The hexadecimal text of the first four bytes of a digest (of all of it
/// where it is shorter).
pub open spec fn digest_prefix(d: Seq<u8>) -> Seq<char> {
    if d.len() < 4 {
        hex_of(d)
    } else {
        hex_of(d.take(4))
    }
}

/// The redacted form of a user name: the first eight hexadecimal digits of
/// its SHA-256 digest.
pub open spec fn redacted(s: Seq<char>) -> Seq<char> {
    digest_prefix(sha256_digest(s))
}

/// The user name as a snapshot carries it.
pub open spec fn shown_username(s: Seq<char>, hash_pii: bool) -> Seq<char> {
    if hash_pii {
        redacted(s)
    } else {
        s
    }
}

proof fn lemma_hex_of(b: Seq<u8>)
    ensures
        hex_of(b).len() == 2 * b.len(),
        forall|i: int| 0 <= i < hex_of(b).len() ==> is_hex_char(#[trigger] hex_of(b)[i]),
    decreases b.len(),
{
    if b.len() > 0 {
        lemma_hex_of(b.drop_last());
        let h = hex_of(b);
        let p = hex_of(b.drop_last());
        assert forall|i: int| 0 <= i < h.len() implies is_hex_char(#[trigger] h[i]) by {
            if i < p.len() {
                assert(h[i] == p[i]);
            }
        }
    }
}

/// A digest of at least four bytes gives exactly eight hexadecimal digits.
pub proof fn lemma_digest_prefix_form(d: Seq<u8>)
    requires
        d.len() >= 4,
    ensures
        digest_prefix(d).len() == 8,
        forall|i: int| 0 <= i < 8 ==> is_hex_char(#[trigger] digest_prefix(d)[i]),
{
    lemma_hex_of(d.take(4));
}

/// Equal user names are always shown alike: redaction uses no salt, no key
/// and no state.
pub proof fn lemma_redaction_deterministic(a: Seq<char>, b: Seq<char>, hash_pii: bool)
    requires
        a == b,
    ensures
        shown_username(a, hash_pii) == shown_username(b, hash_pii),
        !hash_pii ==> shown_username(a, hash_pii) == a,
{
}

/// The text of one hexadecimal digit.
fn hex_digit_str(d: u8) -> (r: &'static str)
    requires
        d < 16,
    ensures
        r@ == seq![hex_digit(d as nat)],
{
    proof {
        reveal_strlit("0");
        reveal_strlit("1");
        reveal_strlit("2");
        reveal_strlit("3");
        reveal_strlit("4");
        reveal_strlit("5");
        reveal_strlit("6");
        reveal_strlit("7");
        reveal_strlit("8");
        reveal_strlit("9");
        reveal_strlit("a");
        reveal_strlit("b");
        reveal_strlit("c");
        reveal_strlit("d");
        reveal_strlit("e");
        reveal_strlit("f");
    }
    match d {
        0 => "0",
        1 => "1",
        2 => "2",
        3 => "3",
        4 => "4",
        5 => "5",
        6 => "6",
        7 => "7",
        8 => "8",
        9 => "9",
        10 => "a",
        11 => "b",
        12 => "c",
        13 => "d",
        14 => "e",
        _ => "f",
    }
}

/// The hexadecimal text of the first four bytes of `digest`, or of all of it
/// where it is shorter.
pub fn digest_prefix_hex(digest: &Vec<u8>) -> (r: String)
    ensures
        r@ == digest_prefix(digest@),
{
    let n: usize = if digest.len() < 4 { digest.len() } else { 4 };
    let ghost part = digest@.take(n as int);
    let mut out = String::new();
    let mut i: usize = 0;
    while i < n
        invariant
            0 <= i <= n <= digest.len(),
            part == digest@.take(n as int),
            out@ == hex_of(part.take(i as int)),
        decreases n - i,
    {
        let b = digest[i];
        out.append(hex_digit_str(b / 16));
        out.append(hex_digit_str(b % 16));
        proof {
            let t = part.take(i as int + 1);
            assert(t.drop_last() =~= part.take(i as int));
            assert(t.last() == b);
        }
        i = i + 1;
    }
    proof {
        assert(part.take(n as int) =~= part);
        if digest@.len() < 4 {
            assert(part =~= digest@);
        }
    }
    out
}

/// The first eight hexadecimal digits of the SHA-256 digest of `input`.
pub fn hash_string(input: String) -> (r: String)
    ensures
        r@ == redacted(input@),
        r@.len() == 8,
        forall|i: int| 0 <= i < 8 ==> is_hex_char(#[trigger] r@[i]),
{
    let digest = sha256_of(input.as_str());
    proof {
        lemma_digest_prefix_form(digest@);
    }
    digest_prefix_hex(&digest)
}

/// The user name as a snapshot carries it: redacted when `hash_pii` is set,
/// unchanged otherwise.
pub fn redact_username(username: String, hash_pii: bool) -> (r: String)
    ensures
        r@ == shown_username(username@, hash_pii),
        hash_pii ==> r@.len() == 8,
        hash_pii ==> forall|i: int| 0 <= i < 8 ==> is_hex_char(#[trigger] r@[i]),
{
    if hash_pii {
        hash_string(username)
    } else {
        username
    }
}

} // verus!
