//! Passwords and their hashes.
use vstd::prelude::*;

use crate::ids::hex_digit;
use crate::text::{
    all_digits, cat3, decimal, digits_up_to, digits_value, is_digit, lacks,
    lemma_decimal_reads_back, lemma_encode_utf8_injective, lemma_split_last, lemma_split_whole,
    parse_unsigned, split_at_set, split_set, str_eq, u64_text, unsigned_up_to, CharSet,
};

verus! {

// ---------------------------------------------------------------------------
// Hexadecimal
// ---------------------------------------------------------------------------

/// Bytes in hexadecimal notation: two digits for each, in lower case.
pub open spec fn hex_encoded(b: Seq<u8>) -> Seq<char> {
    Seq::new(
        2 * b.len(),
        |i: int|
            if i % 2 == 0 {
                hex_digit(b[i / 2] as int / 16)
            } else {
                hex_digit(b[i / 2] as int % 16)
            },
    )
}

/// The value of a hexadecimal digit, in either case.
pub open spec fn hex_value(c: char) -> Option<int> {
    if '0' <= c <= '9' {
        Some(c as int - '0' as int)
    } else if 'a' <= c <= 'f' {
        Some(c as int - 'a' as int + 10)
    } else if 'A' <= c <= 'F' {
        Some(c as int - 'A' as int + 10)
    } else {
        None
    }
}

/// The bytes that a text writes in hexadecimal notation, if it does.
pub open spec fn hex_decoded(t: Seq<char>) -> Option<Seq<u8>> {
    if t.len() % 2 == 0 && forall|i: int|
        0 <= i < t.len() ==> hex_value(#[trigger] t[i]) is Some {
        Some(
            Seq::new(
                t.len() / 2,
                |i: int| (16 * hex_value(t[2 * i])->0 + hex_value(t[2 * i + 1])->0) as u8,
            ),
        )
    } else {
        None
    }
}

/// Calls `hex::encode`, which writes two digits in lower case for each byte.
#[verifier::external_body]
fn encode_hex(b: &Vec<u8>) -> (r: String)
    ensures
        r@ == hex_encoded(b@),
{
    hex::encode(b)
}

/// Calls `hex::decode`, which reads digits of either case and refuses an odd number
/// of them and any other character.
#[verifier::external_body]
fn decode_hex(t: &str) -> (r: Option<Vec<u8>>)
    ensures
        match r {
            Some(v) => hex_decoded(t@) == Some(v@),
            None => hex_decoded(t@) is None,
        },
{
    hex::decode(t).ok()
}

/// Bytes are read back from their hexadecimal notation.
pub proof fn law_hex_reads_back(b: Seq<u8>)
    ensures
        hex_decoded(hex_encoded(b)) == Some(b),
{
    let t = hex_encoded(b);
    assert forall|i: int| 0 <= i < t.len() implies hex_value(#[trigger] t[i]) is Some by {
        assert(0 <= i / 2 < b.len());
    }
    let back = Seq::new(
        t.len() / 2,
        |i: int| (16 * hex_value(t[2 * i])->0 + hex_value(t[2 * i + 1])->0) as u8,
    );
    assert forall|i: int| 0 <= i < b.len() implies #[trigger] back[i] == b[i] by {
        assert((2 * i) / 2 == i && (2 * i + 1) / 2 == i);
        assert((2 * i) % 2 == 0 && (2 * i + 1) % 2 == 1);
        assert(hex_value(t[2 * i]) == Some(b[i] as int / 16));
        assert(hex_value(t[2 * i + 1]) == Some(b[i] as int % 16));
    }
    assert(back =~= b);
}

proof fn lemma_hex_is_plain(b: Seq<u8>)
    ensures
        lacks(hex_encoded(b), CharSet::One(':')),
{
    assert forall|i: int| 0 <= i < hex_encoded(b).len() implies !CharSet::One(':').has(
        #[trigger] hex_encoded(b)[i],
    ) by {
        assert(0 <= i / 2 < b.len());
    }
}

// ---------------------------------------------------------------------------
// Comparison
// ---------------------------------------------------------------------------

/// Whether two texts are the same, found out in a time that depends on their lengths
/// alone.
pub fn constant_time_eq(a: &str, b: &str) -> (r: bool)
    ensures
        r == (a@ == b@),
{
    let x = a.as_bytes();
    let y = b.as_bytes();
    if x.len() != y.len() {
        return false;
    }
    let mut diff: u8 = 0;
    let mut i: usize = 0;
    while i < x.len()
        invariant
            i <= x@.len(),
            x@.len() == y@.len(),
            (diff == 0) == (forall|k: int| 0 <= k < i ==> #[trigger] x@[k] == y@[k]),
        decreases x@.len() - i,
    {
        let before = diff;
        let p = x[i];
        let q = y[i];
        diff = diff | (p ^ q);
        assert((before | (p ^ q) == 0) == (before == 0 && p == q)) by (bit_vector);
        i += 1;
    }
    proof {
        if diff == 0 {
            assert(x@ =~= y@);
            lemma_encode_utf8_injective(a@, b@);
        }
    }
    diff == 0
}

// ---------------------------------------------------------------------------
// Hashes
// ---------------------------------------------------------------------------

/// How often the hash function is applied to a new password.
pub const HASH_ITERATIONS: u32 = 100_000;

/// How many bytes of salt a new password gets.
pub const SALT_BYTES: usize = 16;

/// How many bytes the hash of a new password has.
pub const HASH_BYTES: usize = 32;

/// The longest hash that can be computed.
pub const MAX_HASH_BYTES: u64 = 137_438_953_440;

/// PBKDF2 with HMAC-SHA256: the first `len` bytes that it derives from a password.
pub uninterp spec fn pbkdf2_sha256(
    password: Seq<char>,
    salt: Seq<u8>,
    iterations: u32,
    len: nat,
) -> Seq<u8>;

/// Calls `pbkdf2::pbkdf2` with HMAC-SHA256, which takes a password of any length and
/// fills as many bytes as are asked for. The bytes are named: they depend on the
/// arguments alone. Its counter of blocks overflows past `MAX_HASH_BYTES`.
#[verifier::external_body]
fn derive_key(password: &str, salt: &Vec<u8>, iterations: u32, len: usize) -> (r: Vec<u8>)
    requires
        len <= MAX_HASH_BYTES,
    ensures
        r@ == pbkdf2_sha256(password@, salt@, iterations, len as nat),
        r@.len() == len,
{
    let mut out = vec![0u8; len];
    let _ = pbkdf2::pbkdf2::<hmac::Hmac<sha2::Sha256>>(
        password.as_bytes(),
        salt,
        iterations,
        &mut out,
    );
    out
}

/// Fills bytes with `rand::thread_rng`. Nothing but their number is known.
#[verifier::external_body]
fn random_bytes(n: usize) -> (r: Vec<u8>)
    ensures
        r@.len() == n,
{
    let mut out = vec![0u8; n];
    rand::RngCore::fill_bytes(&mut rand::thread_rng(), &mut out);
    out
}

/// A hash as it is stored: `pbkdf2:<iterations>:<salt>:<hash>`.
pub open spec fn hash_text(iterations: nat, salt: Seq<u8>, hash: Seq<u8>) -> Seq<char> {
    "pbkdf2:"@ + decimal(iterations) + ":"@ + hex_encoded(salt) + ":"@ + hex_encoded(hash)
}

/// The hash that is stored for a password with a salt.
pub open spec fn hash_with(password: Seq<char>, salt: Seq<u8>) -> Seq<char> {
    hash_text(
        HASH_ITERATIONS as nat,
        salt,
        pbkdf2_sha256(password, salt, HASH_ITERATIONS, HASH_BYTES as nat),
    )
}

/// What a stored hash consists of: iterations, salt and hash.
pub open spec fn stored_hash(stored: Seq<char>) -> Option<(nat, Seq<u8>, Seq<u8>)> {
    let parts = split_at_set(stored, CharSet::One(':'));
    if parts.len() != 4 || parts[0] != "pbkdf2"@ {
        None
    } else {
        match (
            unsigned_up_to(parts[1], u32::MAX as nat),
            hex_decoded(parts[2]),
            hex_decoded(parts[3]),
        ) {
            (Some(n), Some(salt), Some(hash)) => Some((n, salt, hash)),
            _ => None,
        }
    }
}

/// Whether a password is the one that a hash was stored for.
pub open spec fn verifies(password: Seq<char>, stored: Seq<char>) -> bool {
    match stored_hash(stored) {
        Some((n, salt, hash)) => pbkdf2_sha256(password, salt, n as u32, hash.len()) == hash,
        None => false,
    }
}

/// Whether `stored` is a hash of a password: `pbkdf2`, the number of iterations, the
/// digits of a salt and those of the bytes derived from the password.
pub open spec fn is_hash_of(password: Seq<char>, stored: Seq<char>) -> bool {
    exists|salt: Seq<u8>|
        {
            &&& salt.len() == SALT_BYTES
            &&& pbkdf2_sha256(password, salt, HASH_ITERATIONS, HASH_BYTES as nat).len()
                == HASH_BYTES
            &&& stored == #[trigger] hash_with(password, salt)
        }
}

/// A stored hash has four parts: a word, the number of iterations, and the digits of the
/// salt and of the hash.
pub proof fn law_hash_has_four_parts(iterations: nat, salt: Seq<u8>, hash: Seq<u8>)
    ensures
        split_at_set(hash_text(iterations, salt, hash), CharSet::One(':')) == seq![
            "pbkdf2"@,
            decimal(iterations),
            hex_encoded(salt),
            hex_encoded(hash),
        ],
{
    reveal_strlit("pbkdf2:");
    reveal_strlit("pbkdf2");
    reveal_strlit(":");
    let colon = CharSet::One(':');
    let word = "pbkdf2"@;
    let n = decimal(iterations);
    lemma_decimal_reads_back(iterations);
    assert(lacks(word, colon));
    assert(lacks(n, colon)) by {
        assert forall|i: int| 0 <= i < n.len() implies !colon.has(#[trigger] n[i]) by {
            assert(is_digit(n[i]));
        }
    }
    lemma_hex_is_plain(salt);
    lemma_hex_is_plain(hash);
    let s1 = word.push(':') + n;
    let s2 = s1.push(':') + hex_encoded(salt);
    let s3 = s2.push(':') + hex_encoded(hash);
    lemma_split_whole(word, colon);
    lemma_split_last(word, ':', n, colon);
    lemma_split_last(s1, ':', hex_encoded(salt), colon);
    lemma_split_last(s2, ':', hex_encoded(hash), colon);
    assert(hash_text(iterations, salt, hash) =~= s3);
    assert(split_at_set(s3, colon) =~= seq![word, n, hex_encoded(salt), hex_encoded(hash)]);
}

/// A stored hash is read back as what it was made of.
pub proof fn law_hash_reads_back(iterations: nat, salt: Seq<u8>, hash: Seq<u8>)
    requires
        iterations <= u32::MAX,
    ensures
        stored_hash(hash_text(iterations, salt, hash)) == Some((iterations, salt, hash)),
{
    let n = decimal(iterations);
    let parts = split_at_set(hash_text(iterations, salt, hash), CharSet::One(':'));
    assert(parts.len() == 4 && parts[0] == "pbkdf2"@ && parts[1] == n && parts[2] == hex_encoded(
        salt,
    ) && parts[3] == hex_encoded(hash)) by {
        law_hash_has_four_parts(iterations, salt, hash);
    }
    assert(unsigned_up_to(n, u32::MAX as nat) == Some(iterations)) by {
        lemma_decimal_reads_back(iterations);
        assert(is_digit(n[0]));
    }
    law_hex_reads_back(salt);
    law_hex_reads_back(hash);
}

/// A password is accepted by the hash that was stored for it, whatever the salt.
pub proof fn law_own_password_verifies(password: Seq<char>, salt: Seq<u8>)
    requires
        pbkdf2_sha256(password, salt, HASH_ITERATIONS, HASH_BYTES as nat).len() == HASH_BYTES,
    ensures
        verifies(password, hash_with(password, salt)),
{
    law_hash_reads_back(
        HASH_ITERATIONS as nat,
        salt,
        pbkdf2_sha256(password, salt, HASH_ITERATIONS, HASH_BYTES as nat),
    );
}

proof fn lemma_hash_length(password: Seq<char>, salt: Seq<u8>)
    requires
        pbkdf2_sha256(password, salt, HASH_ITERATIONS, HASH_BYTES as nat).len() == HASH_BYTES,
    ensures
        decimal(HASH_ITERATIONS as nat) == "100000"@,
        hash_with(password, salt).len() == 15 + 2 * salt.len() + 2 * HASH_BYTES,
{
    reveal_strlit("pbkdf2:");
    reveal_strlit(":");
    reveal_strlit("100000");
    reveal_with_fuel(decimal, 6);
    assert(decimal(HASH_ITERATIONS as nat) =~= "100000"@);
}

/// Hashes a password with a given salt.
pub fn hash_password_with(password: &str, salt: &Vec<u8>) -> (r: String)
    ensures
        r@ == hash_with(password@, salt@),
        pbkdf2_sha256(password@, salt@, HASH_ITERATIONS, HASH_BYTES as nat).len() == HASH_BYTES,
        r@.len() == 15 + 2 * salt@.len() + 2 * HASH_BYTES,
        split_at_set(r@, CharSet::One(':')) == seq![
            "pbkdf2"@,
            "100000"@,
            hex_encoded(salt@),
            hex_encoded(pbkdf2_sha256(password@, salt@, HASH_ITERATIONS, HASH_BYTES as nat)),
        ],
        verifies(password@, r@),
{
    let hash = derive_key(password, salt, HASH_ITERATIONS, HASH_BYTES);
    let n = u64_text(HASH_ITERATIONS as u64);
    let salt_text = encode_hex(salt);
    let hash_text = encode_hex(&hash);
    let mut out = cat3("pbkdf2:", n.as_str(), ":");
    out.push_str(salt_text.as_str());
    out.push_str(":");
    out.push_str(hash_text.as_str());
    proof {
        law_own_password_verifies(password@, salt@);
        law_hash_has_four_parts(HASH_ITERATIONS as nat, salt@, hash@);
        lemma_hash_length(password@, salt@);
    }
    out
}

/// Hashes a password with a salt of its own.
pub fn hash_password(password: &str) -> (r: String)
    ensures
        is_hash_of(password@, r@),
        r@.len() == 15 + 2 * SALT_BYTES + 2 * HASH_BYTES,
        verifies(password@, r@),
{
    let salt = random_bytes(SALT_BYTES);
    let r = hash_password_with(password, &salt);
    assert(r@ == hash_with(password@, salt@));
    r
}

/// Whether a stored text can be held against a password: where it is a hash, one that is
/// not too long to be computed.
pub open spec fn is_checkable(stored: Seq<char>) -> bool {
    stored_hash(stored) matches Some((_, _, hash)) ==> hash.len() <= MAX_HASH_BYTES
}

/// Whether a stored text can be held against a password.
pub fn is_checkable_hash(stored: &str) -> (r: bool)
    ensures
        r == is_checkable(stored@),
{
    match read_hash(stored) {
        Some((_, _, hash)) => hash.len() as u64 <= MAX_HASH_BYTES,
        None => true,
    }
}

/// A hash that was made for a password accepts it, and can be checked.
pub proof fn law_own_hash_is_accepted(password: Seq<char>, stored: Seq<char>)
    requires
        is_hash_of(password, stored),
    ensures
        is_checkable(stored),
        verifies(password, stored),
{
    let salt = choose|salt: Seq<u8>|
        {
            &&& salt.len() == SALT_BYTES
            &&& pbkdf2_sha256(password, salt, HASH_ITERATIONS, HASH_BYTES as nat).len()
                == HASH_BYTES
            &&& stored == #[trigger] hash_with(password, salt)
        };
    law_own_password_verifies(password, salt);
    law_hash_reads_back(
        HASH_ITERATIONS as nat,
        salt,
        pbkdf2_sha256(password, salt, HASH_ITERATIONS, HASH_BYTES as nat),
    );
}

/// A text that is no hash can be checked, however long it is, and accepts no password: one
/// that does not have four parts, the word first, then a number, and then twice hexadecimal
/// digits.
pub proof fn law_malformed_hash_is_refused(password: Seq<char>, stored: Seq<char>)
    requires
        ({
            let parts = split_at_set(stored, CharSet::One(':'));
            ||| parts.len() != 4
            ||| parts[0] != "pbkdf2"@
            ||| unsigned_up_to(parts[1], u32::MAX as nat) is None
            ||| hex_decoded(parts[2]) is None
            ||| hex_decoded(parts[3]) is None
        }),
    ensures
        is_checkable(stored),
        !verifies(password, stored),
{
}

/// What a stored hash consists of.
fn read_hash(stored: &str) -> (r: Option<(u32, Vec<u8>, Vec<u8>)>)
    ensures
        match r {
            Some(h) => stored_hash(stored@) == Some((h.0 as nat, h.1@, h.2@)),
            None => stored_hash(stored@) is None,
        },
{
    let parts = split_set(stored, CharSet::One(':'));
    let ghost pieces = parts.deep_view();
    if parts.len() != 4 || !str_eq(parts[0].as_str(), "pbkdf2") {
        return None;
    }
    assert(pieces[1] == parts@[1]@ && pieces[2] == parts@[2]@ && pieces[3] == parts@[3]@);
    let iterations: u32 = match parse_unsigned(parts[1].as_str(), u32::MAX as u64) {
        Some(n) => n as u32,
        None => {
            return None;
        },
    };
    match (decode_hex(parts[2].as_str()), decode_hex(parts[3].as_str())) {
        (Some(salt), Some(hash)) => Some((iterations, salt, hash)),
        _ => None,
    }
}

/// Whether a password is the one that a hash was stored for.
pub fn verify_password_hash(password: &str, stored: &str) -> (r: bool)
    requires
        is_checkable(stored@),
    ensures
        r == verifies(password@, stored@),
{
    match read_hash(stored) {
        Some((iterations, salt, expected)) => {
            let computed = derive_key(password, &salt, iterations, expected.len());
            let a = encode_hex(&computed);
            let b = encode_hex(&expected);
            proof {
                law_hex_reads_back(computed@);
                law_hex_reads_back(expected@);
            }
            constant_time_eq(a.as_str(), b.as_str())
        },
        None => false,
    }
}

// ---------------------------------------------------------------------------
// Laws of hashes
// ---------------------------------------------------------------------------

/// A hash accepts the passwords from which the same bytes are derived, with its own salt and
/// as often as it says, and no others.
pub proof fn law_hash_decides(
    password: Seq<char>,
    iterations: nat,
    salt: Seq<u8>,
    hash: Seq<u8>,
)
    requires
        iterations <= u32::MAX,
    ensures
        verifies(password, hash_text(iterations, salt, hash)) == (pbkdf2_sha256(
            password,
            salt,
            iterations as u32,
            hash.len(),
        ) == hash),
        HASH_ITERATIONS == 100_000,
        SALT_BYTES == 16,
        HASH_BYTES == 32,
{
    law_hash_reads_back(iterations, salt, hash);
}

/// Bytes in hexadecimal notation: two digits for each, the higher first, in lower case; and
/// digits are read in either case.
pub proof fn law_digits_of_bytes(b: Seq<u8>, i: int, c: char)
    requires
        0 <= i < b.len(),
    ensures
        hex_encoded(b).len() == 2 * b.len(),
        hex_value(hex_encoded(b)[2 * i]) == Some(b[i] as int / 16),
        hex_value(hex_encoded(b)[2 * i + 1]) == Some(b[i] as int % 16),
        !('A' <= hex_encoded(b)[2 * i] <= 'Z') && !('A' <= hex_encoded(b)[2 * i + 1] <= 'Z'),
        '0' <= c <= '9' ==> hex_value(c) == Some(c as int - 48),
        'a' <= c <= 'f' ==> hex_value(c) == Some(c as int - 87),
        'A' <= c <= 'F' ==> hex_value(c) == Some(c as int - 55),
        !('0' <= c <= '9') && !('a' <= c <= 'f') && !('A' <= c <= 'F') ==> hex_value(c) is None,
{
    let n = b[i] as int;
    assert((2 * i) / 2 == i && (2 * i + 1) / 2 == i && (2 * i) % 2 == 0 && (2 * i + 1) % 2 == 1);
    assert(hex_encoded(b)[2 * i] == hex_digit(n / 16));
    assert(hex_encoded(b)[2 * i + 1] == hex_digit(n % 16));
    assert(0 <= n / 16 < 16 && 0 <= n % 16 < 16);
}

} // verus!
