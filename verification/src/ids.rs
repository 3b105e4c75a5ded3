//! Issue identifier generation.

use crate::error::{KanbusError, KanbusErrorView};
use crate::text::{chars_of, contains_text, push_str, slice_of, string_of};
use vstd::prelude::*;
use vstd::string::StrSliceExecFns;

use vstd::utf8::encode_utf8;

verus! {

/// Request to generate a unique issue identifier.
#[derive(Debug)]
pub struct IssueIdentifierRequest {
    /// Issue title.
    pub title: String,
    /// Existing identifiers to avoid collisions.
    pub existing_ids: Vec<String>,
    /// ID prefix.
    pub prefix: String,
    /// Creation time as RFC 3339 text, used as part of the hash.
    pub created_at: String,
}

/// Generated issue identifier.
#[derive(Debug)]
pub struct IssueIdentifierResult {
    /// Unique issue identifier.
    pub identifier: String,
}

/// The number of random bytes that go into one identifier.
pub const RANDOM_BYTE_COUNT: usize = 8;

/// The number of identifiers tried before generation gives up.
pub const MAX_ATTEMPTS: usize = 10;

/// The SHA-256 digest of `data`, written as 64 small hexadecimal digits.
pub uninterp spec fn sha256_hex(data: Seq<u8>) -> Seq<char>;

/// Hashes `data`.
///
/// Trusted: calls `Sha256::digest` of the `sha2` crate and writes the
/// digest with `{:x}`. The digest depends on the bytes alone; it is named
/// `sha256_hex`. A SHA-256 digest has 32 bytes, so its text has 64
/// characters.
#[verifier::external_body]
pub(crate) fn digest_hex(data: &Vec<u8>) -> (out: String)
    ensures
        out@ == sha256_hex(data@),
        out@.len() == 64,
{
    format!("{:x}", <sha2::Sha256 as sha2::Digest>::digest(data))
}

/// Eight bytes from the thread's random number generator.
///
/// Trusted: calls `rand::thread_rng` and `RngCore::fill_bytes` on an array
/// of eight bytes. Nothing is known of the bytes but their number.
#[verifier::external_body]
fn fresh_bytes() -> (out: Vec<u8>)
    ensures
        out.len() == RANDOM_BYTE_COUNT,
{
    let mut bytes = [0u8; 8];
    rand::RngCore::fill_bytes(&mut rand::thread_rng(), &mut bytes);
    bytes.to_vec()
}

/// The bytes that are hashed for one identifier: the title, the creation
/// time and the random bytes.
pub open spec fn hash_material(title: Seq<u8>, created_at: Seq<u8>, random: Seq<u8>) -> Seq<u8> {
    title + created_at + random
}

/// The identifier that `random` gives for a request: the prefix, a hyphen,
/// and the first six digits of the hash.
pub open spec fn identifier_from(
    prefix: Seq<char>,
    title: Seq<u8>,
    created_at: Seq<u8>,
    random: Seq<u8>,
) -> Seq<char> {
    prefix + seq!['-'] + sha256_hex(hash_material(title, created_at, random)).take(6)
}

/// Appends bytes.
fn push_bytes(out: &mut Vec<u8>, tail: &Vec<u8>)
    ensures
        final(out)@ == old(out)@ + tail@,
{
    let mut i: usize = 0;
    while i < tail.len()
        invariant
            i <= tail.len(),
            out@ == old(out)@ + tail@.take(i as int),
        decreases tail.len() - i,
    {
        out.push(tail[i]);
        proof {
            assert(tail@.take(i + 1) == tail@.take(i as int).push(tail@[i as int]));
        }
        i += 1;
    }
    proof {
        assert(tail@.take(tail.len() as int) == tail@);
    }
}

/// The number of hash digits in an identifier.
pub const IDENTIFIER_DIGITS: usize = 6;

/// The first `count` characters of a digest, or all of it where it is
/// shorter.
pub open spec fn head_of(digest: Seq<char>, count: nat) -> Seq<char> {
    if count <= digest.len() {
        digest.take(count as int)
    } else {
        digest
    }
}

/// Cuts the first `count` characters off a digest.
pub fn digest_head(digest: &str, count: usize) -> (out: String)
    ensures
        out@ == head_of(digest@, count as nat),
{
    let digits = chars_of(digest);
    if count <= digits.len() {
        let head = slice_of(&digits, 0, count);
        proof {
            assert(digits@.subrange(0, count as int) == digits@.take(count as int));
        }
        string_of(&head)
    } else {
        string_of(&digits)
    }
}

/// The first six digits of the hash of title, creation time and random
/// bytes.
pub fn hash_identifier_material(title: &str, created_at: &str, random_bytes: &Vec<u8>) -> (out:
    String)
    ensures
        out@ == sha256_hex(
            hash_material(encode_utf8(title@), encode_utf8(created_at@), random_bytes@),
        ).take(6),
{
    let mut material = title.as_bytes_vec();
    let stamp = created_at.as_bytes_vec();
    push_bytes(&mut material, &stamp);
    push_bytes(&mut material, random_bytes);
    let digest = digest_hex(&material);
    digest_head(digest.as_str(), IDENTIFIER_DIGITS)
}

/// The identifier that `random_bytes` gives for `request`.
pub fn identifier_for(request: &IssueIdentifierRequest, random_bytes: &Vec<u8>) -> (out: String)
    ensures
        out@ == identifier_from(
            request.prefix@,
            encode_utf8(request.title@),
            encode_utf8(request.created_at@),
            random_bytes@,
        ),
{
    let digest = hash_identifier_material(
        request.title.as_str(),
        request.created_at.as_str(),
        random_bytes,
    );
    let mut text = chars_of(request.prefix.as_str());
    text.push('-');
    push_str(&mut text, digest.as_str());
    string_of(&text)
}

/// Whether `identifier` is among `existing`.
pub fn is_taken(existing: &Vec<String>, identifier: &str) -> (out: bool)
    ensures
        out == existing.deep_view().contains(identifier@),
{
    contains_text(existing, identifier)
}

/// The random bytes used when fixed bytes are given in place of fresh ones:
/// the first eight of them, with zeros behind where there are fewer.
pub open spec fn fixed_bytes(given: Seq<u8>) -> Seq<u8> {
    Seq::new(
        RANDOM_BYTE_COUNT as nat,
        |i: int|
            if i < given.len() {
                given[i]
            } else {
                0u8
            },
    )
}

/// Executable form of [`fixed_bytes`].
pub fn fixed_random_bytes(given: &Vec<u8>) -> (out: Vec<u8>)
    ensures
        out@ == fixed_bytes(given@),
{
    let mut out: Vec<u8> = Vec::new();
    let mut i: usize = 0;
    while i < RANDOM_BYTE_COUNT
        invariant
            i <= RANDOM_BYTE_COUNT,
            out@ == fixed_bytes(given@).take(i as int),
        decreases RANDOM_BYTE_COUNT - i,
    {
        let byte: u8 = if i < given.len() {
            given[i]
        } else {
            0
        };
        out.push(byte);
        proof {
            assert(fixed_bytes(given@).take(i + 1) =~= fixed_bytes(given@).take(i as int).push(
                byte,
            ));
        }
        i += 1;
    }
    proof {
        assert(fixed_bytes(given@).take(RANDOM_BYTE_COUNT as int) =~= fixed_bytes(given@));
    }
    out
}

/// The error for a request for which no free identifier was found.
pub open spec fn exhausted_error() -> KanbusErrorView {
    KanbusErrorView::IdGenerationFailed("unable to generate unique id after 10 attempts"@)
}

/// Whether `identifier` is what some eight random bytes give for a prefix,
/// a title and a creation time.
pub open spec fn is_candidate(
    prefix: Seq<char>,
    title: Seq<u8>,
    created_at: Seq<u8>,
    identifier: Seq<char>,
) -> bool {
    exists|random: Seq<u8>|
        random.len() == RANDOM_BYTE_COUNT && #[trigger] identifier_from(
            prefix,
            title,
            created_at,
            random,
        ) == identifier
}

/// Generate a unique issue ID using SHA256 hash: up to ten candidates are
/// tried, each from eight random bytes, and the first that is not taken
/// wins. With `fixed` bytes given, every candidate is made from those in
/// place of random ones.
pub fn generate_issue_identifier(request: &IssueIdentifierRequest, fixed: Option<&Vec<u8>>) -> (out:
    Result<IssueIdentifierResult, KanbusError>)
    ensures
        match out {
            Ok(result) => !request.existing_ids.deep_view().contains(result.identifier@)
                && is_candidate(
                request.prefix@,
                encode_utf8(request.title@),
                encode_utf8(request.created_at@),
                result.identifier@,
            ),
            Err(error) => error@ == exhausted_error(),
        },
        fixed matches Some(given) ==> (match out {
            Ok(result) => result.identifier@ == identifier_from(
                request.prefix@,
                encode_utf8(request.title@),
                encode_utf8(request.created_at@),
                fixed_bytes(given@),
            ),
            Err(_) => request.existing_ids.deep_view().contains(
                identifier_from(
                    request.prefix@,
                    encode_utf8(request.title@),
                    encode_utf8(request.created_at@),
                    fixed_bytes(given@),
                ),
            ),
        }),
{
    let mut attempt: usize = 0;
    while attempt < MAX_ATTEMPTS
        invariant
            attempt <= MAX_ATTEMPTS,
            fixed matches Some(given) ==> attempt > 0 ==> request.existing_ids.deep_view().contains(
                identifier_from(
                    request.prefix@,
                    encode_utf8(request.title@),
                    encode_utf8(request.created_at@),
                    fixed_bytes(given@),
                ),
            ),
        decreases MAX_ATTEMPTS - attempt,
    {
        let random = match fixed {
            Some(given) => fixed_random_bytes(given),
            None => fresh_bytes(),
        };
        let identifier = identifier_for(request, &random);
        if !is_taken(&request.existing_ids, identifier.as_str()) {
            return Ok(IssueIdentifierResult { identifier });
        }
        attempt += 1;
    }
    Err(
        KanbusError::IdGenerationFailed(
            crate::text::owned("unable to generate unique id after 10 attempts"),
        ),
    )
}

/// Generates `count` identifiers for one title, prefix and creation time,
/// each from eight random bytes and different from those before it.
pub fn generate_many_identifiers(title: &str, prefix: &str, count: usize, created_at: &str) -> (out:
    Result<Vec<String>, KanbusError>)
    ensures
        match out {
            Ok(identifiers) => {
                &&& identifiers.len() == count
                &&& identifiers.deep_view().no_duplicates()
                &&& forall|k: int|
                    0 <= k < identifiers.len() ==> is_candidate(
                        prefix@,
                        encode_utf8(title@),
                        encode_utf8(created_at@),
                        #[trigger] identifiers.deep_view()[k],
                    )
            },
            Err(error) => error@ == exhausted_error(),
        },
{
    let mut request = IssueIdentifierRequest {
        title: crate::text::owned(title),
        existing_ids: Vec::new(),
        prefix: crate::text::owned(prefix),
        created_at: crate::text::owned(created_at),
    };
    let mut made: usize = 0;
    while made < count
        invariant
            made <= count,
            request.title@ == title@,
            request.prefix@ == prefix@,
            request.created_at@ == created_at@,
            request.existing_ids.len() == made,
            request.existing_ids.deep_view().no_duplicates(),
            forall|k: int|
                0 <= k < request.existing_ids.len() ==> is_candidate(
                    prefix@,
                    encode_utf8(title@),
                    encode_utf8(created_at@),
                    #[trigger] request.existing_ids.deep_view()[k],
                ),
        decreases count - made,
    {
        match generate_issue_identifier(&request, None) {
            Ok(result) => {
                let ghost before = request.existing_ids.deep_view();
                request.existing_ids.push(result.identifier);
                proof {
                    assert(request.existing_ids.deep_view() =~= before.push(result.identifier@));
                }
            },
            Err(error) => {
                return Err(error);
            },
        }
        made += 1;
    }
    Ok(request.existing_ids)
}

/// The value of a hexadecimal digit, if `c` is one.
pub open spec fn hex_value(c: char) -> Option<u8> {
    let n = c as u32;
    if 0x30 <= n && n <= 0x39 {
        Some((n - 0x30) as u8)
    } else if 0x61 <= n && n <= 0x66 {
        Some((n - 0x61 + 10) as u8)
    } else if 0x41 <= n && n <= 0x46 {
        Some((n - 0x41 + 10) as u8)
    } else {
        None
    }
}

/// The byte that two characters write in base sixteen: two digits, or a
/// plus sign and one digit.
pub open spec fn pair_value(high: char, low: char) -> Option<u8> {
    match (hex_value(high), hex_value(low)) {
        (Some(h), Some(l)) => Some((h * 16 + l) as u8),
        (None, Some(l)) => if high == '+' {
            Some(l)
        } else {
            None
        },
        _ => None,
    }
}

/// The bytes that the characters of `s` write pair by pair, or `None` where
/// a pair writes no byte. A character left over at the end is passed over.
pub open spec fn pairs_value(s: Seq<char>) -> Option<Seq<u8>>
    decreases s.len(),
{
    if s.len() < 2 {
        Some(Seq::empty())
    } else {
        match pair_value(s[0], s[1]) {
            None => None,
            Some(byte) => match pairs_value(s.skip(2)) {
                None => None,
                Some(rest) => Some(seq![byte] + rest),
            },
        }
    }
}

/// What `text` decodes to: an error where its UTF-8 form has an odd number
/// of bytes or a pair writes no byte, else the bytes of its pairs.
pub open spec fn decoded(text: Seq<char>, byte_count: nat) -> Option<Seq<u8>> {
    if byte_count % 2 != 0 {
        None
    } else {
        pairs_value(text)
    }
}

/// Executable form of [`hex_value`].
fn hex_digit(c: char) -> (out: Option<u8>)
    ensures
        out == hex_value(c),
{
    let n: u32 = c as u32;
    if 0x30 <= n && n <= 0x39 {
        Some((n - 0x30) as u8)
    } else if 0x61 <= n && n <= 0x66 {
        Some((n - 0x61 + 10) as u8)
    } else if 0x41 <= n && n <= 0x46 {
        Some((n - 0x41 + 10) as u8)
    } else {
        None
    }
}

/// Decodes the hexadecimal text that stands in for random bytes in tests.
pub fn decode_hex(value: &str) -> (out: Result<Vec<u8>, KanbusError>)
    ensures
        match decoded(value@, value.len() as nat) {
            Some(bytes) => out matches Ok(v) && v@ == bytes,
            None => out matches Err(e) && e@ == KanbusErrorView::IdGenerationFailed(
                "invalid TASKULUS_TEST_RANDOM_BYTES"@,
            ),
        },
{
    if value.len() % 2 != 0 {
        return Err(
            KanbusError::IdGenerationFailed(crate::text::owned("invalid TASKULUS_TEST_RANDOM_BYTES")),
        );
    }
    let text = chars_of(value);
    let mut bytes: Vec<u8> = Vec::new();
    let mut i: usize = 0;
    proof {
        assert(text@.skip(0) == text@);
        match pairs_value(text@) {
            Some(rest) => {
                assert(bytes@ + rest == rest);
            },
            None => {},
        }
    }
    while i < text.len() && text.len() - i >= 2
        invariant
            i <= text.len(),
            text@ == value@,
            value.len() % 2 == 0,
            pairs_value(text@) == (match pairs_value(text@.skip(i as int)) {
                Some(rest) => Some(bytes@ + rest),
                None => None,
            }),
        decreases text.len() - i,
    {
        let ghost rest = text@.skip(i as int);
        proof {
            assert(rest[0] == text@[i as int]);
            assert(rest[1] == text@[i + 1]);
            assert(rest.skip(2) == text@.skip(i + 2));
        }
        let high = hex_digit(text[i]);
        let low = hex_digit(text[i + 1]);
        let byte: u8 = match (high, low) {
            (Some(h), Some(l)) => h * 16 + l,
            (None, Some(l)) => {
                if text[i] == '+' {
                    l
                } else {
                    return Err(
                        KanbusError::IdGenerationFailed(
                            crate::text::owned("invalid TASKULUS_TEST_RANDOM_BYTES"),
                        ),
                    );
                }
            },
            _ => {
                return Err(
                    KanbusError::IdGenerationFailed(
                        crate::text::owned("invalid TASKULUS_TEST_RANDOM_BYTES"),
                    ),
                );
            },
        };
        let ghost before = bytes@;
        bytes.push(byte);
        proof {
            match pairs_value(rest.skip(2)) {
                Some(tail) => {
                    assert(before + (seq![byte] + tail) == before.push(byte) + tail);
                },
                None => {},
            }
        }
        i += 2;
    }
    proof {
        assert(bytes@ + Seq::<u8>::empty() == bytes@);
    }
    Ok(bytes)
}

} // verus!
