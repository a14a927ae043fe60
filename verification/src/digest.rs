//! Content digests: the BLAKE3 hash of a file's bytes, written in hexadecimal.

use vstd::prelude::*;

verus! {

/// The incremental hasher of the `blake3` crate.
#[verifier::external_type_specification]
#[verifier::external_body]
pub struct ExHasher(blake3::Hasher);

/// The bytes that a hasher has been given so far, in the order in which it got them.
pub uninterp spec fn absorbed(hasher: blake3::Hasher) -> Seq<u8>;

/// The BLAKE3 hash of a sequence of bytes.
pub uninterp spec fn blake3_hash(input: Seq<u8>) -> Seq<u8>;

/// The length of a hash in bytes.
pub const HASH_LEN: usize = 32;

/// Calls `blake3::Hasher::new`: a hasher that has been given nothing yet.
#[verifier::external_body]
fn hasher_new() -> (hasher: blake3::Hasher)
    ensures
        absorbed(hasher) == Seq::<u8>::empty(),
{
    blake3::Hasher::new()
}

/// Calls `blake3::Hasher::update`, which adds the bytes to what the hasher has
/// been given.
#[verifier::external_body]
fn hasher_update(hasher: &mut blake3::Hasher, chunk: &[u8])
    ensures
        absorbed(*final(hasher)) == absorbed(*old(hasher)) + chunk@,
{
    hasher.update(chunk);
}

/// Calls `blake3::Hasher::finalize`: the hash of all that the hasher has been
/// given, which is 32 bytes long and a function of those bytes alone, however
/// they were split into chunks.
#[verifier::external_body]
fn hasher_finalize(hasher: &blake3::Hasher) -> (hash: Vec<u8>)
    ensures
        hash@ == blake3_hash(absorbed(*hasher)),
        hash@.len() == HASH_LEN,
{
    hasher.finalize().as_bytes().to_vec()
}

/// The character of a hexadecimal digit, in lower case.
pub open spec fn hex_digit(n: u8) -> char
    recommends
        n < 16,
{
    if n < 10 {
        (48 + n) as u8 as char
    } else {
        (87 + n) as u8 as char
    }
}

/// The bytes in hexadecimal, two digits to the byte, in lower case.
pub open spec fn hex_text(bytes: Seq<u8>) -> Seq<char>
    decreases bytes.len(),
{
    if bytes.len() == 0 {
        Seq::empty()
    } else {
        hex_text(bytes.drop_last()).push(hex_digit(bytes.last() / 16)).push(
            hex_digit(bytes.last() % 16),
        )
    }
}

/// The character of a hexadecimal digit, in upper case.
pub open spec fn upper_hex_digit(n: u8) -> char
    recommends
        n < 16,
{
    if n < 10 {
        (48 + n) as u8 as char
    } else {
        (55 + n) as u8 as char
    }
}

/// The bytes in hexadecimal, two digits to the byte, in upper case.
pub open spec fn upper_hex_text(bytes: Seq<u8>) -> Seq<char>
    decreases bytes.len(),
{
    if bytes.len() == 0 {
        Seq::empty()
    } else {
        upper_hex_text(bytes.drop_last()).push(upper_hex_digit(bytes.last() / 16)).push(
            upper_hex_digit(bytes.last() % 16),
        )
    }
}

/// A text in hexadecimal has two characters to the byte.
pub proof fn lemma_hex_len(bytes: Seq<u8>)
    ensures
        hex_text(bytes).len() == 2 * bytes.len(),
        upper_hex_text(bytes).len() == 2 * bytes.len(),
    decreases bytes.len(),
{
    if bytes.len() > 0 {
        lemma_hex_len(bytes.drop_last());
    }
}

/// The character of a hexadecimal digit.
fn digit(n: u8, upper: bool) -> (c: char)
    requires
        n < 16,
    ensures
        c == if upper {
            upper_hex_digit(n)
        } else {
            hex_digit(n)
        },
{
    if n < 10 {
        (48 + n) as char
    } else if upper {
        (55 + n) as char
    } else {
        (87 + n) as char
    }
}

/// Writes bytes in hexadecimal, in lower case.
pub fn hex_lower(bytes: &[u8]) -> (text: String)
    ensures
        text@ == hex_text(bytes@),
{
    let mut text = String::new();
    let mut i: usize = 0;
    assert(bytes@.take(0) =~= Seq::<u8>::empty());
    while i < bytes.len()
        invariant
            i <= bytes@.len(),
            text@ == hex_text(bytes@.take(i as int)),
        decreases bytes.len() - i,
    {
        let b = bytes[i];
        proof {
            assert(bytes@.take(i + 1).drop_last() =~= bytes@.take(i as int));
            assert(bytes@.take(i + 1).last() == b);
        }
        text.push(digit(b / 16, false));
        text.push(digit(b % 16, false));
        i += 1;
    }
    assert(bytes@.take(bytes@.len() as int) =~= bytes@);
    text
}

/// Writes bytes in hexadecimal, in upper case.
pub fn hex_upper(bytes: &[u8]) -> (text: String)
    ensures
        text@ == upper_hex_text(bytes@),
{
    let mut text = String::new();
    let mut i: usize = 0;
    assert(bytes@.take(0) =~= Seq::<u8>::empty());
    while i < bytes.len()
        invariant
            i <= bytes@.len(),
            text@ == upper_hex_text(bytes@.take(i as int)),
        decreases bytes.len() - i,
    {
        let b = bytes[i];
        proof {
            assert(bytes@.take(i + 1).drop_last() =~= bytes@.take(i as int));
            assert(bytes@.take(i + 1).last() == b);
        }
        text.push(digit(b / 16, true));
        text.push(digit(b % 16, true));
        i += 1;
    }
    assert(bytes@.take(bytes@.len() as int) =~= bytes@);
    text
}

/// The digest of a content: its hash in hexadecimal.
pub open spec fn digest_text(content: Seq<u8>) -> Seq<char> {
    hex_text(blake3_hash(content))
}

/// Computes the digest of a content that comes in chunks.
pub struct ContentHasher {
    inner: blake3::Hasher,
}

impl ContentHasher {
    /// The content taken in so far.
    pub closed spec fn content(&self) -> Seq<u8> {
        absorbed(self.inner)
    }

    /// A hasher that has taken in nothing.
    pub fn new() -> (hasher: Self)
        ensures
            hasher.content() == Seq::<u8>::empty(),
    {
        ContentHasher { inner: hasher_new() }
    }

    /// Takes in the next chunk of the content.
    pub fn update(&mut self, chunk: &[u8])
        ensures
            final(self).content() == old(self).content() + chunk@,
    {
        hasher_update(&mut self.inner, chunk);
    }

    /// The hash of the content taken in so far.
    pub fn hash(&self) -> (hash: Vec<u8>)
        ensures
            hash@ == blake3_hash(self.content()),
            hash@.len() == HASH_LEN,
    {
        hasher_finalize(&self.inner)
    }

    /// The digest of the content taken in so far: 64 hexadecimal digits.
    pub fn finalize(&self) -> (digest: String)
        ensures
            digest@ == digest_text(self.content()),
            digest@.len() == 2 * HASH_LEN,
    {
        let hash = hasher_finalize(&self.inner);
        proof {
            lemma_hex_len(hash@);
        }
        hex_lower(hash.as_slice())
    }
}

/// The hash of `content`.
pub fn hash_bytes(content: &[u8]) -> (hash: Vec<u8>)
    ensures
        hash@ == blake3_hash(content@),
        hash@.len() == HASH_LEN,
{
    let mut hasher = ContentHasher::new();
    hasher.update(content);
    assert(Seq::<u8>::empty() + content@ =~= content@);
    hasher.hash()
}

/// The digest of a file's content: the same for the same bytes, whatever the
/// file is called and wherever it lies.
pub fn calculate_file_hash(content: &[u8]) -> (digest: String)
    ensures
        digest@ == digest_text(content@),
        digest@.len() == 2 * HASH_LEN,
{
    let mut hasher = ContentHasher::new();
    hasher.update(content);
    assert(Seq::<u8>::empty() + content@ =~= content@);
    hasher.finalize()
}

/// A file as a run meets it.
pub ghost struct StoredFile {
    pub name: Seq<char>,
    pub directory: Seq<char>,
    pub content: Seq<u8>,
}

/// Two files with the same bytes have the same digest, whatever their names and
/// their directories are.
pub proof fn lemma_digest_depends_on_content_alone(a: StoredFile, b: StoredFile)
    requires
        a.content == b.content,
    ensures
        digest_text(a.content) == digest_text(b.content),
{
}

} // verus!
