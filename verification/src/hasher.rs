//! CRC32, MD5 and SHA-1 of a dump, computed together.

use vstd::prelude::*;
use md5::Digest;
use crate::bytes::be32_bytes;
use crate::text::push_char;

verus! {

#[verifier::external_type_specification]
#[verifier::external_body]
pub struct ExCrc32Hasher(crc32fast::Hasher);

/// An MD5 hasher (`md5::Md5`), held opaque: Verus cannot declare the
/// generic wrapper type behind that alias.
#[verifier::external_body]
pub struct Md5State {
    inner: md5::Md5,
}

/// A SHA-1 hasher (`sha1::Sha1`), held opaque for the same reason.
#[verifier::external_body]
pub struct Sha1State {
    inner: sha1::Sha1,
}

/// The bytes absorbed by a CRC32 hasher.
pub uninterp spec fn crc32_fed(h: crc32fast::Hasher) -> Seq<u8>;

/// The bytes absorbed by an MD5 hasher.
pub uninterp spec fn md5_fed(h: Md5State) -> Seq<u8>;

/// The bytes absorbed by a SHA-1 hasher.
pub uninterp spec fn sha1_fed(h: Sha1State) -> Seq<u8>;

/// The MD5 digest of `data`.
pub uninterp spec fn md5_digest(data: Seq<u8>) -> Seq<u8>;

/// The SHA-1 digest of `data`.
pub uninterp spec fn sha1_digest(data: Seq<u8>) -> Seq<u8>;

/// One step of the reflected CRC-32 register (polynomial 0xEDB88320).
pub open spec fn crc32_shift(r: u32) -> u32 {
    if r & 1u32 != 0 {
        (r >> 1u32) ^ 0xEDB8_8320u32
    } else {
        r >> 1u32
    }
}

/// The CRC-32 register after absorbing one byte.
pub open spec fn crc32_byte(r: u32, b: u8) -> u32 {
    let x = r ^ (b as u32);
    crc32_shift(crc32_shift(crc32_shift(crc32_shift(crc32_shift(crc32_shift(crc32_shift(crc32_shift(x))))))))
}

/// The CRC-32 register after `data`, starting from all ones.
pub open spec fn crc32_register(data: Seq<u8>) -> u32
    decreases data.len(),
{
    if data.len() == 0 {
        0xFFFF_FFFFu32
    } else {
        crc32_byte(crc32_register(data.drop_last()), data.last())
    }
}

/// The CRC-32 (ISO-HDLC, as by zlib) of `data`.
pub open spec fn crc32_of(data: Seq<u8>) -> u32 {
    !crc32_register(data)
}

/// A new CRC32 hasher (`crc32fast::Hasher::new`): nothing absorbed.
#[verifier::external_body]
fn crc32_new() -> (h: crc32fast::Hasher)
    ensures
        crc32_fed(h) == Seq::<u8>::empty(),
{
    crc32fast::Hasher::new()
}

/// Absorbs `data` (`crc32fast::Hasher::update`); its byte counter is a u64.
#[verifier::external_body]
fn crc32_update(h: &mut crc32fast::Hasher, data: &[u8])
    requires
        crc32_fed(*old(h)).len() + data@.len() <= u64::MAX,
    ensures
        crc32_fed(*final(h)) == crc32_fed(*old(h)) + data@,
{
    h.update(data);
}

/// The CRC-32 of the absorbed bytes (`crc32fast::Hasher::finalize`).
#[verifier::external_body]
fn crc32_finalize(h: crc32fast::Hasher) -> (c: u32)
    ensures
        c == crc32_of(crc32_fed(h)),
{
    h.finalize()
}

/// A new MD5 hasher (`Md5::new`): nothing absorbed.
#[verifier::external_body]
fn md5_new() -> (h: Md5State)
    ensures
        md5_fed(h) == Seq::<u8>::empty(),
{
    Md5State { inner: md5::Md5::new() }
}

/// Absorbs `data` (`Md5::update`).
#[verifier::external_body]
fn md5_update(h: &mut Md5State, data: &[u8])
    ensures
        md5_fed(*final(h)) == md5_fed(*old(h)) + data@,
{
    h.inner.update(data);
}

/// The 16-byte MD5 digest of the absorbed bytes (`Md5::finalize`).
#[verifier::external_body]
fn md5_finalize(h: Md5State) -> (d: Vec<u8>)
    ensures
        d@ == md5_digest(md5_fed(h)),
        d@.len() == 16,
{
    h.inner.finalize().to_vec()
}

/// A new SHA-1 hasher (`Sha1::new`): nothing absorbed.
#[verifier::external_body]
fn sha1_new() -> (h: Sha1State)
    ensures
        sha1_fed(h) == Seq::<u8>::empty(),
{
    Sha1State { inner: sha1::Sha1::new() }
}

/// Absorbs `data` (`Sha1::update`); its block counter is a u64.
#[verifier::external_body]
fn sha1_update(h: &mut Sha1State, data: &[u8])
    requires
        sha1_fed(*old(h)).len() + data@.len() <= u64::MAX,
    ensures
        sha1_fed(*final(h)) == sha1_fed(*old(h)) + data@,
{
    h.inner.update(data);
}

/// The 20-byte SHA-1 digest of the absorbed bytes (`Sha1::finalize`).
#[verifier::external_body]
fn sha1_finalize(h: Sha1State) -> (d: Vec<u8>)
    ensures
        d@ == sha1_digest(sha1_fed(h)),
        d@.len() == 20,
{
    h.inner.finalize().to_vec()
}

/// The lowercase hexadecimal digit of a nibble.
pub open spec fn hex_digit(n: u8) -> char {
    if n < 10 {
        (('0' as u8) + n) as char
    } else {
        (('a' as u8) + n - 10) as char
    }
}

/// The lowercase hexadecimal text of bytes, two digits per byte.
pub open spec fn hex_of(b: Seq<u8>) -> Seq<char>
    decreases b.len(),
{
    if b.len() == 0 {
        Seq::empty()
    } else {
        hex_of(b.drop_last()) + seq![hex_digit(b.last() >> 4u8), hex_digit(b.last() & 0x0Fu8)]
    }
}

fn hex_char(n: u8) -> (c: char)
    requires
        n < 16,
    ensures
        c == hex_digit(n),
{
    if n < 10 {
        (48u8 + n) as char
    } else {
        (87u8 + n) as char
    }
}

/// The lowercase hexadecimal text of `bytes`.
pub fn to_hex(bytes: &[u8]) -> (s: String)
    ensures
        s@ == hex_of(bytes@),
{
    let mut s = String::new();
    let mut i: usize = 0;
    while i < bytes.len()
        invariant
            i <= bytes@.len(),
            s@ == hex_of(bytes@.subrange(0, i as int)),
        decreases bytes@.len() - i,
    {
        let b = bytes[i];
        let hi = b >> 4u8;
        let lo = b & 0x0Fu8;
        assert(hi < 16 && lo < 16) by (bit_vector)
            requires
                hi == b >> 4u8,
                lo == b & 0x0Fu8,
        ;
        push_char(&mut s, hex_char(hi));
        push_char(&mut s, hex_char(lo));
        proof {
            assert(bytes@.subrange(0, i + 1).drop_last() =~= bytes@.subrange(0, i as int));
        }
        i = i + 1;
    }
    assert(bytes@.subrange(0, bytes@.len() as int) =~= bytes@);
    s
}

/// The digests of a dump, as lowercase hexadecimal text.
#[derive(Debug, Clone, PartialEq, Eq)]
pub struct Digests {
    /// CRC32 (8 digits).
    pub crc32: String,
    /// MD5 (32 digits).
    pub md5: String,
    /// SHA-1 (40 digits).
    pub sha1: String,
}

/// `d` holds the digests of `data`.
pub open spec fn digests_of(d: Digests, data: Seq<u8>) -> bool {
    &&& d.crc32@ == hex_of(be32_bytes(crc32_of(data)))
    &&& d.md5@ == hex_of(md5_digest(data))
    &&& d.sha1@ == hex_of(sha1_digest(data))
}

/// CRC32, MD5 and SHA-1 of the same bytes, updated together.
pub struct MultiHash {
    crc: crc32fast::Hasher,
    md5: Md5State,
    sha1: Sha1State,
}

impl View for MultiHash {
    type V = Seq<u8>;

    /// The bytes absorbed so far.
    closed spec fn view(&self) -> Seq<u8> {
        crc32_fed(self.crc)
    }
}

impl MultiHash {
    /// The three hashers absorbed the same bytes.
    pub closed spec fn wf(&self) -> bool {
        &&& md5_fed(self.md5) == crc32_fed(self.crc)
        &&& sha1_fed(self.sha1) == crc32_fed(self.crc)
    }

    /// A hasher that absorbed nothing.
    pub fn new() -> (h: Self)
        ensures
            h.wf(),
            h@ == Seq::<u8>::empty(),
    {
        MultiHash { crc: crc32_new(), md5: md5_new(), sha1: sha1_new() }
    }

    /// Absorbs `data`.
    pub fn update(&mut self, data: &[u8])
        requires
            old(self).wf(),
            old(self)@.len() + data@.len() <= u64::MAX,
        ensures
            final(self).wf(),
            final(self)@ == old(self)@ + data@,
    {
        crc32_update(&mut self.crc, data);
        md5_update(&mut self.md5, data);
        sha1_update(&mut self.sha1, data);
    }

    /// The digests of the absorbed bytes.
    pub fn finish(self) -> (d: Digests)
        requires
            self.wf(),
        ensures
            digests_of(d, self@),
    {
        let crc = crc32_finalize(self.crc);
        let md5 = md5_finalize(self.md5);
        let sha1 = sha1_finalize(self.sha1);
        let crc_bytes: [u8; 4] = [(crc >> 24u32) as u8, (crc >> 16u32) as u8, (crc >> 8u32) as u8, crc as u8];
        assert(crc_bytes@ =~= be32_bytes(crc));
        Digests { crc32: to_hex(&crc_bytes), md5: to_hex(md5.as_slice()), sha1: to_hex(sha1.as_slice()) }
    }
}

impl Default for MultiHash {
    /// A hasher that absorbed nothing, as made by `new`.
    fn default() -> (h: Self)
        ensures
            h.wf(),
            h@ == Seq::<u8>::empty(),
    {
        MultiHash::new()
    }
}

} // verus!
