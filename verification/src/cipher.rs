//! Body encryption: AES-128-ECB with PKCS#7 padding.

use vstd::prelude::*;
use vstd::slice::slice_subrange;
use vstd::slice::slice_to_vec;
use aes::Aes128;
use aes::cipher::BlockDecrypt;
use aes::cipher::BlockEncrypt;
use aes::cipher::KeyInit;
use aes::cipher::generic_array::GenericArray;

verus! {

/// AES-128 encryption of one 16-byte block under a 16-byte key, as the
/// `aes` crate computes it: a function of key and block alone.
pub uninterp spec fn aes128_encrypt_block(key: Seq<u8>, block: Seq<u8>) -> Seq<u8>;

/// AES-128 decryption of one 16-byte block under a 16-byte key.
pub uninterp spec fn aes128_decrypt_block(key: Seq<u8>, block: Seq<u8>) -> Seq<u8>;

/// Relies on `aes::Aes128` (`BlockEncrypt::encrypt_block`): encrypts one
/// 16-byte block in place; the result is 16 bytes, depends on key and block
/// alone, and `decrypt_block` of the same cipher inverts it.
#[verifier::external_body]
fn enc_block(key: &[u8], block: &[u8]) -> (r: Vec<u8>)
    requires
        key@.len() == 16,
        block@.len() == 16,
    ensures
        r@ == aes128_encrypt_block(key@, block@),
        r@.len() == 16,
        aes128_decrypt_block(key@, r@) == block@,
{
    let cipher = Aes128::new(GenericArray::from_slice(key));
    let mut b = GenericArray::clone_from_slice(block);
    cipher.encrypt_block(&mut b);
    b.to_vec()
}

/// Relies on `aes::Aes128` (`BlockDecrypt::decrypt_block`): decrypts one
/// 16-byte block in place; the result is 16 bytes and depends on key and
/// block alone.
#[verifier::external_body]
fn dec_block(key: &[u8], block: &[u8]) -> (r: Vec<u8>)
    requires
        key@.len() == 16,
        block@.len() == 16,
    ensures
        r@ == aes128_decrypt_block(key@, block@),
        r@.len() == 16,
{
    let cipher = Aes128::new(GenericArray::from_slice(key));
    let mut b = GenericArray::clone_from_slice(block);
    cipher.decrypt_block(&mut b);
    b.to_vec()
}

/// Number of PKCS#7 padding bytes for a body of length `n`: always between
/// 1 and 16, and a multiple-of-16 body gets a full extra block.
pub open spec fn pkcs7_pad_len(n: nat) -> nat {
    (16 - n % 16) as nat
}

/// The body with its PKCS#7 padding appended: `pad_len` bytes, each
/// holding the value `pad_len`.
pub open spec fn pkcs7_pad(data: Seq<u8>) -> Seq<u8> {
    data + Seq::new(pkcs7_pad_len(data.len()), |i: int| pkcs7_pad_len(data.len()) as u8)
}

/// Does `s` end in well-formed PKCS#7 padding?  The last byte `n` must lie
/// in 1..=16, fit in the data, and the trailing `n` bytes must all be `n`.
pub open spec fn pkcs7_valid(s: Seq<u8>) -> bool {
    &&& s.len() > 0
    &&& 1 <= s.last() <= 16
    &&& s.last() <= s.len()
    &&& forall|i: int| s.len() - s.last() <= i < s.len() ==> s[i] == s.last()
}

/// `s` with its PKCS#7 padding removed.
pub open spec fn pkcs7_unpad(s: Seq<u8>) -> Seq<u8>
    recommends
        pkcs7_valid(s),
{
    s.take(s.len() - s.last())
}

/// Padding a body always yields valid padding, and unpadding gives the
/// body back.
pub proof fn lemma_pkcs7_round_trip(data: Seq<u8>)
    ensures
        pkcs7_pad(data).len() == data.len() + pkcs7_pad_len(data.len()),
        pkcs7_pad(data).len() % 16 == 0,
        pkcs7_valid(pkcs7_pad(data)),
        pkcs7_unpad(pkcs7_pad(data)) == data,
{
    let p = pkcs7_pad(data);
    let n = pkcs7_pad_len(data.len());
    assert(p.last() == n as u8);
    assert(pkcs7_unpad(p) =~= data);
}

/// ECB encryption of a whole (block-aligned) buffer: each 16-byte block
/// independently.  Any final fragment shorter than a block is dropped.
pub open spec fn ecb_encrypt(key: Seq<u8>, data: Seq<u8>) -> Seq<u8>
    decreases data.len(),
{
    if data.len() < 16 {
        Seq::empty()
    } else {
        aes128_encrypt_block(key, data.take(16)) + ecb_encrypt(key, data.skip(16))
    }
}

/// ECB decryption of a whole (block-aligned) buffer, block by block.
pub open spec fn ecb_decrypt(key: Seq<u8>, data: Seq<u8>) -> Seq<u8>
    decreases data.len(),
{
    if data.len() < 16 {
        Seq::empty()
    } else {
        aes128_decrypt_block(key, data.take(16)) + ecb_decrypt(key, data.skip(16))
    }
}

/// Appending one block to a block-aligned buffer appends its image to the
/// ECB image of the buffer.
pub proof fn lemma_ecb_append_block(key: Seq<u8>, s: Seq<u8>, b: Seq<u8>)
    requires
        s.len() % 16 == 0,
        b.len() == 16,
    ensures
        ecb_encrypt(key, s + b) == ecb_encrypt(key, s) + aes128_encrypt_block(key, b),
        ecb_decrypt(key, s + b) == ecb_decrypt(key, s) + aes128_decrypt_block(key, b),
    decreases s.len(),
{
    let t = s + b;
    if s.len() == 0 {
        assert(t =~= b);
        assert(b.take(16) =~= b);
        assert(b.skip(16).len() == 0);
        assert(ecb_encrypt(key, b.skip(16)) =~= Seq::<u8>::empty());
        assert(ecb_decrypt(key, b.skip(16)) =~= Seq::<u8>::empty());
        assert(ecb_encrypt(key, t) == aes128_encrypt_block(key, b) + ecb_encrypt(
            key,
            b.skip(16),
        ));
        assert(ecb_encrypt(key, t) =~= aes128_encrypt_block(key, b));
        assert(ecb_encrypt(key, s) + aes128_encrypt_block(key, b) =~= aes128_encrypt_block(
            key,
            b,
        ));
        assert(ecb_decrypt(key, t) == aes128_decrypt_block(key, b) + ecb_decrypt(
            key,
            b.skip(16),
        ));
        assert(ecb_decrypt(key, t) =~= aes128_decrypt_block(key, b));
        assert(ecb_decrypt(key, s) + aes128_decrypt_block(key, b) =~= aes128_decrypt_block(
            key,
            b,
        ));
    } else {
        assert(t.take(16) =~= s.take(16));
        assert(t.skip(16) =~= s.skip(16) + b);
        lemma_ecb_append_block(key, s.skip(16), b);
        assert(ecb_encrypt(key, t) =~= ecb_encrypt(key, s) + aes128_encrypt_block(key, b));
        assert(ecb_decrypt(key, t) =~= ecb_decrypt(key, s) + aes128_decrypt_block(key, b));
    }
}

/// What decrypting a buffer yields.
pub enum SpecDecrypted {
    /// The input is empty or not block-aligned.
    BadLength,
    /// The decrypted bytes do not end in valid PKCS#7 padding.
    BadPadding,
    /// The decrypted, unpadded plaintext.
    Plain(Seq<u8>),
}

/// Decryption of a whole buffer: reject bad lengths, ECB-decrypt, then
/// validate and strip the PKCS#7 padding.
pub open spec fn spec_decrypt(key: Seq<u8>, data: Seq<u8>) -> SpecDecrypted {
    if data.len() == 0 || data.len() % 16 != 0 {
        SpecDecrypted::BadLength
    } else {
        let p = ecb_decrypt(key, data);
        if pkcs7_valid(p) {
            SpecDecrypted::Plain(pkcs7_unpad(p))
        } else {
            SpecDecrypted::BadPadding
        }
    }
}

#[derive(Debug)]
pub enum EncryptionError {
    InvalidCiphertext,
    InvalidPadding,
    Rsa(String),
}

/// AES-128-ECB cipher with PKCS#7 padding, built from the 16-byte session
/// key the handshake returns.
pub struct AesEcbCipher {
    key: Vec<u8>,
}

impl View for AesEcbCipher {
    type V = Seq<u8>;

    closed spec fn view(&self) -> Seq<u8> {
        self.key@
    }
}

impl AesEcbCipher {
    /// The key holds exactly 16 bytes.
    pub open spec fn wf(self) -> bool {
        self@.len() == 16
    }

    /// Create from the 16-byte key returned by the handshake.
    pub fn new(key: &[u8; 16]) -> (r: Self)
        ensures
            r@ == key@,
            r.wf(),
    {
        AesEcbCipher { key: slice_to_vec(key.as_slice()) }
    }

    /// Encrypt `data`: append PKCS#7 padding, then encrypt each 16-byte
    /// block independently.  Decrypting the result yields `data` back.
    pub fn encrypt(&self, data: &[u8]) -> (r: Vec<u8>)
        requires
            self.wf(),
            data@.len() + 16 <= usize::MAX,
        ensures
            r@ == ecb_encrypt(self@, pkcs7_pad(data@)),
            r@.len() == data@.len() + pkcs7_pad_len(data@.len()),
            r@.len() % 16 == 0,
            r@.len() > data@.len(),
            ecb_decrypt(self@, r@) == pkcs7_pad(data@),
            spec_decrypt(self@, r@) == SpecDecrypted::Plain(data@),
    {
        let pad_len: usize = 16 - data.len() % 16;
        let mut padded = slice_to_vec(data);
        let mut k: usize = 0;
        while k < pad_len
            invariant
                k <= pad_len,
                pad_len == pkcs7_pad_len(data@.len()),
                data@.len() + 16 <= usize::MAX,
                padded@ == data@ + Seq::new(k as nat, |i: int| pad_len as u8),
            decreases pad_len - k,
        {
            padded.push(pad_len as u8);
            assert(padded@ =~= data@ + Seq::new((k + 1) as nat, |i: int| pad_len as u8));
            k += 1;
        }
        assert(padded@ =~= pkcs7_pad(data@));
        proof {
            lemma_pkcs7_round_trip(data@);
        }
        let total = padded.len();
        let mut out: Vec<u8> = Vec::new();
        let mut i: usize = 0;
        while i < total
            invariant
                i <= total,
                i % 16 == 0,
                total == padded@.len(),
                total % 16 == 0,
                self.wf(),
                padded@.len() == data@.len() + pkcs7_pad_len(data@.len()),
                out@ == ecb_encrypt(self@, padded@.take(i as int)),
                ecb_decrypt(self@, out@) == padded@.take(i as int),
                out@.len() == i,
            decreases total - i,
        {
            let block = slice_subrange(padded.as_slice(), i, i + 16);
            let mut c = enc_block(self.key.as_slice(), block);
            proof {
                lemma_ecb_append_block(self@, padded@.take(i as int), block@);
                lemma_ecb_append_block(self@, out@, c@);
                assert(padded@.take(i as int) + block@ =~= padded@.take(i + 16));
            }
            out.append(&mut c);
            i += 16;
        }
        assert(padded@.take(total as int) =~= padded@);
        assert(ecb_decrypt(self@, out@) == pkcs7_pad(data@));
        out
    }

    /// Decrypt `data`: reject an empty or non-block-aligned input, decrypt
    /// each block, then validate and strip the PKCS#7 padding.
    pub fn decrypt(&self, data: &[u8]) -> (r: Result<Vec<u8>, EncryptionError>)
        requires
            self.wf(),
        ensures
            match r {
                Ok(v) => spec_decrypt(self@, data@) == SpecDecrypted::Plain(v@),
                Err(EncryptionError::InvalidCiphertext) => spec_decrypt(self@, data@)
                    is BadLength,
                Err(EncryptionError::InvalidPadding) => spec_decrypt(self@, data@) is BadPadding,
                Err(EncryptionError::Rsa(_)) => false,
            },
    {
        if data.len() == 0 || data.len() % 16 != 0 {
            return Err(EncryptionError::InvalidCiphertext);
        }
        let total = data.len();
        let mut plain: Vec<u8> = Vec::new();
        let mut i: usize = 0;
        while i < total
            invariant
                i <= total,
                i % 16 == 0,
                total == data@.len(),
                total % 16 == 0,
                total > 0,
                self.wf(),
                plain@ == ecb_decrypt(self@, data@.take(i as int)),
                plain@.len() == i,
            decreases total - i,
        {
            let block = slice_subrange(data, i, i + 16);
            let mut p = dec_block(self.key.as_slice(), block);
            proof {
                lemma_ecb_append_block(self@, data@.take(i as int), block@);
                assert(data@.take(i as int) + block@ =~= data@.take(i + 16));
            }
            plain.append(&mut p);
            i += 16;
        }
        assert(data@.take(total as int) =~= data@);
        let ghost dec = ecb_decrypt(self@, data@);
        // Validate the PKCS#7 padding: last byte in 1..=16, enough data,
        // and every trailing byte equal to it.
        let pad = plain[plain.len() - 1];
        assert(pad == dec.last());
        if pad == 0 || pad > 16 {
            return Err(EncryptionError::InvalidPadding);
        }
        let pad_len = pad as usize;
        if pad_len > plain.len() {
            return Err(EncryptionError::InvalidPadding);
        }
        let data_len = plain.len() - pad_len;
        let mut j: usize = data_len;
        while j < total
            invariant
                data_len <= j <= total,
                total == data@.len(),
                total % 16 == 0,
                total > 0,
                plain@ == dec,
                plain@.len() == total,
                dec == ecb_decrypt(self@, data@),
                pad == dec.last(),
                1 <= pad <= 16,
                pad_len == pad as int,
                data_len == total - pad_len,
                forall|t: int| data_len <= t < j ==> dec[t] == pad,
            decreases total - j,
        {
            if plain[j] != pad {
                assert(!pkcs7_valid(dec));
                return Err(EncryptionError::InvalidPadding);
            }
            j += 1;
        }
        assert(pkcs7_valid(dec));
        plain.truncate(data_len);
        assert(plain@ =~= pkcs7_unpad(dec));
        Ok(plain)
    }
}

} // verus!
