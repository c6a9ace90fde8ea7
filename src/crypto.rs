//! Protection of stored remote-source passwords: a key derived from a master
//! password and a per-installation key, and a chained XOR block cipher with a
//! random initial block, carried as base64 text.

use sha2::Digest;
use base64::Engine;
use vstd::prelude::*;
use vstd::string::StringSliceAdditionalSpecFns;
use vstd::utf8::{decode_utf8, valid_utf8};
use crate::text::{base64_decoded, decode_base64, utf8_text};

verus! {

/// Bytes of a derived key.
pub const KEY_LEN: usize = 32;

/// Bytes of one cipher block, and of the random initial block.
pub const BLOCK_LEN: usize = 16;

/// Marks the end of the plaintext inside the last block.
pub const PAD_MARK: u8 = 0x80;

/// What SHA-256 makes of a byte sequence.
pub uninterp spec fn sha256_of(data: Seq<u8>) -> Seq<u8>;

/// The alphabet of standard base64.
pub const BASE64_ALPHABET: &'static str = "ABCDEFGHIJKLMNOPQRSTUVWXYZabcdefghijklmnopqrstuvwxyz0123456789+/";

pub open spec fn b64(v: int) -> char {
    BASE64_ALPHABET@[v]
}

/// Standard base64 with padding: each three bytes give four characters, a
/// final one or two bytes give two or three characters and `=` up to four.
pub open spec fn base64_text_of(d: Seq<u8>) -> Seq<char>
    decreases d.len(),
{
    let a = if d.len() > 0 {
        d[0] as int
    } else {
        0
    };
    let b = if d.len() > 1 {
        d[1] as int
    } else {
        0
    };
    let c = if d.len() > 2 {
        d[2] as int
    } else {
        0
    };
    if d.len() == 0 {
        Seq::empty()
    } else if d.len() == 1 {
        seq![b64(a / 4), b64((a % 4) * 16), '=', '=']
    } else if d.len() == 2 {
        seq![b64(a / 4), b64((a % 4) * 16 + b / 16), b64((b % 16) * 4), '=']
    } else {
        seq![b64(a / 4), b64((a % 4) * 16 + b / 16), b64((b % 16) * 4 + c / 64), b64(c % 64)]
            + base64_text_of(d.skip(3))
    }
}

/// Relies on `sha2::Sha256::digest`: a 32-byte digest of the input alone.
#[verifier::external_body]
fn sha256(data: &Vec<u8>) -> (r: Vec<u8>)
    ensures
        r@ == sha256_of(data@),
        r@.len() == 32,
{
    sha2::Sha256::digest(data.as_slice()).to_vec()
}

/// Relies on `base64::Engine::encode` of the standard engine (standard
/// alphabet, with padding).
#[verifier::external_body]
fn base64_encode(data: &Vec<u8>) -> (r: String)
    ensures
        r@ == base64_text_of(data@),
{
    base64::engine::general_purpose::STANDARD.encode(data)
}

/// Why a stored password could not be recovered.
#[derive(Clone, Copy, Debug, PartialEq, Eq, Structural)]
pub enum CryptoError {
    /// The text is not base64.
    NotBase64,
    /// Fewer bytes than the initial block.
    TooShort,
    /// The cipher text is not a whole number of blocks.
    BadLength,
    /// The recovered bytes are not UTF-8.
    NotText,
}

/// Text hashed in front of the master password when deriving a key; stored
/// passwords depend on it.
pub const KEY_DOMAIN: &'static str = "DioxusMusic_Password_Key";

/// The bytes of [`KEY_DOMAIN`].
pub open spec fn key_domain() -> Seq<u8> {
    KEY_DOMAIN.spec_bytes()
}

/// The key for `master` (as UTF-8 bytes) and the installation key `file_key`.
pub open spec fn derived_key(master: Seq<u8>, file_key: Seq<u8>) -> Seq<u8> {
    sha256_of(key_domain() + master + file_key)
}

/// `p` followed by the end mark and as many zero bytes as fill the last block.
pub open spec fn padded(p: Seq<u8>) -> Seq<u8> {
    let fill = ((BLOCK_LEN as int) - ((p.len() + 1) as int) % (BLOCK_LEN as int)) % (BLOCK_LEN as int);
    p + seq![PAD_MARK] + Seq::new(fill as nat, |i: int| 0u8)
}

/// One block: `data[j] ^ prev[j] ^ key[j]` for the first block of `data`.
pub open spec fn xor_block(data: Seq<u8>, prev: Seq<u8>, key: Seq<u8>) -> Seq<u8> {
    Seq::new(BLOCK_LEN as nat, |j: int| data[j] ^ prev[j] ^ key[j])
}

/// Blocks of `data` chained on the cipher text: each block is combined with
/// the previous output block (first with `prev`) and the key.
pub open spec fn chain(data: Seq<u8>, key: Seq<u8>, prev: Seq<u8>) -> Seq<u8>
    decreases data.len(),
{
    if data.len() < BLOCK_LEN {
        Seq::empty()
    } else {
        let b = xor_block(data, prev, key);
        b + chain(data.skip(BLOCK_LEN as int), key, b)
    }
}

/// The inverse of [`chain`]: each block is combined with the previous input block.
pub open spec fn unchain(data: Seq<u8>, key: Seq<u8>, prev: Seq<u8>) -> Seq<u8>
    decreases data.len(),
{
    if data.len() < BLOCK_LEN {
        Seq::empty()
    } else {
        xor_block(data, prev, key) + unchain(
            data.skip(BLOCK_LEN as int),
            key,
            data.take(BLOCK_LEN as int),
        )
    }
}

/// The last index before `n` that holds `b`.
pub open spec fn last_byte_before(s: Seq<u8>, b: u8, n: int) -> Option<int>
    decreases n,
{
    if n <= 0 || n > s.len() {
        None
    } else if s[n - 1] == b {
        Some(n - 1)
    } else {
        last_byte_before(s, b, n - 1)
    }
}

/// `q` cut at its last end mark; unchanged when it has none.
pub open spec fn unpadded(q: Seq<u8>) -> Seq<u8> {
    match last_byte_before(q, PAD_MARK, q.len() as int) {
        Some(i) => q.take(i),
        None => q,
    }
}

/// The initial block followed by the chained, padded plaintext.
pub open spec fn sealed(p: Seq<u8>, key: Seq<u8>, iv: Seq<u8>) -> Seq<u8> {
    iv + chain(padded(p), key, iv)
}

/// What opening `data` with `key` gives, before the UTF-8 check.
pub open spec fn opened(data: Seq<u8>, key: Seq<u8>) -> Result<Seq<u8>, CryptoError> {
    if data.len() < BLOCK_LEN {
        Err(CryptoError::TooShort)
    } else if (data.len() as int - BLOCK_LEN as int) % (BLOCK_LEN as int) != 0 {
        Err(CryptoError::BadLength)
    } else {
        Ok(unpadded(unchain(data.skip(BLOCK_LEN as int), key, data.take(BLOCK_LEN as int))))
    }
}

proof fn lemma_xor_cancels(a: u8, b: u8, c: u8)
    ensures
        a ^ b ^ c ^ b ^ c == a,
{
    assert(a ^ b ^ c ^ b ^ c == a) by (bit_vector);
}

proof fn lemma_chain_len(data: Seq<u8>, key: Seq<u8>, prev: Seq<u8>)
    requires
        data.len() % (BLOCK_LEN as nat) == 0,
    ensures
        chain(data, key, prev).len() == data.len(),
    decreases data.len(),
{
    if data.len() >= BLOCK_LEN {
        lemma_chain_len(data.skip(BLOCK_LEN as int), key, xor_block(data, prev, key));
    }
}

proof fn lemma_unchain_chain(data: Seq<u8>, key: Seq<u8>, prev: Seq<u8>)
    requires
        data.len() % (BLOCK_LEN as nat) == 0,
        key.len() >= BLOCK_LEN,
        prev.len() == BLOCK_LEN,
    ensures
        unchain(chain(data, key, prev), key, prev) == data,
    decreases data.len(),
{
    if data.len() >= BLOCK_LEN {
        let b = xor_block(data, prev, key);
        let rest = data.skip(BLOCK_LEN as int);
        let c = chain(data, key, prev);
        lemma_chain_len(rest, key, b);
        assert(c == b + chain(rest, key, b));
        assert(c.skip(BLOCK_LEN as int) =~= chain(rest, key, b));
        assert(c.take(BLOCK_LEN as int) =~= b);
        lemma_unchain_chain(rest, key, b);
        assert forall|j: int| 0 <= j < BLOCK_LEN implies #[trigger] xor_block(c, prev, key)[j]
            == data[j] by {
            lemma_xor_cancels(data[j], prev[j], key[j]);
        }
        assert(xor_block(c, prev, key) =~= data.take(BLOCK_LEN as int));
        assert(data.take(BLOCK_LEN as int) + rest =~= data);
    } else {
        assert(data =~= Seq::<u8>::empty());
    }
}

proof fn lemma_mark_is_last(q: Seq<u8>, m: int, n: int)
    requires
        0 <= m < n <= q.len(),
        q[m] == PAD_MARK,
        forall|k: int| m < k < q.len() ==> q[k] == 0u8,
    ensures
        last_byte_before(q, PAD_MARK, n) == Some(m),
    decreases n,
{
    if n - 1 > m {
        assert(q[n - 1] == 0u8);
        lemma_mark_is_last(q, m, n - 1);
    }
}

proof fn lemma_unpad(p: Seq<u8>)
    ensures
        unpadded(padded(p)) == p,
        padded(p).len() % (BLOCK_LEN as nat) == 0,
{
    let q = padded(p);
    let fill = ((BLOCK_LEN as int) - ((p.len() + 1) as int) % (BLOCK_LEN as int)) % (BLOCK_LEN as int);
    assert(q.len() == p.len() + 1 + fill);
    assert(q[p.len() as int] == PAD_MARK);
    lemma_mark_is_last(q, p.len() as int, q.len() as int);
    assert(q.take(p.len() as int) =~= p);
}

/// Opening what was sealed with the same key gives back the plaintext bytes.
pub proof fn lemma_seal_open_round_trip(p: Seq<u8>, key: Seq<u8>, iv: Seq<u8>)
    requires
        key.len() >= BLOCK_LEN,
        iv.len() == BLOCK_LEN,
    ensures
        opened(sealed(p, key, iv), key) == Ok::<Seq<u8>, CryptoError>(p),
{
    let d = padded(p);
    lemma_unpad(p);
    lemma_chain_len(d, key, iv);
    lemma_unchain_chain(d, key, iv);
    let s = sealed(p, key, iv);
    assert(s.skip(BLOCK_LEN as int) =~= chain(d, key, iv));
    assert(s.take(BLOCK_LEN as int) =~= iv);
}

fn append_bytes(out: &mut Vec<u8>, b: &[u8])
    ensures
        final(out)@ == old(out)@ + b@,
{
    let ghost base = out@;
    let mut i: usize = 0;
    while i < b.len()
        invariant
            i <= b.len(),
            out@ == base + b@.take(i as int),
        decreases b.len() - i,
    {
        out.push(b[i]);
        i += 1;
        assert(out@ =~= base + b@.take(i as int));
    }
    assert(b@.take(i as int) =~= b@);
}

/// The key for `master_password` and the installation key `file_key`.
pub fn derive_key(master_password: &str, file_key: &Vec<u8>) -> (r: Vec<u8>)
    ensures
        r@ == derived_key(master_password.spec_bytes(), file_key@),
        r@.len() == KEY_LEN,
{
    let mut data: Vec<u8> = Vec::new();
    append_bytes(&mut data, KEY_DOMAIN.as_bytes());
    assert(data@ =~= key_domain());
    append_bytes(&mut data, master_password.as_bytes());
    append_bytes(&mut data, file_key.as_slice());
    sha256(&data)
}

/// Encrypts the bytes `p` with `key` behind the initial block `iv`.
pub fn seal_bytes(p: &[u8], key: &Vec<u8>, iv: &Vec<u8>) -> (r: Vec<u8>)
    requires
        key@.len() >= BLOCK_LEN,
        iv@.len() == BLOCK_LEN,
        p@.len() + BLOCK_LEN <= usize::MAX,
    ensures
        r@ == sealed(p@, key@, iv@),
{
    let mut buf: Vec<u8> = Vec::new();
    append_bytes(&mut buf, p);
    buf.push(PAD_MARK);
    let ghost fill = ((BLOCK_LEN as int) - ((p@.len() + 1) as int) % (BLOCK_LEN as int)) % (BLOCK_LEN as int);
    let ghost head = buf@;
    let mut z: usize = 0;
    let target: usize = if buf.len() % BLOCK_LEN == 0 {
        0
    } else {
        BLOCK_LEN - buf.len() % BLOCK_LEN
    };
    assert(target == fill);
    while z < target
        invariant
            z <= target,
            target < BLOCK_LEN,
            buf@ == head + Seq::new(z as nat, |i: int| 0u8),
        decreases target - z,
    {
        buf.push(0u8);
        z += 1;
        assert(buf@ =~= head + Seq::new(z as nat, |i: int| 0u8));
    }
    assert(buf@ =~= padded(p@));
    let mut out: Vec<u8> = Vec::new();
    append_bytes(&mut out, iv.as_slice());
    let mut prev: Vec<u8> = Vec::new();
    append_bytes(&mut prev, iv.as_slice());
    let mut pos: usize = 0;
    assert((buf@.len() as int) % (BLOCK_LEN as int) == 0);
    assert(buf@.skip(0) =~= buf@);
    while pos < buf.len()
        invariant
            pos <= buf.len(),
            pos % BLOCK_LEN == 0,
            (buf@.len() as int) % (BLOCK_LEN as int) == 0,
            prev@.len() == BLOCK_LEN,
            key@.len() >= BLOCK_LEN,
            out@ + chain(buf@.skip(pos as int), key@, prev@) == sealed(p@, key@, iv@),
            buf@ == padded(p@),
        decreases buf.len() - pos,
    {
        let ghost rest = buf@.skip(pos as int);
        let mut blk: Vec<u8> = Vec::new();
        let mut j: usize = 0;
        while j < BLOCK_LEN
            invariant
                j <= BLOCK_LEN,
                pos + BLOCK_LEN <= buf.len(),
                prev@.len() == BLOCK_LEN,
                key@.len() >= BLOCK_LEN,
                blk@ == xor_block(rest, prev@, key@).take(j as int),
                rest == buf@.skip(pos as int),
            decreases BLOCK_LEN - j,
        {
            blk.push(buf[pos + j] ^ prev[j] ^ key[j]);
            j += 1;
            assert(blk@ =~= xor_block(rest, prev@, key@).take(j as int));
        }
        assert(blk@ =~= xor_block(rest, prev@, key@));
        assert(rest.skip(BLOCK_LEN as int) =~= buf@.skip(pos + BLOCK_LEN));
        let ghost before = out@;
        append_bytes(&mut out, blk.as_slice());
        assert(out@ + chain(buf@.skip(pos + BLOCK_LEN), key@, blk@) =~= before + chain(
            rest,
            key@,
            prev@,
        ));
        prev = blk;
        pos = pos + BLOCK_LEN;
    }
    assert(buf@.skip(pos as int) =~= Seq::<u8>::empty());
    assert(out@ =~= sealed(p@, key@, iv@));
    out
}

/// Decrypts `data` (initial block, then cipher blocks) with `key`.
pub fn open_bytes(data: &Vec<u8>, key: &Vec<u8>) -> (r: Result<Vec<u8>, CryptoError>)
    requires
        key@.len() >= BLOCK_LEN,
    ensures
        match r {
            Ok(b) => opened(data@, key@) == Ok::<Seq<u8>, CryptoError>(b@),
            Err(e) => opened(data@, key@) == Err::<Seq<u8>, CryptoError>(e),
        },
{
    if data.len() < BLOCK_LEN {
        return Err(CryptoError::TooShort);
    }
    if (data.len() - BLOCK_LEN) % BLOCK_LEN != 0 {
        return Err(CryptoError::BadLength);
    }
    let ghost body = data@.skip(BLOCK_LEN as int);
    let mut plain: Vec<u8> = Vec::new();
    let mut pos: usize = BLOCK_LEN;
    assert(data@.skip(BLOCK_LEN as int).skip(0) =~= body);
    while pos < data.len()
        invariant
            BLOCK_LEN <= pos <= data.len(),
            (pos as int - BLOCK_LEN as int) % (BLOCK_LEN as int) == 0,
            (data.len() as int - BLOCK_LEN as int) % (BLOCK_LEN as int) == 0,
            key@.len() >= BLOCK_LEN,
            body == data@.skip(BLOCK_LEN as int),
            plain@ + unchain(data@.skip(pos as int), key@, data@.subrange(pos - BLOCK_LEN, pos as int))
                == unchain(body, key@, data@.take(BLOCK_LEN as int)),
        decreases data.len() - pos,
    {
        let ghost rest = data@.skip(pos as int);
        let ghost prev = data@.subrange(pos - BLOCK_LEN, pos as int);
        let mut j: usize = 0;
        let ghost before = plain@;
        while j < BLOCK_LEN
            invariant
                j <= BLOCK_LEN,
                BLOCK_LEN <= pos,
                pos + BLOCK_LEN <= data.len(),
                key@.len() >= BLOCK_LEN,
                rest == data@.skip(pos as int),
                prev == data@.subrange(pos - BLOCK_LEN, pos as int),
                plain@ == before + xor_block(rest, prev, key@).take(j as int),
            decreases BLOCK_LEN - j,
        {
            plain.push(data[pos + j] ^ data[pos - BLOCK_LEN + j] ^ key[j]);
            j += 1;
            assert(plain@ =~= before + xor_block(rest, prev, key@).take(j as int));
        }
        assert(xor_block(rest, prev, key@).take(BLOCK_LEN as int) =~= xor_block(rest, prev, key@));
        assert(rest.skip(BLOCK_LEN as int) =~= data@.skip(pos + BLOCK_LEN));
        assert(rest.take(BLOCK_LEN as int) =~= data@.subrange(pos as int, pos + BLOCK_LEN));
        pos = pos + BLOCK_LEN;
    }
    assert(data@.skip(pos as int) =~= Seq::<u8>::empty());
    assert(data@.subrange(0, BLOCK_LEN as int) =~= data@.take(BLOCK_LEN as int));
    let ghost full = plain@;
    let mut n: usize = plain.len();
    while n > 0
        invariant
            n <= plain.len(),
            plain@ == full,
            full == unchain(data@.skip(BLOCK_LEN as int), key@, data@.take(BLOCK_LEN as int)),
            data@.len() >= BLOCK_LEN,
            (data.len() as int - BLOCK_LEN as int) % (BLOCK_LEN as int) == 0,
            last_byte_before(full, PAD_MARK, full.len() as int) == last_byte_before(
                full,
                PAD_MARK,
                n as int,
            ),
        decreases n,
    {
        if plain[n - 1] == PAD_MARK {
            plain.truncate(n - 1);
            assert(plain@ =~= full.take(n - 1));
            return Ok(plain);
        }
        n -= 1;
    }
    Ok(plain)
}

/// Encrypts `password` for storage, keyed by `master_password` and the
/// installation key `file_key`, behind the random initial block `iv`.
pub fn encrypt_password(password: &str, master_password: &str, file_key: &Vec<u8>, iv: &Vec<u8>) -> (r: String)
    requires
        iv@.len() == BLOCK_LEN,
        password.spec_bytes().len() + BLOCK_LEN <= usize::MAX,
    ensures
        r@ == base64_text_of(
            sealed(password.spec_bytes(), derived_key(master_password.spec_bytes(), file_key@), iv@),
        ),
{
    let key = derive_key(master_password, file_key);
    let sealed_bytes = seal_bytes(password.as_bytes(), &key, iv);
    base64_encode(&sealed_bytes)
}

/// Recovers a password stored by [`encrypt_password`] with the same master
/// password and installation key.
pub fn decrypt_password(encrypted: &str, master_password: &str, file_key: &Vec<u8>) -> (r: Result<String, CryptoError>)
    ensures
        match base64_decoded(encrypted@) {
            None => r == Err::<String, CryptoError>(CryptoError::NotBase64),
            Some(data) => match opened(data, derived_key(master_password.spec_bytes(), file_key@)) {
                Err(e) => r == Err::<String, CryptoError>(e),
                Ok(p) => if valid_utf8(p) {
                    r matches Ok(s) && s@ == decode_utf8(p)
                } else {
                    r == Err::<String, CryptoError>(CryptoError::NotText)
                },
            },
        },
{
    let key = derive_key(master_password, file_key);
    let data = match decode_base64(encrypted) {
        Some(d) => d,
        None => return Err(CryptoError::NotBase64),
    };
    let plain = match open_bytes(&data, &key) {
        Ok(p) => p,
        Err(e) => return Err(e),
    };
    match utf8_text(plain) {
        Some(s) => Ok(s),
        None => Err(CryptoError::NotText),
    }
}

/// Characters a generated master password is drawn from.
pub const PASSWORD_CHARSET: &'static str = "abcdefghijklmnopqrstuvwxyzABCDEFGHIJKLMNOPQRSTUVWXYZ0123456789!@#$%^&*";

/// Characters of a generated master password.
pub const MASTER_PASSWORD_LEN: usize = 32;

/// The password that the random numbers `draws` pick: one character of the
/// charset per number, by its remainder.
pub open spec fn password_from(draws: Seq<u32>) -> Seq<char> {
    Seq::new(draws.len(), |i: int| PASSWORD_CHARSET@[(draws[i] as int) % PASSWORD_CHARSET@.len() as int])
}

/// A master password from [`MASTER_PASSWORD_LEN`] random numbers.
pub fn generate_master_password(draws: &Vec<u32>) -> (r: String)
    ensures
        r@ == password_from(draws@),
{
    let cs = crate::text::chars_of(PASSWORD_CHARSET);
    proof {
        reveal_strlit("abcdefghijklmnopqrstuvwxyzABCDEFGHIJKLMNOPQRSTUVWXYZ0123456789!@#$%^&*");
    }
    let mut out: Vec<char> = Vec::new();
    let mut i: usize = 0;
    while i < draws.len()
        invariant
            i <= draws.len(),
            cs@ == PASSWORD_CHARSET@,
            cs@.len() == 70,
            out@ == password_from(draws@).take(i as int),
        decreases draws.len() - i,
    {
        let k = (draws[i] % 70) as usize;
        out.push(cs[k]);
        i += 1;
        assert(out@ =~= password_from(draws@).take(i as int));
    }
    assert(out@ =~= password_from(draws@));
    crate::text::string_of(&out)
}

} // verus!
