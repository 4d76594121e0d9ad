//! End-to-end encryption.
//!
//! Two people share one *invite code*. Everything is derived from it, so there
//! is no account system and the relay never holds key material:
//!
//! ```text
//! invite code --Argon2id(salt = "synctus/room/v1")--> 32-byte room secret
//!         HKDF-SHA256(room secret, info = ...)
//!                |-> room id   (16 bytes, sent in clear to the relay)
//!                |-> auth key  (32 bytes, proves room membership)
//!                '-> msg key   (32 bytes, XChaCha20-Poly1305 payload key)
//! ```

use chacha20poly1305::aead::{Aead, KeyInit, Payload};
use chacha20poly1305::{XChaCha20Poly1305, XNonce};
use hkdf::Hkdf;
use hmac::{Hmac, Mac};
use rand::RngCore;
use sha2::Sha256;
use vstd::prelude::*;
use vstd::utf8::*;

use crate::text::{chars_of, text_of, upper_char, upper_one};

verus! {

// ---------------------------------------------------------------------------
// Outside functions
// ---------------------------------------------------------------------------

/// The error type of the `argon2` crate; only carried, never looked into.
#[verifier::external_type_specification]
#[verifier::external_body]
pub struct ExArgonError(argon2::Error);

/// The error type of the `aead` crate; it holds nothing.
#[verifier::external_type_specification]
#[verifier::external_body]
pub struct ExAeadError(chacha20poly1305::aead::Error);

/// What Argon2id version 0x13 derives from a password and a salt: `mem_kib` KiB
/// of memory, `passes` passes, `lanes` lanes, 32 bytes of output.
pub uninterp spec fn argon2id(
    pwd: Seq<u8>,
    salt: Seq<u8>,
    mem_kib: u32,
    passes: u32,
    lanes: u32,
) -> Seq<u8>;

/// `argon2::Argon2::hash_password_into`, on a context for Argon2id version 0x13.
/// The output is a function of the password, the salt and the parameters. With
/// valid parameters the call fails exactly when the password or the salt has a
/// length that the crate refuses.
#[verifier::external_body]
fn argon2id_hash(pwd: &[u8], salt: &[u8], mem_kib: u32, passes: u32, lanes: u32) -> (r: Result<
    [u8; 32],
    argon2::Error,
>)
    requires
        1 <= lanes <= 0xff_ffff,
        8 * lanes <= mem_kib,
        1 <= passes,
    ensures
        (r is Ok) == (pwd@.len() <= 0xffff_ffff && 8 <= salt@.len() <= 0xffff_ffff),
        r matches Ok(out) ==> out@ == argon2id(pwd@, salt@, mem_kib, passes, lanes),
{
    let params = argon2::Params::new(mem_kib, passes, lanes, Some(32))?;
    let argon = argon2::Argon2::new(argon2::Algorithm::Argon2id, argon2::Version::V0x13, params);
    let mut out = [0u8; 32];
    argon.hash_password_into(pwd, salt, &mut out)?;
    Ok(out)
}

/// The HKDF-SHA256 output of RFC 5869: extract with no salt, expand with `info`
/// to `len` bytes.
pub uninterp spec fn hkdf_sha256(ikm: Seq<u8>, info: Seq<u8>, len: nat) -> Seq<u8>;

/// `hkdf::Hkdf::<Sha256>::expand` on `Hkdf::new(None, ikm)`. The output has the
/// length that was asked for and is a function of the arguments. The crate
/// refuses more than 255 blocks of 32 bytes.
#[verifier::external_body]
fn hkdf_expand(ikm: &[u8], info: &[u8], len: usize) -> (r: Vec<u8>)
    requires
        len <= 255 * 32,
    ensures
        r@ == hkdf_sha256(ikm@, info@, len as nat),
        r@.len() == len,
{
    let mut out = vec![0u8; len];
    Hkdf::<Sha256>::new(None, ikm).expand(info, &mut out).expect("length is within the limit");
    out
}

/// The HMAC-SHA256 tag of a message under a key.
pub uninterp spec fn hmac_sha256(key: Seq<u8>, msg: Seq<u8>) -> Seq<u8>;

/// `hmac::Mac::finalize` of HMAC-SHA256 over one message. The tag is a function
/// of the key and the message; a key of any length is accepted.
#[verifier::external_body]
fn hmac_tag(key: &[u8], msg: &[u8]) -> (r: [u8; 32])
    ensures
        r@ == hmac_sha256(key@, msg@),
{
    let mut mac = <Hmac<Sha256> as Mac>::new_from_slice(key).expect("any key length is accepted");
    mac.update(msg);
    mac.finalize().into_bytes().into()
}

/// `hmac::Mac::verify_slice` of HMAC-SHA256 over one message: a comparison with
/// the whole tag, in constant time, that fails on any other length.
#[verifier::external_body]
fn hmac_verify(key: &[u8], msg: &[u8], tag: &[u8]) -> (r: bool)
    ensures
        r == (tag@ == hmac_sha256(key@, msg@)),
{
    let mut mac = <Hmac<Sha256> as Mac>::new_from_slice(key).expect("any key length is accepted");
    mac.update(msg);
    mac.verify_slice(tag).is_ok()
}

/// Ciphertext and tag that XChaCha20-Poly1305 makes of a message.
pub uninterp spec fn xchacha_seal(
    key: Seq<u8>,
    nonce: Seq<u8>,
    msg: Seq<u8>,
    aad: Seq<u8>,
) -> Seq<u8>;

/// What XChaCha20-Poly1305 gives back for a ciphertext and its tag, when the tag
/// is right.
pub uninterp spec fn xchacha_open(
    key: Seq<u8>,
    nonce: Seq<u8>,
    sealed: Seq<u8>,
    aad: Seq<u8>,
) -> Option<Seq<u8>>;

/// Longest message that XChaCha20-Poly1305 takes: the keystream has 2^32 - 2
/// blocks of 64 bytes left once the authentication key is drawn.
pub const MAX_PLAINTEXT: u64 = 274877906816;

/// `aead::Aead::encrypt` of XChaCha20-Poly1305. Within the length limit it
/// succeeds, adds a tag of 16 bytes, and `decrypt` under the same key, nonce and
/// associated data gives the message back.
#[verifier::external_body]
fn aead_encrypt(key: &[u8; 32], nonce: &[u8; 24], msg: &[u8], aad: &[u8]) -> (r: Result<
    Vec<u8>,
    chacha20poly1305::aead::Error,
>)
    requires
        msg@.len() <= MAX_PLAINTEXT,
        msg@.len() + 16 <= isize::MAX,
    ensures
        r is Ok,
        r matches Ok(ct) ==> {
            &&& ct@ == xchacha_seal(key@, nonce@, msg@, aad@)
            &&& ct@.len() == msg@.len() + 16
            &&& xchacha_open(key@, nonce@, ct@, aad@) == Some(msg@)
        },
{
    let cipher = XChaCha20Poly1305::new(key.into());
    cipher.encrypt(XNonce::from_slice(nonce), Payload { msg, aad })
}

/// `aead::Aead::decrypt` of XChaCha20-Poly1305. The result is a function of the
/// key, the nonce, the bytes and the associated data; what it accepts is what
/// `encrypt` makes of the message it gives back. That it accepts nothing else than
/// was sealed is left unsaid: a tag has 16 bytes, so other bytes, associated data
/// or keys are refused only with overwhelming likelihood.
#[verifier::external_body]
fn aead_decrypt(key: &[u8; 32], nonce: &[u8; 24], sealed: &[u8], aad: &[u8]) -> (r: Result<
    Vec<u8>,
    chacha20poly1305::aead::Error,
>)
    requires
        sealed@.len() <= MAX_PLAINTEXT + 16,
    ensures
        r matches Ok(msg) ==> {
            &&& xchacha_open(key@, nonce@, sealed@, aad@) == Some(msg@)
            &&& sealed@ == xchacha_seal(key@, nonce@, msg@, aad@)
            &&& sealed@.len() == msg@.len() + 16
        },
        r is Err ==> xchacha_open(key@, nonce@, sealed@, aad@) is None,
{
    let cipher = XChaCha20Poly1305::new(key.into());
    cipher.decrypt(XNonce::from_slice(nonce), Payload { msg: sealed, aad })
}

/// `rand::RngCore::fill_bytes` of the thread's generator. Nothing is promised of
/// the bytes but their number.
#[verifier::external_body]
fn random_bytes(len: usize) -> (r: Vec<u8>)
    requires
        len <= isize::MAX,
    ensures
        r@.len() == len,
{
    let mut out = vec![0u8; len];
    rand::thread_rng().fill_bytes(&mut out);
    out
}

/// `rand::RngCore::next_u32` of the thread's generator. Nothing is promised of
/// the number.
#[verifier::external_body]
fn random_u32() -> (r: u32) {
    rand::thread_rng().next_u32()
}

/// One lower-case hexadecimal digit.
pub open spec fn hex_digit(n: int) -> char {
    if n < 10 {
        (48 + n) as char
    } else {
        (87 + n) as char
    }
}

/// Two lower-case hexadecimal digits per byte, the high half first.
pub open spec fn hex(bytes: Seq<u8>) -> Seq<char> {
    Seq::new(
        2 * bytes.len(),
        |i: int|
            if i % 2 == 0 {
                hex_digit(bytes[i / 2] as int / 16)
            } else {
                hex_digit(bytes[i / 2] as int % 16)
            },
    )
}

/// `data_encoding::HEXLOWER.encode`: two lower-case digits per byte. It panics on
/// more than a 512th of what a `usize` counts.
#[verifier::external_body]
fn hex_lower(bytes: &[u8]) -> (r: String)
    requires
        bytes@.len() <= usize::MAX / 512,
    ensures
        r@ == hex(bytes@),
{
    data_encoding::HEXLOWER.encode(bytes)
}

// ---------------------------------------------------------------------------
// Invite codes
// ---------------------------------------------------------------------------

/// ASCII letters and digits: the characters of a code that count.
pub open spec fn is_code_char(c: char) -> bool {
    'a' <= c <= 'z' || 'A' <= c <= 'Z' || '0' <= c <= '9'
}

pub fn code_char(c: char) -> (r: bool)
    ensures
        r == is_code_char(c),
{
    ('a' <= c && c <= 'z') || ('A' <= c && c <= 'Z') || ('0' <= c && c <= '9')
}

/// A code without its separators, in upper case.
pub open spec fn normalised(code: Seq<char>) -> Seq<char>
    decreases code.len(),
{
    if code.len() == 0 {
        code
    } else {
        let rest = normalised(code.drop_last());
        if is_code_char(code.last()) {
            rest.push(upper_char(code.last()))
        } else {
            rest
        }
    }
}

/// The letters and digits that a normalised code is made of.
pub open spec fn is_normalised(code: Seq<char>) -> bool {
    forall|i: int|
        0 <= i < code.len() ==> ('A' <= #[trigger] code[i] <= 'Z' || '0' <= code[i] <= '9')
}

/// A code in groups of four characters, with a dash between groups.
pub open spec fn grouped(code: Seq<char>) -> Seq<char>
    decreases code.len(),
{
    if code.len() <= 4 {
        code
    } else {
        code.take(4).push('-') + grouped(code.skip(4))
    }
}

/// A normalised code holds upper-case letters and digits only.
pub proof fn normalised_is_normalised(code: Seq<char>)
    ensures
        is_normalised(normalised(code)),
        normalised(code).len() <= code.len(),
    decreases code.len(),
{
    if code.len() > 0 {
        normalised_is_normalised(code.drop_last());
    }
}

/// Normalising twice is normalising once.
pub proof fn normalising_is_idempotent(code: Seq<char>)
    ensures
        normalised(normalised(code)) == normalised(code),
{
    normalised_is_normalised(code);
    normalised_is_fixed(normalised(code));
}

/// A code that is already normalised stays as it is.
pub proof fn normalised_is_fixed(code: Seq<char>)
    requires
        is_normalised(code),
    ensures
        normalised(code) == code,
    decreases code.len(),
{
    if code.len() > 0 {
        assert forall|i: int| 0 <= i < code.drop_last().len() implies ('A'
            <= #[trigger] code.drop_last()[i] <= 'Z' || '0' <= code.drop_last()[i] <= '9') by {
            assert(code.drop_last()[i] == code[i]);
        }
        normalised_is_fixed(code.drop_last());
        assert(code.last() == code[code.len() - 1]);
        assert(code.drop_last().push(code.last()) == code);
    }
}

/// The parts of a code normalise independently.
pub proof fn normalised_of_parts(a: Seq<char>, b: Seq<char>)
    ensures
        normalised(a + b) == normalised(a) + normalised(b),
    decreases b.len(),
{
    if b.len() == 0 {
        assert(a + b == a);
        assert(normalised(b) == Seq::<char>::empty());
        assert(normalised(a) + normalised(b) == normalised(a));
    } else {
        normalised_of_parts(a, b.drop_last());
        assert((a + b).drop_last() == a + b.drop_last());
        assert((a + b).last() == b.last());
        assert(normalised(a + b) == normalised(a) + normalised(b));
    }
}

/// A separator anywhere in a code does not change what it normalises to.
pub proof fn separators_do_not_change_the_code(a: Seq<char>, sep: char, b: Seq<char>)
    requires
        !is_code_char(sep),
    ensures
        normalised(a.push(sep) + b) == normalised(a + b),
{
    normalised_of_parts(a.push(sep), b);
    normalised_of_parts(a, b);
    assert(a.push(sep).drop_last() == a);
}

/// Nor does the case of its letters.
pub proof fn case_does_not_change_the_code(code: Seq<char>)
    ensures
        normalised(crate::text::lower(code)) == normalised(code),
        normalised(code.map_values(|c: char| upper_char(c))) == normalised(code),
    decreases code.len(),
{
    let up = code.map_values(|c: char| upper_char(c));
    let low = crate::text::lower(code);
    if code.len() > 0 {
        case_does_not_change_the_code(code.drop_last());
        assert(low.drop_last() == crate::text::lower(code.drop_last()));
        assert(up.drop_last() == code.drop_last().map_values(|c: char| upper_char(c)));
        assert(low.last() == crate::text::lower_char(code.last()));
        assert(up.last() == upper_char(code.last()));
    } else {
        assert(low == code);
        assert(up == code);
    }
}

/// Grouping a code for display does not change the room it names.
pub proof fn grouping_keeps_the_code(code: Seq<char>)
    requires
        is_normalised(code),
    ensures
        normalised(grouped(code)) == code,
    decreases code.len(),
{
    if code.len() <= 4 {
        normalised_is_fixed(code);
    } else {
        let head = code.take(4);
        let tail = code.skip(4);
        assert(is_normalised(head));
        assert(is_normalised(tail));
        grouping_keeps_the_code(tail);
        normalised_of_parts(head.push('-'), grouped(tail));
        assert(head.push('-').drop_last() == head);
        normalised_is_fixed(head);
        assert(head + tail == code);
    }
}

/// The bytes of a normalised code are its characters, one each.
proof fn normalised_bytes(code: Seq<char>)
    requires
        is_normalised(code),
    ensures
        encode_utf8(code).len() == code.len(),
{
    assert(is_ascii_chars(code)) by {
        assert forall|i: int| 0 <= i < code.len() implies 0 <= #[trigger] code[i] as int && (
        code[i] as int) < 128 by {}
    }
    is_ascii_chars_encode_utf8(code);
}

/// Strips separators and upper-cases, so codes survive being retyped by hand.
fn normalise_code(code: &str) -> (r: Vec<char>)
    ensures
        r@ == normalised(code@),
{
    let cs = chars_of(code);
    let mut out: Vec<char> = Vec::new();
    for i in 0..cs.len()
        invariant
            cs@ == code@,
            out@ == normalised(code@.take(i as int)),
    {
        assert(code@.take(i + 1).drop_last() == code@.take(i as int));
        assert(code@.take(i + 1).last() == code@[i as int]);
        if code_char(cs[i]) {
            out.push(upper_one(cs[i]));
        }
    }
    assert(code@.take(code@.len() as int) == code@);
    out
}

/// Formats a code as `XXXX-XXXX-XXXX-XXXX` for display.
pub fn format_invite_code(code: &str) -> (r: String)
    ensures
        r@ == grouped(normalised(code@)),
{
    let n = normalise_code(code);
    let mut out = String::new();
    let mut i: usize = 0;
    assert(n@.skip(0) == n@);
    assert(Seq::<char>::empty() + grouped(n@) == grouped(n@));
    while n.len() - i > 4
        invariant
            n@ == normalised(code@),
            i <= n@.len(),
            out@ + grouped(n@.skip(i as int)) == grouped(n@),
        decreases n@.len() - i,
    {
        let ghost rest = n@.skip(i as int);
        let ghost before = out@;
        let group = text_of(n.as_slice(), i, i + 4);
        out.append(group.as_str());
        out.push('-');
        assert(rest.take(4) == n@.subrange(i as int, i + 4));
        assert(rest.skip(4) == n@.skip(i + 4));
        assert(out@ == before + rest.take(4).push('-'));
        assert(out@ + grouped(rest.skip(4)) == before + (rest.take(4).push('-') + grouped(
            rest.skip(4),
        )));
        i = i + 4;
    }
    let last = text_of(n.as_slice(), i, n.len());
    out.append(last.as_str());
    assert(n@.skip(i as int) == n@.subrange(i as int, n@.len() as int));
    out
}

/// Alphabet without look-alike characters, for codes people read out loud.
pub const CODE_ALPHABET: &'static str = "ABCDEFGHJKLMNPQRSTUVWXYZ23456789";

/// The code that 16 random numbers pick from the alphabet, before grouping.
pub open spec fn picked(picks: Seq<u32>) -> Seq<char> {
    Seq::new(picks.len(), |i: int| CODE_ALPHABET@[(picks[i] % 32) as int])
}

/// A picked code needs no normalising.
proof fn picked_is_normalised(picks: Seq<u32>)
    ensures
        is_normalised(picked(picks)),
{
    reveal_strlit("ABCDEFGHJKLMNPQRSTUVWXYZ23456789");
}

/// The invite code that these random numbers give.
pub fn invite_code_from(picks: &[u32]) -> (r: String)
    ensures
        r@ == grouped(picked(picks@)),
{
    proof {
        reveal_strlit("ABCDEFGHJKLMNPQRSTUVWXYZ23456789");
    }
    let alphabet = chars_of(CODE_ALPHABET);
    let mut raw = String::new();
    let mut i: usize = 0;
    while i < picks.len()
        invariant
            i <= picks@.len(),
            alphabet@ == CODE_ALPHABET@,
            alphabet@.len() == 32,
            raw@ == picked(picks@.take(i as int)),
        decreases picks@.len() - i,
    {
        raw.push(alphabet[(picks[i] % 32) as usize]);
        assert(picked(picks@.take(i + 1)) == picked(picks@.take(i as int)).push(
            CODE_ALPHABET@[(picks@[i as int] % 32) as int],
        ));
        i = i + 1;
    }
    assert(picks@.take(picks@.len() as int) == picks@);
    proof {
        picked_is_normalised(picks@);
        normalised_is_fixed(picked(picks@));
    }
    format_invite_code(raw.as_str())
}

/// Generates a fresh invite code with 16 characters from a 32-symbol alphabet,
/// i.e. 80 bits of entropy. Which of them it is depends on chance.
pub fn generate_invite_code() -> (r: String)
    ensures
        exists|picks: Seq<u32>| picks.len() == 16 && r@ == grouped(#[trigger] picked(picks)),
        r@.len() == 19,
        normalised(r@).len() == 16,
{
    let mut picks: Vec<u32> = Vec::new();
    while picks.len() < 16
        invariant
            picks@.len() <= 16,
        decreases 16 - picks@.len(),
    {
        picks.push(random_u32());
    }
    let r = invite_code_from(picks.as_slice());
    proof {
        let raw = picked(picks@);
        picked_is_normalised(picks@);
        grouping_keeps_the_code(raw);
        assert(grouped(raw) == raw.take(4).push('-') + grouped(raw.skip(4)));
        assert(grouped(raw.skip(4)) == raw.skip(4).take(4).push('-') + grouped(
            raw.skip(4).skip(4),
        ));
        let rest = raw.skip(4).skip(4);
        assert(grouped(rest) == rest.take(4).push('-') + grouped(rest.skip(4)));
        assert(grouped(rest.skip(4)) == rest.skip(4));
    }
    r
}

/// Random lowercase-hex identifier of `bytes` bytes, used for device and to-do
/// ids.
pub fn random_id(bytes: usize) -> (r: String)
    requires
        bytes <= usize::MAX / 512,
    ensures
        exists|raw: Seq<u8>| raw.len() == bytes && r@ == #[trigger] hex(raw),
{
    let raw = random_bytes(bytes);
    hex_lower(raw.as_slice())
}

/// Fresh 32-byte challenge for the relay handshake.
pub fn random_challenge() -> [u8; 32] {
    array32(&random_bytes(32))
}

/// 32 bytes as an array.
fn array32(v: &Vec<u8>) -> (r: [u8; 32])
    requires
        v@.len() == 32,
    ensures
        r@ == v@,
{
    let mut out = [0u8; 32];
    for i in 0..32
        invariant
            v@.len() == 32,
            forall|k: int| 0 <= k < i ==> out@[k] == v@[k],
    {
        out[i] = v[i];
    }
    assert(out@ == v@);
    out
}

/// 24 bytes as an array.
fn array24(v: &[u8]) -> (r: [u8; 24])
    requires
        v@.len() >= 24,
    ensures
        r@ == v@.take(24),
{
    let mut out = [0u8; 24];
    for i in 0..24
        invariant
            v@.len() >= 24,
            forall|k: int| 0 <= k < i ==> out@[k] == v@[k],
    {
        out[i] = v[i];
    }
    assert(out@ == v@.take(24));
    out
}

/// 16 bytes as an array.
fn array16(v: &Vec<u8>) -> (r: [u8; 16])
    requires
        v@.len() == 16,
    ensures
        r@ == v@,
{
    let mut out = [0u8; 16];
    for i in 0..16
        invariant
            v@.len() == 16,
            forall|k: int| 0 <= k < i ==> out@[k] == v@[k],
    {
        out[i] = v[i];
    }
    assert(out@ == v@);
    out
}

// ---------------------------------------------------------------------------
// Room keys
// ---------------------------------------------------------------------------

/// Argon2id parameters: 64 MiB, 3 passes. Roughly 100 ms on a laptop and only
/// paid once at startup.
pub const ARGON_MEM_KIB: u32 = 65536;

pub const ARGON_PASSES: u32 = 3;

pub const ARGON_LANES: u32 = 1;

/// What can go wrong with keys and boxes.
#[derive(Debug, Clone, Copy, PartialEq, Eq, Structural)]
pub enum CryptoError {
    /// Fewer than eight letters and digits in the code.
    CodeTooShort,
    /// The code is longer than Argon2 takes, which is all that it objects to here.
    Derive,
    /// The message is longer than the cipher takes.
    Encrypt,
    /// Too few bytes for a nonce and a tag.
    TooShort,
    /// Wrong code, changed bytes or other associated data.
    Decrypt,
}

impl CryptoError {
    pub open spec fn text(self) -> Seq<char> {
        match self {
            CryptoError::CodeTooShort => "配对码太短：至少需要 8 个有效字符"@,
            CryptoError::Derive => "配对码派生失败: password is too long"@,
            CryptoError::Encrypt => "加密失败"@,
            CryptoError::TooShort => "密文长度不足"@,
            CryptoError::Decrypt => "解密失败：配对码不一致或数据被篡改"@,
        }
    }

    pub fn message(&self) -> (r: &'static str)
        ensures
            r@ == self.text(),
    {
        match self {
            CryptoError::CodeTooShort => "配对码太短：至少需要 8 个有效字符",
            CryptoError::Derive => "配对码派生失败: password is too long",
            CryptoError::Encrypt => "加密失败",
            CryptoError::TooShort => "密文长度不足",
            CryptoError::Decrypt => "解密失败：配对码不一致或数据被篡改",
        }
    }
}

/// Keys derived from one invite code.
#[derive(Clone)]
pub struct RoomKeys {
    room_id: [u8; 16],
    auth_key: [u8; 32],
    msg_key: [u8; 32],
}

/// The bytes of a room's keys.
pub struct KeyBytes {
    pub room_id: Seq<u8>,
    pub auth_key: Seq<u8>,
    pub msg_key: Seq<u8>,
}

impl View for RoomKeys {
    type V = KeyBytes;

    closed spec fn view(&self) -> KeyBytes {
        KeyBytes { room_id: self.room_id@, auth_key: self.auth_key@, msg_key: self.msg_key@ }
    }
}

/// The room secret that a code is stretched to.
pub open spec fn room_secret(code: Seq<char>) -> Seq<u8> {
    argon2id(
        encode_utf8(normalised(code)),
        encode_utf8("synctus/room/v1"@),
        ARGON_MEM_KIB,
        ARGON_PASSES,
        ARGON_LANES,
    )
}

/// The keys that a code stands for.
pub open spec fn keys_of(code: Seq<char>) -> KeyBytes {
    KeyBytes {
        room_id: hkdf_sha256(room_secret(code), encode_utf8("synctus/v1/room-id"@), 16),
        auth_key: hkdf_sha256(room_secret(code), encode_utf8("synctus/v1/auth"@), 32),
        msg_key: hkdf_sha256(room_secret(code), encode_utf8("synctus/v1/message"@), 32),
    }
}

/// The answer to a challenge: the tag of `"synctus-auth" || challenge`.
pub open spec fn auth_tag(keys: KeyBytes, challenge: Seq<u8>) -> Seq<u8> {
    hmac_sha256(keys.auth_key, encode_utf8("synctus-auth"@) + challenge)
}

/// `nonce || ciphertext || tag`.
pub open spec fn sealed_with(
    keys: KeyBytes,
    nonce: Seq<u8>,
    plaintext: Seq<u8>,
    aad: Seq<u8>,
) -> Seq<u8> {
    nonce + xchacha_seal(keys.msg_key, nonce, plaintext, aad)
}

/// What a box holds for these keys and this associated data.
pub open spec fn opened(keys: KeyBytes, sealed: Seq<u8>, aad: Seq<u8>) -> Option<Seq<u8>> {
    if sealed.len() < 40 || sealed.len() > MAX_PLAINTEXT + 40 {
        None
    } else {
        xchacha_open(keys.msg_key, sealed.take(24), sealed.skip(24), aad)
    }
}

/// A box: it holds this message for these keys and this associated data, behind a
/// nonce and with a tag.
pub open spec fn is_box(
    keys: KeyBytes,
    sealed: Seq<u8>,
    message: Seq<u8>,
    aad: Seq<u8>,
) -> bool {
    &&& sealed == sealed_with(keys, sealed.take(24), message, aad)
    &&& sealed.len() == message.len() + 40
    &&& opened(keys, sealed, aad) == Some(message)
}

/// Codes that differ only in separators and case name the same room.
pub proof fn same_code_same_keys(a: Seq<char>, b: Seq<char>)
    requires
        normalised(a) == normalised(b),
    ensures
        keys_of(a) == keys_of(b),
{
}

impl RoomKeys {
    /// The parts of a room's keys have fixed lengths.
    pub proof fn lengths(&self)
        ensures
            self@.room_id.len() == 16,
            self@.auth_key.len() == 32,
            self@.msg_key.len() == 32,
    {
    }

    /// Stretches an invite code into room keys.
    ///
    /// Separators and case are normalised so `abcd-efgh` and `ABCD EFGH` are the
    /// same room; that lets users retype a code without worrying about format.
    pub fn derive(invite_code: &str) -> (r: Result<RoomKeys, CryptoError>)
        ensures
            r == Err::<RoomKeys, _>(CryptoError::CodeTooShort) <==> normalised(invite_code@).len()
                < 8,
            r == Err::<RoomKeys, _>(CryptoError::Derive) <==> normalised(invite_code@).len()
                > 0xffff_ffff,
            r is Ok <==> 8 <= normalised(invite_code@).len() <= 0xffff_ffff,
            r matches Ok(keys) ==> keys@ == keys_of(invite_code@),
    {
        let normal = normalise_code(invite_code);
        proof {
            normalised_is_normalised(invite_code@);
            normalised_bytes(normalised(invite_code@));
            reveal_strlit("synctus/room/v1");
            is_ascii_chars_encode_utf8("synctus/room/v1"@);
        }
        if normal.len() < 8 {
            return Err(CryptoError::CodeTooShort);
        }
        let code = text_of(normal.as_slice(), 0, normal.len());
        assert(code@ == normalised(invite_code@));
        let root = match argon2id_hash(
            code.as_str().as_bytes(),
            "synctus/room/v1".as_bytes(),
            ARGON_MEM_KIB,
            ARGON_PASSES,
            ARGON_LANES,
        ) {
            Ok(root) => root,
            Err(_) => {
                return Err(CryptoError::Derive);
            },
        };
        let room_id = array16(
            &hkdf_expand(root.as_slice(), "synctus/v1/room-id".as_bytes(), 16),
        );
        let auth_key = array32(&hkdf_expand(root.as_slice(), "synctus/v1/auth".as_bytes(), 32));
        let msg_key = array32(&hkdf_expand(root.as_slice(), "synctus/v1/message".as_bytes(), 32));
        Ok(RoomKeys { room_id, auth_key, msg_key })
    }

    /// Room identifier the relay uses for routing. Reveals nothing about the
    /// invite code beyond membership.
    pub fn room_id(&self) -> (r: [u8; 16])
        ensures
            r@ == self@.room_id,
    {
        self.room_id
    }

    /// Lowercase hex room id, used in logs and the relay's routing table.
    pub fn room_id_hex(&self) -> (r: String)
        ensures
            r@ == hex(self@.room_id),
    {
        hex_lower(self.room_id.as_slice())
    }

    /// Answers a relay challenge: `HMAC(auth_key, "synctus-auth" || challenge)`.
    pub fn auth_response(&self, challenge: &[u8]) -> (r: [u8; 32])
        ensures
            r@ == auth_tag(self@, challenge@),
    {
        let msg = auth_message(challenge);
        hmac_tag(self.auth_key.as_slice(), msg.as_slice())
    }

    /// Constant-time check of a client's challenge response: it accepts the
    /// answer of [`RoomKeys::auth_response`] to the same challenge, and no other.
    pub fn verify_auth(&self, challenge: &[u8], response: &[u8]) -> (r: bool)
        ensures
            r == (response@ == auth_tag(self@, challenge@)),
    {
        let msg = auth_message(challenge);
        hmac_verify(self.auth_key.as_slice(), msg.as_slice(), response)
    }

    /// Encrypts a payload, returning `nonce || ciphertext`, with a nonce that
    /// depends on chance. [`RoomKeys::open`] under the same keys and associated
    /// data gives the payload back.
    ///
    /// `aad` is authenticated but not encrypted; the transport binds the sender
    /// device id there so a peer cannot be impersonated within the room.
    pub fn seal(&self, plaintext: &[u8], aad: &[u8]) -> (r: Result<Vec<u8>, CryptoError>)
        requires
            plaintext@.len() + 40 <= isize::MAX,
        ensures
            r is Ok <==> plaintext@.len() <= MAX_PLAINTEXT,
            r matches Err(e) ==> e == CryptoError::Encrypt,
            r matches Ok(out) ==> is_box(self@, out@, plaintext@, aad@),
    {
        let nonce = random_bytes(24);
        self.seal_with_nonce(&array24(nonce.as_slice()), plaintext, aad)
    }

    /// [`RoomKeys::seal`] with a given nonce.
    pub fn seal_with_nonce(&self, nonce: &[u8; 24], plaintext: &[u8], aad: &[u8]) -> (r: Result<
        Vec<u8>,
        CryptoError,
    >)
        requires
            plaintext@.len() + 40 <= isize::MAX,
        ensures
            r is Ok <==> plaintext@.len() <= MAX_PLAINTEXT,
            r matches Err(e) ==> e == CryptoError::Encrypt,
            r matches Ok(out) ==> {
                &&& is_box(self@, out@, plaintext@, aad@)
                &&& out@.take(24) == nonce@
            },
    {
        if plaintext.len() as u64 > MAX_PLAINTEXT {
            return Err(CryptoError::Encrypt);
        }
        let ct = match aead_encrypt(&self.msg_key, nonce, plaintext, aad) {
            Ok(ct) => ct,
            Err(_) => {
                return Err(CryptoError::Encrypt);
            },
        };
        let mut out: Vec<u8> = Vec::new();
        out.extend_from_slice(nonce.as_slice());
        out.extend_from_slice(ct.as_slice());
        assert(out@ == nonce@ + ct@);
        assert(out@.take(24) == nonce@);
        assert(out@.skip(24) == ct@);
        Ok(out)
    }

    /// Inverse of [`RoomKeys::seal`]. Fails on a wrong invite code, a tampered
    /// payload or mismatched `aad`.
    pub fn open(&self, sealed: &[u8], aad: &[u8]) -> (r: Result<Vec<u8>, CryptoError>)
        ensures
            r == Err::<Vec<u8>, _>(CryptoError::TooShort) <==> sealed@.len() < 40,
            r == Err::<Vec<u8>, _>(CryptoError::Decrypt) <==> sealed@.len() >= 40 && opened(
                self@,
                sealed@,
                aad@,
            ) is None,
            r is Ok <==> opened(self@, sealed@, aad@) is Some,
            r matches Ok(plaintext) ==> is_box(self@, sealed@, plaintext@, aad@),
    {
        if sealed.len() < 24 + 16 {
            return Err(CryptoError::TooShort);
        }
        if sealed.len() as u64 > MAX_PLAINTEXT + 40 {
            return Err(CryptoError::Decrypt);
        }
        let nonce = array24(sealed);
        let (_, ct) = sealed.split_at(24);
        assert(ct@ == sealed@.skip(24));
        assert(sealed@ == sealed@.take(24) + sealed@.skip(24));
        match aead_decrypt(&self.msg_key, &nonce, ct, aad) {
            Ok(plaintext) => Ok(plaintext),
            Err(_) => Err(CryptoError::Decrypt),
        }
    }
}

/// `"synctus-auth" || challenge`.
fn auth_message(challenge: &[u8]) -> (r: Vec<u8>)
    ensures
        r@ == encode_utf8("synctus-auth"@) + challenge@,
{
    let mut msg: Vec<u8> = Vec::new();
    msg.extend_from_slice("synctus-auth".as_bytes());
    msg.extend_from_slice(challenge);
    assert(msg@ == encode_utf8("synctus-auth"@) + challenge@);
    msg
}

/// What was sealed under a code ([`RoomKeys::seal`] makes nothing but boxes, and
/// [`RoomKeys::derive`] gives the keys of a code) opens under every code that is the
/// same but for separators and case, and to what was sealed. A box is 40 bytes longer
/// than its message, and nothing shorter than that is one.
pub proof fn the_same_code_opens_the_box(
    a: Seq<char>,
    b: Seq<char>,
    sealed: Seq<u8>,
    message: Seq<u8>,
    aad: Seq<u8>,
    short: Seq<u8>,
)
    requires
        normalised(a) == normalised(b),
        is_box(keys_of(a), sealed, message, aad),
        short.len() < 40,
    ensures
        opened(keys_of(b), sealed, aad) == Some(message),
        sealed.len() == message.len() + 40,
        opened(keys_of(b), short, aad) is None,
{
    same_code_same_keys(a, b);
}

/// Of all boxes under one nonce, only one opens to a given message under given
/// associated data: a box that was changed behind its nonce never opens to the same
/// message. [`RoomKeys::open`] gives a message back only for the box that is
/// sealed with it.
pub proof fn changed_boxes_do_not_read_the_same(
    keys: KeyBytes,
    a: Seq<u8>,
    b: Seq<u8>,
    message: Seq<u8>,
    aad: Seq<u8>,
)
    requires
        a.take(24) == b.take(24),
        is_box(keys, a, message, aad),
        is_box(keys, b, message, aad),
    ensures
        a == b,
{
}

/// Hexadecimal text has two digits for each byte, and no two byte strings share one.
pub proof fn hex_reads_back(a: Seq<u8>, b: Seq<u8>, i: int)
    ensures
        hex(a).len() == 2 * a.len(),
        0 <= i < hex(a).len() ==> '0' <= hex(a)[i] <= '9' || 'a' <= hex(a)[i] <= 'f',
        hex(a) == hex(b) ==> a == b,
{
    if hex(a) == hex(b) {
        assert(hex(a).len() == hex(b).len());
        assert forall|k: int| 0 <= k < a.len() implies a[k] == b[k] by {
            assert((2 * k) / 2 == k && (2 * k) % 2 == 0);
            assert((2 * k + 1) / 2 == k && (2 * k + 1) % 2 == 1);
            assert(hex(a)[2 * k] == hex(b)[2 * k]);
            assert(hex(a)[2 * k + 1] == hex(b)[2 * k + 1]);
            let (x, y) = (a[k] as int, b[k] as int);
            assert(hex(a)[2 * k] == hex_digit(x / 16) && hex(b)[2 * k] == hex_digit(y / 16));
            assert(hex(a)[2 * k + 1] == hex_digit(x % 16) && hex(b)[2 * k + 1] == hex_digit(y % 16));
            assert(x / 16 == y / 16);
            assert(x % 16 == y % 16);
        }
        assert(a =~= b);
    }
}

/// A grouped code has a dash behind every fourth character, and the code's own
/// characters in their order everywhere else.
pub proof fn groups_are_of_four(code: Seq<char>, i: int)
    requires
        0 <= i < grouped(code).len(),
    ensures
        code.len() > 0 ==> grouped(code).len() == code.len() + (code.len() - 1) / 4,
        i % 5 == 4 ==> grouped(code)[i] == '-',
        i % 5 != 4 ==> i - i / 5 < code.len() && grouped(code)[i] == code[i - i / 5],
    decreases code.len(),
{
    if code.len() > 4 {
        let rest = code.skip(4);
        if i >= 5 {
            groups_are_of_four(rest, i - 5);
        } else {
            groups_are_of_four(rest, 0);
        }
    }
}

/// The characters of a picked code are letters and digits that cannot be mistaken for
/// one another, and different picks give different ones.
pub proof fn picked_characters_are_clear(picks: Seq<u32>, i: int, j: int)
    requires
        0 <= i < picks.len(),
        0 <= j < picks.len(),
    ensures
        picked(picks).len() == picks.len(),
        'A' <= picked(picks)[i] <= 'Z' || '2' <= picked(picks)[i] <= '9',
        picked(picks)[i] != 'I' && picked(picks)[i] != 'O',
        picked(picks)[i] == picked(picks)[j] <==> picks[i] % 32 == picks[j] % 32,
{
    reveal_strlit("ABCDEFGHJKLMNPQRSTUVWXYZ23456789");
}

/// The answer to a challenge is a tag over all of it: no two challenges are answered
/// by the tag of one message.
pub proof fn answers_cover_the_challenge(keys: KeyBytes, a: Seq<u8>, b: Seq<u8>) -> (r: (
    Seq<u8>,
    Seq<u8>,
))
    ensures
        auth_tag(keys, a) == hmac_sha256(keys.auth_key, r.0),
        auth_tag(keys, b) == hmac_sha256(keys.auth_key, r.1),
        a != b ==> r.0 != r.1,
        a.is_suffix_of(r.0),
        b.is_suffix_of(r.1),
{
    let label = encode_utf8("synctus-auth"@);
    let m = label + a;
    let n = label + b;
    assert(a =~= m.skip(label.len() as int));
    assert(b =~= n.skip(label.len() as int));
    assert(a =~= m.subrange(m.len() - a.len(), m.len() as int));
    assert(b =~= n.subrange(n.len() - b.len(), n.len() as int));
    (m, n)
}

/// A box holds what was sealed behind its nonce, for the key of messages; one that is
/// too short for nonce and tag holds nothing.
pub proof fn boxes_begin_with_their_nonce(
    keys: KeyBytes,
    nonce: Seq<u8>,
    message: Seq<u8>,
    aad: Seq<u8>,
    short: Seq<u8>,
)
    requires
        nonce.len() == 24,
        short.len() < 40,
    ensures
        sealed_with(keys, nonce, message, aad).take(24) == nonce,
        sealed_with(keys, nonce, message, aad).skip(24) == xchacha_seal(
            keys.msg_key,
            nonce,
            message,
            aad,
        ),
        opened(keys, short, aad) is None,
{
    let sealed = sealed_with(keys, nonce, message, aad);
    assert(sealed.take(24) =~= nonce);
    assert(sealed.skip(24) =~= xchacha_seal(keys.msg_key, nonce, message, aad));
}

}
