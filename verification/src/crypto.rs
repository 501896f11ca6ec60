//! The credential vault: secrets are sealed one by one with AES-256-GCM under one key.
//!
//! The key is either random and kept by the system (no master password is set), or derived from
//! the master password with Argon2id. The header that is stored with the credentials tells which,
//! and holds what is needed to derive the key again and to see whether it is the right one.

use aes_gcm::aead::Aead;
use aes_gcm::KeyInit;
use base64::Engine;
use secrecy::ExposeSecret;
use vstd::prelude::*;
use vstd::utf8;

verus! {

/// Memory for deriving a key, in MiB.
pub const KDF_MEMORY_MIB: u32 = 64;

/// Memory for deriving a key, in KiB.
pub const KDF_MEMORY_KIB: u32 = 65536;

/// Passes over the memory for deriving a key.
pub const KDF_OPS: u32 = 3;

/// The most lanes used for deriving a key.
pub const KDF_PARALLELISM_MAX: u32 = 4;

/// Bytes of a nonce.
pub const NONCE_LEN: usize = 12;

/// Bytes of the seal behind a sealed text.
pub const TAG_LEN: usize = 16;

/// The longest text that can be sealed, in bytes.
pub const SEAL_MAX: u64 = 68_719_476_736;

/// What goes wrong with secrets.
#[derive(Debug, Clone, Copy, PartialEq, Eq, Structural)]
pub enum CryptoError {
    /// The key cannot be derived: the header's numbers are out of range.
    Kdf,
    /// The text cannot be opened: it was changed, or the key is another.
    Cipher,
    /// The master password, or the key, is not the right one.
    Verify,
    /// The sealed text is no sealed text.
    BadEnvelope,
}

/// What is derived from a password with Argon2id, version 19, or nothing where a parameter is
/// out of range.
pub uninterp spec fn argon2id(
    password: Seq<u8>,
    salt: Seq<u8>,
    ops: u32,
    mem_kib: u32,
    lanes: u32,
) -> Option<Seq<u8>>;

/// Whether Argon2 takes these parameters.
pub open spec fn derivable(
    password: Seq<u8>,
    salt: Seq<u8>,
    ops: u32,
    mem_kib: u32,
    lanes: u32,
) -> bool {
    &&& mem_kib >= 8
    &&& mem_kib >= 8 * lanes
    &&& ops >= 1
    &&& 1 <= lanes <= 0xff_ffff
    &&& 8 <= salt.len() <= 0xffff_ffff
    &&& password.len() <= 0xffff_ffff
}

/// A text sealed with AES-256-GCM, the seal at its end.
pub uninterp spec fn gcm_sealed(key: Seq<u8>, nonce: Seq<u8>, plain: Seq<u8>) -> Seq<u8>;

/// What AES-256-GCM finds under a seal, if the seal is that of the key.
pub uninterp spec fn gcm_opened(key: Seq<u8>, nonce: Seq<u8>, sealed: Seq<u8>) -> Option<Seq<u8>>;

/// Bytes in base64, standard alphabet, padded.
pub uninterp spec fn base64_text(bytes: Seq<u8>) -> Seq<char>;

/// The bytes that a text in base64 stands for, if it is one.
pub uninterp spec fn base64_bytes(s: Seq<char>) -> Option<Seq<u8>>;

/// The bytes of a hidden key.
pub uninterp spec fn key_bytes(key: SecretKey) -> Seq<u8>;

/// The characters of a hidden text.
pub uninterp spec fn secret_text(text: SecretText) -> Seq<char>;

/// `rand::random`: bytes from the thread's generator, whatever they are.
#[verifier::external_body]
pub(crate) fn random<const N: usize>() -> (r: [u8; N]) {
    rand::random()
}

/// `Argon2::hash_password_into` with Argon2id, version 19 and a key of 32 bytes, after
/// `Params::new`: the key is a function of the arguments, and there is one exactly where the
/// parameters are in range.
#[verifier::external_body]
fn derive_key(password: &[u8], salt: &[u8], ops: u32, mem_kib: u32, lanes: u32) -> (r: Option<
    [u8; 32],
>)
    requires
        lanes <= 0xff_ffff,
    ensures
        match r {
            Some(key) => argon2id(password@, salt@, ops, mem_kib, lanes) == Some(key@),
            None => argon2id(password@, salt@, ops, mem_kib, lanes) is None,
        },
        r is Some == derivable(password@, salt@, ops, mem_kib, lanes),
{
    let params = argon2::Params::new(mem_kib, ops, lanes, None).ok()?;
    let kdf = argon2::Argon2::new(argon2::Algorithm::Argon2id, argon2::Version::V0x13, params);
    let mut key = [0u8; 32];
    kdf.hash_password_into(password, salt, &mut key).ok()?;
    Some(key)
}

/// `Aes256Gcm::encrypt`: the result is a function of the arguments, 16 bytes longer than the
/// text, and opens under the same key and nonce to that text.
#[verifier::external_body]
fn seal_bytes(key: &[u8; 32], nonce: &[u8; 12], plain: &[u8]) -> (r: Vec<u8>)
    requires
        plain@.len() <= SEAL_MAX,
    ensures
        r@ == gcm_sealed(key@, nonce@, plain@),
        r@.len() == plain@.len() + TAG_LEN,
        gcm_opened(key@, nonce@, r@) == Some(plain@),
{
    let cipher = aes_gcm::Aes256Gcm::new_from_slice(key).expect("32 bytes");
    cipher.encrypt(&aes_gcm::Nonce::from(*nonce), plain).expect("in range")
}

/// `Aes256Gcm::decrypt`: the result is a function of the arguments, and 16 bytes shorter than
/// what was opened.
#[verifier::external_body]
fn open_bytes(key: &[u8; 32], nonce: &[u8; 12], sealed: &[u8]) -> (r: Option<Vec<u8>>)
    ensures
        match r {
            Some(plain) => gcm_opened(key@, nonce@, sealed@) == Some(plain@) && plain@.len()
                + TAG_LEN == sealed@.len(),
            None => gcm_opened(key@, nonce@, sealed@) is None,
        },
{
    let cipher = aes_gcm::Aes256Gcm::new_from_slice(key).expect("32 bytes");
    cipher.decrypt(&aes_gcm::Nonce::from(*nonce), sealed).ok()
}

/// `Engine::encode` of base64's standard engine: the text is a function of the bytes, and decodes
/// to them.
#[verifier::external_body]
fn encode_base64(bytes: &[u8]) -> (r: String)
    ensures
        r@ == base64_text(bytes@),
        base64_bytes(r@) == Some(bytes@),
{
    base64::engine::general_purpose::STANDARD.encode(bytes)
}

/// `Engine::decode` of base64's standard engine: the bytes are a function of the text.
#[verifier::external_body]
fn decode_base64(s: &str) -> (r: Option<Vec<u8>>)
    ensures
        match r {
            Some(bytes) => base64_bytes(s@) == Some(bytes@),
            None => base64_bytes(s@) is None,
        },
{
    base64::engine::general_purpose::STANDARD.decode(s).ok()
}

/// `String::from_utf8`: the text whose UTF-8 encoding the bytes are, if they are one.
#[verifier::external_body]
fn text_from_utf8(bytes: Vec<u8>) -> (r: Option<String>)
    ensures
        match r {
            Some(s) => utf8::valid_utf8(bytes@) && s@ == utf8::decode_utf8(bytes@),
            None => !utf8::valid_utf8(bytes@),
        },
{
    String::from_utf8(bytes).ok()
}

/// A key that is wiped when it goes away: the bytes stand in a `secrecy::SecretBox`.
#[verifier::external_body]
pub struct SecretKey {
    inner: secrecy::SecretBox<[u8; 32]>,
}

impl SecretKey {
    /// `SecretBox::new`: hides the bytes.
    #[verifier::external_body]
    fn new(key: [u8; 32]) -> (r: SecretKey)
        ensures
            key_bytes(r) == key@,
    {
        SecretKey { inner: secrecy::SecretBox::new(Box::new(key)) }
    }

    /// `ExposeSecret::expose_secret`: the bytes that were hidden.
    #[verifier::external_body]
    fn expose(&self) -> (r: [u8; 32])
        ensures
            r@ == key_bytes(*self),
    {
        *self.inner.expose_secret()
    }
}

/// A text that is wiped when it goes away: it stands in a `zeroize::Zeroizing`.
#[verifier::external_body]
pub struct SecretText {
    inner: zeroize::Zeroizing<String>,
}

/// What a hidden text holds, where there is one.
pub open spec fn opt_secret(s: Option<SecretText>) -> Option<Seq<char>> {
    match s {
        Some(s) => Some(secret_text(s)),
        None => None,
    }
}

impl SecretText {
    /// `Zeroizing::new`: hides the text.
    #[verifier::external_body]
    pub(crate) fn new(s: String) -> (r: SecretText)
        ensures
            secret_text(r) == s@,
    {
        SecretText { inner: zeroize::Zeroizing::new(s) }
    }

    /// `Zeroizing`'s `deref`: the text that was hidden.
    #[verifier::external_body]
    pub(crate) fn expose(&self) -> (r: &str)
        ensures
            r@ == secret_text(*self),
    {
        self.inner.as_str()
    }

    /// The text.
    pub fn as_str(&self) -> (r: &str)
        ensures
            r@ == secret_text(*self),
    {
        self.expose()
    }
}

/// How many lanes a new key is derived with: as many as there are processors, up to a bound; two
/// where their number is not known.
pub open spec fn lanes(processors: Option<u32>) -> u32 {
    match processors {
        Some(n) => if n < 1 {
            1
        } else if n > KDF_PARALLELISM_MAX {
            KDF_PARALLELISM_MAX
        } else {
            n
        },
        None => 2,
    }
}

/// How many lanes to derive a new key with.
pub fn derive_parallelism(processors: Option<u32>) -> (r: u32)
    ensures
        r == lanes(processors),
        1 <= r <= KDF_PARALLELISM_MAX,
{
    match processors {
        Some(n) => if n < 1 {
            1
        } else if n > KDF_PARALLELISM_MAX {
            KDF_PARALLELISM_MAX
        } else {
            n
        },
        None => 2,
    }
}

/// The number of lanes of a header that does not tell it.
pub fn default_parallel_one() -> (r: u32)
    ensures
        r == 1,
{
    1
}

/// One sealed secret: a nonce, then the sealed text with its seal.
pub struct Envelope {
    bytes: Vec<u8>,
}

impl View for Envelope {
    type V = Seq<u8>;

    closed spec fn view(&self) -> Seq<u8> {
        self.bytes@
    }
}

/// The nonce of an envelope.
pub open spec fn nonce_of(envelope: Seq<u8>) -> Seq<u8> {
    envelope.take(NONCE_LEN as int)
}

/// The sealed text of an envelope.
pub open spec fn sealed_of(envelope: Seq<u8>) -> Seq<u8> {
    envelope.skip(NONCE_LEN as int)
}

/// What an optional envelope holds.
pub open spec fn opt_envelope(e: Option<Envelope>) -> Option<Seq<u8>> {
    match e {
        Some(e) => Some(e@),
        None => None,
    }
}

impl Envelope {
    /// There is a nonce and a seal.
    #[verifier::type_invariant]
    closed spec fn inv(self) -> bool {
        self.bytes@.len() >= NONCE_LEN + TAG_LEN
    }

    /// An envelope from a nonce and the text sealed with it.
    fn new(nonce: [u8; 12], ciphertext: Vec<u8>) -> (r: Envelope)
        requires
            ciphertext@.len() >= TAG_LEN,
        ensures
            r@ == nonce@ + ciphertext@,
    {
        let mut bytes: Vec<u8> = Vec::new();
        let mut i: usize = 0;
        while i < NONCE_LEN
            invariant
                i <= NONCE_LEN,
                bytes@ == nonce@.take(i as int),
            decreases NONCE_LEN - i,
        {
            bytes.push(nonce[i]);
            i += 1;
            assert(nonce@.take(i as int) =~= nonce@.take(i - 1).push(nonce@[i - 1]));
        }
        assert(nonce@.take(i as int) =~= nonce@);
        let mut rest = ciphertext;
        bytes.append(&mut rest);
        Envelope { bytes }
    }

    /// The nonce.
    fn nonce(&self) -> (r: [u8; 12])
        ensures
            r@ == nonce_of(self@),
    {
        proof {
            use_type_invariant(self);
        }
        let mut n = [0u8; 12];
        let mut i: usize = 0;
        while i < NONCE_LEN
            invariant
                i <= NONCE_LEN,
                self.bytes@.len() >= NONCE_LEN,
                forall|k: int| 0 <= k < i ==> n@[k] == self.bytes@[k],
            decreases NONCE_LEN - i,
        {
            n[i] = self.bytes[i];
            i += 1;
        }
        assert(n@ =~= nonce_of(self@));
        n
    }

    /// The sealed text.
    fn ciphertext(&self) -> (r: Vec<u8>)
        ensures
            r@ == sealed_of(self@),
    {
        proof {
            use_type_invariant(self);
        }
        let mut out: Vec<u8> = Vec::new();
        let mut i: usize = NONCE_LEN;
        let ghost sealed = sealed_of(self@);
        while i < self.bytes.len()
            invariant
                NONCE_LEN <= i <= self.bytes@.len(),
                sealed == self.bytes@.skip(NONCE_LEN as int),
                out@ == sealed.take(i - NONCE_LEN),
            decreases self.bytes@.len() - i,
        {
            out.push(self.bytes[i]);
            i += 1;
            assert(sealed.take(i - NONCE_LEN) =~= sealed.take(i - NONCE_LEN - 1).push(
                sealed[i - NONCE_LEN - 1],
            ));
        }
        assert(sealed.take(i - NONCE_LEN) =~= sealed);
        out
    }

    /// An envelope from its bytes; too few are no envelope.
    pub fn from_bytes(bytes: Vec<u8>) -> (r: Result<Envelope, CryptoError>)
        ensures
            match r {
                Ok(e) => bytes@.len() >= NONCE_LEN + TAG_LEN && e@ == bytes@,
                Err(e) => bytes@.len() < NONCE_LEN + TAG_LEN && e == CryptoError::BadEnvelope,
            },
    {
        if bytes.len() < NONCE_LEN + TAG_LEN {
            Err(CryptoError::BadEnvelope)
        } else {
            Ok(Envelope { bytes })
        }
    }

    /// The bytes.
    pub fn as_bytes(&self) -> (r: &Vec<u8>)
        ensures
            r@ == self@,
    {
        &self.bytes
    }

    /// How many bytes there are.
    pub fn len(&self) -> (n: usize)
        ensures
            n == self@.len(),
    {
        self.bytes.len()
    }

    /// An envelope as it is stored: in base64.
    pub fn to_base64(&self) -> (r: String)
        ensures
            r@ == base64_text(self@),
            envelope_from(r@) == Ok::<Seq<u8>, CryptoError>(self@),
    {
        proof {
            use_type_invariant(self);
        }
        encode_base64(self.bytes.as_slice())
    }

    /// An envelope from what was stored.
    pub fn from_base64(s: &str) -> (r: Result<Envelope, CryptoError>)
        ensures
            match r {
                Ok(e) => envelope_from(s@) == Ok::<Seq<u8>, CryptoError>(e@),
                Err(e) => envelope_from(s@) == Err::<Seq<u8>, CryptoError>(e),
            },
    {
        match decode_base64(s) {
            Some(bytes) => Envelope::from_bytes(bytes),
            None => Err(CryptoError::BadEnvelope),
        }
    }

    /// A copy.
    pub fn copied(&self) -> (r: Envelope)
        ensures
            r@ == self@,
    {
        proof {
            use_type_invariant(self);
        }
        let bytes = self.bytes.clone();
        assert(bytes@ =~= self.bytes@);
        Envelope { bytes }
    }

    /// Whether two envelopes hold the same bytes.
    pub fn same(&self, other: &Envelope) -> (r: bool)
        ensures
            r == (self@ == other@),
    {
        same_bytes(self.bytes.as_slice(), other.bytes.as_slice())
    }
}

/// Whether two slices hold the same bytes.
fn same_bytes(a: &[u8], b: &[u8]) -> (r: bool)
    ensures
        r == (a@ == b@),
{
    if a.len() != b.len() {
        return false;
    }
    let mut i: usize = 0;
    while i < a.len()
        invariant
            i <= a@.len(),
            a@.len() == b@.len(),
            forall|k: int| 0 <= k < i ==> a@[k] == b@[k],
        decreases a@.len() - i,
    {
        if a[i] != b[i] {
            return false;
        }
        i += 1;
    }
    assert(a@ =~= b@);
    true
}

/// What a stored envelope stands for.
pub open spec fn envelope_from(s: Seq<char>) -> Result<Seq<u8>, CryptoError> {
    match base64_bytes(s) {
        Some(bytes) => if bytes.len() >= NONCE_LEN + TAG_LEN {
            Ok(bytes)
        } else {
            Err(CryptoError::BadEnvelope)
        },
        None => Err(CryptoError::BadEnvelope),
    }
}

/// What is stored with the credentials.
pub struct CryptoHeader {
    /// The version of the format.
    pub version: u32,
    /// Whether the key comes from a master password.
    pub master_password_set: bool,
    /// How the key is derived; empty without a master password.
    pub kdf: String,
    /// The salt, in base64; empty without a master password.
    pub salt: String,
    /// Passes over the memory; 0 without a master password.
    pub ops: u32,
    /// Memory in MiB; 0 without a master password.
    pub mem_mib: u32,
    /// Lanes; 0 without a master password.
    pub parallel: u32,
    /// A known text sealed with the key; none without a master password.
    pub verifier: Option<Envelope>,
}

/// What a [`CryptoHeader`] holds.
#[verifier::ext_equal]
pub struct HeaderView {
    /// The version of the format.
    pub version: u32,
    /// Whether the key comes from a master password.
    pub master_password_set: bool,
    /// How the key is derived.
    pub kdf: Seq<char>,
    /// The salt, in base64.
    pub salt: Seq<char>,
    /// Passes over the memory.
    pub ops: u32,
    /// Memory in MiB.
    pub mem_mib: u32,
    /// Lanes.
    pub parallel: u32,
    /// A known text sealed with the key.
    pub verifier: Option<Seq<u8>>,
}

impl View for CryptoHeader {
    type V = HeaderView;

    open spec fn view(&self) -> HeaderView {
        HeaderView {
            version: self.version,
            master_password_set: self.master_password_set,
            kdf: self.kdf@,
            salt: self.salt@,
            ops: self.ops,
            mem_mib: self.mem_mib,
            parallel: self.parallel,
            verifier: opt_envelope(self.verifier),
        }
    }
}

impl CryptoHeader {
    /// A copy.
    pub fn copied(&self) -> (r: CryptoHeader)
        ensures
            r@ == self@,
    {
        CryptoHeader {
            version: self.version,
            master_password_set: self.master_password_set,
            kdf: self.kdf.clone(),
            salt: self.salt.clone(),
            ops: self.ops,
            mem_mib: self.mem_mib,
            parallel: self.parallel,
            verifier: match &self.verifier {
                Some(v) => Some(v.copied()),
                None => None,
            },
        }
    }
}

/// What an envelope holds under a key, in bytes.
pub open spec fn opened(key: Seq<u8>, envelope: Seq<u8>) -> Option<Seq<u8>> {
    gcm_opened(key, nonce_of(envelope), sealed_of(envelope))
}

/// What an envelope holds under a key, as text.
pub open spec fn decrypted(key: Seq<u8>, envelope: Seq<u8>) -> Option<Seq<char>> {
    match opened(key, envelope) {
        Some(bytes) => if utf8::valid_utf8(bytes) {
            Some(utf8::decode_utf8(bytes))
        } else {
            None
        },
        None => None,
    }
}

/// The envelope of a text that is sealed under a key with a nonce.
pub open spec fn sealed(key: Seq<u8>, nonce: Seq<u8>, plaintext: Seq<char>) -> Seq<u8> {
    nonce + gcm_sealed(key, nonce, utf8::encode_utf8(plaintext))
}

/// Whether a text is short enough to be sealed.
pub open spec fn sealable(s: Seq<char>) -> bool {
    utf8::encode_utf8(s).len() <= SEAL_MAX
}

/// Whether a text is short enough to be sealed.
pub fn can_seal(s: &str) -> (r: bool)
    ensures
        r == sealable(s@),
{
    s.as_bytes().len() as u64 <= SEAL_MAX
}

/// Whether a password is short enough to derive a key from.
pub open spec fn usable_password(s: Seq<char>) -> bool {
    utf8::encode_utf8(s).len() <= 0xffff_ffff
}

/// Whether a password is short enough to derive a key from.
pub fn can_derive(s: &str) -> (r: bool)
    ensures
        r == usable_password(s@),
{
    s.as_bytes().len() as u64 <= 0xffff_ffff
}

/// Whether what an envelope holds is short enough to be sealed again.
pub open spec fn resealable(envelope: Seq<u8>) -> bool {
    envelope.len() <= SEAL_MAX + NONCE_LEN + TAG_LEN
}

/// Whether a header tells a key to be the right one.
pub open spec fn vouches(h: HeaderView, key: Seq<u8>) -> bool {
    match h.verifier {
        Some(envelope) => opened(key, envelope) == Some(utf8::encode_utf8("rterm-vault-v1"@)),
        None => false,
    }
}

/// The key that a master password unlocks, or why there is none.
pub open spec fn unlocked(passphrase: Seq<char>, h: HeaderView) -> Result<Seq<u8>, CryptoError> {
    if !h.master_password_set {
        Err(CryptoError::Verify)
    } else {
        match base64_bytes(h.salt) {
            None => Err(CryptoError::BadEnvelope),
            Some(salt) => {
                let password = utf8::encode_utf8(passphrase);
                if h.mem_mib * 1024 > u32::MAX || h.parallel > 0xff_ffff || !derivable(
                    password,
                    salt,
                    h.ops,
                    (h.mem_mib * 1024) as u32,
                    h.parallel,
                ) {
                    Err(CryptoError::Kdf)
                } else {
                    let key = argon2id(
                        password,
                        salt,
                        h.ops,
                        (h.mem_mib * 1024) as u32,
                        h.parallel,
                    )->0;
                    if vouches(h, key) {
                        Ok(key)
                    } else {
                        Err(CryptoError::Verify)
                    }
                }
            },
        }
    }
}

/// The vault: the key, and the header stored with what it seals.
pub struct Vault {
    dek: SecretKey,
    header: CryptoHeader,
}

/// What a [`Vault`] holds.
pub struct VaultView {
    /// The key.
    pub dek: Seq<u8>,
    /// The header.
    pub header: HeaderView,
}

impl View for Vault {
    type V = VaultView;

    closed spec fn view(&self) -> VaultView {
        VaultView { dek: key_bytes(self.dek), header: self.header@ }
    }
}

/// A text is sealed under a key with this nonce.
fn seal_with(dek: &SecretKey, nonce: [u8; 12], plaintext: &[u8]) -> (r: Envelope)
    requires
        plaintext@.len() <= SEAL_MAX,
    ensures
        r@ == nonce@ + gcm_sealed(key_bytes(*dek), nonce@, plaintext@),
        opened(key_bytes(*dek), r@) == Some(plaintext@),
        r@.len() == plaintext@.len() + NONCE_LEN + TAG_LEN,
{
    let key = dek.expose();
    let sealed = seal_bytes(&key, &nonce, plaintext);
    let r = Envelope::new(nonce, sealed);
    assert(nonce_of(r@) =~= nonce@);
    assert(sealed_of(r@) =~= sealed@);
    r
}

/// What an envelope holds under a key.
fn open(dek: &SecretKey, env: &Envelope) -> (r: Result<Vec<u8>, CryptoError>)
    ensures
        match r {
            Ok(plain) => opened(key_bytes(*dek), env@) == Some(plain@) && plain@.len() + NONCE_LEN
                + TAG_LEN == env@.len(),
            Err(e) => opened(key_bytes(*dek), env@) is None && e == CryptoError::Cipher,
        },
{
    proof {
        use_type_invariant(env);
    }
    let key = dek.expose();
    let nonce = env.nonce();
    let sealed = env.ciphertext();
    match open_bytes(&key, &nonce, sealed.as_slice()) {
        Some(plain) => Ok(plain),
        None => Err(CryptoError::Cipher),
    }
}

/// Whether a header tells a key to be the right one.
fn check_verifier(dek: &SecretKey, header: &CryptoHeader) -> (r: bool)
    ensures
        r == vouches(header@, key_bytes(*dek)),
{
    let verifier = match &header.verifier {
        Some(v) => v,
        None => {
            return false;
        },
    };
    match open(dek, verifier) {
        Ok(plain) => {
            let expected = "rterm-vault-v1".as_bytes();
            same_bytes(plain.as_slice(), expected)
        },
        Err(_) => false,
    }
}

impl Vault {
    /// A vault with a new master password. `processors` is how many there are, where that is
    /// known. The salt and the nonce are drawn at random; whatever they are, the same password
    /// unlocks the vault again from its header.
    pub fn new(passphrase: &str, processors: Option<u32>) -> (r: Vault)
        requires
            usable_password(passphrase@),
        ensures
            exists|salt: Seq<u8>, nonce: Seq<u8>|
                salt.len() == 16 && nonce.len() == 12 && r@ == #[trigger] password_vault(
                    passphrase@,
                    salt,
                    lanes(processors),
                    nonce,
                ),
            unlocked(passphrase@, r@.header) == Ok::<Seq<u8>, CryptoError>(r@.dek),
            vouches(r@.header, r@.dek),
    {
        let salt: [u8; 16] = random();
        let nonce: [u8; 12] = random();
        let parallel: u32 = derive_parallelism(processors);
        Vault::with_salt(passphrase, salt, parallel, nonce)
    }

    /// A vault with a new master password, this salt, so many lanes, and this nonce for the text
    /// that tells the key to be the right one.
    pub fn with_salt(passphrase: &str, salt: [u8; 16], parallel: u32, nonce: [u8; 12]) -> (r: Vault)
        requires
            usable_password(passphrase@),
            1 <= parallel <= KDF_PARALLELISM_MAX,
        ensures
            r@ == password_vault(passphrase@, salt@, parallel, nonce@),
            unlocked(passphrase@, r@.header) == Ok::<Seq<u8>, CryptoError>(r@.dek),
            vouches(r@.header, r@.dek),
    {
        let password = passphrase.as_bytes();
        let derived = derive_key(
            password,
            salt.as_slice(),
            KDF_OPS,
            KDF_MEMORY_KIB,
            parallel,
        );
        let key: [u8; 32] = derived.unwrap();
        let dek = SecretKey::new(key);
        let expected = "rterm-vault-v1".as_bytes();
        proof {
            reveal_strlit("rterm-vault-v1");
            vstd::string::is_ascii_spec_bytes("rterm-vault-v1");
        }
        let verifier = seal_with(&dek, nonce, expected);
        let encoded = encode_base64(salt.as_slice());
        let header = CryptoHeader {
            version: 1,
            master_password_set: true,
            kdf: "argon2id".to_owned(),
            salt: encoded,
            ops: KDF_OPS,
            mem_mib: KDF_MEMORY_MIB,
            parallel,
            verifier: Some(verifier),
        };
        assert(vouches(header@, key@));
        let r = Vault { dek, header };
        assert(r@.header =~= password_vault(passphrase@, salt@, parallel, nonce@).header);
        r
    }

    /// A vault with a random key and no master password.
    pub fn create_random() -> (r: Vault)
        ensures
            r@.dek.len() == 32,
            r@.header == random_key_header(),
    {
        let key: [u8; 32] = random();
        Vault::with_key(key)
    }

    /// A vault with this key and no master password.
    pub fn with_key(key: [u8; 32]) -> (r: Vault)
        ensures
            r@ == (VaultView { dek: key@, header: random_key_header() }),
    {
        let r = Vault {
            dek: SecretKey::new(key),
            header: CryptoHeader {
                version: 1,
                master_password_set: false,
                kdf: String::new(),
                salt: String::new(),
                ops: 0,
                mem_mib: 0,
                parallel: 0,
                verifier: None,
            },
        };
        assert(r@.header =~= random_key_header());
        r
    }

    /// The vault that a master password unlocks. Without a master password there is none.
    pub fn unlock(passphrase: &str, header: &CryptoHeader) -> (r: Result<Vault, CryptoError>)
        ensures
            match r {
                Ok(v) => unlocked(passphrase@, header@) == Ok::<Seq<u8>, CryptoError>(v@.dek)
                    && v@.header == header@,
                Err(e) => unlocked(passphrase@, header@) == Err::<Seq<u8>, CryptoError>(e),
            },
    {
        if !header.master_password_set {
            return Err(CryptoError::Verify);
        }
        let salt = match decode_base64(&header.salt) {
            Some(salt) => salt,
            None => {
                return Err(CryptoError::BadEnvelope);
            },
        };
        if header.mem_mib > u32::MAX / 1024 || header.parallel > 0xff_ffff {
            return Err(CryptoError::Kdf);
        }
        let derived = derive_key(
            passphrase.as_bytes(),
            salt.as_slice(),
            header.ops,
            header.mem_mib * 1024,
            header.parallel,
        );
        let dek = match derived {
            Some(key) => SecretKey::new(key),
            None => {
                return Err(CryptoError::Kdf);
            },
        };
        if check_verifier(&dek, header) {
            Ok(Vault { dek, header: header.copied() })
        } else {
            Err(CryptoError::Verify)
        }
    }

    /// The header to be stored.
    pub fn header(&self) -> (r: &CryptoHeader)
        ensures
            r@ == self@.header,
    {
        &self.header
    }

    /// The bytes of the key, for the system to keep.
    pub fn dek_bytes(&self) -> (r: [u8; 32])
        ensures
            r@ == self@.dek,
    {
        self.dek.expose()
    }

    /// The vault of a key that the system kept. With a master password the header must tell the
    /// key to be the right one; without, it is taken as it is.
    pub fn from_dek(dek: &[u8; 32], header: &CryptoHeader) -> (r: Result<Vault, CryptoError>)
        ensures
            match r {
                Ok(v) => v@.dek == dek@ && v@.header == header@ && (header@.master_password_set
                    ==> vouches(header@, dek@)),
                Err(e) => e == CryptoError::Verify && header@.master_password_set && !vouches(
                    header@,
                    dek@,
                ),
            },
    {
        let key = SecretKey::new(*dek);
        if header.master_password_set && !check_verifier(&key, header) {
            return Err(CryptoError::Verify);
        }
        Ok(Vault { dek: key, header: header.copied() })
    }

    /// A text is sealed, with a nonce drawn at random; whatever it is, this vault opens the
    /// envelope again.
    pub fn encrypt(&self, plaintext: &str) -> (r: Envelope)
        requires
            sealable(plaintext@),
        ensures
            exists|nonce: Seq<u8>|
                nonce.len() == 12 && r@ == #[trigger] sealed(self@.dek, nonce, plaintext@),
            decrypted(self@.dek, r@) == Some(plaintext@),
            resealable(r@),
    {
        let nonce: [u8; 12] = random();
        self.encrypt_with(nonce, plaintext)
    }

    /// A text is sealed with this nonce.
    pub fn encrypt_with(&self, nonce: [u8; 12], plaintext: &str) -> (r: Envelope)
        requires
            sealable(plaintext@),
        ensures
            r@ == sealed(self@.dek, nonce@, plaintext@),
            decrypted(self@.dek, r@) == Some(plaintext@),
            resealable(r@),
    {
        proof {
            utf8::encode_utf8_valid_utf8(plaintext@);
            utf8::encode_utf8_decode_utf8(plaintext@);
        }
        seal_with(&self.dek, nonce, plaintext.as_bytes())
    }

    /// What an envelope holds.
    pub fn decrypt(&self, env: &Envelope) -> (r: Result<SecretText, CryptoError>)
        ensures
            match r {
                Ok(s) => decrypted(self@.dek, env@) == Some(secret_text(s)),
                Err(e) => decrypted(self@.dek, env@) is None && e == CryptoError::Cipher,
            },
            resealable(env@) ==> (r matches Ok(s) ==> sealable(secret_text(s))),
    {
        let plain = match open(&self.dek, env) {
            Ok(plain) => plain,
            Err(_) => {
                return Err(CryptoError::Cipher);
            },
        };
        let ghost bytes = plain@;
        match text_from_utf8(plain) {
            Some(s) => {
                proof {
                    utf8::decode_utf8_encode_utf8(bytes);
                }
                Ok(SecretText::new(s))
            },
            None => Err(CryptoError::Cipher),
        }
    }
}

/// The vault of a new master password, with a salt, so many lanes, and the nonce of the text that
/// tells the key to be the right one.
pub open spec fn password_vault(
    passphrase: Seq<char>,
    salt: Seq<u8>,
    parallel: u32,
    nonce: Seq<u8>,
) -> VaultView {
    let dek = argon2id(utf8::encode_utf8(passphrase), salt, KDF_OPS, KDF_MEMORY_KIB, parallel)->0;
    VaultView {
        dek,
        header: HeaderView {
            version: 1,
            master_password_set: true,
            kdf: "argon2id"@,
            salt: base64_text(salt),
            ops: KDF_OPS,
            mem_mib: KDF_MEMORY_MIB,
            parallel,
            verifier: Some(sealed(dek, nonce, "rterm-vault-v1"@)),
        },
    }
}

/// The header of a vault without a master password.
pub open spec fn random_key_header() -> HeaderView {
    HeaderView {
        version: 1,
        master_password_set: false,
        kdf: Seq::empty(),
        salt: Seq::empty(),
        ops: 0,
        mem_mib: 0,
        parallel: 0,
        verifier: None,
    }
}

/// A master password unlocks only a vault that has one, and a key that the header tells to be
/// the right one is what it unlocks.
pub proof fn law_unlocked_keys_are_vouched_for(passphrase: Seq<char>, h: HeaderView)
    requires
        unlocked(passphrase, h) is Ok,
    ensures
        h.master_password_set,
        vouches(h, unlocked(passphrase, h)->Ok_0),
{
}

/// No master password unlocks a vault with a random key.
pub proof fn law_no_password_unlocks_a_random_key(passphrase: Seq<char>)
    ensures
        unlocked(passphrase, random_key_header()) == Err::<Seq<u8>, CryptoError>(
            CryptoError::Verify,
        ),
{
}

/// A vault with a master password has the key that Argon2id derives from it, in three passes over
/// 64 MiB, and its header holds all that is needed to derive it again, with a sealed word by which
/// the key is known. The key itself is not in it.
pub proof fn law_a_password_vault_can_be_opened_again(
    passphrase: Seq<char>,
    salt: Seq<u8>,
    parallel: u32,
    nonce: Seq<u8>,
)
    ensures
        ({
            let v = password_vault(passphrase, salt, parallel, nonce);
            &&& v.dek == argon2id(utf8::encode_utf8(passphrase), salt, 3, 65536, parallel)->0
            &&& v.header.master_password_set
            &&& v.header.version == 1
            &&& v.header.kdf == "argon2id"@
            &&& v.header.salt == base64_text(salt)
            &&& v.header.ops == 3
            &&& v.header.mem_mib == 64
            &&& v.header.parallel == parallel
            &&& v.header.verifier == Some(
                nonce + gcm_sealed(v.dek, nonce, utf8::encode_utf8("rterm-vault-v1"@)),
            )
        }),
{
}

/// A vault opens only where a master password is set, the header can be read, and the key derived
/// from the password opens the sealed word; the vault then has that very key.
pub proof fn law_only_the_right_key_opens(passphrase: Seq<char>, h: HeaderView, key: Seq<u8>)
    ensures
        unlocked(passphrase, h) == Ok::<Seq<u8>, CryptoError>(key) ==> {
            &&& h.master_password_set
            &&& base64_bytes(h.salt) is Some
            &&& argon2id(
                utf8::encode_utf8(passphrase),
                base64_bytes(h.salt)->0,
                h.ops,
                (h.mem_mib * 1024) as u32,
                h.parallel,
            )->0 == key
            &&& h.verifier is Some
            &&& gcm_opened(key, h.verifier->0.take(12), h.verifier->0.skip(12)) == Some(
                utf8::encode_utf8("rterm-vault-v1"@),
            )
        },
        !h.master_password_set ==> unlocked(passphrase, h) == Err::<Seq<u8>, CryptoError>(
            CryptoError::Verify,
        ),
        h.master_password_set && base64_bytes(h.salt) is None ==> unlocked(passphrase, h) == Err::<
            Seq<u8>,
            CryptoError,
        >(CryptoError::BadEnvelope),
        h.verifier is None ==> unlocked(passphrase, h) is Err && !vouches(h, key),
{
}

/// A right password opens the vault: where the header can be read and the derived key opens the
/// sealed word, nothing is refused.
pub proof fn law_the_right_key_opens(passphrase: Seq<char>, h: HeaderView, salt: Seq<u8>)
    requires
        h.master_password_set,
        base64_bytes(h.salt) == Some(salt),
        8 <= salt.len() <= 0xffff_ffff,
        utf8::encode_utf8(passphrase).len() <= 0xffff_ffff,
        1 <= h.parallel <= 0xff_ffff,
        h.ops >= 1,
        8 * h.parallel <= h.mem_mib * 1024 <= u32::MAX,
        h.verifier is Some,
    ensures
        ({
            let key = argon2id(
                utf8::encode_utf8(passphrase),
                salt,
                h.ops,
                (h.mem_mib * 1024) as u32,
                h.parallel,
            )->0;
            gcm_opened(key, h.verifier->0.take(12), h.verifier->0.skip(12)) == Some(
                utf8::encode_utf8("rterm-vault-v1"@),
            ) ==> unlocked(passphrase, h) == Ok::<Seq<u8>, CryptoError>(key)
        }),
{
}

/// An envelope is the twelve bytes it was sealed with, followed by what was sealed; opening it takes
/// them apart again.
pub proof fn law_envelopes_come_apart(key: Seq<u8>, nonce: Seq<u8>, words: Seq<char>)
    requires
        nonce.len() == 12,
    ensures
        ({
            let e = sealed(key, nonce, words);
            &&& nonce_of(e) == nonce
            &&& sealed_of(e) == gcm_sealed(key, nonce, utf8::encode_utf8(words))
            &&& gcm_opened(key, nonce, sealed_of(e)) == Some(utf8::encode_utf8(words))
                ==> decrypted(key, e) == Some(words)
        }),
{
    let e = sealed(key, nonce, words);
    assert(nonce_of(e) =~= nonce);
    assert(sealed_of(e) =~= gcm_sealed(key, nonce, utf8::encode_utf8(words)));
    utf8::encode_utf8_valid_utf8(words);
    utf8::encode_utf8_decode_utf8(words);
}

/// What cannot hold twelve bytes and a mark of sixteen is no envelope.
pub proof fn law_short_bytes_are_no_envelope(s: Seq<char>, bytes: Seq<u8>)
    requires
        base64_bytes(s) == Some(bytes),
    ensures
        bytes.len() < 28 ==> envelope_from(s) == Err::<Seq<u8>, CryptoError>(
            CryptoError::BadEnvelope,
        ),
        bytes.len() >= 28 ==> envelope_from(s) == Ok::<Seq<u8>, CryptoError>(bytes),
{
}

/// Keys are derived on as many processors as there are, on four at most; on two where that is not
/// known.
pub proof fn law_keys_are_derived_on_four_at_most(processors: Option<u32>)
    ensures
        1 <= lanes(processors) <= 4,
        processors matches Some(n) ==> (1 <= n <= 4 ==> lanes(processors) == n),
        processors matches Some(n) ==> (n > 4 ==> lanes(processors) == 4),
        processors is None ==> lanes(processors) == 2,
{
}

} // verus!
