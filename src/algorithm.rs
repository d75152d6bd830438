//! Settings of the cryptographic tools that sit beside the codec: Kerberos, bcrypt and
//! zlib inputs, with their two-way switches to and from `bool`.
use vstd::prelude::*;
use vstd::string::StringExecFns;

verus! {

#[derive(Debug, PartialEq, Eq, Clone, Default)]
pub struct KrbInputData {
    pub key: Vec<u8>,
    pub key_usage: i32,
    pub payload: Vec<u8>,
}

#[derive(Debug, PartialEq, Eq, Clone, Copy, Default, Structural)]
pub enum KrbMode {
    #[default]
    Encrypt,
    Decrypt,
}

impl From<KrbMode> for bool {
    fn from(mode: KrbMode) -> (r: bool) {
        match mode {
            KrbMode::Encrypt => false,
            KrbMode::Decrypt => true,
        }
    }
}

impl vstd::std_specs::convert::FromSpecImpl<KrbMode> for bool {
    open spec fn obeys_from_spec() -> bool {
        true
    }

    open spec fn from_spec(mode: KrbMode) -> bool {
        mode == KrbMode::Decrypt
    }
}

impl From<bool> for KrbMode {
    fn from(mode: bool) -> (r: KrbMode) {
        match mode {
            true => KrbMode::Decrypt,
            false => KrbMode::Encrypt,
        }
    }
}

impl vstd::std_specs::convert::FromSpecImpl<bool> for KrbMode {
    open spec fn obeys_from_spec() -> bool {
        true
    }

    open spec fn from_spec(mode: bool) -> KrbMode {
        if mode {
            KrbMode::Decrypt
        } else {
            KrbMode::Encrypt
        }
    }
}

#[derive(Debug, PartialEq, Eq, Clone, Default)]
pub struct KrbInput {
    pub mode: KrbMode,
    pub data: KrbInputData,
}

/// Rounds used where none are chosen.
pub const DEFAULT_BCRYPT_ROUNDS: u32 = 8;

#[derive(Eq, Clone, PartialEq, Debug)]
pub struct BcryptHashAction {
    pub rounds: u32,
    pub salt: Vec<u8>,
}

impl Default for BcryptHashAction {
    fn default() -> (r: BcryptHashAction)
        ensures
            r.rounds == DEFAULT_BCRYPT_ROUNDS,
            r.salt@.len() == 0,
    {
        BcryptHashAction { rounds: DEFAULT_BCRYPT_ROUNDS, salt: Vec::new() }
    }
}

#[derive(Eq, Clone, PartialEq, Debug)]
pub enum BcryptAction {
    Hash(BcryptHashAction),
    Verify(String),
}

impl<'a> From<&'a BcryptAction> for bool {
    fn from(action: &'a BcryptAction) -> (r: bool) {
        match action {
            BcryptAction::Hash(_) => false,
            BcryptAction::Verify(_) => true,
        }
    }
}

impl<'a> vstd::std_specs::convert::FromSpecImpl<&'a BcryptAction> for bool {
    open spec fn obeys_from_spec() -> bool {
        true
    }

    open spec fn from_spec(action: &'a BcryptAction) -> bool {
        action is Verify
    }
}

impl BcryptAction {
    /// `true` selects verifying with an empty hash, `false` hashing with the default
    /// settings.
    pub fn from_flag(verify: bool) -> (r: BcryptAction)
        ensures
            verify ==> (r matches BcryptAction::Verify(h) && h@.len() == 0),
            !verify ==> (r matches BcryptAction::Hash(a) && a.rounds == DEFAULT_BCRYPT_ROUNDS
                && a.salt@.len() == 0),
    {
        match verify {
            true => BcryptAction::Verify(String::new()),
            false => BcryptAction::Hash(BcryptHashAction::default()),
        }
    }
}

impl From<bool> for BcryptAction {
    fn from(verify: bool) -> (r: BcryptAction) {
        BcryptAction::from_flag(verify)
    }
}

impl vstd::std_specs::convert::FromSpecImpl<bool> for BcryptAction {
    /// The result holds a freshly made `String`, which no spec value names; `from_flag`
    /// states what it is.
    open spec fn obeys_from_spec() -> bool {
        false
    }

    open spec fn from_spec(verify: bool) -> BcryptAction {
        arbitrary()
    }
}

#[derive(Debug, PartialEq, Eq, Clone)]
pub struct BcryptInput {
    pub action: BcryptAction,
    pub data: Vec<u8>,
}

impl Default for BcryptInput {
    fn default() -> (r: BcryptInput)
        ensures
            r.data@.len() == 0,
            r.action matches BcryptAction::Hash(a) && a.rounds == DEFAULT_BCRYPT_ROUNDS
                && a.salt@.len() == 0,
    {
        BcryptInput { data: Vec::new(), action: BcryptAction::from_flag(false) }
    }
}

#[derive(Debug, PartialEq, Eq, Copy, Clone, Default, Structural)]
pub enum ZlibMode {
    #[default]
    Compress,
    Decompress,
}

impl From<ZlibMode> for bool {
    fn from(mode: ZlibMode) -> (r: bool) {
        match mode {
            ZlibMode::Compress => false,
            ZlibMode::Decompress => true,
        }
    }
}

impl vstd::std_specs::convert::FromSpecImpl<ZlibMode> for bool {
    open spec fn obeys_from_spec() -> bool {
        true
    }

    open spec fn from_spec(mode: ZlibMode) -> bool {
        mode == ZlibMode::Decompress
    }
}

impl From<bool> for ZlibMode {
    fn from(mode: bool) -> (r: ZlibMode) {
        match mode {
            true => ZlibMode::Decompress,
            false => ZlibMode::Compress,
        }
    }
}

impl vstd::std_specs::convert::FromSpecImpl<bool> for ZlibMode {
    open spec fn obeys_from_spec() -> bool {
        true
    }

    open spec fn from_spec(mode: bool) -> ZlibMode {
        if mode {
            ZlibMode::Decompress
        } else {
            ZlibMode::Compress
        }
    }
}

#[derive(Debug, PartialEq, Eq, Clone, Default)]
pub struct ZlibInput {
    pub mode: ZlibMode,
    pub data: Vec<u8>,
}


/// The hash algorithms an RSA signature can be made with.
#[derive(Debug, PartialEq, Eq, Clone, Copy, Structural)]
#[allow(non_camel_case_types)]
pub enum RsaHashAlgorithm {
    Md5,
    Sha1,
    Sha2_224,
    Sha2_256,
    Sha2_384,
    Sha2_512,
    Sha3_384,
    Sha3_512,
}

/// The name each hash algorithm goes by.
pub open spec fn rsa_hash_name(a: RsaHashAlgorithm) -> Seq<char> {
    match a {
        RsaHashAlgorithm::Md5 => "MD5"@,
        RsaHashAlgorithm::Sha1 => "SHA1"@,
        RsaHashAlgorithm::Sha2_224 => "SHA2_224"@,
        RsaHashAlgorithm::Sha2_256 => "SHA2_256"@,
        RsaHashAlgorithm::Sha2_384 => "SHA2_384"@,
        RsaHashAlgorithm::Sha2_512 => "SHA2_512"@,
        RsaHashAlgorithm::Sha3_384 => "SHA3_384"@,
        RsaHashAlgorithm::Sha3_512 => "SHA3_512"@,
    }
}

/// What follows the rejected name in the message for an unknown hash algorithm.
pub open spec fn rsa_hash_error_tail() -> Seq<char> {
    ". Supported: [\"MD5\", \"SHA1\", \"SHA2_224\", \"SHA2_256\", \"SHA2_384\", \"SHA2_512\", \"SHA3_384\", \"SHA3_512\"]."@
}

fn text_eq(a: &str, b: &str) -> (r: bool)
    ensures
        r == (a@ == b@),
{
    let x = a.to_owned();
    let y = b.to_owned();
    x.eq(&y)
}

impl RsaHashAlgorithm {
    /// The algorithm's name.
    pub fn name(&self) -> (r: &'static str)
        ensures
            r@ == rsa_hash_name(*self),
    {
        match self {
            RsaHashAlgorithm::Md5 => "MD5",
            RsaHashAlgorithm::Sha1 => "SHA1",
            RsaHashAlgorithm::Sha2_224 => "SHA2_224",
            RsaHashAlgorithm::Sha2_256 => "SHA2_256",
            RsaHashAlgorithm::Sha2_384 => "SHA2_384",
            RsaHashAlgorithm::Sha2_512 => "SHA2_512",
            RsaHashAlgorithm::Sha3_384 => "SHA3_384",
            RsaHashAlgorithm::Sha3_512 => "SHA3_512",
        }
    }

    /// The algorithm named `raw`; for any other text, a message that names it and lists
    /// the known names.
    pub fn try_from_name(raw: &str) -> (r: Result<RsaHashAlgorithm, String>)
        ensures
            r is Ok ==> rsa_hash_name(r->Ok_0) == raw@,
            r is Err <==> forall|a: RsaHashAlgorithm| rsa_hash_name(a) != raw@,
            r is Err ==> r->Err_0@ == "Invalid RSA hash algorithm: "@ + raw@ + rsa_hash_error_tail(),
    {
        if text_eq(raw, "MD5") {
            assert(rsa_hash_name(RsaHashAlgorithm::Md5) == raw@);
            Ok(RsaHashAlgorithm::Md5)
        } else if text_eq(raw, "SHA1") {
            assert(rsa_hash_name(RsaHashAlgorithm::Sha1) == raw@);
            Ok(RsaHashAlgorithm::Sha1)
        } else if text_eq(raw, "SHA2_224") {
            assert(rsa_hash_name(RsaHashAlgorithm::Sha2_224) == raw@);
            Ok(RsaHashAlgorithm::Sha2_224)
        } else if text_eq(raw, "SHA2_256") {
            assert(rsa_hash_name(RsaHashAlgorithm::Sha2_256) == raw@);
            Ok(RsaHashAlgorithm::Sha2_256)
        } else if text_eq(raw, "SHA2_384") {
            assert(rsa_hash_name(RsaHashAlgorithm::Sha2_384) == raw@);
            Ok(RsaHashAlgorithm::Sha2_384)
        } else if text_eq(raw, "SHA2_512") {
            assert(rsa_hash_name(RsaHashAlgorithm::Sha2_512) == raw@);
            Ok(RsaHashAlgorithm::Sha2_512)
        } else if text_eq(raw, "SHA3_384") {
            assert(rsa_hash_name(RsaHashAlgorithm::Sha3_384) == raw@);
            Ok(RsaHashAlgorithm::Sha3_384)
        } else if text_eq(raw, "SHA3_512") {
            assert(rsa_hash_name(RsaHashAlgorithm::Sha3_512) == raw@);
            Ok(RsaHashAlgorithm::Sha3_512)
        } else {
            assert forall|a: RsaHashAlgorithm| rsa_hash_name(a) != raw@ by {
                match a {
                    _ => {},
                }
            }
            let mut message = "Invalid RSA hash algorithm: ".to_owned();
            message.append(raw);
            message.append(". Supported: [\"MD5\", \"SHA1\", \"SHA2_224\", \"SHA2_256\", \"SHA2_384\", \"SHA2_512\", \"SHA3_384\", \"SHA3_512\"].");
            Err(message)
        }
    }

    /// Whether `other` is the algorithm's name.
    pub fn is_named(&self, other: &str) -> (r: bool)
        ensures
            r == (rsa_hash_name(*self) == other@),
    {
        text_eq(self.name(), other)
    }
}

} // verus!
