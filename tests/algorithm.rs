use asn1_codec::algorithm::{
    BcryptAction, BcryptHashAction, BcryptInput, KrbInput, KrbMode, RsaHashAlgorithm, ZlibInput,
    ZlibMode,
};
use asn1_codec::jwt::{JsonKind, JwtSignatureAlgorithm};

#[test]
fn krb_and_zlib_modes_switch() {
    assert!(!bool::from(KrbMode::Encrypt));
    assert!(bool::from(KrbMode::Decrypt));
    assert_eq!(KrbMode::from(true), KrbMode::Decrypt);
    assert_eq!(KrbMode::from(false), KrbMode::Encrypt);
    assert_eq!(ZlibMode::from(true), ZlibMode::Decompress);
    assert_eq!(ZlibMode::from(false), ZlibMode::Compress);
    assert!(bool::from(ZlibMode::Decompress));
    assert_eq!(KrbInput::default().mode, KrbMode::Encrypt);
    assert_eq!(ZlibInput::default().mode, ZlibMode::Compress);
}

#[test]
fn bcrypt_defaults() {
    let h = BcryptHashAction::default();
    assert_eq!(h.rounds, 8);
    assert!(h.salt.is_empty());
    let input = BcryptInput::default();
    assert!(input.data.is_empty());
    assert_eq!(input.action, BcryptAction::Hash(h));
    assert_eq!(BcryptAction::from(true), BcryptAction::Verify(String::new()));
    assert!(bool::from(&BcryptAction::Verify("x".to_string())));
    assert!(!bool::from(&BcryptAction::from(false)));
}

#[test]
fn jwt_algorithm_from_json() {
    let hs256 = serde_json::Value::String("HS256".to_string());
    let a = JwtSignatureAlgorithm::try_from_json(&hs256).unwrap();
    assert_eq!(a, JwtSignatureAlgorithm::Hs256(String::new()));
    assert_eq!(a.key_len_hint(), Some(32));
    assert_eq!(a.name(), "HS256");

    let hs512 = serde_json::Value::String("HS512".to_string());
    let b = JwtSignatureAlgorithm::try_from_json(&hs512).unwrap();
    assert_eq!(b.key_len_hint(), Some(64));
    assert_eq!(b.name(), "HS512");

    let other = serde_json::Value::String("RS256".to_string());
    let c = JwtSignatureAlgorithm::try_from_json(&other).unwrap();
    assert_eq!(c, JwtSignatureAlgorithm::Unsupported("RS256".to_string()));
    assert_eq!(c.key_len_hint(), None);
    assert_eq!(c.name(), "RS256");

    assert_eq!(
        JwtSignatureAlgorithm::try_from_json(&serde_json::Value::Null),
        Err("Invalid jwt signature algorithm: null but string extpected".to_string())
    );
    assert_eq!(
        JwtSignatureAlgorithm::try_from_json(&serde_json::Value::Bool(true)),
        Err("Invalid jwt signature algorithm: bool but string extpected".to_string())
    );
    assert_eq!(
        JwtSignatureAlgorithm::try_from_json(&serde_json::Value::from(5)),
        Err("Invalid jwt signature algorithm: number but string extpected".to_string())
    );
    assert_eq!(
        JwtSignatureAlgorithm::try_from_json(&serde_json::Value::Array(Vec::new())),
        Err("Invalid jwt signature algorithm: array but string extpected".to_string())
    );
    assert_eq!(
        JwtSignatureAlgorithm::try_from_json(&serde_json::Value::Object(serde_json::Map::new())),
        Err("Invalid jwt signature algorithm: object but string extpected".to_string())
    );
}

#[test]
fn jwt_algorithm_from_kind_and_default() {
    assert_eq!(
        JwtSignatureAlgorithm::from_json_kind(&JsonKind::String("HS512".to_string())),
        Ok(JwtSignatureAlgorithm::Hs512(String::new()))
    );
    assert!(JwtSignatureAlgorithm::from_json_kind(&JsonKind::Number).is_err());
    let d = JwtSignatureAlgorithm::default();
    assert_eq!(d, JwtSignatureAlgorithm::Unsupported(String::new()));
    assert_eq!(d.name(), "");
}

#[test]
fn rsa_hash_names() {
    let all = [
        (RsaHashAlgorithm::Md5, "MD5"),
        (RsaHashAlgorithm::Sha1, "SHA1"),
        (RsaHashAlgorithm::Sha2_224, "SHA2_224"),
        (RsaHashAlgorithm::Sha2_256, "SHA2_256"),
        (RsaHashAlgorithm::Sha2_384, "SHA2_384"),
        (RsaHashAlgorithm::Sha2_512, "SHA2_512"),
        (RsaHashAlgorithm::Sha3_384, "SHA3_384"),
        (RsaHashAlgorithm::Sha3_512, "SHA3_512"),
    ];
    for (alg, name) in all {
        assert_eq!(alg.name(), name);
        assert_eq!(RsaHashAlgorithm::try_from_name(name), Ok(alg));
        assert!(alg.is_named(name));
    }
    assert!(!RsaHashAlgorithm::Md5.is_named("SHA1"));
    assert_eq!(
        RsaHashAlgorithm::try_from_name("sha1"),
        Err("Invalid RSA hash algorithm: sha1. Supported: [\"MD5\", \"SHA1\", \"SHA2_224\", \"SHA2_256\", \"SHA2_384\", \"SHA2_512\", \"SHA3_384\", \"SHA3_512\"].".to_string())
    );
}
