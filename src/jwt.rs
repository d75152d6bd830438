//! The signature algorithm named in a JSON Web Token header.
use vstd::prelude::*;

verus! {

#[verifier::external_type_specification]
#[verifier::external_body]
pub struct ExJsonValue(serde_json::Value);

/// The kind of a JSON value, with the text where it is a string.
#[derive(Debug, PartialEq, Eq, Clone)]
pub enum JsonKind {
    Null,
    Bool,
    Number,
    String(String),
    Array,
    Object,
}

/// Relies on the variants of `serde_json::Value`: one arm each, and a string's text
/// copied out.
#[verifier::external_body]
fn json_kind(value: &serde_json::Value) -> (r: JsonKind) {
    match value {
        serde_json::Value::Null => JsonKind::Null,
        serde_json::Value::Bool(_) => JsonKind::Bool,
        serde_json::Value::Number(_) => JsonKind::Number,
        serde_json::Value::String(s) => JsonKind::String(s.clone()),
        serde_json::Value::Array(_) => JsonKind::Array,
        serde_json::Value::Object(_) => JsonKind::Object,
    }
}

#[derive(Debug, PartialEq, Eq, Clone)]
pub enum JwtSignatureAlgorithm {
    Hs256(String),
    Hs512(String),
    Unsupported(String),
}

/// The result of reading an algorithm from a JSON value of kind `k`: a string names an
/// algorithm (an unknown name is kept as unsupported), anything else is an error.
pub open spec fn algorithm_of(k: JsonKind, r: Result<JwtSignatureAlgorithm, String>) -> bool {
    match k {
        JsonKind::String(s) => {
            &&& r is Ok
            &&& s@ == "HS256"@ ==> (r->Ok_0 matches JwtSignatureAlgorithm::Hs256(x) && x@.len() == 0)
            &&& s@ == "HS512"@ ==> (r->Ok_0 matches JwtSignatureAlgorithm::Hs512(x) && x@.len() == 0)
            &&& s@ != "HS256"@ && s@ != "HS512"@ ==> (r->Ok_0 matches JwtSignatureAlgorithm::Unsupported(
                x,
            ) && x@ == s@)
        },
        JsonKind::Null => r is Err && r->Err_0@
            == "Invalid jwt signature algorithm: null but string extpected"@,
        JsonKind::Bool => r is Err && r->Err_0@
            == "Invalid jwt signature algorithm: bool but string extpected"@,
        JsonKind::Number => r is Err && r->Err_0@
            == "Invalid jwt signature algorithm: number but string extpected"@,
        JsonKind::Array => r is Err && r->Err_0@
            == "Invalid jwt signature algorithm: array but string extpected"@,
        JsonKind::Object => r is Err && r->Err_0@
            == "Invalid jwt signature algorithm: object but string extpected"@,
    }
}

impl JwtSignatureAlgorithm {
    /// The key length, in bytes, that suits the algorithm.
    pub fn key_len_hint(&self) -> (r: Option<usize>)
        ensures
            self is Hs256 ==> r == Some(32usize),
            self is Hs512 ==> r == Some(64usize),
            self is Unsupported ==> r is None,
    {
        match self {
            JwtSignatureAlgorithm::Hs256(_) => Some(32),
            JwtSignatureAlgorithm::Hs512(_) => Some(64),
            JwtSignatureAlgorithm::Unsupported(_) => None,
        }
    }

    /// Reads the algorithm from the kind of a JSON value.
    pub fn from_json_kind(kind: &JsonKind) -> (r: Result<JwtSignatureAlgorithm, String>)
        ensures
            algorithm_of(*kind, r),
    {
        match kind {
            JsonKind::Null => Err("Invalid jwt signature algorithm: null but string extpected".to_owned()),
            JsonKind::Bool => Err("Invalid jwt signature algorithm: bool but string extpected".to_owned()),
            JsonKind::Number => Err(
                "Invalid jwt signature algorithm: number but string extpected".to_owned(),
            ),
            JsonKind::String(value) => {
                let hs256 = "HS256".to_owned();
                let hs512 = "HS512".to_owned();
                proof {
                    reveal_strlit("HS256");
                    reveal_strlit("HS512");
                }
                let r = if value.eq(&hs256) {
                    Ok(JwtSignatureAlgorithm::Hs256(String::new()))
                } else if value.eq(&hs512) {
                    Ok(JwtSignatureAlgorithm::Hs512(String::new()))
                } else {
                    Ok(JwtSignatureAlgorithm::Unsupported(value.clone()))
                };
                assert("HS256"@[2] != "HS512"@[2]);
                r
            },
            JsonKind::Array => Err("Invalid jwt signature algorithm: array but string extpected".to_owned()),
            JsonKind::Object => Err(
                "Invalid jwt signature algorithm: object but string extpected".to_owned(),
            ),
        }
    }

    /// Reads the algorithm from a JSON value: what `from_json_kind` gives for its kind.
    pub fn try_from_json(value: &serde_json::Value) -> (r: Result<JwtSignatureAlgorithm, String>)
        ensures
            exists|k: JsonKind| algorithm_of(k, r),
    {
        let kind = json_kind(value);
        let r = JwtSignatureAlgorithm::from_json_kind(&kind);
        assert(algorithm_of(kind, r));
        r
    }

    /// The algorithm's name as it stands in a token header.
    pub fn name(&self) -> (r: String)
        ensures
            self is Hs256 ==> r@ == "HS256"@,
            self is Hs512 ==> r@ == "HS512"@,
            self matches JwtSignatureAlgorithm::Unsupported(a) ==> r@ == a@,
    {
        match self {
            JwtSignatureAlgorithm::Hs256(_) => "HS256".to_owned(),
            JwtSignatureAlgorithm::Hs512(_) => "HS512".to_owned(),
            JwtSignatureAlgorithm::Unsupported(algo) => algo.clone(),
        }
    }
}

impl Default for JwtSignatureAlgorithm {
    fn default() -> (r: JwtSignatureAlgorithm)
        ensures
            r matches JwtSignatureAlgorithm::Unsupported(a) && a@.len() == 0,
    {
        JwtSignatureAlgorithm::Unsupported(String::new())
    }
}

} // verus!
