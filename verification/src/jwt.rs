//! Signing a payload into a compact token and reading it back, done by
//! `jsonwebtoken` with HMAC-SHA256 under a shared secret.

use crate::payload::{all_plain, object_fields, JsonField, JsonObject};
use vstd::prelude::*;

verus! {

/// The error of the `jsonwebtoken` crate.
#[verifier::external_type_specification]
#[verifier::external_body]
pub struct ExJwtError(jsonwebtoken::errors::Error);

/// The token that `jsonwebtoken::encode` makes of a payload under a secret,
/// `None` where it reports an error, which it does not for a payload of
/// numbers, texts and lists of texts. The fields are written in the order of
/// their names, as `serde_json` keeps them, so the token depends on nothing
/// but the fields and the secret.
pub uninterp spec fn jwt_signed(fields: Map<Seq<char>, JsonField>, secret: Seq<char>) -> Option<
    Seq<char>,
>;

/// The payload that `jsonwebtoken::decode` reads from a token under a secret
/// when it is told not to look at the clock, `None` where it refuses the
/// token.
pub uninterp spec fn jwt_payload(token: Seq<char>, secret: Seq<char>) -> Option<
    Map<Seq<char>, JsonField>,
>;

/// The payload holds an `exp` that is a number not below zero: the one
/// claim that `jsonwebtoken` requires, read as an unsigned number.
pub open spec fn has_expiry(fields: Map<Seq<char>, JsonField>) -> bool {
    &&& fields.dom().contains("exp"@)
    &&& fields["exp"@] matches JsonField::Int(e) && e >= 0
}

/// What `jsonwebtoken` asks of a payload apart from its signature: the
/// expiry; no `aud`, since no audience is expected; and neither a `sub` nor
/// an `nbf` that is a list, since it reads the one as a text and the other
/// as a number, and a list in their place stops it reading the payload.
pub open spec fn passes_claim_checks(fields: Map<Seq<char>, JsonField>) -> bool {
    &&& has_expiry(fields)
    &&& !fields.dom().contains("aud"@)
    &&& fields.dom().contains("sub"@) ==> !(fields["sub"@] is TextList)
    &&& fields.dom().contains("nbf"@) ==> !(fields["nbf"@] is TextList)
}

/// Calls `jsonwebtoken::encode` with the header of `Header::new` for HS256
/// and the key of `EncodingKey::from_secret`. With that header and key, and
/// a payload of numbers, texts and lists of texts, nothing in it can fail:
/// the payload is written as JSON into memory and signed with HMAC. The
/// token is the header and the payload, each as JSON in unpadded URL-safe
/// base64, and the signature, joined by dots. `decode` recomputes the
/// signature over the same text with the same secret, so it accepts what
/// `encode` made and reads the same fields, provided that the payload
/// passes its claim checks; a payload without the expiry it refuses.
#[verifier::external_body]
pub(crate) fn encode(payload: &JsonObject, secret: &str) -> (r: Result<
    String,
    jsonwebtoken::errors::Error,
>)
    ensures
        all_plain(object_fields(*payload)) ==> r is Ok,
        all_plain(object_fields(*payload)) ==> match r {
            Ok(token) => {
                &&& jwt_signed(object_fields(*payload), secret@) == Some(token@)
                &&& !token@.contains(' ')
                &&& passes_claim_checks(object_fields(*payload)) ==> jwt_payload(token@, secret@)
                    == Some(object_fields(*payload))
                &&& !has_expiry(object_fields(*payload)) ==> jwt_payload(token@, secret@) is None
            },
            Err(_) => jwt_signed(object_fields(*payload), secret@) is None,
        },
{
    let header = jsonwebtoken::Header::new(jsonwebtoken::Algorithm::HS256);
    let key = jsonwebtoken::EncodingKey::from_secret(secret.as_bytes());
    jsonwebtoken::encode(&header, payload, &key)
}

/// Calls `jsonwebtoken::decode` with the key of `DecodingKey::from_secret`
/// and the validation of `Validation::new` for HS256 in which `validate_exp`
/// is switched off, so that the outcome depends on the token and the secret
/// alone; the caller holds the expiry against the time itself.
#[verifier::external_body]
pub(crate) fn decode(token: &str, secret: &str) -> (r: Result<
    JsonObject,
    jsonwebtoken::errors::Error,
>)
    ensures
        match r {
            Ok(payload) => jwt_payload(token@, secret@) == Some(object_fields(payload)),
            Err(_) => jwt_payload(token@, secret@) is None,
        },
{
    let key = jsonwebtoken::DecodingKey::from_secret(secret.as_bytes());
    let mut validation = jsonwebtoken::Validation::new(jsonwebtoken::Algorithm::HS256);
    validation.validate_exp = false;
    jsonwebtoken::decode::<JsonObject>(token, &key, &validation).map(|data| data.claims)
}

} // verus!
