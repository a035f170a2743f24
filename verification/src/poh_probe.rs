//! The key that signs a pipeline's proof of history.
use vstd::prelude::*;
use vstd::string::StringExecFns;

use crate::definition::PohBlock;
use crate::digest::{hex_bytes, hex_decode, hex_value, is_hex};
use crate::error::AeonError;
use crate::text::{decimal, join4, join3, law_a_number_is_read_back, push_u64};

verus! {

/// What the node's secrets give for a reference.
pub enum SecretLookup {
    /// The node has no secrets.
    NoRegistry,
    /// The reference leads nowhere, for this reason.
    Failed(String),
    /// The secret.
    Found(Vec<u8>),
}

/// The refusal of a reference on a node that has no secrets.
pub open spec fn no_registry_text() -> Seq<char> {
    "poh probe: signing_key_ref is set but no SecretRegistry is installed on the supervisor — call PipelineSupervisor::set_secret_registry from cmd_serve before starting pipelines that reference signing keys"@
}

/// The key that a secret holds: 32 bytes as they are, or 64 hexadecimal digits.
pub open spec fn key_of(raw: Seq<u8>) -> Option<Seq<u8>> {
    if raw.len() == 32 {
        Some(raw)
    } else if raw.len() == 64 && is_hex(raw) {
        Some(hex_bytes(raw))
    } else {
        None
    }
}

/// The refusal of a secret that holds no key.
pub open spec fn bad_key_text(ref_str: Seq<char>, len: nat) -> Seq<char> {
    "poh probe: signing_key_ref '"@ + ref_str + "' resolved to "@ + decimal(len)
        + " bytes — expected 32 raw bytes or 64 hex characters for an Ed25519 secret scalar"@
}

/// Resolves the signing key of a pipeline. Without proof of history, or without a reference, there
/// is none. A reference that does not lead to a key is refused.
pub fn resolve_poh_signing_key(block: &PohBlock, secret: SecretLookup) -> (r: Result<
    Option<Vec<u8>>,
    AeonError,
>)
    ensures
        if !block.enabled || block.signing_key_ref is None {
            r == Ok::<Option<Vec<u8>>, AeonError>(None)
        } else {
            let ref_str = block.signing_key_ref->0@;
            match secret {
                SecretLookup::NoRegistry => r is Err && r->Err_0 is State && r->Err_0.text()
                    == no_registry_text(),
                SecretLookup::Failed(why) => r is Err && r->Err_0 is State && r->Err_0.text()
                    == "poh probe: failed to resolve signing_key_ref '"@ + ref_str + "': "@
                    + why@,
                SecretLookup::Found(raw) => match key_of(raw@) {
                    Some(key) => r is Ok && r->Ok_0 is Some && r->Ok_0->0@ == key
                        && key.len() == 32,
                    None => r is Err && r->Err_0 is State && r->Err_0.text() == bad_key_text(
                        ref_str,
                        raw@.len(),
                    ),
                },
            }
        },
{
    if !block.enabled {
        return Ok(None);
    }
    let ref_str = match &block.signing_key_ref {
        Some(s) => s.as_str(),
        None => {
            return Ok(None);
        },
    };
    match secret {
        SecretLookup::NoRegistry => Err(
            AeonError::state(
                "poh probe: signing_key_ref is set but no SecretRegistry is installed on the supervisor — call PipelineSupervisor::set_secret_registry from cmd_serve before starting pipelines that reference signing keys".to_owned(),
            ),
        ),
        SecretLookup::Failed(why) => Err(
            AeonError::state(
                join4(
                    "poh probe: failed to resolve signing_key_ref '",
                    ref_str,
                    "': ",
                    why.as_str(),
                ),
            ),
        ),
        SecretLookup::Found(raw) => match decode_signing_key_bytes(raw, ref_str) {
            Ok(key) => Ok(Some(key)),
            Err(e) => Err(e),
        },
    }
}

fn decode_signing_key_bytes(raw: Vec<u8>, ref_str: &str) -> (r: Result<Vec<u8>, AeonError>)
    ensures
        match key_of(raw@) {
            Some(key) => r is Ok && r->Ok_0@ == key && key.len() == 32,
            None => r is Err && r->Err_0 is State && r->Err_0.text() == bad_key_text(
                ref_str@,
                raw@.len(),
            ),
        },
{
    let len = raw.len();
    if len == 32 {
        return Ok(raw);
    }
    if len == 64 {
        if let Ok(key) = hex_decode(raw.as_slice()) {
            return Ok(key);
        }
    }
    let mut message = join3("poh probe: signing_key_ref '", ref_str, "' resolved to ");
    push_u64(&mut message, len as u64);
    message.append(
        " bytes — expected 32 raw bytes or 64 hex characters for an Ed25519 secret scalar",
    );
    Err(AeonError::state(message))
}

/// A secret of 32 bytes is the key itself. One of 64 hexadecimal digits is the key that they
/// denote, two digits for each byte. No other secret holds a key.
pub proof fn law_which_secrets_hold_a_key(raw: Seq<u8>)
    ensures
        raw.len() == 32 ==> key_of(raw) == Some(raw),
        raw.len() == 64 && (forall|i: int|
            0 <= i < 64 ==> hex_value(#[trigger] raw[i]) is Some) ==> {
            &&& key_of(raw) is Some
            &&& key_of(raw)->0.len() == 32
            &&& forall|i: int|
                0 <= i < 32 ==> #[trigger] key_of(raw)->0[i] == hex_value(raw[2 * i])->0 * 16
                    + hex_value(raw[2 * i + 1])->0
        },
        key_of(raw) is Some <==> raw.len() == 32 || raw.len() == 64 && forall|i: int|
            0 <= i < 64 ==> hex_value(#[trigger] raw[i]) is Some,
{
    if raw.len() == 64 && (forall|i: int| 0 <= i < 64 ==> hex_value(#[trigger] raw[i]) is Some) {
        assert(is_hex(raw));
        assert forall|i: int| 0 <= i < 32 implies #[trigger] key_of(raw)->0[i] == hex_value(
            raw[2 * i],
        )->0 * 16 + hex_value(raw[2 * i + 1])->0 by {
            assert(hex_value(raw[2 * i]) is Some && hex_value(raw[2 * i + 1]) is Some);
        }
    }
}

/// The refusal of a secret quotes the reference and says how many bytes there were.
pub proof fn law_the_refusal_names_reference_and_length(
    a: Seq<char>,
    b: Seq<char>,
    m: nat,
    n: nat,
)
    requires
        bad_key_text(a, m) == bad_key_text(b, n),
        a.len() == b.len(),
    ensures
        a == b,
        m == n,
{
    let head = "poh probe: signing_key_ref '"@;
    let middle = "' resolved to "@;
    let tail = " bytes — expected 32 raw bytes or 64 hex characters for an Ed25519 secret scalar"@;
    let x = bad_key_text(a, m);
    let y = bad_key_text(b, n);
    let from = head.len() + a.len() + middle.len();
    assert(a =~= x.subrange(head.len() as int, (head.len() + a.len()) as int));
    assert(b =~= y.subrange(head.len() as int, (head.len() + b.len()) as int));
    assert(decimal(m) =~= x.subrange(from as int, x.len() - tail.len()));
    assert(decimal(n) =~= y.subrange(from as int, y.len() - tail.len()));
    law_a_number_is_read_back(m);
    law_a_number_is_read_back(n);
}

} // verus!
