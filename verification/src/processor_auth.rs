//! Authentication and authorization of processors that connect from outside.
use rand::Rng;
use vstd::prelude::*;
use vstd::string::StrSliceExecFns;

use crate::digest::{
    base64_decode, base64_decoded, hex_bytes, hex_complaint, hex_decode, hex_encode, hex_text,
    is_hex, sha256, sha256_of,
};
use crate::error::AeonError;
use crate::text::{
    decimal, join2, join3, join4, law_texts_are_those_of_the_entries, lists_text, push_u64,
    same_text, texts, u64_text,
};

verus! {

/// The pipelines that an identity may serve.
#[derive(Debug, Clone)]
pub enum PipelineScope {
    All,
    Named(Vec<String>),
}

impl PipelineScope {
    /// Whether a pipeline is among them.
    pub open spec fn covers(self, pipeline: Seq<char>) -> bool {
        match self {
            PipelineScope::All => true,
            PipelineScope::Named(names) => texts(names@).contains(pipeline),
        }
    }

    pub fn allows(&self, pipeline: &str) -> (r: bool)
        ensures
            r == self.covers(pipeline@),
    {
        match self {
            PipelineScope::All => true,
            PipelineScope::Named(names) => lists_text(names, pipeline),
        }
    }
}

/// A key that processors connect with.
#[derive(Debug, Clone)]
pub struct ProcessorIdentity {
    pub public_key: String,
    pub fingerprint: String,
    pub processor_name: String,
    pub allowed_pipelines: PipelineScope,
    pub max_instances: u32,
    pub registered_at: i64,
    pub registered_by: String,
    pub revoked_at: Option<i64>,
}

impl ProcessorIdentity {
    pub fn is_active(&self) -> (r: bool)
        ensures
            r == (self.revoked_at is None),
    {
        self.revoked_at.is_none()
    }
}

/// What a processor is asked to sign.
#[derive(Debug)]
pub struct Challenge {
    pub msg_type: String,
    pub protocol: String,
    pub nonce: String,
    pub oauth_required: bool,
}

/// Why a processor is turned away.
#[derive(Debug, Clone, Copy, PartialEq, Eq, Structural)]
pub enum RejectCode {
    KeyRevoked,
    PipelineNotAuthorized,
    MaxInstancesReached,
}

/// A processor is turned away.
#[derive(Debug)]
pub struct Rejected {
    pub code: RejectCode,
    pub message: String,
}

/// Calls `rand::Rng::fill` on the generator of `rand::thread_rng`: 32 bytes of chance.
#[verifier::external_body]
fn random_bytes() -> (r: Vec<u8>)
    ensures
        r@.len() == 32,
{
    let mut bytes = [0u8; 32];
    rand::thread_rng().fill(&mut bytes);
    bytes.to_vec()
}

/// A nonce as text: 32 bytes in hexadecimal.
pub fn nonce_text(bytes: &[u8]) -> (r: String)
    ensures
        r@ == hex_text(bytes@),
{
    hex_encode(bytes)
}

/// A fresh nonce: 32 random bytes in hexadecimal.
pub fn generate_nonce() -> (r: String)
    ensures
        r@.len() == 64,
        exists|bytes: Seq<u8>| bytes.len() == 32 && r@ == #[trigger] hex_text(bytes),
{
    let bytes = random_bytes();
    let text = nonce_text(bytes.as_slice());
    assert(text@ == hex_text(bytes@));
    text
}

/// A challenge with this nonce.
pub fn challenge_with(nonce: String, oauth_required: bool) -> (r: Challenge)
    ensures
        r.msg_type@ == "challenge"@,
        r.protocol@ == "awpp/1"@,
        r.nonce == nonce,
        r.oauth_required == oauth_required,
{
    Challenge {
        msg_type: "challenge".to_owned(),
        protocol: "awpp/1".to_owned(),
        nonce,
        oauth_required,
    }
}

/// A challenge with a fresh nonce.
pub fn create_challenge(oauth_required: bool) -> (r: Challenge)
    ensures
        r.msg_type@ == "challenge"@,
        r.protocol@ == "awpp/1"@,
        r.nonce@.len() == 64,
        exists|bytes: Seq<u8>| bytes.len() == 32 && r.nonce@ == #[trigger] hex_text(bytes),
        r.oauth_required == oauth_required,
{
    challenge_with(generate_nonce(), oauth_required)
}

/// What stands in front of an Ed25519 public key.
pub open spec fn key_prefix() -> Seq<char> {
    "ed25519:"@
}

/// Whether a text begins with another.
pub open spec fn begins_with(s: Seq<char>, prefix: Seq<char>) -> bool {
    s.len() >= prefix.len() && s.take(prefix.len() as int) == prefix
}

/// The key that a text denotes, from what base64 makes of the part behind the prefix.
pub open spec fn public_key_of(text: Seq<char>, decoded: Result<Seq<u8>, Seq<char>>) -> Result<
    Seq<u8>,
    Seq<char>,
> {
    if !begins_with(text, key_prefix()) {
        Err("public key must start with 'ed25519:'"@)
    } else {
        match decoded {
            Err(complaint) => Err("invalid base64 in public key: "@ + complaint),
            Ok(bytes) => if bytes.len() != 32 {
                Err("ED25519 public key must be 32 bytes, got "@ + decimal(bytes.len()))
            } else {
                Ok(bytes)
            },
        }
    }
}

/// The key that a text denotes.
pub open spec fn public_key(text: Seq<char>) -> Result<Seq<u8>, Seq<char>> {
    public_key_of(text, base64_decoded(text.skip(8)))
}

fn strip_key_prefix(text: &str) -> (r: Option<&str>)
    ensures
        match r {
            Some(rest) => begins_with(text@, key_prefix()) && rest@ == text@.skip(8),
            None => !begins_with(text@, key_prefix()),
        },
{
    proof {
        reveal_strlit("ed25519:");
    }
    let n = text.unicode_len();
    if n < 8 {
        return None;
    }
    let front = text.substring_char(0, 8);
    proof {
        assert(front@ =~= text@.take(8));
    }
    if same_text(front, "ed25519:") {
        let rest = text.substring_char(8, n);
        assert(rest@ =~= text@.skip(8));
        Some(rest)
    } else {
        None
    }
}

/// Checks what base64 makes of the part of a key behind its prefix: 32 bytes.
pub fn check_decoded_key(decoded: Result<Vec<u8>, String>) -> (r: Result<Vec<u8>, AeonError>)
    ensures
        match decoded {
            Err(complaint) => r is Err && r->Err_0 is Serialization && r->Err_0.text()
                == "invalid base64 in public key: "@ + complaint@,
            Ok(bytes) => if bytes@.len() != 32 {
                r is Err && r->Err_0 is Serialization && r->Err_0.text()
                    == "ED25519 public key must be 32 bytes, got "@ + decimal(bytes@.len())
            } else {
                r == Ok::<Vec<u8>, AeonError>(bytes)
            },
        },
{
    match decoded {
        Err(complaint) => Err(
            AeonError::serialization(join2("invalid base64 in public key: ", complaint.as_str())),
        ),
        Ok(bytes) => {
            if bytes.len() != 32 {
                let mut message = "ED25519 public key must be 32 bytes, got ".to_owned();
                push_u64(&mut message, bytes.len() as u64);
                return Err(AeonError::serialization(message));
            }
            Ok(bytes)
        },
    }
}

/// Decodes a public key in the format `ed25519:<base64>`.
pub fn decode_public_key(text: &str) -> (r: Result<Vec<u8>, AeonError>)
    ensures
        match r {
            Ok(bytes) => public_key(text@) == Ok::<Seq<u8>, Seq<char>>(bytes@) && bytes@.len()
                == 32,
            Err(e) => e is Serialization && public_key(text@) == Err::<Seq<u8>, Seq<char>>(
                e.text(),
            ),
        },
{
    match strip_key_prefix(text) {
        None => Err(
            AeonError::serialization("public key must start with 'ed25519:'".to_owned()),
        ),
        Some(rest) => check_decoded_key(base64_decode(rest)),
    }
}

/// The fingerprint of a key's bytes.
pub open spec fn fingerprint_of(bytes: Seq<u8>) -> Seq<char> {
    "SHA256:"@ + hex_text(sha256_of(bytes))
}

/// The fingerprint of a public key: the SHA-256 digest of its bytes.
pub fn compute_fingerprint(text: &str) -> (r: Result<String, AeonError>)
    ensures
        match r {
            Ok(fp) => public_key(text@) is Ok && fp@ == fingerprint_of(public_key(text@)->Ok_0),
            Err(e) => e is Serialization && public_key(text@) == Err::<Seq<u8>, Seq<char>>(
                e.text(),
            ),
        },
{
    match decode_public_key(text) {
        Ok(bytes) => {
            let digest = sha256(bytes.as_slice());
            let hexed = hex_encode(digest.as_slice());
            Ok(join2("SHA256:", hexed.as_str()))
        },
        Err(e) => Err(e),
    }
}

/// A signature and what it is to be a signature of.
#[derive(Debug)]
pub struct SignedMessage {
    pub message: Vec<u8>,
    pub signature: Vec<u8>,
}

/// Frames the answer to a challenge: the nonce's bytes are the message. `key` is the verdict on
/// the public key as a point of the curve, which comes first.
pub fn frame_challenge(
    identity: &ProcessorIdentity,
    key: Result<(), AeonError>,
    nonce_hex: &str,
    signature_hex: &str,
) -> (r: Result<SignedMessage, AeonError>)
    ensures
        ({
            let nonce = vstd::utf8::encode_utf8(nonce_hex@);
            let sig = vstd::utf8::encode_utf8(signature_hex@);
            if public_key(identity.public_key@) is Err {
                r is Err && r->Err_0 is Serialization && r->Err_0.text() == public_key(
                    identity.public_key@,
                )->Err_0
            } else if key is Err {
                r is Err && r->Err_0 == key->Err_0
            } else if !is_hex(nonce) {
                r is Err && r->Err_0 is Serialization && r->Err_0.text()
                    == "invalid nonce hex: "@ + hex_complaint(nonce)
            } else if !is_hex(sig) {
                r is Err && r->Err_0 is Serialization && r->Err_0.text()
                    == "invalid signature hex: "@ + hex_complaint(sig)
            } else if hex_bytes(sig).len() != 64 {
                r is Err && r->Err_0 is Serialization && r->Err_0.text()
                    == "signature must be 64 bytes, got "@ + decimal(hex_bytes(sig).len())
            } else {
                r is Ok && r->Ok_0.message@ == hex_bytes(nonce) && r->Ok_0.signature@
                    == hex_bytes(sig)
            }
        }),
{
    if let Err(e) = decode_public_key(identity.public_key.as_str()) {
        return Err(e);
    }
    if let Err(e) = key {
        return Err(e);
    }
    let message = match hex_decode(nonce_hex.as_bytes()) {
        Ok(bytes) => bytes,
        Err(complaint) => {
            return Err(
                AeonError::serialization(join2("invalid nonce hex: ", complaint.as_str())),
            );
        },
    };
    let signature = match hex_decode(signature_hex.as_bytes()) {
        Ok(bytes) => bytes,
        Err(complaint) => {
            return Err(
                AeonError::serialization(join2("invalid signature hex: ", complaint.as_str())),
            );
        },
    };
    if signature.len() != 64 {
        let mut text = "signature must be 64 bytes, got ".to_owned();
        push_u64(&mut text, signature.len() as u64);
        return Err(AeonError::serialization(text));
    }
    Ok(SignedMessage { message, signature })
}

/// Checks the framing of a signed batch: the key first, then the signature's length. `key` is the
/// verdict on the public key as a point of the curve.
pub fn frame_batch(public_key_text: &str, key: Result<(), AeonError>, signature: &[u8]) -> (r:
    Result<(), AeonError>)
    ensures
        if public_key(public_key_text@) is Err {
            r is Err && r->Err_0 is Serialization && r->Err_0.text() == public_key(
                public_key_text@,
            )->Err_0
        } else if key is Err {
            r is Err && r->Err_0 == key->Err_0
        } else if signature@.len() != 64 {
            r is Err && r->Err_0 is Serialization && r->Err_0.text()
                == "batch signature must be 64 bytes, got "@ + decimal(signature@.len())
        } else {
            r is Ok
        },
{
    if let Err(e) = decode_public_key(public_key_text) {
        return Err(e);
    }
    if let Err(e) = key {
        return Err(e);
    }
    if signature.len() != 64 {
        let mut text = "batch signature must be 64 bytes, got ".to_owned();
        push_u64(&mut text, signature.len() as u64);
        return Err(AeonError::serialization(text));
    }
    Ok(())
}

/// Whether an identity may serve all of these pipelines.
pub open spec fn serves_all(scope: PipelineScope, pipelines: Seq<String>) -> bool {
    forall|i: int| 0 <= i < pipelines.len() ==> scope.covers((#[trigger] pipelines[i])@)
}

/// Whether the `i`-th is the first of the pipelines that an identity may not serve.
pub open spec fn first_refused(scope: PipelineScope, pipelines: Seq<String>, i: int) -> bool {
    &&& 0 <= i < pipelines.len()
    &&& !scope.covers(pipelines[i]@)
    &&& forall|j: int| 0 <= j < i ==> scope.covers((#[trigger] pipelines[j])@)
}

/// Whether an identity may connect: its key is not revoked, it may serve every pipeline that it
/// asks for, and it has connections left.
pub open spec fn authorized(
    identity: ProcessorIdentity,
    pipelines: Seq<String>,
    connections: u32,
) -> bool {
    &&& identity.revoked_at is None
    &&& serves_all(identity.allowed_pipelines, pipelines)
    &&& connections < identity.max_instances
}

/// Checks whether an identity may connect. A revoked key is named first, then the first pipeline
/// that it may not serve, then the number of connections.
pub fn check_authorization(
    identity: &ProcessorIdentity,
    requested_pipelines: &Vec<String>,
    current_connections: u32,
) -> (r: Result<(), Rejected>)
    ensures
        r is Ok == authorized(*identity, requested_pipelines@, current_connections),
        r is Err ==> {
            let e = r->Err_0;
            if identity.revoked_at is Some {
                e.code == RejectCode::KeyRevoked && e.message@ == "identity "@
                    + identity.fingerprint@ + " is revoked"@
            } else if !serves_all(identity.allowed_pipelines, requested_pipelines@) {
                &&& e.code == RejectCode::PipelineNotAuthorized
                &&& exists|i: int| #[trigger]
                    first_refused(identity.allowed_pipelines, requested_pipelines@, i)
                        && e.message@ == "pipeline '"@ + requested_pipelines@[i]@
                        + "' not authorized for identity "@ + identity.fingerprint@
            } else {
                e.code == RejectCode::MaxInstancesReached && e.message@ == "max instances ("@
                    + decimal(identity.max_instances as nat) + ") reached for identity "@
                    + identity.fingerprint@
            }
        },
{
    if !identity.is_active() {
        return Err(
            Rejected {
                code: RejectCode::KeyRevoked,
                message: join3("identity ", identity.fingerprint.as_str(), " is revoked"),
            },
        );
    }
    let mut i: usize = 0;
    while i < requested_pipelines.len()
        invariant
            identity.revoked_at is None,
            i <= requested_pipelines@.len(),
            forall|j: int|
                0 <= j < i ==> identity.allowed_pipelines.covers(
                    (#[trigger] requested_pipelines@[j])@,
                ),
        decreases requested_pipelines@.len() - i,
    {
        if !identity.allowed_pipelines.allows(requested_pipelines[i].as_str()) {
            let message = join4(
                "pipeline '",
                requested_pipelines[i].as_str(),
                "' not authorized for identity ",
                identity.fingerprint.as_str(),
            );
            proof {
                assert(first_refused(
                    identity.allowed_pipelines,
                    requested_pipelines@,
                    i as int,
                ));
                assert(!serves_all(identity.allowed_pipelines, requested_pipelines@)) by {
                    assert(!identity.allowed_pipelines.covers(requested_pipelines@[i as int]@));
                }
            }
            return Err(Rejected { code: RejectCode::PipelineNotAuthorized, message });
        }
        i += 1;
    }
    if current_connections >= identity.max_instances {
        let limit = u64_text(identity.max_instances as u64);
        let message = join4(
            "max instances (",
            limit.as_str(),
            ") reached for identity ",
            identity.fingerprint.as_str(),
        );
        return Err(Rejected { code: RejectCode::MaxInstancesReached, message });
    }
    Ok(())
}

/// An identity that may connect may also connect with fewer connections open, and for fewer
/// pipelines.
pub proof fn law_authorization_is_monotone(
    identity: ProcessorIdentity,
    pipelines: Seq<String>,
    fewer: Seq<String>,
    connections: u32,
    less: u32,
)
    requires
        authorized(identity, pipelines, connections),
        less <= connections,
        forall|i: int| 0 <= i < fewer.len() ==> pipelines.contains(#[trigger] fewer[i]),
    ensures
        authorized(identity, fewer, less),
{
    assert forall|i: int| 0 <= i < fewer.len() implies identity.allowed_pipelines.covers(
        (#[trigger] fewer[i])@,
    ) by {
        assert(pipelines.contains(fewer[i]));
        let j = choose|j: int| 0 <= j < pipelines.len() && pipelines[j] == fewer[i];
        assert(identity.allowed_pipelines.covers(pipelines[j]@));
    }
}

/// An identity for all pipelines serves every one; another serves those that it names.
pub proof fn law_what_a_scope_covers(scope: PipelineScope, pipeline: Seq<char>)
    ensures
        scope is All ==> scope.covers(pipeline),
        scope matches PipelineScope::Named(names) ==> (scope.covers(pipeline) <==> exists|i: int|
            0 <= i < names@.len() && (#[trigger] names@[i])@ == pipeline),
{
    if let PipelineScope::Named(names) = scope {
        law_texts_are_those_of_the_entries(names@, pipeline);
    }
}

/// An identity is let in exactly where its key is not revoked, a connection is left, and each
/// pipeline asked for is one that it serves.
pub proof fn law_who_is_let_in(
    identity: ProcessorIdentity,
    pipelines: Seq<String>,
    connections: u32,
)
    ensures
        authorized(identity, pipelines, connections) <==> {
            &&& identity.revoked_at is None
            &&& connections < identity.max_instances
            &&& forall|i: int|
                0 <= i < pipelines.len() ==> identity.allowed_pipelines.covers(
                    (#[trigger] pipelines[i])@,
                )
        },
        pipelines.len() == 0 ==> (authorized(identity, pipelines, connections) <==>
            identity.revoked_at is None && connections < identity.max_instances),
{
}

/// The pipeline that a refusal names is one that the identity may not serve, and all that were
/// asked for before it are ones that it may: there is only one such.
pub proof fn law_the_first_refused_is_named(
    scope: PipelineScope,
    pipelines: Seq<String>,
    i: int,
    j: int,
)
    requires
        first_refused(scope, pipelines, i),
    ensures
        0 <= i < pipelines.len(),
        !scope.covers(pipelines[i]@),
        0 <= j < i ==> scope.covers(pipelines[j]@),
        0 <= j < pipelines.len() && !scope.covers(pipelines[j]@) ==> i <= j,
        !serves_all(scope, pipelines),
{
    assert(!scope.covers(pipelines[i]@));
}

/// A text denotes a key exactly where it begins with the prefix and base64 makes 32 bytes of what
/// follows, which are the key.
pub proof fn law_which_texts_are_keys(
    rest: Seq<char>,
    other: Seq<char>,
    decoded: Result<Seq<u8>, Seq<char>>,
)
    requires
        forall|tail: Seq<char>| other != #[trigger] ("ed25519:"@ + tail),
    ensures
        public_key("ed25519:"@ + rest) == public_key_of("ed25519:"@ + rest, base64_decoded(rest)),
        public_key_of("ed25519:"@ + rest, decoded) is Ok <==> decoded is Ok
            && decoded->Ok_0.len() == 32,
        public_key_of("ed25519:"@ + rest, decoded) matches Ok(key) ==> key == decoded->Ok_0,
        public_key_of(other, decoded) is Err,
{
    reveal_strlit("ed25519:");
    let text = "ed25519:"@ + rest;
    assert(text.take(8) =~= "ed25519:"@);
    assert(text.skip(8) =~= rest);
    if begins_with(other, key_prefix()) {
        assert(other =~= "ed25519:"@ + other.skip(8));
    }
}

/// A fingerprint is the digest in hexadecimal behind a mark.
pub proof fn law_a_fingerprint_is_a_digest(bytes: Seq<u8>)
    ensures
        fingerprint_of(bytes).take(7) == "SHA256:"@,
        fingerprint_of(bytes).skip(7) == hex_text(sha256_of(bytes)),
{
    reveal_strlit("SHA256:");
    assert(fingerprint_of(bytes).take(7) =~= "SHA256:"@);
    assert(fingerprint_of(bytes).skip(7) =~= hex_text(sha256_of(bytes)));
}

} // verus!
