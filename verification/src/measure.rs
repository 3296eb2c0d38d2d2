//! Runtime measurements: the events that cryptpilot records in the event log
//! of the attestation agent, and the keys under which a verifier finds them.
use vstd::prelude::*;
use vstd::utf8::encode_utf8;

use crate::reference::{hex_encode, hex_lower, sha384_digest, sha384_of};
use crate::text::concat_str;

verus! {

/// The operation that records the hash of the loaded configuration.
pub const OPERATION_NAME_LOAD_CONFIG: &'static str = "load_config";

/// The operation that records the root hash of the encrypted root file system.
pub const OPERATION_NAME_FDE_ROOTFS_HASH: &'static str = "fde_rootfs_hash";

/// The operation that records the switch from the initrd to the real root.
pub const OPERATION_NAME_INITRD_SWITCH_ROOT: &'static str = "initrd_switch_root";

/// The domain of cryptpilot's events in the attestation agent's event log.
pub const AAEL_DOMAIN: &'static str = "cryptpilot.alibabacloud.com";

/// The key under which a verifier finds the events of an operation.
pub open spec fn aael_key(operation: Seq<char>) -> Seq<char> {
    "AA.eventlog."@ + AAEL_DOMAIN@ + "."@ + operation
}

/// The key under which a verifier finds the events of an operation.
pub fn aael_event_key(operation: &str) -> (r: String)
    ensures
        r@ == aael_key(operation@),
{
    let a = concat_str("AA.eventlog.", AAEL_DOMAIN);
    let b = concat_str(a.as_str(), ".");
    concat_str(b.as_str(), operation)
}

/// The content of a hashed measurement: the SHA-384 digest of the text's UTF-8
/// bytes, as the JSON object `{"alg":"sha384","value":"<hex>"}`.
pub open spec fn hash_record(content: Seq<char>) -> Seq<char> {
    "{\"alg\":\"sha384\",\"value\":\""@ + hex_lower(sha384_digest(encode_utf8(content))) + "\"}"@
}

/// One event to extend the runtime measurement with.
#[derive(Debug, PartialEq, Eq)]
pub struct MeasurementEvent {
    pub domain: String,
    pub operation: String,
    pub content: String,
}

/// Records events in the event log of the attestation agent.
#[derive(Debug)]
pub struct AaelMeasure {}

impl AaelMeasure {
    /// The event that records `content` for `operation` in cryptpilot's domain.
    pub fn extend_measurement(&self, operation: String, content: String) -> (r: MeasurementEvent)
        ensures
            r.domain@ == AAEL_DOMAIN@,
            r.operation@ == operation@,
            r.content@ == content@,
    {
        MeasurementEvent { domain: AAEL_DOMAIN.to_owned(), operation, content }
    }

    /// The event that records the SHA-384 digest of `content_to_hash`.
    pub fn extend_measurement_hash(&self, operation: String, content_to_hash: &str) -> (r:
        MeasurementEvent)
        ensures
            r.domain@ == AAEL_DOMAIN@,
            r.operation@ == operation@,
            r.content@ == hash_record(content_to_hash@),
    {
        let d = sha384_of(content_to_hash.as_bytes());
        let h = hex_encode(&d);
        let a = concat_str("{\"alg\":\"sha384\",\"value\":\"", h.as_str());
        let content = concat_str(a.as_str(), "\"}");
        self.extend_measurement(operation, content)
    }
}

/// Records nothing: runtime measurement is off.
#[derive(Debug)]
pub struct NopeMeasure {}

/// The measurement in use: the attestation agent where it could be reached,
/// else none.
#[derive(Debug)]
pub enum AutoDetectMeasure {
    Aael(AaelMeasure),
    Nope(NopeMeasure),
}

impl AutoDetectMeasure {
    /// The measurement to use, given whether the attestation agent could be
    /// reached.
    pub fn new(agent_reachable: bool) -> (r: AutoDetectMeasure)
        ensures
            r is Aael <==> agent_reachable,
    {
        if agent_reachable {
            AutoDetectMeasure::Aael(AaelMeasure {  })
        } else {
            AutoDetectMeasure::Nope(NopeMeasure {  })
        }
    }

    /// The event to record `content` for `operation`, or `None` where
    /// measurement is off.
    pub fn extend_measurement(&self, operation: String, content: String) -> (r: Option<
        MeasurementEvent,
    >)
        ensures
            r is Some <==> self is Aael,
            r matches Some(e) ==> e.domain@ == AAEL_DOMAIN@ && e.operation@ == operation@
                && e.content@ == content@,
    {
        match self {
            AutoDetectMeasure::Aael(m) => Some(m.extend_measurement(operation, content)),
            AutoDetectMeasure::Nope(_) => None,
        }
    }

    /// The event to record the SHA-384 digest of `content_to_hash`, or `None`
    /// where measurement is off.
    pub fn extend_measurement_hash(&self, operation: String, content_to_hash: &str) -> (r: Option<
        MeasurementEvent,
    >)
        ensures
            r is Some <==> self is Aael,
            r matches Some(e) ==> e.domain@ == AAEL_DOMAIN@ && e.operation@ == operation@
                && e.content@ == hash_record(content_to_hash@),
    {
        match self {
            AutoDetectMeasure::Aael(m) => Some(m.extend_measurement_hash(operation, content_to_hash)),
            AutoDetectMeasure::Nope(_) => None,
        }
    }
}

} // verus!
