//! Declaration of the opaque JSON payload type carried inside messages.
//!
//! The broker never inspects a message's `data`: it is parsed at the HTTP
//! edge, carried through the queues untouched, and serialized again when an
//! event is emitted. Only the type itself has to be visible to the verifier.

use vstd::prelude::*;

verus! {

/// Relies on serde_json::Value being an ordinary owned value; the broker
/// only stores and hands back such values, never looks inside them.
#[verifier::external_type_specification]
#[verifier::external_body]
pub struct ExValue(serde_json::Value);

} // verus!
