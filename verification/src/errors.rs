use vstd::prelude::*;

verus! {

/// The failures this library reports. Both carry a human-readable detail
/// string naming the rule or limit that was broken.
#[derive(Debug, PartialEq)]
pub enum Error {
    /// The event's rendered form exceeds the per-message ceiling; such an
    /// event can never be sent as it stands.
    MessageTooLarge(String),
    /// The event broke a validation rule: a missing identity, or a reserved
    /// keyword in a caller-supplied context.
    InvalidRequest(String),
}

} // verus!
