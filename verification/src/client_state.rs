use vstd::prelude::*;

verus! {

/// Current state of one client account.
///
/// All monetary fields are fixed-point amounts in minor units (four implied
/// decimal places); the conversion to and from a decimal text form happens
/// at the I/O boundary, outside this library.
#[derive(Clone, Copy, Debug)]
pub struct ClientState {
    /// Client id.
    pub client: u16,
    /// Funds available for withdrawal or further disputes.
    pub available: i64,
    /// Funds held pending dispute resolution.
    pub held: i64,
    /// Full balance: always `available + held`.
    pub total: i64,
    /// Whether the account is locked; set only by a chargeback, never reset.
    pub locked: bool,
}

/// Per-account balance invariant: the total is exactly the available funds
/// plus the held funds, and neither component is negative.
pub open spec fn client_wf(c: ClientState) -> bool {
    &&& c.total == c.available + c.held
    &&& c.available >= 0
    &&& c.held >= 0
}

} // verus!
