//! Wire-facing data carried alongside the protocol.

use vstd::prelude::*;

verus! {

/// Login submission as the server receives it: the client's keyed hash of
/// the issued nonce under its passcode.  No raw passcode crosses the wire.
pub struct LoginData {
    pub passcode_hmac: Vec<u8>,
}

/// Login form state as the browser side keeps it while the user types:
/// the passcode stays local, only the derived hash is ever submitted.
pub struct BuyerLoginData {
    pub hmac: Vec<u8>,
    pub passcode: String,
}

impl Default for BuyerLoginData {
    /// Empty form: no hash computed, nothing typed.
    fn default() -> (r: Self)
        ensures
            r.hmac@ == Seq::<u8>::empty(),
            r.passcode@ == Seq::<char>::empty(),
    {
        BuyerLoginData { hmac: Vec::new(), passcode: String::new() }
    }
}

} // verus!
