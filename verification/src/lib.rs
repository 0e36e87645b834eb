//! Challenge-response authentication core.
//!
//! A client first requests a challenge: the server draws a random nonce,
//! binds it into a signed session cookie, and returns both.  The client
//! proves possession of its passcode by submitting a keyed hash of the
//! nonce together with the cookie; the server verifies the cookie's
//! authentication tag, scans the user directory for the unique passcode
//! that explains the submitted hash, and, on success, reissues the cookie
//! with the authenticated identity bound into it.
//!
//! All comparisons of secret-derived material are constant time, and every
//! cookie-validation failure collapses into the single observable outcome
//! "unauthorized", so that neither timing nor responses leak why an
//! attempt failed.

pub mod cookie;
pub mod credential;
pub mod crypto;
pub mod data;
pub mod hex;
pub mod nonce;
pub mod protocol;
