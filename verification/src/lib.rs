//! Verified core of a post-quantum secured vehicle-telemetry link.
use vstd::prelude::*;

pub mod text;
pub mod base64;
pub mod decimal;
pub mod stats;
pub mod framing;
pub mod clock;
pub mod float_syntax;
pub mod json_doc;
pub mod fields;
pub mod crypto;
pub mod primitives;
pub mod protocol;
pub mod control;
pub mod nonce;
pub mod receiver;
pub mod bench;
pub mod session;
pub mod cipher_bench;
pub mod rc_ml_dsa;
pub mod ntru_bench;

verus! {

} // verus!
