//! Attestation intake for social handles, access-key counts and account ages.
//!
//! An authority signs short-lived statements about an identity; the registry
//! checks the deadline and the signature, arbitrates handle ownership and
//! merges the accepted fact into the identity's record.

pub mod assoc;
pub mod contract;
pub mod laws;
pub mod record;
pub mod signature;
pub mod text;

pub use contract::{
    AttestError, Context, Contract, NANOS_PER_DAY, ONE_MONTH, ONE_YEAR, SIX_MONTHS, THREE_MONTHS,
    TWO_YEARS, VALIDITY_WINDOW,
};
pub use record::{SocialData, UserData};
pub use signature::{check_signature, signature_well_formed, SignatureCheck};
pub use text::{decimal_string, registration_message, scalar_message};
