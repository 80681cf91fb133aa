//! Identity tokens between services: minting them, and checking them.

pub mod error;
pub mod key_set;
pub mod laws;
pub mod token_source;
pub mod verify;

pub use error::IamError;
pub use key_set::{GoogleKeySet, GoogleSigningKey, GOOGLE_OIDC_JWKS_URL};
pub use token_source::{IdTokenSource, METADATA_HOST_ENV};
pub use verify::{GoogleIdTokenVerifier, IdTokenClaims};
