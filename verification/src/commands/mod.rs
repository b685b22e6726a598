//! The operations of the application, one module each: the parameters of
//! the request, the run of the block protocol, and the parser of the
//! result.

pub mod get_pubkey;
pub mod get_version;
pub mod quit;
pub mod sign_tx;
pub mod verify_address;
