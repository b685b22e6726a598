//! Host-side client logic for the IOTA Rebased hardware-wallet application.
//!
//! The crate holds the command frame codec, the status-word taxonomy, the
//! content-addressed block protocol, the packet framings of the two
//! transports, the serializers for signing payloads and the operation layer
//! that ties them together. The code is verified against the contracts
//! written beside it.

pub mod apdu;
pub mod api;
pub mod commands;
pub mod convert;
pub mod error;
pub mod objects;
pub mod protocol;
pub mod text;
pub mod transport;
pub mod tx;
pub mod types;
pub mod wire;

pub use api::{DeviceStatus, LedgerIota};
pub use error::{LedgerError, StatusWord, TransportError};
pub use objects::{encode_objects, MoveObjectType, ObjectData, Owner, TypeTag};
pub use transport::hid::DeviceType;
pub use transport::TransportType;
pub use tx::{build_transfer_tx, GasCoinRef};
pub use types::{Address, AppVersion, Bip32Path, PublicKey, Signature};
