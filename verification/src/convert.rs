//! From objects as a node reports them to the object data the device
//! takes.
//!
//! The device shows coins and staked IOTA; everything else is refused.

use crate::objects::{MoveObject, MoveObjectType, ObjectData, Owner, TypeTag};
use vstd::prelude::*;
use vstd::string::*;

verus! {

/// A struct type: where it is defined, its name, and how many type
/// parameters it has.
#[derive(Debug, Clone)]
pub struct StructName {
    pub address: [u8; 32],
    pub module: String,
    pub name: String,
    pub type_params: usize,
}

/// The type of an object, as far as the conversion looks at it.
#[derive(Debug, Clone)]
pub enum ObjectKind {
    /// A coin, with its type parameter where that is a struct type.
    Coin(Option<StructName>),
    /// Any other struct.
    Struct(StructName),
    /// A package.
    Package,
}

/// The address that is all zero but for its last byte.
pub open spec fn small_address(last: u8) -> Seq<u8> {
    Seq::new(
        32,
        |i: int|
            if i == 31 {
                last
            } else {
                0u8
            },
    )
}

/// The type of the native coin: `0x2::iota::IOTA`.
pub open spec fn is_gas_type(s: StructName) -> bool {
    &&& s.address@ == small_address(2)
    &&& s.module@ == "iota"@
    &&& s.name@ == "IOTA"@
    &&& s.type_params == 0
}

/// The type of staked IOTA: `0x3::staking_pool::StakedIota`.
pub open spec fn is_staked_type(s: StructName) -> bool {
    &&& s.address@ == small_address(3)
    &&& s.module@ == "staking_pool"@
    &&& s.name@ == "StakedIota"@
    &&& s.type_params == 0
}

/// The message for a package.
pub open spec fn package_text() -> Seq<char> {
    "packages cannot be converted to ObjectData for clear signing"@
}

/// The message for a coin of something that is not a struct.
pub open spec fn coin_parameter_text() -> Seq<char> {
    "coin type parameter must be a struct type"@
}

/// The message for a struct that is neither a coin nor staked IOTA.
pub open spec fn unsupported_text() -> Seq<char> {
    "unsupported object type for clear signing (expected coin or staked IOTA)"@
}

fn is_small_address(address: &[u8; 32], last: u8) -> (yes: bool)
    ensures
        yes == (address@ == small_address(last)),
{
    let mut i: usize = 0;
    while i < 31
        invariant
            i <= 31,
            forall|j: int| 0 <= j < i ==> address@[j] == 0,
        decreases 31 - i,
    {
        if address[i] != 0 {
            assert(small_address(last)[i as int] == 0);
            return false;
        }
        i = i + 1;
    }
    if address[31] != last {
        assert(small_address(last)[31] == last);
        return false;
    }
    assert(address@ =~= small_address(last));
    true
}

fn names(s: &StructName, address_last: u8, module: &str, name: &str) -> (yes: bool)
    ensures
        yes == (s.address@ == small_address(address_last) && s.module@ == module@ && s.name@
            == name@ && s.type_params == 0),
{
    is_small_address(&s.address, address_last) && s.module == module.to_string() && s.name
        == name.to_string() && s.type_params == 0
}

/// Decides how the device is told the type of an object, and whether the
/// object can be transferred publicly. The native coin is the gas coin; a
/// coin of another struct type carries that type; staked IOTA is known by
/// its type. Nothing else is supported.
pub fn object_type_of(kind: ObjectKind) -> (r: Result<(MoveObjectType, bool), String>)
    ensures
        match kind {
            ObjectKind::Coin(Some(s)) => r matches Ok((t, public)) && public && if is_gas_type(s) {
                t is GasCoin
            } else {
                t matches MoveObjectType::Coin(tag) && tag.address == s.address && tag.module
                    == s.module && tag.name == s.name
            },
            ObjectKind::Coin(None) => r matches Err(msg) && msg@ == coin_parameter_text(),
            ObjectKind::Struct(s) => if is_staked_type(s) {
                r matches Ok((t, public)) && t is StakedIota && !public
            } else {
                r matches Err(msg) && msg@ == unsupported_text()
            },
            ObjectKind::Package => r matches Err(msg) && msg@ == package_text(),
        },
{
    match kind {
        ObjectKind::Coin(Some(inner)) => {
            if names(&inner, 2, "iota", "IOTA") {
                Ok((MoveObjectType::GasCoin, true))
            } else {
                Ok(
                    (
                        MoveObjectType::Coin(
                            TypeTag {
                                address: inner.address,
                                module: inner.module,
                                name: inner.name,
                            },
                        ),
                        true,
                    ),
                )
            }
        },
        ObjectKind::Coin(None) => Err("coin type parameter must be a struct type".to_string()),
        ObjectKind::Struct(tag) => {
            if names(&tag, 3, "staking_pool", "StakedIota") {
                Ok((MoveObjectType::StakedIota, false))
            } else {
                Err(
                    "unsupported object type for clear signing (expected coin or staked IOTA)".to_string(),
                )
            }
        },
        ObjectKind::Package => Err(
            "packages cannot be converted to ObjectData for clear signing".to_string(),
        ),
    }
}

/// A digest as the device takes it: the length byte `0x20`, then the 32
/// bytes.
pub fn prefixed_digest(digest: &[u8; 32]) -> (out: [u8; 33])
    ensures
        out@ == seq![32u8] + digest@,
{
    let mut out: [u8; 33] = [0u8; 33];
    out[0] = 32;
    let mut i: usize = 0;
    while i < 32
        invariant
            i <= 32,
            out@[0] == 32,
            forall|j: int| 0 <= j < i ==> out@[1 + j] == digest@[j],
        decreases 32 - i,
    {
        out[1 + i] = digest[i];
        i = i + 1;
    }
    assert(out@ =~= seq![32u8] + digest@);
    out
}

/// Converts an object into the data the device takes. Fails exactly when
/// `object_type_of` refuses the object's type.
pub fn object_data_of(
    kind: ObjectKind,
    version: u64,
    contents: Vec<u8>,
    owner: Owner,
    previous_transaction: &[u8; 32],
    storage_rebate: u64,
) -> (r: Result<ObjectData, String>)
    ensures
        match r {
            Ok(o) => {
                &&& supported(kind)
                &&& o.data.version == version
                &&& o.data.contents == contents
                &&& o.owner == owner
                &&& o.previous_transaction@ == seq![32u8] + previous_transaction@
                &&& o.storage_rebate == storage_rebate
                &&& o.data.has_public_transfer == kind is Coin
                &&& match kind {
                    ObjectKind::Coin(Some(s)) => if is_gas_type(s) {
                        o.data.type_ is GasCoin
                    } else {
                        o.data.type_ matches MoveObjectType::Coin(tag) && tag.address == s.address
                            && tag.module == s.module && tag.name == s.name
                    },
                    _ => o.data.type_ is StakedIota,
                }
            },
            Err(msg) => !supported(kind) && msg@ == refusal_text(kind),
        },
{
    match object_type_of(kind) {
        Ok((type_, has_public_transfer)) => Ok(
            ObjectData {
                data: MoveObject { type_, has_public_transfer, version, contents },
                owner,
                previous_transaction: prefixed_digest(previous_transaction),
                storage_rebate,
            },
        ),
        Err(msg) => Err(msg),
    }
}

/// The kinds of object the device can show: coins of a struct type, and
/// staked IOTA.
pub open spec fn supported(kind: ObjectKind) -> bool {
    match kind {
        ObjectKind::Coin(Some(_)) => true,
        ObjectKind::Coin(None) => false,
        ObjectKind::Struct(s) => is_staked_type(s),
        ObjectKind::Package => false,
    }
}

/// Why a kind of object is refused.
pub open spec fn refusal_text(kind: ObjectKind) -> Seq<char> {
    match kind {
        ObjectKind::Coin(_) => coin_parameter_text(),
        ObjectKind::Struct(_) => unsupported_text(),
        ObjectKind::Package => package_text(),
    }
}

} // verus!
