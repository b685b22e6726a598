//! Object data for clear signing.
//!
//! For transfers of non-standard tokens the host hands the device the
//! objects involved, so that it can show what is being signed.

use crate::wire::{le_bytes, low_u32, uleb128, write_u32_le, write_u64_le, write_uleb128};
use vstd::prelude::*;
use vstd::string::*;
use vstd::utf8::encode_utf8;

verus! {

/// What the device needs to know of one object.
#[derive(Debug, Clone)]
pub struct ObjectData {
    pub data: MoveObject,
    pub owner: Owner,
    /// The digest of the previous transaction, already length-prefixed:
    /// the byte `0x20`, then 32 bytes.
    pub previous_transaction: [u8; 33],
    pub storage_rebate: u64,
}

#[derive(Debug, Clone)]
pub struct MoveObject {
    pub type_: MoveObjectType,
    pub has_public_transfer: bool,
    pub version: u64,
    pub contents: Vec<u8>,
}

#[derive(Debug, Clone)]
pub enum MoveObjectType {
    GasCoin,
    StakedIota,
    Coin(TypeTag),
}

#[derive(Debug, Clone)]
pub struct TypeTag {
    pub address: [u8; 32],
    pub module: String,
    pub name: String,
}

#[derive(Debug, Clone)]
pub enum Owner {
    AddressOwner([u8; 32]),
    ObjectOwner([u8; 32]),
    Shared { initial_shared_version: u64 },
    Immutable,
}

/// A string on the wire: the ULEB128 length of its UTF-8 form, then that
/// form.
pub open spec fn string_wire(s: Seq<char>) -> Seq<u8> {
    uleb128(encode_utf8(s).len()) + encode_utf8(s)
}

/// A type tag on the wire: module address, module, name, and a zero for
/// "no type parameters".
pub open spec fn type_tag_wire(tag: TypeTag) -> Seq<u8> {
    tag.address@ + string_wire(tag.module@) + string_wire(tag.name@) + seq![0u8]
}

/// The tag of an object's type, followed by the type tag where the type is
/// a coin other than the gas coin.
pub open spec fn object_type_wire(t: MoveObjectType) -> Seq<u8> {
    match t {
        MoveObjectType::GasCoin => seq![1u8],
        MoveObjectType::StakedIota => seq![2u8],
        MoveObjectType::Coin(tag) => seq![3u8] + type_tag_wire(tag),
    }
}

/// An owner on the wire.
pub open spec fn owner_wire(owner: Owner) -> Seq<u8> {
    match owner {
        Owner::AddressOwner(addr) => seq![0u8] + addr@,
        Owner::ObjectOwner(addr) => seq![1u8] + addr@,
        Owner::Shared { initial_shared_version } => seq![2u8] + le_bytes(
            initial_shared_version as nat,
            8,
        ),
        Owner::Immutable => seq![3u8],
    }
}

/// The envelope of one object.
pub open spec fn object_wire(o: ObjectData) -> Seq<u8> {
    seq![0u8] + object_type_wire(o.data.type_) + seq![
        if o.data.has_public_transfer {
            1u8
        } else {
            0u8
        },
    ] + le_bytes(o.data.version as nat, 8) + uleb128(o.data.contents@.len()) + o.data.contents@
        + owner_wire(o.owner) + o.previous_transaction@ + le_bytes(o.storage_rebate as nat, 8)
}

/// The envelopes of a list of objects, each behind its length in four
/// little-endian bytes.
pub open spec fn framed_objects(objects: Seq<ObjectData>) -> Seq<u8>
    decreases objects.len(),
{
    if objects.len() == 0 {
        Seq::empty()
    } else {
        framed_objects(objects.drop_last()) + le_bytes(object_wire(objects.last()).len(), 4)
            + object_wire(objects.last())
    }
}

/// A list of objects on the wire: the count in four little-endian bytes,
/// then the framed envelopes.
pub open spec fn objects_wire(objects: Seq<ObjectData>) -> Seq<u8> {
    le_bytes(objects.len(), 4) + framed_objects(objects)
}

fn write_bcs_string(buf: &mut Vec<u8>, s: &str)
    ensures
        final(buf)@ == old(buf)@ + string_wire(s@),
{
    let bytes = s.as_bytes();
    write_uleb128(buf, bytes.len() as u64);
    buf.extend_from_slice(bytes);
    assert(buf@ =~= old(buf)@ + string_wire(s@));
}

fn encode_type_tag(buf: &mut Vec<u8>, tag: &TypeTag)
    ensures
        final(buf)@ == old(buf)@ + type_tag_wire(*tag),
{
    buf.extend_from_slice(tag.address.as_slice());
    write_bcs_string(buf, tag.module.as_str());
    write_bcs_string(buf, tag.name.as_str());
    write_uleb128(buf, 0);
    assert(uleb128(0) =~= seq![0u8]);
    assert(buf@ =~= old(buf)@ + type_tag_wire(*tag));
}

fn encode_owner(buf: &mut Vec<u8>, owner: &Owner)
    ensures
        final(buf)@ == old(buf)@ + owner_wire(*owner),
{
    match owner {
        Owner::AddressOwner(addr) => {
            buf.push(0);
            buf.extend_from_slice(addr.as_slice());
        },
        Owner::ObjectOwner(addr) => {
            buf.push(1);
            buf.extend_from_slice(addr.as_slice());
        },
        Owner::Shared { initial_shared_version } => {
            buf.push(2);
            write_u64_le(buf, *initial_shared_version);
        },
        Owner::Immutable => {
            buf.push(3);
        },
    }
    assert(buf@ =~= old(buf)@ + owner_wire(*owner));
}

impl ObjectData {
    /// The gas coin: publicly transferable.
    pub fn gas_coin(
        version: u64,
        contents: Vec<u8>,
        owner: Owner,
        previous_transaction: [u8; 33],
        storage_rebate: u64,
    ) -> (o: ObjectData)
        ensures
            o.data.type_ is GasCoin,
            o.data.has_public_transfer,
            o.data.version == version,
            o.data.contents == contents,
            o.owner == owner,
            o.previous_transaction == previous_transaction,
            o.storage_rebate == storage_rebate,
    {
        ObjectData {
            data: MoveObject {
                type_: MoveObjectType::GasCoin,
                has_public_transfer: true,
                version,
                contents,
            },
            owner,
            previous_transaction,
            storage_rebate,
        }
    }

    /// A coin of the type `type_tag`: publicly transferable.
    pub fn coin(
        type_tag: TypeTag,
        version: u64,
        contents: Vec<u8>,
        owner: Owner,
        previous_transaction: [u8; 33],
        storage_rebate: u64,
    ) -> (o: ObjectData)
        ensures
            o.data.type_ == MoveObjectType::Coin(type_tag),
            o.data.has_public_transfer,
            o.data.version == version,
            o.data.contents == contents,
            o.owner == owner,
            o.previous_transaction == previous_transaction,
            o.storage_rebate == storage_rebate,
    {
        ObjectData {
            data: MoveObject {
                type_: MoveObjectType::Coin(type_tag),
                has_public_transfer: true,
                version,
                contents,
            },
            owner,
            previous_transaction,
            storage_rebate,
        }
    }

    /// Staked IOTA: not publicly transferable.
    pub fn staked_iota(
        version: u64,
        contents: Vec<u8>,
        owner: Owner,
        previous_transaction: [u8; 33],
        storage_rebate: u64,
    ) -> (o: ObjectData)
        ensures
            o.data.type_ is StakedIota,
            !o.data.has_public_transfer,
            o.data.version == version,
            o.data.contents == contents,
            o.owner == owner,
            o.previous_transaction == previous_transaction,
            o.storage_rebate == storage_rebate,
    {
        ObjectData {
            data: MoveObject {
                type_: MoveObjectType::StakedIota,
                has_public_transfer: false,
                version,
                contents,
            },
            owner,
            previous_transaction,
            storage_rebate,
        }
    }

    /// The envelope of this object.
    pub fn encode(&self) -> (buf: Vec<u8>)
        ensures
            buf@ == object_wire(*self),
    {
        let mut buf: Vec<u8> = Vec::new();
        buf.push(0x00);
        match &self.data.type_ {
            MoveObjectType::GasCoin => {
                buf.push(1);
            },
            MoveObjectType::StakedIota => {
                buf.push(2);
            },
            MoveObjectType::Coin(tag) => {
                buf.push(3);
                encode_type_tag(&mut buf, tag);
            },
        }
        assert(buf@ =~= seq![0u8] + object_type_wire(self.data.type_));
        buf.push(if self.data.has_public_transfer { 1 } else { 0 });
        write_u64_le(&mut buf, self.data.version);
        write_uleb128(&mut buf, self.data.contents.len() as u64);
        buf.extend_from_slice(self.data.contents.as_slice());
        encode_owner(&mut buf, &self.owner);
        buf.extend_from_slice(self.previous_transaction.as_slice());
        write_u64_le(&mut buf, self.storage_rebate);
        assert(buf@ =~= object_wire(*self));
        buf
    }
}

/// The third parameter of a signing request:
/// `[count: u32 LE]([length: u32 LE][envelope])*`. The count and each length
/// are written in four bytes.
pub fn encode_objects(objects: &[ObjectData]) -> (buf: Vec<u8>)
    ensures
        buf@ == objects_wire(objects@),
{
    let mut buf: Vec<u8> = Vec::new();
    write_u32_le(&mut buf, low_u32(objects.len()));
    let ghost head = buf@;
    let mut i: usize = 0;
    while i < objects.len()
        invariant
            i <= objects@.len(),
            head == le_bytes(objects@.len(), 4),
            buf@ == head + framed_objects(objects@.take(i as int)),
        decreases objects@.len() - i,
    {
        let encoded = objects[i].encode();
        let ghost before = buf@;
        write_u32_le(&mut buf, low_u32(encoded.len()));
        buf.extend_from_slice(encoded.as_slice());
        proof {
            assert(objects@.take(i as int + 1).drop_last() =~= objects@.take(i as int));
            assert(objects@.take(i as int + 1).last() == objects@[i as int]);
            assert(buf@ =~= head + framed_objects(objects@.take(i as int + 1)));
        }
        i = i + 1;
    }
    assert(objects@.take(objects@.len() as int) =~= objects@);
    buf
}

} // verus!
