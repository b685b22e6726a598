//! Building the bytes of a transfer transaction.

use crate::wire::{le_bytes, lemma_le_bytes_len, push_u16_le, push_u64_le};
use vstd::prelude::*;

verus! {

/// Reference to a gas coin object.
#[derive(Debug, Clone)]
pub struct GasCoinRef {
    pub object_id: [u8; 32],
    pub version: u64,
    pub digest: [u8; 32],
}

/// The inputs of the transaction: the recipient as a 32-byte pure value and
/// the amount as an 8-byte little-endian pure value.
pub open spec fn transfer_inputs(recipient: Seq<u8>, amount: u64) -> Seq<u8> {
    seq![0x02u8, 0x00, 32] + recipient + seq![0x00u8, 8] + le_bytes(amount as nat, 8)
}

/// The commands of the transaction: split coins from the gas coin by input
/// 1, then transfer the result of command 0 to input 0.
pub open spec fn transfer_commands() -> Seq<u8> {
    seq![0x02u8, 0x02, 0x00, 0x01, 0x01] + le_bytes(1, 2) + seq![0x01u8, 0x01, 0x02] + le_bytes(
        0,
        2,
    ) + seq![0x01u8] + le_bytes(0, 2)
}

/// The gas data: one payment object (id, version, length-prefixed digest),
/// the owner, the price and the budget.
pub open spec fn transfer_gas(owner: Seq<u8>, gas: GasCoinRef, gas_budget: u64, gas_price: u64) -> Seq<
    u8,
> {
    seq![0x01u8] + gas.object_id@ + le_bytes(gas.version as nat, 8) + seq![32u8] + gas.digest@
        + owner + le_bytes(gas_price as nat, 8) + le_bytes(gas_budget as nat, 8)
}

/// The bytes to sign for a transfer of `amount` from the gas coin to
/// `recipient`: the intent prefix `[0, 0, 0]`, the discriminants of the
/// transaction data and kind, the inputs, the commands, the sender, the gas
/// data and the marker for "no expiration".
pub open spec fn transfer_tx(
    sender: Seq<u8>,
    recipient: Seq<u8>,
    amount: u64,
    gas: GasCoinRef,
    gas_budget: u64,
    gas_price: u64,
) -> Seq<u8> {
    seq![0x00u8, 0x00, 0x00, 0x00, 0x00] + transfer_inputs(recipient, amount) + transfer_commands()
        + sender + transfer_gas(sender, gas, gas_budget, gas_price) + seq![0x00u8]
}

/// A transfer transaction has 220 bytes, whatever its inputs: more than one
/// block of the block protocol carries.
pub proof fn lemma_transfer_tx_len(
    sender: [u8; 32],
    recipient: [u8; 32],
    amount: u64,
    gas: GasCoinRef,
    gas_budget: u64,
    gas_price: u64,
)
    ensures
        transfer_tx(sender@, recipient@, amount, gas, gas_budget, gas_price).len() == 220,
{
    lemma_le_bytes_len(amount as nat, 8);
    lemma_le_bytes_len(1, 2);
    lemma_le_bytes_len(0, 2);
    lemma_le_bytes_len(gas.version as nat, 8);
    lemma_le_bytes_len(gas_price as nat, 8);
    lemma_le_bytes_len(gas_budget as nat, 8);
    assert(transfer_inputs(recipient@, amount).len() == 45);
    assert(transfer_commands().len() == 15);
    assert(transfer_gas(sender@, gas, gas_budget, gas_price).len() == 122);
}

/// Encodes the transaction that splits `amount` from the gas coin and
/// transfers it to `recipient`. The bytes include the intent prefix and are
/// ready to be signed.
#[must_use]
pub fn build_transfer_tx(
    sender: &[u8; 32],
    recipient: &[u8; 32],
    amount: u64,
    gas: &GasCoinRef,
    gas_budget: u64,
    gas_price: u64,
) -> (tx: Vec<u8>)
    ensures
        tx@ == transfer_tx(sender@, recipient@, amount, *gas, gas_budget, gas_price),
        tx@.len() == 220,
{
    let mut tx: Vec<u8> = Vec::new();

    // Intent prefix, then the discriminants of the data and of its kind.
    tx.push(0x00);
    tx.push(0x00);
    tx.push(0x00);
    tx.push(0x00);
    tx.push(0x00);
    assert(tx@ =~= seq![0x00u8, 0x00, 0x00, 0x00, 0x00]);
    let ghost head = tx@;

    // Inputs: Pure(recipient), Pure(amount).
    tx.push(0x02);
    tx.push(0x00);
    tx.push(32);
    tx.extend_from_slice(recipient.as_slice());
    tx.push(0x00);
    tx.push(8);
    push_u64_le(&mut tx, amount);
    assert(tx@ =~= head + transfer_inputs(recipient@, amount));
    let ghost with_inputs = tx@;

    // Commands: SplitCoins(GasCoin, [Input(1)]),
    // TransferObjects([Result(0)], Input(0)).
    tx.push(0x02);
    tx.push(0x02);
    tx.push(0x00);
    tx.push(0x01);
    tx.push(0x01);
    push_u16_le(&mut tx, 1);
    tx.push(0x01);
    tx.push(0x01);
    tx.push(0x02);
    push_u16_le(&mut tx, 0);
    tx.push(0x01);
    push_u16_le(&mut tx, 0);
    assert(tx@ =~= with_inputs + transfer_commands());

    tx.extend_from_slice(sender.as_slice());
    let ghost with_sender = tx@;

    // Gas data: payment, owner, price, budget.
    tx.push(0x01);
    tx.extend_from_slice(gas.object_id.as_slice());
    push_u64_le(&mut tx, gas.version);
    tx.push(32);
    tx.extend_from_slice(gas.digest.as_slice());
    tx.extend_from_slice(sender.as_slice());
    push_u64_le(&mut tx, gas_price);
    push_u64_le(&mut tx, gas_budget);
    assert(tx@ =~= with_sender + transfer_gas(sender@, *gas, gas_budget, gas_price));

    // No expiration.
    tx.push(0x00);
    proof {
        assert(tx@ =~= transfer_tx(sender@, recipient@, amount, *gas, gas_budget, gas_price));
        lemma_transfer_tx_len(*sender, *recipient, amount, *gas, gas_budget, gas_price);
    }
    tx
}

} // verus!
