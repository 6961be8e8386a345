use vstd::prelude::*;

use crate::bytes::opt_bytes_view;

verus! {

/// The networks whose address forms the bridge derives.
#[derive(Debug, Clone, Copy, PartialEq, Eq, Structural)]
pub enum BtcNetwork {
    Bitcoin,
    Testnet,
    Signet,
    Regtest,
}

/// A pay-to-script-hash output script: `OP_HASH160`, a push of 20 bytes, the
/// 20-byte hash, then `OP_EQUAL`.
pub open spec fn is_p2sh_script(s: Seq<u8>) -> bool {
    s.len() == 23 && s[0] == 0xa9u8 && s[1] == 0x14u8 && s[22] == 0x87u8
}

/// Whether `script` is in pay-to-script-hash form.
pub fn is_p2sh(script: &[u8]) -> (r: bool)
    ensures
        r == is_p2sh_script(script@),
{
    script.len() == 23 && script[0] == 0xa9u8 && script[1] == 0x14u8 && script[22] == 0x87u8
}

/// The text form, as bytes, of the address that pays to `script` on
/// `network`; `None` when the script has no address form.
pub uninterp spec fn address_of(script: Seq<u8>, network: BtcNetwork) -> Option<Seq<u8>>;

/// Relies on `bitcoin::Address::from_script` and the address's `Display`
/// form: the text depends on the script and the network alone, and a
/// pay-to-script-hash script always has one.
#[verifier::external_body]
pub(crate) fn derive_address(script: &Vec<u8>, network: BtcNetwork) -> (r: Option<Vec<u8>>)
    ensures
        opt_bytes_view(r) == address_of(script@, network),
        is_p2sh_script(script@) ==> r is Some,
{
    let net = match network {
        BtcNetwork::Bitcoin => bitcoin::Network::Bitcoin,
        BtcNetwork::Testnet => bitcoin::Network::Testnet,
        BtcNetwork::Signet => bitcoin::Network::Signet,
        BtcNetwork::Regtest => bitcoin::Network::Regtest,
    };
    match bitcoin::Address::from_script(&bitcoin::Script::from(script.clone()), net) {
        Ok(a) => Some(a.to_string().into_bytes()),
        Err(_) => None,
    }
}

/// The four little-endian bytes of `x`.
pub open spec fn le_u32_bytes(x: u32) -> Seq<u8> {
    seq![
        (x % 256) as u8,
        ((x / 256) % 256) as u8,
        ((x / 65536) % 256) as u8,
        ((x / 16777216) % 256) as u8,
    ]
}

/// The wire encoding of an unsigned input that spends output `vout` of the
/// transaction `txid`: the outpoint, an empty signature script, and the
/// final sequence number.
pub open spec fn unsigned_input_encoding(txid: Seq<u8>, vout: u32) -> Seq<u8> {
    txid + le_u32_bytes(vout) + seq![0u8] + seq![0xffu8, 0xffu8, 0xffu8, 0xffu8]
}

/// Relies on bitcoin's consensus encoding of a `TxIn` built from an
/// `OutPoint` and the defaults (empty script, sequence `0xffffffff`): the
/// 32 txid bytes, `vout` little-endian, a zero length byte, the sequence
/// little-endian.
#[verifier::external_body]
pub(crate) fn unsigned_input_bytes(txid: &[u8; 32], vout: u32) -> (r: Vec<u8>)
    ensures
        r@ == unsigned_input_encoding(txid@, vout),
{
    let input = bitcoin::TxIn {
        previous_output: bitcoin::OutPoint { txid: <bitcoin::Txid as bitcoin::hashes::Hash>::from_inner(*txid), vout },
        ..Default::default()
    };
    bitcoin::consensus::encode::serialize(&input)
}

} // verus!
