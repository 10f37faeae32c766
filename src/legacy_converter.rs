//! Legacy addresses: a version byte, the hash, and a Base58Check checksum.
use vstd::prelude::*;
use crate::codecs::{base58check_decode, base58check_encode, base58check_payload, base58check_text};
use crate::error::{AddressError, AddressErrorView};
use crate::{AddressFormat, AddressType, FormatView, Network, Parsed, ParsedView, parsed_result_view};

verus! {

/// Network and address type that a legacy version byte stands for.
pub open spec fn version_meaning(version: u8) -> Option<(Network, AddressType)> {
    if version == 0x00 {
        Some((Network::Mainnet, AddressType::P2PKH))
    } else if version == 0x05 {
        Some((Network::Mainnet, AddressType::P2SH))
    } else if version == 0x6f {
        Some((Network::Testnet, AddressType::P2PKH))
    } else if version == 0xc4 {
        Some((Network::Testnet, AddressType::P2SH))
    } else {
        None
    }
}

/// Version byte written for a network and an address type. Regtest has no
/// byte of its own and shares Testnet's.
pub open spec fn version_byte(network: Network, ty: AddressType) -> u8 {
    match (network, ty) {
        (Network::Mainnet, AddressType::P2PKH) => 0x00,
        (Network::Mainnet, AddressType::P2SH) => 0x05,
        (_, AddressType::P2PKH) => 0x6f,
        (_, AddressType::P2SH) => 0xc4,
    }
}

/// What reading a legacy address yields.
pub open spec fn legacy_parse(addr: Seq<char>) -> Result<ParsedView, AddressErrorView> {
    match base58check_payload(addr) {
        None => Err(AddressErrorView::Bs58),
        Some(data) => if data.len() == 0 {
            Err(AddressErrorView::InvalidAddress(addr))
        } else {
            match version_meaning(data[0]) {
                Some((network, ty)) => Ok((FormatView::Legacy, network, ty, data.drop_first())),
                None => Err(AddressErrorView::UnknownLegacyPrefix(data[0])),
            }
        },
    }
}

/// The legacy text of a hash for a network and an address type.
pub open spec fn legacy_text(network: Network, ty: AddressType, hash: Seq<u8>) -> Seq<char> {
    base58check_text(seq![version_byte(network, ty)] + hash)
}

/// Reads a legacy address into its format, network, type and hash.
pub fn parse(addr: &str) -> (r: Result<Parsed, AddressError>)
    ensures
        parsed_result_view(r) == legacy_parse(addr@),
{
    let data = match base58check_decode(addr) {
        Ok(data) => data,
        Err(e) => return Err(AddressError::Bs58(e)),
    };
    if data.len() == 0 {
        return Err(AddressError::InvalidAddress(String::from_str(addr)));
    }
    let (network, addr_type) = match data[0] {
        0x00 => (Network::Mainnet, AddressType::P2PKH),
        0x05 => (Network::Mainnet, AddressType::P2SH),
        0x6f => (Network::Testnet, AddressType::P2PKH),
        0xc4 => (Network::Testnet, AddressType::P2SH),
        e => return Err(AddressError::UnknownLegacyPrefix(e)),
    };
    let mut hash: Vec<u8> = Vec::new();
    let mut i: usize = 1;
    while i < data.len()
        invariant
            1 <= i <= data.len(),
            hash@ == data@.subrange(1, i as int),
        decreases data.len() - i,
    {
        hash.push(data[i]);
        i += 1;
    }
    assert(hash@ == data@.drop_first());
    Ok((AddressFormat::Legacy, network, addr_type, hash))
}

/// Writes a hash as a legacy address for a network and an address type.
pub fn build(network: Network, addr_type: AddressType, hash: &[u8]) -> (r: Result<String, AddressError>)
    ensures
        r matches Ok(text) && text@ == legacy_text(network, addr_type, hash@),
{
    let version: u8 = match (network, addr_type) {
        (Network::Mainnet, AddressType::P2PKH) => 0x00,
        (Network::Mainnet, AddressType::P2SH) => 0x05,
        (Network::Testnet, AddressType::P2PKH) => 0x6f,
        (Network::Testnet, AddressType::P2SH) => 0xc4,
        (Network::Regtest, AddressType::P2PKH) => 0x6f,
        (Network::Regtest, AddressType::P2SH) => 0xc4,
    };
    let mut data: Vec<u8> = Vec::new();
    data.push(version);
    let mut i: usize = 0;
    while i < hash.len()
        invariant
            i <= hash@.len(),
            data@ == seq![version] + hash@.subrange(0, i as int),
        decreases hash@.len() - i,
    {
        data.push(hash[i]);
        i += 1;
    }
    assert(data@ == seq![version] + hash@);
    Ok(base58check_encode(data.as_slice()))
}

} // verus!
