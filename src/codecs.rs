//! The two outside codecs that the library drives: Base58Check (bs58) for
//! legacy addresses and the checksummed prefixed encoding (cash_addr) for
//! cash-style addresses. The names and wrappers here are taken on trust
//! from those crates.
use vstd::prelude::*;
use crate::AddressType;
use crate::text::{separator_count, text_before_separator, with_separator};

verus! {

/// The decoding error of bs58, carried through as an opaque value.
#[verifier::external_type_specification]
#[verifier::external_body]
pub struct ExBase58DecodeError(bs58::decode::Error);

/// The error of cash_addr, carried through as an opaque value.
#[verifier::external_type_specification]
#[verifier::external_body]
pub struct ExCashAddrError(cash_addr::Error);

/// Bytes that Base58Check decoding of a text yields (version byte included,
/// checksum removed), or `None` when the text is not valid Base58Check.
pub uninterp spec fn base58check_payload(text: Seq<char>) -> Option<Seq<u8>>;

/// Base58Check text of a byte string (checksum appended).
pub uninterp spec fn base58check_text(bytes: Seq<u8>) -> Seq<char>;

/// Address type and hash that the cash-style codec reads from a full address
/// text, or `None` when its payload or checksum is rejected.
pub uninterp spec fn cashaddr_payload(text: Seq<char>) -> Option<(AddressType, Seq<u8>)>;

/// Payload text, after the separator, that the cash-style codec writes for
/// a hash under a prefix and an address type.
pub uninterp spec fn cashaddr_body(prefix: Seq<char>, ty: AddressType, hash: Seq<u8>) -> Seq<char>;

/// Cash-style text of a hash under a prefix and an address type.
pub open spec fn cashaddr_text(prefix: Seq<char>, ty: AddressType, hash: Seq<u8>) -> Seq<char> {
    with_separator(prefix, cashaddr_body(prefix, ty, hash))
}

/// The hash lengths, in bytes, that the cash-style version byte can express.
pub open spec fn cash_hash_len_ok(len: nat) -> bool {
    len == 20 || len == 24 || len == 28 || len == 32 || len == 40 || len == 48 || len == 56
        || len == 64
}

/// Relies on `bs58::decode(..).with_check(None).into_vec()`: it checks the
/// double-SHA-256 checksum and returns the remaining bytes, version included.
#[verifier::external_body]
pub(crate) fn base58check_decode(text: &str) -> (r: Result<Vec<u8>, bs58::decode::Error>)
    ensures
        match r {
            Ok(bytes) => base58check_payload(text@) == Some(bytes@),
            Err(_) => base58check_payload(text@) is None,
        },
{
    bs58::decode(text).with_check(None).into_vec()
}

/// Relies on `bs58::encode(..).with_check().into_string()`: the Base58 text
/// of the bytes followed by their checksum; it never fails.
#[verifier::external_body]
pub(crate) fn base58check_encode(bytes: &[u8]) -> (r: String)
    ensures
        r@ == base58check_text(bytes@),
{
    bs58::encode(bytes).with_check().into_string()
}

/// Relies on `cash_addr::decode`: it splits the text at `:` into exactly two
/// pieces, returns the first as the prefix, and decodes and checks the second.
#[verifier::external_body]
pub(crate) fn cashaddr_decode(text: &str) -> (r: Result<(String, AddressType, Vec<u8>), cash_addr::Error>)
    ensures
        match r {
            Ok((prefix, ty, hash)) => {
                &&& separator_count(text@) == 1
                &&& prefix@ == text_before_separator(text@)
                &&& cashaddr_payload(text@) == Some((ty, hash@))
            },
            Err(_) => separator_count(text@) != 1 || cashaddr_payload(text@) is None,
        },
{
    match cash_addr::decode(text) {
        Ok((prefix, cash_addr::AddressType::P2PKH, hash)) => Ok((prefix, AddressType::P2PKH, hash)),
        Ok((prefix, cash_addr::AddressType::P2SH, hash)) => Ok((prefix, AddressType::P2SH, hash)),
        Err(e) => Err(e),
    }
}

/// Relies on `cash_addr::encode`: it fails only when the hash length is not
/// one that the version byte can express, and otherwise writes the prefix,
/// the separator and the encoded payload.
#[verifier::external_body]
pub(crate) fn cashaddr_encode(prefix: &str, ty: AddressType, hash: &[u8]) -> (r: Result<String, cash_addr::Error>)
    ensures
        r is Ok <==> cash_hash_len_ok(hash@.len()),
        r matches Ok(text) ==> text@ == with_separator(prefix@, cashaddr_body(prefix@, ty, hash@)),
{
    let ty = match ty {
        AddressType::P2PKH => cash_addr::AddressType::P2PKH,
        AddressType::P2SH => cash_addr::AddressType::P2SH,
    };
    cash_addr::encode(prefix, ty, hash)
}

} // verus!
