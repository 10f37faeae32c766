//! Errors of the library.
use vstd::prelude::*;
use crate::{AddressFormat, FormatView, Network};

verus! {

/// Why an address could not be read, built or converted.
#[derive(Debug)]
pub enum AddressError {
    /// A legacy address starts with a version byte outside the known table.
    UnknownLegacyPrefix(u8),
    /// A cash-style address decoded under a prefix that is not registered.
    UnknownCashPrefix(String),
    /// No prefix is registered for this format and network.
    UnknownCashFormat(AddressFormat, Network),
    /// The text is not an address under any interpretation.
    InvalidAddress(String),
    /// Base58Check decoding failed.
    Bs58(bs58::decode::Error),
    /// The cash-style codec failed.
    CashAddr(cash_addr::Error),
}

/// Mathematical value of an `AddressError`: the codecs' own errors are known by
/// their kind alone.
pub enum AddressErrorView {
    UnknownLegacyPrefix(u8),
    UnknownCashPrefix(Seq<char>),
    UnknownCashFormat(FormatView, Network),
    InvalidAddress(Seq<char>),
    Bs58,
    CashAddr,
}

impl View for AddressError {
    type V = AddressErrorView;

    open spec fn view(&self) -> AddressErrorView {
        match self {
            AddressError::UnknownLegacyPrefix(b) => AddressErrorView::UnknownLegacyPrefix(*b),
            AddressError::UnknownCashPrefix(p) => AddressErrorView::UnknownCashPrefix(p@),
            AddressError::UnknownCashFormat(f, n) => AddressErrorView::UnknownCashFormat(f@, *n),
            AddressError::InvalidAddress(a) => AddressErrorView::InvalidAddress(a@),
            AddressError::Bs58(_) => AddressErrorView::Bs58,
            AddressError::CashAddr(_) => AddressErrorView::CashAddr,
        }
    }
}

/// Mathematical value of a result that carries a value or an `AddressError`.
pub open spec fn result_view<T: View>(r: Result<T, AddressError>) -> Result<T::V, AddressErrorView> {
    match r {
        Ok(v) => Ok(v@),
        Err(e) => Err(e@),
    }
}

} // verus!
