//! Conversion between legacy Base58Check addresses and prefixed cash-style
//! addresses, with a registry of cash-style prefixes.
use vstd::prelude::*;

pub mod codecs;
pub mod error;
pub mod cash_converter;
pub mod laws;
pub mod legacy_converter;
pub mod text;

pub use cash_converter::{CashConverter, RegistryView};
pub use error::{AddressError, AddressErrorView};

use cash_converter::{builtin_registry, cash_build, cash_parse, pairs_view, register_all, registry_is_cash_style,
    registry_keys_unique};
use error::result_view;
use legacy_converter::{legacy_parse, legacy_text};

verus! {

/// Logical network that an address belongs to.
#[derive(Clone, Copy, Debug, PartialEq, Eq, Structural, Hash)]
pub enum Network {
    Mainnet,
    Testnet,
    Regtest,
}

/// Kind of script that an address pays to.
#[derive(Clone, Copy, Debug, PartialEq, Eq, Structural, Hash)]
pub enum AddressType {
    P2PKH,
    P2SH,
}

/// Textual encoding of an address.
#[derive(Clone, Debug, Eq, Hash)]
pub enum AddressFormat {
    /// Versioned Base58Check encoding.
    Legacy,
    /// Cash-style encoding under its built-in prefixes.
    CashAddr,
    /// A cash-style namespace registered under the given name.
    Other(String),
}

/// Mathematical value of an `AddressFormat`: a namespace is known by the
/// characters of its name.
pub enum FormatView {
    Legacy,
    CashAddr,
    Other(Seq<char>),
}

impl View for AddressFormat {
    type V = FormatView;

    open spec fn view(&self) -> FormatView {
        match self {
            AddressFormat::Legacy => FormatView::Legacy,
            AddressFormat::CashAddr => FormatView::CashAddr,
            AddressFormat::Other(name) => FormatView::Other(name@),
        }
    }
}

impl PartialEq for AddressFormat {
    fn eq(&self, other: &AddressFormat) -> (r: bool) {
        match (self, other) {
            (AddressFormat::Legacy, AddressFormat::Legacy) => true,
            (AddressFormat::CashAddr, AddressFormat::CashAddr) => true,
            (AddressFormat::Other(a), AddressFormat::Other(b)) => a.eq(b),
            _ => false,
        }
    }
}

impl vstd::std_specs::cmp::PartialEqSpecImpl for AddressFormat {
    open spec fn obeys_eq_spec() -> bool {
        true
    }

    open spec fn eq_spec(&self, other: &AddressFormat) -> bool {
        self@ == other@
    }
}

impl AddressFormat {
    /// A copy of this format with the same value.
    pub fn duplicate(&self) -> (r: AddressFormat)
        ensures
            r@ == self@,
    {
        match self {
            AddressFormat::Legacy => AddressFormat::Legacy,
            AddressFormat::CashAddr => AddressFormat::CashAddr,
            AddressFormat::Other(name) => AddressFormat::Other(name.clone()),
        }
    }
}

/// A read address: its format, network, type and hash.
pub type Parsed = (AddressFormat, Network, AddressType, Vec<u8>);

/// Mathematical value of a read address.
pub type ParsedView = (FormatView, Network, AddressType, Seq<u8>);

/// Mathematical value of the result of reading an address.
pub open spec fn parsed_result_view(r: Result<Parsed, AddressError>) -> Result<ParsedView, AddressErrorView> {
    match r {
        Ok(p) => Ok((p.0@, p.1, p.2, p.3@)),
        Err(e) => Err(e@),
    }
}

/// Mathematical value of an optional format.
pub open spec fn format_option_view(format: Option<AddressFormat>) -> Option<FormatView> {
    match format {
        Some(f) => Some(f@),
        None => None,
    }
}

/// What reading an address yields: legacy first, then cash-style; any
/// failure of both is an invalid address.
pub open spec fn parse_address(reg: RegistryView, addr: Seq<char>) -> Result<ParsedView, AddressErrorView> {
    if legacy_parse(addr) is Ok {
        legacy_parse(addr)
    } else if cash_parse(reg, addr) is Ok {
        cash_parse(reg, addr)
    } else {
        Err(AddressErrorView::InvalidAddress(addr))
    }
}

/// The network asked for, or else the address's own.
pub open spec fn chosen_network(asked: Option<Network>, current: Network) -> Network {
    match asked {
        Some(n) => n,
        None => current,
    }
}

/// A result whose every failure becomes the invalid address `addr`.
pub open spec fn or_invalid(r: Result<Seq<char>, AddressErrorView>, addr: Seq<char>) -> Result<Seq<char>, AddressErrorView> {
    match r {
        Ok(text) => Ok(text),
        Err(_) => Err(AddressErrorView::InvalidAddress(addr)),
    }
}

/// What converting an address to cash-style yields. A legacy address is
/// written under the target format (cash-style by default) and the asked
/// network (its own by default). A cash-style address already in the target
/// format comes back as it was given; one in another format is rewritten.
/// Every failure, whether to read the address or to write it, is reported as
/// the invalid address that was given.
pub open spec fn to_cash_address(
    reg: RegistryView,
    addr: Seq<char>,
    format: Option<FormatView>,
    network: Option<Network>,
) -> Result<Seq<char>, AddressErrorView> {
    let target = match format {
        Some(f) => f,
        None => FormatView::CashAddr,
    };
    match legacy_parse(addr) {
        Ok((_, current, ty, hash)) => or_invalid(cash_build(reg, target, chosen_network(network, current), ty, hash), addr),
        Err(_) => match cash_parse(reg, addr) {
            Ok((current_format, current, ty, hash)) => if current_format == target {
                Ok(addr)
            } else {
                or_invalid(cash_build(reg, target, chosen_network(network, current), ty, hash), addr)
            },
            Err(_) => Err(AddressErrorView::InvalidAddress(addr)),
        },
    }
}

/// What converting an address to legacy yields. A cash-style address is
/// rewritten; a legacy one comes back as it was given.
pub open spec fn to_legacy_address(reg: RegistryView, addr: Seq<char>) -> Result<Seq<char>, AddressErrorView> {
    match cash_parse(reg, addr) {
        Ok((_, network, ty, hash)) => Ok(legacy_text(network, ty, hash)),
        Err(_) => if legacy_parse(addr) is Ok {
            Ok(addr)
        } else {
            Err(AddressErrorView::InvalidAddress(addr))
        },
    }
}

/// Address converter: reads, detects and converts addresses in either
/// encoding, under a registry of cash-style prefixes.
pub struct Converter {
    cash_converter: CashConverter,
}

impl View for Converter {
    type V = RegistryView;

    closed spec fn view(&self) -> RegistryView {
        self.cash_converter@
    }
}

impl Default for Converter {
    fn default() -> (r: Self)
        ensures
            r@ == builtin_registry(),
    {
        Self::new()
    }
}

impl Converter {
    /// A converter that knows the three built-in cash-style prefixes.
    pub fn new() -> (r: Converter)
        ensures
            r@ == builtin_registry(),
            registry_keys_unique(r@),
            registry_is_cash_style(r@),
    {
        Converter { cash_converter: CashConverter::new() }
    }

    /// Registers each (prefix, network) pair, in order, as a cash-style
    /// namespace of format `AddressFormat::Other(format_name)`.
    pub fn add_prefixes(self, prefixes: &[(&str, Network)], format_name: &str) -> (r: Converter)
        ensures
            r@ == register_all(self@, pairs_view(prefixes@), format_name@),
            registry_keys_unique(self@) ==> registry_keys_unique(r@),
            registry_is_cash_style(self@) ==> registry_is_cash_style(r@),
    {
        Converter { cash_converter: self.cash_converter.add_prefixes(prefixes, format_name) }
    }

    /// Converts an address to cash-style, under the given format (cash-style
    /// by default) and network (the address's own by default).
    pub fn to_cash_addr_with_options(
        &self,
        legacy: &str,
        format: Option<AddressFormat>,
        network: Option<Network>,
    ) -> (r: Result<String, AddressError>)
        ensures
            result_view(r) == to_cash_address(self@, legacy@, format_option_view(format), network),
    {
        let format = match format {
            Some(f) => f,
            None => AddressFormat::CashAddr,
        };
        if let Ok((_, current_network, addr_type, hash)) = legacy_converter::parse(legacy) {
            let network = match network {
                Some(n) => n,
                None => current_network,
            };
            return match self.cash_converter.build(&format, network, addr_type, hash.as_slice()) {
                Ok(text) => Ok(text),
                Err(_) => Err(AddressError::InvalidAddress(String::from_str(legacy))),
            };
        }
        // an address that is not legacy may already be cash-style
        if let Ok(current_format) = self.detect_addr_format(legacy) {
            if format == current_format {
                return Ok(String::from_str(legacy));
            } else {
                let (_, current_network, addr_type, hash) = match self.cash_converter.parse(legacy) {
                    Ok(parsed) => parsed,
                    Err(_) => return Err(AddressError::InvalidAddress(String::from_str(legacy))),
                };
                let network = match network {
                    Some(n) => n,
                    None => current_network,
                };
                return match self.cash_converter.build(&format, network, addr_type, hash.as_slice()) {
                    Ok(text) => Ok(text),
                    Err(_) => Err(AddressError::InvalidAddress(String::from_str(legacy))),
                };
            }
        }
        Err(AddressError::InvalidAddress(String::from_str(legacy)))
    }

    /// Converts an address to cash-style under the built-in format and the
    /// address's own network.
    pub fn to_cash_addr(&self, legacy: &str) -> (r: Result<String, AddressError>)
        ensures
            result_view(r) == to_cash_address(self@, legacy@, None, None),
    {
        self.to_cash_addr_with_options(legacy, None, None)
    }

    /// Converts an address to legacy.
    pub fn to_legacy_addr(&self, cash: &str) -> (r: Result<String, AddressError>)
        ensures
            result_view(r) == to_legacy_address(self@, cash@),
    {
        if let Ok((_, network, addr_type, hash)) = self.cash_converter.parse(cash) {
            return legacy_converter::build(network, addr_type, hash.as_slice());
        }
        if self.is_legacy_addr(cash) {
            // the address is legacy already
            return Ok(String::from_str(cash));
        }
        Err(AddressError::InvalidAddress(String::from_str(cash)))
    }

    /// Reads an address: legacy first, then cash-style.
    pub fn parse(&self, addr: &str) -> (r: Result<Parsed, AddressError>)
        ensures
            parsed_result_view(r) == parse_address(self@, addr@),
    {
        match legacy_converter::parse(addr) {
            Ok(parsed) => Ok(parsed),
            Err(_) => match self.cash_converter.parse(addr) {
                Ok(parsed) => Ok(parsed),
                Err(_) => Err(AddressError::InvalidAddress(String::from_str(addr))),
            },
        }
    }

    /// The format of an address.
    pub fn detect_addr_format(&self, addr: &str) -> (r: Result<AddressFormat, AddressError>)
        ensures
            result_view(r) == match parse_address(self@, addr@) {
                Ok(parsed) => Ok(parsed.0),
                Err(e) => Err(e),
            },
    {
        let (format, _, _, _) = self.parse(addr)?;
        Ok(format)
    }

    /// Whether the address reads as cash-style.
    pub fn is_cash_addr(&self, addr: &str) -> (r: bool)
        ensures
            r == cash_parse(self@, addr@) is Ok,
    {
        self.cash_converter.parse(addr).is_ok()
    }

    /// Whether the address reads as legacy.
    pub fn is_legacy_addr(&self, addr: &str) -> (r: bool)
        ensures
            r == legacy_parse(addr@) is Ok,
    {
        legacy_converter::parse(addr).is_ok()
    }

    /// The network of an address.
    pub fn detect_addr_network(&self, addr: &str) -> (r: Result<Network, AddressError>)
        ensures
            match r {
                Ok(n) => parse_address(self@, addr@) matches Ok(parsed) && parsed.1 == n,
                Err(e) => parse_address(self@, addr@) == Err::<ParsedView, AddressErrorView>(e@),
            },
    {
        let (_, network, _, _) = self.parse(addr)?;
        Ok(network)
    }

    /// Whether the address reads as one of Mainnet.
    pub fn is_mainnet_addr(&self, addr: &str) -> (r: bool)
        ensures
            r == (parse_address(self@, addr@) matches Ok(parsed) && parsed.1 == Network::Mainnet),
    {
        match self.detect_addr_network(addr) {
            Ok(network) => network == Network::Mainnet,
            Err(_) => false,
        }
    }

    /// Whether the address reads as one of Testnet.
    pub fn is_testnet_addr(&self, addr: &str) -> (r: bool)
        ensures
            r == (parse_address(self@, addr@) matches Ok(parsed) && parsed.1 == Network::Testnet),
    {
        match self.detect_addr_network(addr) {
            Ok(network) => network == Network::Testnet,
            Err(_) => false,
        }
    }

    /// Whether the address reads as one of Regtest.
    pub fn is_regtest_addr(&self, addr: &str) -> (r: bool)
        ensures
            r == (parse_address(self@, addr@) matches Ok(parsed) && parsed.1 == Network::Regtest),
    {
        match self.detect_addr_network(addr) {
            Ok(network) => network == Network::Regtest,
            Err(_) => false,
        }
    }

    /// The address type of an address.
    pub fn detect_addr_type(&self, addr: &str) -> (r: Result<AddressType, AddressError>)
        ensures
            match r {
                Ok(t) => parse_address(self@, addr@) matches Ok(parsed) && parsed.2 == t,
                Err(e) => parse_address(self@, addr@) == Err::<ParsedView, AddressErrorView>(e@),
            },
    {
        let (_, _, addr_type, _) = self.parse(addr)?;
        Ok(addr_type)
    }

    /// Whether the address pays to a public key hash.
    pub fn is_p2pkh_addr(&self, addr: &str) -> (r: bool)
        ensures
            r == (parse_address(self@, addr@) matches Ok(parsed) && parsed.2 == AddressType::P2PKH),
    {
        match self.detect_addr_type(addr) {
            Ok(addr_type) => addr_type == AddressType::P2PKH,
            Err(_) => false,
        }
    }

    /// Whether the address pays to a script hash.
    pub fn is_p2sh_addr(&self, addr: &str) -> (r: bool)
        ensures
            r == (parse_address(self@, addr@) matches Ok(parsed) && parsed.2 == AddressType::P2SH),
    {
        match self.detect_addr_type(addr) {
            Ok(addr_type) => addr_type == AddressType::P2SH,
            Err(_) => false,
        }
    }
}

} // verus!
