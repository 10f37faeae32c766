//! Laws that relate the converter's operations to one another.
//!
//! Where a law goes through both codecs, it says so: what the codecs compute
//! is only named here (see `codecs`), so that one reads back what it wrote is
//! stated as a condition of the law, for the values the law is about.
use vstd::prelude::*;
use crate::cash_converter::{
    RegistryView, builtin_registry, canonical_index, cash_parse, cash_parse_from, cash_parse_with_prefix,
    lemma_cash_parse_not_legacy, lookup_canonical, lookup_prefix, prefix_index, register_all,
    registry_is_cash_style,
};
use crate::codecs::{
    base58check_payload, base58check_text, cash_hash_len_ok, cashaddr_body, cashaddr_payload,
    cashaddr_text,
};
use crate::error::AddressErrorView;
use crate::legacy_converter::{legacy_parse, legacy_text, version_byte, version_meaning};
use crate::text::{
    lemma_text_before_separator, lemma_with_separator_count, separator_count, with_separator,
};
use crate::{
    AddressType, FormatView, Network, ParsedView, parse_address, to_cash_address, to_legacy_address,
};

verus! {

/// The cash-style codec reads back, from the text it writes for a prefix, a
/// type and a hash, that type and that hash; and the payload it writes holds
/// no separator.
pub open spec fn cash_codec_reads_back(prefix: Seq<char>, ty: AddressType, hash: Seq<u8>) -> bool {
    &&& separator_count(cashaddr_body(prefix, ty, hash)) == 0
    &&& cashaddr_payload(cashaddr_text(prefix, ty, hash)) == Some((ty, hash))
}

/// Base58Check writes back, from the bytes it read from a text, that text.
pub open spec fn base58_writes_back(addr: Seq<char>) -> bool {
    base58check_payload(addr) matches Some(data) && base58check_text(data) == addr
}

/// Base58Check reads back, from the text it writes for some bytes, those bytes.
pub open spec fn base58_reads_back(bytes: Seq<u8>) -> bool {
    base58check_payload(base58check_text(bytes)) == Some(bytes)
}

/// The prefix written for a format and a network holds no separator and is
/// read back as that format and network.
pub open spec fn registry_reads_back(reg: RegistryView, format: FormatView, network: Network) -> bool {
    lookup_canonical(reg.canonical, format, network) matches Some(prefix) && {
        &&& separator_count(prefix) == 0
        &&& lookup_prefix(reg.prefixes, prefix) == Some((format, network))
    }
}

/// The built-in prefix of a network.
pub open spec fn builtin_prefix(network: Network) -> Seq<char> {
    match network {
        Network::Mainnet => "bitcoincash"@,
        Network::Testnet => "bchtest"@,
        Network::Regtest => "bchreg"@,
    }
}

/// A legacy address's fields.
pub open spec fn legacy_fields(addr: Seq<char>) -> ParsedView {
    legacy_parse(addr)->Ok_0
}

/// The built-in registry writes each network under its built-in prefix, and
/// reads that prefix back as the built-in format and that network.
pub proof fn lemma_builtin_registry_reads_back(network: Network)
    ensures
        lookup_canonical(builtin_registry().canonical, FormatView::CashAddr, network)
            == Some(builtin_prefix(network)),
        registry_reads_back(builtin_registry(), FormatView::CashAddr, network),
{
    reveal_strlit("bitcoincash");
    reveal_strlit("bchtest");
    reveal_strlit("bchreg");
    let s = builtin_registry().prefixes;
    let s2 = s.drop_last();
    let s1 = s2.drop_last();
    let s0 = s1.drop_last();
    assert(s2 =~= seq![s[0], s[1]]);
    assert(s1 =~= seq![s[0]]);
    assert(s0 =~= Seq::<(Seq<char>, FormatView, Network)>::empty());
    let p = builtin_prefix(network);
    assert(p.len() == 11 || p.len() == 7 || p.len() == 6);
    assert(prefix_index(s0, p) == -1);
    assert(canonical_index(s0, FormatView::CashAddr, network) == -1);
    assert(prefix_index(s1, p) == if network == Network::Mainnet { 0int } else { -1 });
    assert(canonical_index(s1, FormatView::CashAddr, network) == if network == Network::Mainnet { 0int } else { -1 });
    assert(prefix_index(s2, p) == match network { Network::Mainnet => 0int, Network::Testnet => 1, Network::Regtest => -1 });
    assert(canonical_index(s2, FormatView::CashAddr, network) == match network { Network::Mainnet => 0int, Network::Testnet => 1, Network::Regtest => -1 });
    assert(prefix_index(s, p) == canonical_index(s, FormatView::CashAddr, network));
    assert(separator_count(p) == 0) by {
        crate::text::lemma_separator_count_zero(p);
    }
}

/// The cash-style text of a hash, read back through a registry, yields the
/// format and network that its prefix is registered for, with that type and
/// hash.
proof fn lemma_cash_parse_of_written(reg: RegistryView, prefix: Seq<char>, ty: AddressType, hash: Seq<u8>)
    requires
        separator_count(prefix) == 0,
        lookup_prefix(reg.prefixes, prefix) is Some,
        cash_codec_reads_back(prefix, ty, hash),
    ensures
        cash_parse(reg, cashaddr_text(prefix, ty, hash)) == Ok::<ParsedView, AddressErrorView>((
            lookup_prefix(reg.prefixes, prefix)->Some_0.0,
            lookup_prefix(reg.prefixes, prefix)->Some_0.1,
            ty,
            hash,
        )),
{
    let body = cashaddr_body(prefix, ty, hash);
    lemma_with_separator_count(prefix, body);
    lemma_text_before_separator(prefix, body);
}

/// The cash-style text of a hash, read back through a registry, converts to
/// the legacy text of the network that its prefix is registered for.
proof fn lemma_to_legacy_of_written(reg: RegistryView, prefix: Seq<char>, ty: AddressType, hash: Seq<u8>)
    requires
        separator_count(prefix) == 0,
        lookup_prefix(reg.prefixes, prefix) is Some,
        cash_codec_reads_back(prefix, ty, hash),
    ensures
        to_legacy_address(reg, cashaddr_text(prefix, ty, hash))
            == Ok::<Seq<char>, AddressErrorView>(legacy_text(lookup_prefix(reg.prefixes, prefix)->Some_0.1, ty, hash)),
{
    lemma_cash_parse_of_written(reg, prefix, ty, hash);
}

/// A legacy address that Base58Check writes back is the legacy text of its
/// own fields, under its own network or, for Testnet, under Regtest.
proof fn lemma_legacy_text_of_fields(addr: Seq<char>, network: Network)
    requires
        legacy_parse(addr) is Ok,
        base58_writes_back(addr),
        network == legacy_fields(addr).1 || (legacy_fields(addr).1 == Network::Testnet && network
            == Network::Regtest),
    ensures
        legacy_text(network, legacy_fields(addr).2, legacy_fields(addr).3) == addr,
{
    let data = base58check_payload(addr)->Some_0;
    assert(version_byte(network, legacy_fields(addr).2) == data[0]);
    assert(seq![data[0]] + data.drop_first() =~= data);
}

/// Converting to cash-style an address that is already in the target format
/// gives back the very text that was given, whatever network is asked for.
/// (A legacy address asked for in the legacy format is no cash-style
/// address, and has no prefix to be written under.)
pub proof fn lemma_to_cash_keeps_address_in_target_format(
    reg: RegistryView,
    addr: Seq<char>,
    format: FormatView,
    network: Option<Network>,
)
    requires
        parse_address(reg, addr) matches Ok(parsed) && parsed.0 == format,
        format != FormatView::Legacy,
    ensures
        to_cash_address(reg, addr, Some(format), network) == Ok::<Seq<char>, AddressErrorView>(addr),
{
}

/// Through a cash-style registry, an address is detected as legacy exactly
/// when it reads as a legacy address.
pub proof fn lemma_legacy_format_iff_legacy(reg: RegistryView, addr: Seq<char>)
    requires
        registry_is_cash_style(reg),
    ensures
        (parse_address(reg, addr) matches Ok(parsed) && parsed.0 == FormatView::Legacy) <==> legacy_parse(addr) is Ok,
{
    lemma_cash_parse_not_legacy(reg, addr);
}

/// Round trip: a legacy address converted to cash-style converts back to the
/// very text that was given, and converting that to cash-style again gives
/// the same cash-style text. It holds where the registry reads back the
/// prefix it writes, the hash has a length that the cash-style codec can
/// write, and both codecs read back what they wrote.
pub proof fn lemma_legacy_round_trip(reg: RegistryView, addr: Seq<char>)
    requires
        legacy_parse(addr) is Ok,
        registry_reads_back(reg, FormatView::CashAddr, legacy_fields(addr).1),
        cash_hash_len_ok(legacy_fields(addr).3.len()),
    ensures
        to_cash_address(reg, addr, None, None) matches Ok(cash) && {
            let prefix = lookup_canonical(reg.canonical, FormatView::CashAddr, legacy_fields(addr).1)->Some_0;
            &&& cash == cashaddr_text(prefix, legacy_fields(addr).2, legacy_fields(addr).3)
            &&& cash_codec_reads_back(prefix, legacy_fields(addr).2, legacy_fields(addr).3)
                && base58_writes_back(addr) ==> {
                &&& to_legacy_address(reg, cash) == Ok::<Seq<char>, AddressErrorView>(addr)
                &&& to_cash_address(reg, to_legacy_address(reg, cash)->Ok_0, None, None)
                    == Ok::<Seq<char>, AddressErrorView>(cash)
            }
        },
{
    let (_, network, ty, hash) = legacy_fields(addr);
    let prefix = lookup_canonical(reg.canonical, FormatView::CashAddr, network)->Some_0;
    if cash_codec_reads_back(prefix, ty, hash) && base58_writes_back(addr) {
        lemma_to_legacy_of_written(reg, prefix, ty, hash);
        lemma_legacy_text_of_fields(addr, network);
    }
}

/// Round trip from the cash-style side: the cash-style text that a registry
/// writes for a Mainnet or Testnet hash converts to legacy and back to the
/// very same text. It holds where the registry reads back the prefix it
/// writes and both codecs read back what they wrote. (A Regtest address
/// comes back under the Testnet prefix, as legacy has no Regtest byte.)
pub proof fn lemma_cash_round_trip(reg: RegistryView, network: Network, ty: AddressType, hash: Seq<u8>)
    requires
        network != Network::Regtest,
        registry_reads_back(reg, FormatView::CashAddr, network),
        cash_hash_len_ok(hash.len()),
    ensures
        ({
            let prefix = lookup_canonical(reg.canonical, FormatView::CashAddr, network)->Some_0;
            let cash = cashaddr_text(prefix, ty, hash);
            cash_codec_reads_back(prefix, ty, hash) && base58_reads_back(seq![version_byte(network, ty)] + hash)
                ==> (to_legacy_address(reg, cash) matches Ok(legacy) && to_cash_address(reg, legacy, None, None)
                == Ok::<Seq<char>, AddressErrorView>(cash))
        }),
{
    let prefix = lookup_canonical(reg.canonical, FormatView::CashAddr, network)->Some_0;
    let bytes = seq![version_byte(network, ty)] + hash;
    if cash_codec_reads_back(prefix, ty, hash) && base58_reads_back(bytes) {
        lemma_to_legacy_of_written(reg, prefix, ty, hash);
        assert(bytes[0] == version_byte(network, ty));
        assert(version_meaning(bytes[0]) == Some((network, ty)));
        assert(bytes.drop_first() =~= hash);
    }
}

/// A legacy Testnet address converted to cash-style for Regtest is written
/// under the prefix registered for Regtest with the same type and hash, and
/// reads back as a Regtest address of that type and hash; converted back to
/// legacy, it gives back the legacy text that was given, since Regtest
/// shares Testnet's version bytes. The reading back holds where both codecs
/// read back what they wrote. (With the built-in registry the prefix is
/// `bchreg`: see `lemma_builtin_registry_reads_back`.)
pub proof fn lemma_regtest_keeps_testnet_bytes(reg: RegistryView, addr: Seq<char>)
    requires
        legacy_parse(addr) is Ok,
        legacy_fields(addr).1 == Network::Testnet,
        registry_reads_back(reg, FormatView::CashAddr, Network::Regtest),
    ensures
        ({
            let (_, _, ty, hash) = legacy_fields(addr);
            let prefix = lookup_canonical(reg.canonical, FormatView::CashAddr, Network::Regtest)->Some_0;
            let cash = cashaddr_text(prefix, ty, hash);
            &&& to_cash_address(reg, addr, None, Some(Network::Regtest)) == if cash_hash_len_ok(hash.len()) {
                Ok::<Seq<char>, AddressErrorView>(cash)
            } else {
                Err(AddressErrorView::InvalidAddress(addr))
            }
            &&& cash_codec_reads_back(prefix, ty, hash) ==> cash_parse(reg, cash)
                == Ok::<ParsedView, AddressErrorView>((FormatView::CashAddr, Network::Regtest, ty, hash))
            &&& cash_codec_reads_back(prefix, ty, hash) && base58_writes_back(addr) ==> to_legacy_address(
                reg,
                cash,
            ) == Ok::<Seq<char>, AddressErrorView>(addr)
        }),
{
    let (_, _, ty, hash) = legacy_fields(addr);
    let prefix = lookup_canonical(reg.canonical, FormatView::CashAddr, Network::Regtest)->Some_0;
    if cash_codec_reads_back(prefix, ty, hash) {
        lemma_cash_parse_of_written(reg, prefix, ty, hash);
        lemma_to_legacy_of_written(reg, prefix, ty, hash);
        if base58_writes_back(addr) {
            lemma_legacy_text_of_fields(addr, Network::Regtest);
        }
    }
}

/// Reading the payload behind the registered prefixes tried in order, from
/// the `i`-th on, meets `prefix` no later than at `k` and fails before it.
proof fn lemma_parse_from_reaches(reg: RegistryView, prefix: Seq<char>, payload: Seq<char>, i: nat, k: nat)
    requires
        i <= k < reg.prefixes.len(),
        reg.prefixes[k as int].0 == prefix,
        cash_parse_with_prefix(reg, with_separator(prefix, payload)) is Ok,
        forall|j: int|
            0 <= j < reg.prefixes.len() && #[trigger] reg.prefixes[j].0 != prefix
                ==> cashaddr_payload(with_separator(reg.prefixes[j].0, payload)) is None,
    ensures
        cash_parse_from(reg, payload, i) == cash_parse_with_prefix(reg, with_separator(prefix, payload)),
    decreases k - i,
{
    if reg.prefixes[i as int].0 != prefix {
        lemma_parse_from_reaches(reg, prefix, payload, i + 1, k);
    }
}

/// Prefix omission: reading a registered cash-style address without its
/// prefix yields the same format, network, type and hash as reading it with
/// the prefix, provided no other registered prefix validates that payload.
pub proof fn lemma_prefix_omission(reg: RegistryView, prefix: Seq<char>, payload: Seq<char>)
    requires
        cash_parse(reg, with_separator(prefix, payload)) is Ok,
        forall|j: int|
            0 <= j < reg.prefixes.len() && #[trigger] reg.prefixes[j].0 != prefix
                ==> cashaddr_payload(with_separator(reg.prefixes[j].0, payload)) is None,
    ensures
        cash_parse(reg, payload) == cash_parse(reg, with_separator(prefix, payload)),
{
    let full = with_separator(prefix, payload);
    lemma_with_separator_count(prefix, payload);
    assert(separator_count(full) == 1);
    assert(separator_count(prefix) == 0 && separator_count(payload) == 0);
    lemma_text_before_separator(prefix, payload);
    let k = prefix_index(reg.prefixes, prefix);
    crate::cash_converter::lemma_prefix_index_range(reg.prefixes, prefix);
    lemma_parse_from_reaches(reg, prefix, payload, 0, k as nat);
}

/// Namespace isolation: once `simpleledger` (Mainnet) and `slptest`
/// (Testnet) are registered under format `SLP`, a legacy Mainnet address
/// converted to that format is written under `simpleledger`, and reads back
/// as a Mainnet address of that namespace with the same type and hash where
/// the cash-style codec reads back what it wrote.
pub proof fn lemma_namespace_uses_own_prefix(addr: Seq<char>)
    requires
        legacy_parse(addr) is Ok,
        legacy_fields(addr).1 == Network::Mainnet,
    ensures
        ({
            let reg = register_all(
                builtin_registry(),
                seq![("simpleledger"@, Network::Mainnet), ("slptest"@, Network::Testnet)],
                "SLP"@,
            );
            let (_, _, ty, hash) = legacy_fields(addr);
            let cash = cashaddr_text("simpleledger"@, ty, hash);
            &&& to_cash_address(reg, addr, Some(FormatView::Other("SLP"@)), None) == if cash_hash_len_ok(hash.len()) {
                Ok::<Seq<char>, AddressErrorView>(cash)
            } else {
                Err(AddressErrorView::InvalidAddress(addr))
            }
            &&& cash_codec_reads_back("simpleledger"@, ty, hash) ==> cash_parse(reg, cash)
                == Ok::<ParsedView, AddressErrorView>((FormatView::Other("SLP"@), Network::Mainnet, ty, hash))
        }),
{
    let pairs = seq![("simpleledger"@, Network::Mainnet), ("slptest"@, Network::Testnet)];
    let slp = FormatView::Other("SLP"@);
    let base = builtin_registry();
    assert(pairs.drop_last() =~= seq![("simpleledger"@, Network::Mainnet)]);
    assert(pairs.drop_last().drop_last() =~= Seq::<(Seq<char>, Network)>::empty());
    let c0 = base.canonical;
    assert(c0.drop_last() =~= seq![c0[0], c0[1]]);
    assert(c0.drop_last().drop_last() =~= seq![c0[0]]);
    assert(c0.drop_last().drop_last().drop_last() =~= Seq::<(Seq<char>, FormatView, Network)>::empty());
    assert(canonical_index(c0.drop_last().drop_last().drop_last(), slp, Network::Mainnet) == -1);
    assert(canonical_index(c0.drop_last().drop_last(), slp, Network::Mainnet) == -1);
    assert(canonical_index(c0.drop_last(), slp, Network::Mainnet) == -1);
    assert(canonical_index(c0, slp, Network::Mainnet) == -1);
    assert(canonical_index(c0.drop_last().drop_last().drop_last(), slp, Network::Testnet) == -1);
    assert(canonical_index(c0.drop_last().drop_last(), slp, Network::Testnet) == -1);
    assert(canonical_index(c0.drop_last(), slp, Network::Testnet) == -1);
    assert(canonical_index(c0, slp, Network::Testnet) == -1);
    let c1 = c0.push(("simpleledger"@, slp, Network::Mainnet));
    assert(c1.drop_last() =~= c0);
    assert(canonical_index(c1, slp, Network::Testnet) == -1);
    let c2 = c1.push(("slptest"@, slp, Network::Testnet));
    assert(c2.drop_last() =~= c1);
    assert(register_all(base, pairs.drop_last().drop_last(), "SLP"@) == base);
    assert(register_all(base, pairs.drop_last(), "SLP"@).canonical == c1);
    let reg = register_all(base, pairs, "SLP"@);
    assert(reg.canonical == c2);
    assert(canonical_index(c1, slp, Network::Mainnet) == 3);
    assert(canonical_index(c2, slp, Network::Mainnet) == 3);
    assert(lookup_canonical(c2, slp, Network::Mainnet) == Some("simpleledger"@));
    reveal_strlit("simpleledger");
    reveal_strlit("slptest");
    reveal_strlit("bitcoincash");
    reveal_strlit("bchtest");
    reveal_strlit("bchreg");
    let sl = "simpleledger"@;
    let p0 = base.prefixes;
    assert(p0.drop_last() =~= seq![p0[0], p0[1]]);
    assert(p0.drop_last().drop_last() =~= seq![p0[0]]);
    assert(p0.drop_last().drop_last().drop_last() =~= Seq::<(Seq<char>, FormatView, Network)>::empty());
    assert(sl.len() == 12);
    assert(p0[1].0[0] != "slptest"@[0]);
    assert(prefix_index(p0.drop_last().drop_last().drop_last(), sl) == -1);
    assert(prefix_index(p0.drop_last().drop_last(), sl) == -1);
    assert(prefix_index(p0.drop_last(), sl) == -1);
    assert(prefix_index(p0, sl) == -1);
    let q1 = p0.push((sl, slp, Network::Mainnet));
    assert(q1.drop_last() =~= p0);
    assert(prefix_index(p0.drop_last().drop_last().drop_last(), "slptest"@) == -1);
    assert(prefix_index(p0.drop_last().drop_last(), "slptest"@) == -1);
    assert(prefix_index(p0.drop_last(), "slptest"@) == -1);
    assert(prefix_index(p0, "slptest"@) == -1);
    assert(prefix_index(q1, "slptest"@) == -1);
    let q2 = q1.push(("slptest"@, slp, Network::Testnet));
    assert(q2.drop_last() =~= q1);
    assert(register_all(base, pairs.drop_last(), "SLP"@).prefixes == q1);
    assert(reg.prefixes == q2);
    assert(prefix_index(q1, sl) == 3);
    assert(prefix_index(q2, sl) == 3);
    assert(lookup_prefix(q2, sl) == Some((slp, Network::Mainnet)));
    assert(separator_count(sl) == 0) by {
        crate::text::lemma_separator_count_zero(sl);
    }
    let (_, _, ty, hash) = legacy_fields(addr);
    if cash_codec_reads_back(sl, ty, hash) {
        lemma_cash_parse_of_written(reg, sl, ty, hash);
    }
}

} // verus!
