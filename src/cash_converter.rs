//! Cash-style addresses: the registry of prefixes and the adapter that drives
//! the cash-style codec with it.
use vstd::prelude::*;
use crate::codecs::{
    cash_hash_len_ok, cashaddr_decode, cashaddr_encode, cashaddr_payload, cashaddr_text,
};
use crate::text::{has_separator, separator_count, text_before_separator, with_separator};
use crate::error::{AddressError, AddressErrorView, result_view};
use crate::{AddressFormat, AddressType, FormatView, Network, Parsed, ParsedView, parsed_result_view};

verus! {

/// Mathematical value of a registration: a prefix, its format and its network.
pub type EntryView = (Seq<char>, FormatView, Network);

/// Mathematical value of a registry. `prefixes` maps each prefix to its
/// format and network, in the order in which prefixes are tried; `canonical`
/// gives for each format and network the prefix used to write addresses.
pub struct RegistryView {
    pub prefixes: Seq<EntryView>,
    pub canonical: Seq<EntryView>,
}

/// Index of the entry for `prefix`, or -1 when there is none.
pub open spec fn prefix_index(s: Seq<EntryView>, prefix: Seq<char>) -> int
    decreases s.len(),
{
    if s.len() == 0 {
        -1
    } else if s.last().0 == prefix {
        s.len() - 1
    } else {
        prefix_index(s.drop_last(), prefix)
    }
}

/// Index of the entry for a format and a network, or -1 when there is none.
pub open spec fn canonical_index(s: Seq<EntryView>, format: FormatView, network: Network) -> int
    decreases s.len(),
{
    if s.len() == 0 {
        -1
    } else if s.last().1 == format && s.last().2 == network {
        s.len() - 1
    } else {
        canonical_index(s.drop_last(), format, network)
    }
}

/// Format and network that a prefix is registered for.
pub open spec fn lookup_prefix(s: Seq<EntryView>, prefix: Seq<char>) -> Option<(FormatView, Network)> {
    let i = prefix_index(s, prefix);
    if i >= 0 {
        Some((s[i].1, s[i].2))
    } else {
        None
    }
}

/// The prefix used to write addresses of a format and a network.
pub open spec fn lookup_canonical(s: Seq<EntryView>, format: FormatView, network: Network) -> Option<Seq<char>> {
    let i = canonical_index(s, format, network);
    if i >= 0 {
        Some(s[i].0)
    } else {
        None
    }
}

/// Binds a prefix to a format and a network; a later binding of the same
/// prefix replaces the earlier one in place.
pub open spec fn bind_prefix(s: Seq<EntryView>, e: EntryView) -> Seq<EntryView> {
    let i = prefix_index(s, e.0);
    if i >= 0 {
        s.update(i, e)
    } else {
        s.push(e)
    }
}

/// Makes a prefix the one written for a format and a network; a later
/// binding of the same pair replaces the earlier one in place.
pub open spec fn bind_canonical(s: Seq<EntryView>, e: EntryView) -> Seq<EntryView> {
    let i = canonical_index(s, e.1, e.2);
    if i >= 0 {
        s.update(i, e)
    } else {
        s.push(e)
    }
}

/// The registry after one more registration.
pub open spec fn register(reg: RegistryView, e: EntryView) -> RegistryView {
    RegistryView { prefixes: bind_prefix(reg.prefixes, e), canonical: bind_canonical(reg.canonical, e) }
}

/// The registry after registering each (prefix, network) pair, in order,
/// under the namespace `name`.
pub open spec fn register_all(reg: RegistryView, pairs: Seq<(Seq<char>, Network)>, name: Seq<char>) -> RegistryView
    decreases pairs.len(),
{
    if pairs.len() == 0 {
        reg
    } else {
        let last = pairs.last();
        register(register_all(reg, pairs.drop_last(), name), (last.0, FormatView::Other(name), last.1))
    }
}

/// The built-in registry: the three cash-style prefixes.
pub open spec fn builtin_entries() -> Seq<EntryView> {
    seq![
        ("bitcoincash"@, FormatView::CashAddr, Network::Mainnet),
        ("bchtest"@, FormatView::CashAddr, Network::Testnet),
        ("bchreg"@, FormatView::CashAddr, Network::Regtest),
    ]
}

/// The registry that a new converter starts with.
pub open spec fn builtin_registry() -> RegistryView {
    RegistryView { prefixes: builtin_entries(), canonical: builtin_entries() }
}

/// Mathematical value of the pairs handed to a registration.
pub open spec fn pairs_view(pairs: Seq<(&str, Network)>) -> Seq<(Seq<char>, Network)> {
    pairs.map_values(|p: (&str, Network)| (p.0@, p.1))
}

/// What reading an address that carries its prefix yields.
pub open spec fn cash_parse_with_prefix(reg: RegistryView, addr: Seq<char>) -> Result<ParsedView, AddressErrorView> {
    if separator_count(addr) != 1 || cashaddr_payload(addr) is None {
        Err(AddressErrorView::CashAddr)
    } else {
        let (ty, hash) = cashaddr_payload(addr).unwrap();
        let prefix = text_before_separator(addr);
        match lookup_prefix(reg.prefixes, prefix) {
            None => Err(AddressErrorView::UnknownCashPrefix(prefix)),
            Some((format, network)) => Ok((format, network, ty, hash)),
        }
    }
}

/// Trying the registered prefixes from the `i`-th on, in order, in front of
/// an address without prefix: the first reading that succeeds.
pub open spec fn cash_parse_from(reg: RegistryView, addr: Seq<char>, i: nat) -> Result<ParsedView, AddressErrorView>
    decreases reg.prefixes.len() - i,
{
    if i >= reg.prefixes.len() {
        Err(AddressErrorView::InvalidAddress(addr))
    } else {
        let r = cash_parse_with_prefix(reg, with_separator(reg.prefixes[i as int].0, addr));
        if r is Ok {
            r
        } else {
            cash_parse_from(reg, addr, i + 1)
        }
    }
}

/// What reading a cash-style address yields, with or without its prefix.
pub open spec fn cash_parse(reg: RegistryView, addr: Seq<char>) -> Result<ParsedView, AddressErrorView> {
    if separator_count(addr) > 0 {
        cash_parse_with_prefix(reg, addr)
    } else {
        cash_parse_from(reg, addr, 0)
    }
}

/// What writing a hash as a cash-style address of a format and a network yields.
pub open spec fn cash_build(
    reg: RegistryView,
    format: FormatView,
    network: Network,
    ty: AddressType,
    hash: Seq<u8>,
) -> Result<Seq<char>, AddressErrorView> {
    match lookup_canonical(reg.canonical, format, network) {
        None => Err(AddressErrorView::UnknownCashFormat(format, network)),
        Some(prefix) => if cash_hash_len_ok(hash.len()) {
            Ok(cashaddr_text(prefix, ty, hash))
        } else {
            Err(AddressErrorView::CashAddr)
        },
    }
}

/// The index of a prefix's entry is -1 or the index of an entry that holds it.
pub proof fn lemma_prefix_index_range(s: Seq<EntryView>, prefix: Seq<char>)
    ensures
        -1 <= prefix_index(s, prefix) < s.len(),
        prefix_index(s, prefix) >= 0 ==> s[prefix_index(s, prefix)].0 == prefix,
    decreases s.len(),
{
    if s.len() > 0 && s.last().0 != prefix {
        lemma_prefix_index_range(s.drop_last(), prefix);
    }
}

/// The index of a format and network's entry is -1 or the index of an entry
/// that holds them.
pub proof fn lemma_canonical_index_range(s: Seq<EntryView>, format: FormatView, network: Network)
    ensures
        -1 <= canonical_index(s, format, network) < s.len(),
        canonical_index(s, format, network) >= 0 ==> {
            let e = s[canonical_index(s, format, network)];
            e.1 == format && e.2 == network
        },
    decreases s.len(),
{
    if s.len() > 0 && !(s.last().1 == format && s.last().2 == network) {
        lemma_canonical_index_range(s.drop_last(), format, network);
    }
}

/// No two entries share a prefix, and no two canonical entries share a
/// format and a network: the registry maps each prefix to one format and
/// network, and each format and network to one prefix.
pub open spec fn registry_keys_unique(reg: RegistryView) -> bool {
    &&& forall|i: int, j: int|
        0 <= i < j < reg.prefixes.len() ==> #[trigger] reg.prefixes[i].0 != #[trigger] reg.prefixes[j].0
    &&& forall|i: int, j: int|
        0 <= i < j < reg.canonical.len() ==> {
            let a = #[trigger] reg.canonical[i];
            let b = #[trigger] reg.canonical[j];
            !(a.1 == b.1 && a.2 == b.2)
        }
}

/// A prefix without an entry differs from every entry's prefix.
pub proof fn lemma_prefix_index_absent(s: Seq<EntryView>, prefix: Seq<char>)
    requires
        prefix_index(s, prefix) == -1,
    ensures
        forall|i: int| 0 <= i < s.len() ==> #[trigger] s[i].0 != prefix,
    decreases s.len(),
{
    if s.len() > 0 {
        lemma_prefix_index_absent(s.drop_last(), prefix);
        assert forall|i: int| 0 <= i < s.len() implies #[trigger] s[i].0 != prefix by {
            if i < s.len() - 1 {
                assert(s[i] == s.drop_last()[i]);
            }
        }
    }
}

/// A format and network without an entry differ from every entry's.
pub proof fn lemma_canonical_index_absent(s: Seq<EntryView>, format: FormatView, network: Network)
    requires
        canonical_index(s, format, network) == -1,
    ensures
        forall|i: int| 0 <= i < s.len() ==> !(#[trigger] s[i].1 == format && s[i].2 == network),
    decreases s.len(),
{
    if s.len() > 0 {
        lemma_canonical_index_absent(s.drop_last(), format, network);
        assert forall|i: int| 0 <= i < s.len() implies !(#[trigger] s[i].1 == format && s[i].2 == network) by {
            if i < s.len() - 1 {
                assert(s[i] == s.drop_last()[i]);
            }
        }
    }
}

/// The built-in registry maps each prefix, and each format and network, once.
pub proof fn lemma_builtin_keys_unique()
    ensures
        registry_keys_unique(builtin_registry()),
{
    reveal_strlit("bitcoincash");
    reveal_strlit("bchtest");
    reveal_strlit("bchreg");
    let s = builtin_entries();
    assert(s[0].0.len() == 11 && s[1].0.len() == 7 && s[2].0.len() == 6);
}

/// Registration keeps each prefix, and each format and network, mapped once.
pub proof fn lemma_register_keeps_keys_unique(reg: RegistryView, e: EntryView)
    requires
        registry_keys_unique(reg),
    ensures
        registry_keys_unique(register(reg, e)),
{
    lemma_prefix_index_range(reg.prefixes, e.0);
    lemma_canonical_index_range(reg.canonical, e.1, e.2);
    if prefix_index(reg.prefixes, e.0) == -1 {
        lemma_prefix_index_absent(reg.prefixes, e.0);
    }
    if canonical_index(reg.canonical, e.1, e.2) == -1 {
        lemma_canonical_index_absent(reg.canonical, e.1, e.2);
    }
    let p = register(reg, e).prefixes;
    let c = register(reg, e).canonical;
    assert forall|i: int, j: int| 0 <= i < j < p.len() implies #[trigger] p[i].0 != #[trigger] p[j].0 by {
        if j == reg.prefixes.len() {
            assert(p[i] == reg.prefixes[i]);
        }
    }
    assert forall|i: int, j: int| 0 <= i < j < c.len() implies {
        let a = #[trigger] c[i];
        let b = #[trigger] c[j];
        !(a.1 == b.1 && a.2 == b.2)
    } by {
        if j == reg.canonical.len() {
            assert(c[i] == reg.canonical[i]);
        }
    }
}

/// Registering any number of prefixes keeps each prefix, and each format
/// and network, mapped once.
pub proof fn lemma_register_all_keeps_keys_unique(
    reg: RegistryView,
    pairs: Seq<(Seq<char>, Network)>,
    name: Seq<char>,
)
    requires
        registry_keys_unique(reg),
    ensures
        registry_keys_unique(register_all(reg, pairs, name)),
    decreases pairs.len(),
{
    if pairs.len() > 0 {
        lemma_register_all_keeps_keys_unique(reg, pairs.drop_last(), name);
        let last = pairs.last();
        lemma_register_keeps_keys_unique(
            register_all(reg, pairs.drop_last(), name),
            (last.0, FormatView::Other(name), last.1),
        );
    }
}

/// Every entry of the registry stands for a cash-style format: none is of
/// the legacy format.
pub open spec fn registry_is_cash_style(reg: RegistryView) -> bool {
    &&& forall|i: int| 0 <= i < reg.prefixes.len() ==> #[trigger] reg.prefixes[i].1 != FormatView::Legacy
    &&& forall|i: int| 0 <= i < reg.canonical.len() ==> #[trigger] reg.canonical[i].1 != FormatView::Legacy
}

/// The built-in registry holds cash-style formats only.
pub proof fn lemma_builtin_is_cash_style()
    ensures
        registry_is_cash_style(builtin_registry()),
{
}

/// Registering prefixes under a namespace keeps the registry cash-style.
pub proof fn lemma_register_all_keeps_cash_style(
    reg: RegistryView,
    pairs: Seq<(Seq<char>, Network)>,
    name: Seq<char>,
)
    requires
        registry_is_cash_style(reg),
    ensures
        registry_is_cash_style(register_all(reg, pairs, name)),
    decreases pairs.len(),
{
    if pairs.len() > 0 {
        let prev = register_all(reg, pairs.drop_last(), name);
        lemma_register_all_keeps_cash_style(reg, pairs.drop_last(), name);
        let last = pairs.last();
        let e = (last.0, FormatView::Other(name), last.1);
        lemma_prefix_index_range(prev.prefixes, e.0);
        lemma_canonical_index_range(prev.canonical, e.1, e.2);
        let next = register(prev, e);
        assert forall|i: int| 0 <= i < next.prefixes.len() implies #[trigger] next.prefixes[i].1
            != FormatView::Legacy by {
            if i < prev.prefixes.len() && next.prefixes[i] != e {
                assert(next.prefixes[i] == prev.prefixes[i]);
            }
        }
        assert forall|i: int| 0 <= i < next.canonical.len() implies #[trigger] next.canonical[i].1
            != FormatView::Legacy by {
            if i < prev.canonical.len() && next.canonical[i] != e {
                assert(next.canonical[i] == prev.canonical[i]);
            }
        }
    }
}

/// What a cash-style reading yields, through a cash-style registry, is of a
/// cash-style format.
pub proof fn lemma_cash_parse_not_legacy(reg: RegistryView, addr: Seq<char>)
    requires
        registry_is_cash_style(reg),
    ensures
        cash_parse(reg, addr) matches Ok(parsed) ==> parsed.0 != FormatView::Legacy,
{
    lemma_cash_parse_from_not_legacy(reg, addr, 0);
    lemma_cash_parse_with_prefix_not_legacy(reg, addr);
}

proof fn lemma_cash_parse_with_prefix_not_legacy(reg: RegistryView, addr: Seq<char>)
    requires
        registry_is_cash_style(reg),
    ensures
        cash_parse_with_prefix(reg, addr) matches Ok(parsed) ==> parsed.0 != FormatView::Legacy,
{
    lemma_prefix_index_range(reg.prefixes, text_before_separator(addr));
}

proof fn lemma_cash_parse_from_not_legacy(reg: RegistryView, addr: Seq<char>, i: nat)
    requires
        registry_is_cash_style(reg),
    ensures
        cash_parse_from(reg, addr, i) matches Ok(parsed) ==> parsed.0 != FormatView::Legacy,
    decreases reg.prefixes.len() - i,
{
    if i < reg.prefixes.len() {
        lemma_cash_parse_with_prefix_not_legacy(reg, with_separator(reg.prefixes[i as int].0, addr));
        lemma_cash_parse_from_not_legacy(reg, addr, i + 1);
    }
}

/// One registration: a prefix, its format and its network.
struct PrefixEntry {
    prefix: String,
    format: AddressFormat,
    network: Network,
}

impl View for PrefixEntry {
    type V = EntryView;

    closed spec fn view(&self) -> EntryView {
        (self.prefix@, self.format@, self.network)
    }
}

/// Registry of cash-style prefixes and adapter for the cash-style codec.
/// Prefixes are kept, and tried, in the order in which they were first
/// registered, the built-in ones first.
pub struct CashConverter {
    prefix_list: Vec<PrefixEntry>,
    prefix_inv_list: Vec<PrefixEntry>,
}

impl View for CashConverter {
    type V = RegistryView;

    closed spec fn view(&self) -> RegistryView {
        RegistryView {
            prefixes: self.prefix_list@.map_values(|e: PrefixEntry| e@),
            canonical: self.prefix_inv_list@.map_values(|e: PrefixEntry| e@),
        }
    }
}

fn new_entry(prefix: &str, format: AddressFormat, network: Network) -> (r: PrefixEntry)
    ensures
        r@ == (prefix@, format@, network),
{
    PrefixEntry { prefix: String::from_str(prefix), format, network }
}

fn builtin_list() -> (r: Vec<PrefixEntry>)
    ensures
        r@.map_values(|e: PrefixEntry| e@) == builtin_entries(),
{
    let mut list: Vec<PrefixEntry> = Vec::new();
    list.push(new_entry("bitcoincash", AddressFormat::CashAddr, Network::Mainnet));
    list.push(new_entry("bchtest", AddressFormat::CashAddr, Network::Testnet));
    list.push(new_entry("bchreg", AddressFormat::CashAddr, Network::Regtest));
    assert(list@.map_values(|e: PrefixEntry| e@) =~= builtin_entries());
    list
}

/// Finds the entry for a prefix.
fn find_prefix(list: &Vec<PrefixEntry>, prefix: &String) -> (r: Option<usize>)
    ensures
        match r {
            Some(i) => i == prefix_index(list@.map_values(|e: PrefixEntry| e@), prefix@),
            None => prefix_index(list@.map_values(|e: PrefixEntry| e@), prefix@) == -1,
        },
{
    let ghost s = list@.map_values(|e: PrefixEntry| e@);
    let mut i: usize = list.len();
    assert(s.take(i as int) =~= s);
    while i > 0
        invariant
            i <= list@.len(),
            s == list@.map_values(|e: PrefixEntry| e@),
            prefix_index(s, prefix@) == prefix_index(s.take(i as int), prefix@),
        decreases i,
    {
        assert(s.take(i as int).drop_last() =~= s.take(i - 1));
        if list[i - 1].prefix.eq(prefix) {
            return Some(i - 1);
        }
        i -= 1;
    }
    None
}

/// Finds the entry for a format and a network.
fn find_canonical(list: &Vec<PrefixEntry>, format: &AddressFormat, network: Network) -> (r: Option<usize>)
    ensures
        match r {
            Some(i) => i == canonical_index(list@.map_values(|e: PrefixEntry| e@), format@, network),
            None => canonical_index(list@.map_values(|e: PrefixEntry| e@), format@, network) == -1,
        },
{
    let ghost s = list@.map_values(|e: PrefixEntry| e@);
    let mut i: usize = list.len();
    assert(s.take(i as int) =~= s);
    while i > 0
        invariant
            i <= list@.len(),
            s == list@.map_values(|e: PrefixEntry| e@),
            canonical_index(s, format@, network) == canonical_index(s.take(i as int), format@, network),
        decreases i,
    {
        assert(s.take(i as int).drop_last() =~= s.take(i - 1));
        if list[i - 1].format == *format && list[i - 1].network == network {
            return Some(i - 1);
        }
        i -= 1;
    }
    None
}

impl CashConverter {
    /// A registry that holds the three built-in prefixes.
    pub fn new() -> (r: CashConverter)
        ensures
            r@ == builtin_registry(),
            registry_keys_unique(r@),
            registry_is_cash_style(r@),
    {
        proof {
            lemma_builtin_keys_unique();
            lemma_builtin_is_cash_style();
        }
        CashConverter { prefix_list: builtin_list(), prefix_inv_list: builtin_list() }
    }

    /// Registers each (prefix, network) pair, in order, under the namespace
    /// `format_name`.
    pub fn add_prefixes(self, prefixes: &[(&str, Network)], format_name: &str) -> (r: CashConverter)
        ensures
            r@ == register_all(self@, pairs_view(prefixes@), format_name@),
            registry_keys_unique(self@) ==> registry_keys_unique(r@),
            registry_is_cash_style(self@) ==> registry_is_cash_style(r@),
    {
        proof {
            if registry_keys_unique(self@) {
                lemma_register_all_keeps_keys_unique(self@, pairs_view(prefixes@), format_name@);
            }
            if registry_is_cash_style(self@) {
                lemma_register_all_keeps_cash_style(self@, pairs_view(prefixes@), format_name@);
            }
        }
        let ghost pairs = pairs_view(prefixes@);
        let mut conv = self;
        let mut i: usize = 0;
        while i < prefixes.len()
            invariant
                i <= prefixes@.len(),
                pairs == pairs_view(prefixes@),
                conv@ == register_all(self@, pairs.take(i as int), format_name@),
            decreases prefixes@.len() - i,
        {
            let (prefix, network) = prefixes[i];
            conv.bind(prefix, AddressFormat::Other(String::from_str(format_name)), network);
            assert(pairs.take(i + 1).drop_last() =~= pairs.take(i as int));
            i += 1;
        }
        assert(pairs.take(i as int) =~= pairs);
        conv
    }

    /// Binds one prefix to a format and a network, in both directions.
    fn bind(&mut self, prefix: &str, format: AddressFormat, network: Network)
        ensures
            final(self)@ == register(old(self)@, (prefix@, format@, network)),
    {
        let key = String::from_str(prefix);
        let forward = PrefixEntry { prefix: key.clone(), format: format.duplicate(), network };
        match find_prefix(&self.prefix_list, &key) {
            Some(j) => {
                proof {
                    lemma_prefix_index_range(old(self)@.prefixes, prefix@);
                }
                self.prefix_list.set(j, forward);
            },
            None => {
                self.prefix_list.push(forward);
            },
        }
        let inverse = PrefixEntry { prefix: key, format, network };
        match find_canonical(&self.prefix_inv_list, &inverse.format, network) {
            Some(j) => {
                proof {
                    lemma_canonical_index_range(old(self)@.canonical, format@, network);
                }
                self.prefix_inv_list.set(j, inverse);
            },
            None => {
                self.prefix_inv_list.push(inverse);
            },
        }
        assert(self@.prefixes =~= bind_prefix(old(self)@.prefixes, (prefix@, format@, network)));
        assert(self@.canonical =~= bind_canonical(old(self)@.canonical, (prefix@, format@, network)));
    }

    /// Reads an address that carries its prefix.
    fn parse_with_prefix(&self, addr: &str) -> (r: Result<Parsed, AddressError>)
        ensures
            parsed_result_view(r) == cash_parse_with_prefix(self@, addr@),
    {
        let (prefix, addr_type, hash) = match cashaddr_decode(addr) {
            Ok(decoded) => decoded,
            Err(e) => return Err(AddressError::CashAddr(e)),
        };
        match find_prefix(&self.prefix_list, &prefix) {
            None => Err(AddressError::UnknownCashPrefix(prefix)),
            Some(i) => {
                proof {
                    lemma_prefix_index_range(self@.prefixes, prefix@);
                }
                let entry = &self.prefix_list[i];
                Ok((entry.format.duplicate(), entry.network, addr_type, hash))
            },
        }
    }

    /// Reads a cash-style address. One without prefix is tried behind each
    /// registered prefix in turn; the first that reads wins.
    pub fn parse(&self, addr: &str) -> (r: Result<Parsed, AddressError>)
        ensures
            parsed_result_view(r) == cash_parse(self@, addr@),
    {
        if has_separator(addr) {
            return self.parse_with_prefix(addr);
        }
        let mut i: usize = 0;
        while i < self.prefix_list.len()
            invariant
                i <= self.prefix_list@.len(),
                self.prefix_list@.len() == self@.prefixes.len(),
                separator_count(addr@) == 0,
                cash_parse_from(self@, addr@, 0) == cash_parse_from(self@, addr@, i as nat),
            decreases self.prefix_list@.len() - i,
        {
            let mut full = self.prefix_list[i].prefix.clone();
            full.append(":");
            full.append(addr);
            proof {
                reveal_strlit(":");
                assert(full@ =~= with_separator(self@.prefixes[i as int].0, addr@));
            }
            let attempt = self.parse_with_prefix(full.as_str());
            match attempt {
                Ok(parsed) => {
                    return Ok(parsed);
                },
                Err(_) => {},
            }
            i += 1;
        }
        Err(AddressError::InvalidAddress(String::from_str(addr)))
    }

    /// Writes a hash as a cash-style address under the prefix registered for
    /// the format and the network.
    pub fn build(
        &self,
        format: &AddressFormat,
        network: Network,
        addr_type: AddressType,
        hash: &[u8],
    ) -> (r: Result<String, AddressError>)
        ensures
            result_view(r) == cash_build(self@, format@, network, addr_type, hash@),
    {
        match find_canonical(&self.prefix_inv_list, format, network) {
            None => Err(AddressError::UnknownCashFormat(format.duplicate(), network)),
            Some(i) => {
                proof {
                    lemma_canonical_index_range(self@.canonical, format@, network);
                }
                match cashaddr_encode(self.prefix_inv_list[i].prefix.as_str(), addr_type, hash) {
                    Ok(text) => Ok(text),
                    Err(e) => Err(AddressError::CashAddr(e)),
                }
            },
        }
    }
}

} // verus!
