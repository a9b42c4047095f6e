//! The scanner: it is bound to one host and records, port by port, whether a
//! connection could be made.
use vstd::prelude::*;
use vstd::set_lib::*;
use vstd::relations::injective_on;
use dashmap::DashMap;
use crate::cli::{config_check, is_port, Cli, ConfigError};
use crate::ports::{requested_ports, select_ports};

verus! {

#[verifier::external_type_specification]
#[verifier::external_body]
#[verifier::reject_recursive_types(K)]
#[verifier::reject_recursive_types(V)]
#[verifier::reject_recursive_types(S)]
pub struct ExDashMap<K, V, S>(DashMap<K, V, S>);

/// The result store: each probed port with whether it accepted a connection.
pub type PortMap = DashMap<u16, bool>;

/// What a port map holds: each probed port with whether it was open.
pub uninterp spec fn port_map_contents(m: PortMap) -> Map<u16, bool>;

/// A result map with no entries.
pub open spec fn no_results() -> Map<u16, bool> {
    Map::empty()
}

/// Relies on `DashMap::new`: a map with no entries.
#[verifier::external_body]
fn new_port_map() -> (r: PortMap)
    ensures
        port_map_contents(r) == no_results(),
{
    DashMap::new()
}

/// Relies on `DashMap::insert`: `key` is mapped to `value`, replacing any
/// earlier value, and no other entry changes.
#[verifier::external_body]
fn port_map_insert(m: &mut PortMap, key: u16, value: bool)
    ensures
        port_map_contents(*final(m)) == port_map_contents(*old(m)).insert(key, value),
{
    m.insert(key, value);
}

/// Relies on `DashMap::iter`: every entry is visited once, so the keys handed
/// out are distinct and are exactly the keys of the map.
#[verifier::external_body]
fn port_map_entries(m: &PortMap) -> (r: Vec<(u16, bool)>)
    ensures
        forall|i: int, j: int| 0 <= i < j < r@.len() ==> r@[i].0 != r@[j].0,
        forall|i: int|
            0 <= i < r@.len() ==> port_map_contents(*m).contains_key(#[trigger] r@[i].0)
                && port_map_contents(*m)[r@[i].0] == r@[i].1,
        forall|k: u16|
            port_map_contents(*m).contains_key(k) ==> exists|i: int|
                0 <= i < r@.len() && #[trigger] r@[i].0 == k,
{
    m.iter().map(|e| (*e.key(), *e.value())).collect()
}

/// The ports that a result map records as open.
pub open spec fn open_ports(m: Map<u16, bool>) -> Set<u16> {
    Set::new(|k: u16| m.contains_key(k) && m[k])
}

/// Every key of the map is a port that can be scanned.
pub open spec fn holds_ports_only(m: Map<u16, bool>) -> bool {
    forall|k: u16| m.contains_key(k) ==> is_port(k as nat)
}

/// A set of scannable ports is finite and has at most 65535 members.
pub proof fn lemma_port_set_size(s: Set<u16>)
    requires
        forall|k: u16| s.contains(k) ==> is_port(k as nat),
    ensures
        s.finite(),
        s.len() <= 65535,
{
    let r = set_int_range(1, 65536);
    lemma_int_range(1, 65536);
    let f = |i: int| i as u16;
    let u = r.map(f);
    lemma_map_size_bound(r, u, f);
    assert(s.subset_of(u)) by {
        assert forall|k: u16| s.contains(k) implies u.contains(k) by {
            assert(is_port(k as nat));
            assert(1 <= k as int && k as int <= 65535);
            assert(r.contains(k as int));
            assert(f(k as int) == k);
        }
    }
    lemma_len_subset(s, u);
}

/// The number of ports that a port map records as open.
pub fn count_open_ports(hashmap: &PortMap) -> (r: u16)
    requires
        holds_ports_only(port_map_contents(*hashmap)),
    ensures
        open_ports(port_map_contents(*hashmap)).finite(),
        r as nat == open_ports(port_map_contents(*hashmap)).len(),
{
    let ghost m = port_map_contents(*hashmap);
    let entries = port_map_entries(hashmap);
    let mut count: u16 = 0;
    let ghost mut seen: Set<u16> = Set::empty();
    let mut i: usize = 0;
    while i < entries.len()
        invariant
            i <= entries@.len(),
            m == port_map_contents(*hashmap),
            holds_ports_only(m),
            forall|a: int, b: int| 0 <= a < b < entries@.len() ==> entries@[a].0 != entries@[b].0,
            forall|a: int|
                0 <= a < entries@.len() ==> m.contains_key(#[trigger] entries@[a].0)
                    && m[entries@[a].0] == entries@[a].1,
            forall|k: u16|
                seen.contains(k) <==> exists|a: int|
                    0 <= a < i && #[trigger] entries@[a].0 == k && entries@[a].1,
            seen.finite(),
            count as nat == seen.len(),
        decreases entries@.len() - i,
    {
        let (k, open) = entries[i];
        if open {
            assert(!seen.contains(k));
            let ghost next = seen.insert(k);
            proof {
                lemma_port_set_size(next);
            }
            count = count + 1;
            proof {
                seen = next;
            }
        }
        i = i + 1;
        assert forall|k2: u16|
            seen.contains(k2) <==> exists|a: int|
                0 <= a < i && #[trigger] entries@[a].0 == k2 && entries@[a].1 by {
            if seen.contains(k2) && k2 != k {
                let a = choose|a: int| 0 <= a < i - 1 && #[trigger] entries@[a].0 == k2 && entries@[a].1;
                assert(0 <= a < i);
            }
        }
    }
    assert(seen =~= open_ports(m)) by {
        assert forall|k: u16| open_ports(m).contains(k) implies seen.contains(k) by {
            let a = choose|a: int| 0 <= a < entries@.len() && #[trigger] entries@[a].0 == k;
            assert(entries@[a].1);
        }
    }
    count
}

/// The address of the host to scan, as its numeric parts.
#[derive(Debug, Clone, Copy, PartialEq, Eq)]
pub enum HostAddr {
    /// An IPv4 address, as its four octets.
    V4(u8, u8, u8, u8),
    /// An IPv6 address, as its eight 16-bit segments.
    V6(u16, u16, u16, u16, u16, u16, u16, u16),
}

/// The loopback address `127.0.0.1`.
pub open spec fn localhost() -> HostAddr {
    HostAddr::V4(127, 0, 0, 1)
}

/// The result map after probing `ports` on top of `before`, where each
/// probe of port `k` comes out as `outcome(k)`.
pub open spec fn scan_outcome(
    before: Map<u16, bool>,
    ports: Seq<u16>,
    outcome: spec_fn(u16) -> bool,
) -> Map<u16, bool> {
    Map::new(
        |k: u16| before.contains_key(k) || ports.contains(k),
        |k: u16|
            if ports.contains(k) {
                outcome(k)
            } else {
                before[k]
            },
    )
}

/// Probing the same ports in any order, one at a time or in an interleaving
/// of concurrent probes, leaves the same result map, as long as each port's
/// probe has the same outcome.
pub proof fn lemma_scan_order_irrelevant(
    before: Map<u16, bool>,
    a: Seq<u16>,
    b: Seq<u16>,
    outcome: spec_fn(u16) -> bool,
)
    requires
        a.to_multiset() == b.to_multiset(),
    ensures
        scan_outcome(before, a, outcome) == scan_outcome(before, b, outcome),
{
    broadcast use vstd::seq_lib::group_to_multiset_ensures;
    assert forall|k: u16| a.contains(k) <==> b.contains(k) by {
        assert(a.contains(k) <==> a.to_multiset().count(k) > 0);
        assert(b.contains(k) <==> b.to_multiset().count(k) > 0);
    }
    assert(scan_outcome(before, a, outcome) =~= scan_outcome(before, b, outcome));
}

/// A scan of `ports` on a scanner with no results leaves exactly one entry
/// for each distinct port of the list: none missing, none extra.
pub proof fn lemma_fresh_scan_one_entry_per_port(ports: Seq<u16>, outcome: spec_fn(u16) -> bool)
    ensures
        scan_outcome(no_results(), ports, outcome).dom() == ports.to_set(),
        scan_outcome(no_results(), ports, outcome).dom().finite(),
        scan_outcome(no_results(), ports, outcome).dom().len() == ports.to_set().len(),
{
    let m = scan_outcome(no_results(), ports, outcome);
    assert(m.dom() =~= ports.to_set());
    vstd::seq_lib::seq_to_set_is_finite(ports);
}

/// A result map that records every port from 1 to `n` as open, and nothing
/// else, has exactly `n` open ports.
pub proof fn lemma_all_open_count(m: Map<u16, bool>, n: u16)
    requires
        forall|k: u16| m.contains_key(k) <==> 1 <= k <= n,
        forall|k: u16| m.contains_key(k) ==> m[k],
    ensures
        open_ports(m).finite(),
        open_ports(m).len() == n,
{
    let r = set_int_range(1, n + 1);
    lemma_int_range(1, n + 1);
    let f = |i: int| i as u16;
    assert(injective_on(f, r));
    assert(r.map(f) =~= open_ports(m)) by {
        assert forall|k: u16| open_ports(m).contains(k) implies r.map(f).contains(k) by {
            assert(r.contains(k as int));
            assert(f(k as int) == k);
        }
    }
    lemma_map_size(r, open_ports(m), f);
}

/// A port scanner bound to one host, with the results of its scans.
pub struct PortScanner {
    /// Address of the host to scan; no method of the scanner changes it.
    pub addr: HostAddr,
    /// For each probed port, whether it accepted a connection.
    pub port_map: PortMap,
}

impl PortScanner {
    /// The results recorded so far.
    pub open spec fn results(&self) -> Map<u16, bool> {
        port_map_contents(self.port_map)
    }

    /// Address of the host that this scanner probes.
    pub open spec fn host(&self) -> HostAddr {
        self.addr
    }

    /// A scanner is well formed when it records scannable ports only.
    pub open spec fn wf(&self) -> bool {
        holds_ports_only(self.results())
    }

    /// A scanner bound to `address`, with no results yet.
    pub fn new(address: HostAddr) -> (r: Self)
        ensures
            r.host() == address,
            r.results() == no_results(),
            r.wf(),
    {
        PortScanner { addr: address, port_map: new_port_map() }
    }

    /// Address of the host that this scanner probes.
    pub fn addr(&self) -> (r: HostAddr)
        ensures
            r == self.host(),
    {
        self.addr
    }

    /// The number of ports that the results record as open.
    pub fn count_open_ports(&self) -> (r: u16)
        requires
            self.wf(),
        ensures
            open_ports(self.results()).finite(),
            r as nat == open_ports(self.results()).len(),
    {
        count_open_ports(&self.port_map)
    }

    /// Records the outcome of one probe.
    fn record(&mut self, port: u16, open: bool)
        ensures
            final(self).host() == old(self).host(),
            final(self).results() == old(self).results().insert(port, open),
    {
        port_map_insert(&mut self.port_map, port, open);
    }

    /// Probes every port of `ports` once, in the order of first occurrence,
    /// and records each outcome, replacing what an earlier scan recorded for
    /// that port. A port listed again is not probed again. `probe` attempts
    /// one connection to the scanner's host and tells whether it was accepted.
    pub fn scan_ports<F: Fn(u16) -> bool>(&mut self, ports: &Vec<u16>, probe: F)
        requires
            old(self).wf(),
            forall|i: int| 0 <= i < ports@.len() ==> is_port(#[trigger] ports@[i] as nat),
            forall|i: int| 0 <= i < ports@.len() ==> probe.requires((#[trigger] ports@[i],)),
        ensures
            final(self).wf(),
            final(self).host() == old(self).host(),
            final(self).results().dom() == old(self).results().dom() + ports@.to_set(),
            forall|k: u16|
                #[trigger] final(self).results().contains_key(k) <==> (old(self).results().contains_key(k)
                    || ports@.contains(k)),
            forall|k: u16|
                ports@.contains(k) ==> probe.ensures((k,), #[trigger] final(self).results()[k]),
            forall|k: u16|
                !ports@.contains(k) && old(self).results().contains_key(k)
                    ==> #[trigger] final(self).results()[k] == old(self).results()[k],
            forall|outcome: spec_fn(u16) -> bool|
                (forall|p: u16, o: bool| probe.ensures((p,), o) ==> o == outcome(p))
                    ==> #[trigger] scan_outcome(old(self).results(), ports@, outcome)
                    == final(self).results(),
    {
        let ghost before = self.results();
        let mut seen: Vec<bool> = Vec::new();
        while seen.len() < 65536
            invariant
                seen@.len() <= 65536,
                forall|j: int| 0 <= j < seen@.len() ==> !#[trigger] seen@[j],
            decreases 65536 - seen@.len(),
        {
            seen.push(false);
        }
        let mut i: usize = 0;
        while i < ports.len()
            invariant
                i <= ports@.len(),
                seen@.len() == 65536,
                self.wf(),
                self.host() == old(self).host(),
                before == old(self).results(),
                forall|j: int| 0 <= j < ports@.len() ==> is_port(#[trigger] ports@[j] as nat),
                forall|j: int| 0 <= j < ports@.len() ==> probe.requires((#[trigger] ports@[j],)),
                forall|k: u16|
                    #[trigger] seen@[k as int] <==> ports@.subrange(0, i as int).contains(k),
                forall|k: u16|
                    #[trigger] self.results().contains_key(k) <==> (before.contains_key(k)
                        || ports@.subrange(0, i as int).contains(k)),
                forall|k: u16|
                    ports@.subrange(0, i as int).contains(k) ==> probe.ensures(
                        (k,),
                        #[trigger] self.results()[k],
                    ),
                forall|k: u16|
                    !ports@.subrange(0, i as int).contains(k) && before.contains_key(k)
                        ==> #[trigger] self.results()[k] == before[k],
            decreases ports@.len() - i,
        {
            let port = ports[i];
            let ghost done = ports@.subrange(0, i as int);
            let ghost next = ports@.subrange(0, i + 1);
            assert(next =~= done.push(port));
            assert forall|k: u16| next.contains(k) <==> (done.contains(k) || k == port) by {
                if done.contains(k) {
                    let j = choose|j: int| 0 <= j < done.len() && done[j] == k;
                    assert(next[j] == k);
                }
                if next.contains(k) && k != port {
                    let j = choose|j: int| 0 <= j < next.len() && next[j] == k;
                    assert(done[j] == k);
                }
                if k == port {
                    assert(next[i as int] == k);
                }
            }
            if !seen[port as usize] {
                assert(is_port(ports@[i as int] as nat));
                assert(probe.requires((ports@[i as int],)));
                let open = probe(port);
                self.record(port, open);
                let ghost seen_before = seen@;
                seen.set(port as usize, true);
                assert forall|k: u16| #[trigger] seen@[k as int] <==> next.contains(k) by {
                    if k != port {
                        assert(seen@[k as int] == seen_before[k as int]);
                    }
                }
            }
            i = i + 1;
        }
        assert(ports@.subrange(0, ports@.len() as int) =~= ports@);
        assert(self.results().dom() =~= before.dom() + ports@.to_set());
        assert forall|outcome: spec_fn(u16) -> bool|
            (forall|p: u16, o: bool| probe.ensures((p,), o) ==> o == outcome(p))
                implies #[trigger] scan_outcome(before, ports@, outcome) == self.results() by {
            assert(scan_outcome(before, ports@, outcome) =~= self.results());
        }
    }
}

/// Runs the scan that a configuration asks for: checks the configuration,
/// picks the ports and their order, probes each port with `probe`, and
/// returns the scanner with its results. A rejected configuration probes
/// nothing.
pub fn run_scan<F: Fn(u16) -> bool>(cli: &Cli, common_ports_text: &str, probe: F) -> (r: Result<
    PortScanner,
    ConfigError,
>)
    requires
        config_check(*cli) is Ok ==> forall|p: u16| is_port(p as nat) ==> probe.requires((p,)),
    ensures
        r is Ok <==> config_check(*cli) is Ok,
        r is Err ==> r->Err_0 == config_check(*cli)->Err_0,
        r is Ok ==> {
            let s = r->Ok_0;
            let req = requested_ports(*cli, common_ports_text@);
            &&& s.wf()
            &&& s.host() == cli.addr
            &&& forall|k: u16| #[trigger] s.results().contains_key(k) <==> req.contains(k)
            &&& forall|k: u16| req.contains(k) ==> probe.ensures((k,), #[trigger] s.results()[k])
        },
{
    match cli.validate() {
        Err(e) => Err(e),
        Ok(()) => {
            let ports = select_ports(cli, common_ports_text);
            let ghost req = requested_ports(*cli, common_ports_text@);
            let mut scanner = PortScanner::new(cli.addr);
            scanner.scan_ports(&ports, probe);
            proof {
                broadcast use vstd::seq_lib::group_to_multiset_ensures;
                assert forall|k: u16| ports@.contains(k) <==> req.contains(k) by {
                    assert(ports@.contains(k) <==> ports@.to_multiset().count(k) > 0);
                    assert(req.contains(k) <==> req.to_multiset().count(k) > 0);
                }
            }
            Ok(scanner)
        },
    }
}

impl Default for PortScanner {
    /// A scanner bound to the loopback address, with no results yet.
    fn default() -> (r: Self)
        ensures
            r.host() == localhost(),
            r.results() == no_results(),
            r.wf(),
    {
        PortScanner::new(HostAddr::V4(127, 0, 0, 1))
    }
}

impl<'a> From<&'a Cli> for PortScanner {
    /// A scanner bound to the address that the command line names, with no
    /// results yet.
    fn from(cli: &'a Cli) -> (r: Self)
        ensures
            r.host() == cli.addr,
            r.results() == no_results(),
            r.wf(),
    {
        PortScanner::new(cli.addr)
    }
}

impl<'a> vstd::std_specs::convert::FromSpecImpl<&'a Cli> for PortScanner {
    open spec fn obeys_from_spec() -> bool {
        false
    }

    open spec fn from_spec(cli: &'a Cli) -> Self {
        arbitrary()
    }
}

} // verus!
