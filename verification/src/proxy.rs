//! The reverse proxy's routing table: which backend serves which host.

use crate::address::HostAddr;
use crate::container::PublishedContainer;
use crate::location::{ImageLocation, LocationView};
use crate::text::{eq_ignoring_case, matches_ignoring_case, pairs, push_char, push_text};
use vstd::hash_map::StringHashMap;
use vstd::prelude::*;

verus! {

/// The hostname under which a container is reached when its settings name
/// none: `<image>.<repository>`.
pub open spec fn default_hostname_text(location: LocationView) -> Seq<char> {
    location.image + seq!['.'] + location.repository
}

/// The hostnames under which `container` is reached: those named by its
/// settings, or else the default hostname of its location.
pub open spec fn hostnames(container: PublishedContainer) -> Seq<Seq<char>> {
    match container.settings().access() {
        Some(access) => Seq::new(access.len(), |i: int| access[i].0),
        None => seq![default_hostname_text(container.manifest().location)],
    }
}

/// `table`, with each of `hosts` routed to `addr`.
pub open spec fn route_all(table: Map<Seq<char>, HostAddr>, hosts: Seq<Seq<char>>, addr: HostAddr) -> Map<
    Seq<char>,
    HostAddr,
>
    decreases hosts.len(),
{
    if hosts.len() == 0 {
        table
    } else {
        route_all(table, hosts.drop_last(), addr).insert(hosts.last(), addr)
    }
}

/// The routing table for `containers`: every hostname of every container
/// leads to that container. Where two containers share a hostname, the
/// later one gets it.
pub open spec fn routes_of(containers: Seq<PublishedContainer>) -> Map<Seq<char>, HostAddr>
    decreases containers.len(),
{
    if containers.len() == 0 {
        Map::empty()
    } else {
        route_all(
            routes_of(containers.drop_last()),
            hostnames(containers.last()),
            containers.last().addr(),
        )
    }
}

/// Whether `containers[i]` is reached under `host`.
pub open spec fn claims(containers: Seq<PublishedContainer>, i: int, host: Seq<char>) -> bool {
    0 <= i < containers.len() && hostnames(containers[i]).contains(host)
}

proof fn lemma_route_all(table: Map<Seq<char>, HostAddr>, hosts: Seq<Seq<char>>, addr: HostAddr, host: Seq<
    char,
>)
    ensures
        route_all(table, hosts, addr).contains_key(host) <==> (hosts.contains(host)
            || table.contains_key(host)),
        hosts.contains(host) ==> route_all(table, hosts, addr)[host] == addr,
        !hosts.contains(host) && table.contains_key(host) ==> route_all(table, hosts, addr)[host]
            == table[host],
    decreases hosts.len(),
{
    if hosts.len() > 0 {
        let before = hosts.drop_last();
        lemma_route_all(table, before, addr, host);
        if hosts.contains(host) {
            let k = choose|k: int| 0 <= k < hosts.len() && hosts[k] == host;
            if k < hosts.len() - 1 {
                assert(before[k] == host);
            }
        }
        if before.contains(host) {
            let k = choose|k: int| 0 <= k < before.len() && before[k] == host;
            assert(hosts[k] == host);
        }
        if hosts.last() == host {
            assert(hosts[hosts.len() - 1] == host);
        }
    }
}

/// The routing table holds the hostnames of the published containers and
/// nothing else: a host is routed if and only if one of the containers is
/// reached under it, and then it leads to such a container.
pub proof fn lemma_routes_come_from_containers(containers: Seq<PublishedContainer>, host: Seq<char>)
    ensures
        routes_of(containers).contains_key(host) <==> exists|i: int| claims(containers, i, host),
        routes_of(containers).contains_key(host) ==> exists|i: int|
            claims(containers, i, host) && routes_of(containers)[host] == containers[i].addr(),
    decreases containers.len(),
{
    if containers.len() > 0 {
        let before = containers.drop_last();
        let last = containers.last();
        let n = containers.len() - 1;
        lemma_routes_come_from_containers(before, host);
        lemma_route_all(routes_of(before), hostnames(last), last.addr(), host);
        if hostnames(last).contains(host) {
            assert(claims(containers, n, host));
        } else if routes_of(before).contains_key(host) {
            let i = choose|i: int|
                claims(before, i, host) && routes_of(before)[host] == before[i].addr();
            assert(claims(containers, i, host));
        }
        if exists|i: int| claims(containers, i, host) {
            let i = choose|i: int| claims(containers, i, host);
            if i < n {
                assert(claims(before, i, host));
            }
        }
    } else {
        assert(forall|i: int| !claims(containers, i, host));
    }
}

/// The hostname under which the container of `location` is reached when
/// its settings name none.
pub fn default_hostname(location: &ImageLocation) -> (host: String)
    ensures
        host@ == default_hostname_text(location@),
{
    let mut host = location.image().to_owned();
    push_char(&mut host, '.');
    push_text(&mut host, location.repository());
    host
}

/// Which backend serves which host.
pub struct RoutingTable {
    routes: StringHashMap<HostAddr>,
}

impl View for RoutingTable {
    type V = Map<Seq<char>, HostAddr>;

    closed spec fn view(&self) -> Map<Seq<char>, HostAddr> {
        self.routes@
    }
}

impl RoutingTable {
    /// A table without routes.
    pub fn new() -> (table: RoutingTable)
        ensures
            table@ == Map::<Seq<char>, HostAddr>::empty(),
    {
        RoutingTable { routes: StringHashMap::new() }
    }

    /// The table for `containers`.
    pub fn from_containers(containers: &Vec<PublishedContainer>) -> (table: RoutingTable)
        ensures
            table@ == routes_of(containers@),
    {
        let mut routes: StringHashMap<HostAddr> = StringHashMap::new();
        let mut i: usize = 0;
        assert(containers@.take(0) =~= Seq::<PublishedContainer>::empty());
        while i < containers.len()
            invariant
                0 <= i <= containers.len(),
                routes@ == routes_of(containers@.take(i as int)),
            decreases containers.len() - i,
        {
            let container = &containers[i];
            let addr = container.host_addr();
            proof {
                let upto = containers@.take(i + 1);
                assert(upto.drop_last() =~= containers@.take(i as int));
                assert(upto.last() == *container);
            }
            match container.config().http_access() {
                Some(access) => {
                    let ghost hosts = hostnames(*container);
                    let ghost base = routes@;
                    let mut k: usize = 0;
                    assert(hosts.take(0) =~= Seq::<Seq<char>>::empty());
                    while k < access.len()
                        invariant
                            0 <= k <= access.len(),
                            hosts.len() == access.len(),
                            forall|j: int| 0 <= j < hosts.len() ==> hosts[j] == access@[j].0@,
                            routes@ == route_all(base, hosts.take(k as int), addr),
                        decreases access.len() - k,
                    {
                        proof {
                            let upto = hosts.take(k + 1);
                            assert(upto.drop_last() =~= hosts.take(k as int));
                            assert(upto.last() == access@[k as int].0@);
                        }
                        routes.insert(access[k].0.clone(), addr);
                        k += 1;
                    }
                    assert(hosts.take(hosts.len() as int) =~= hosts);
                },
                None => {
                    let ghost hosts = hostnames(*container);
                    let ghost base = routes@;
                    let host = default_hostname(container.manifest_reference().location());
                    proof {
                        assert(hosts.drop_last() =~= Seq::<Seq<char>>::empty());
                        assert(hosts.last() == host@);
                        assert(route_all(base, hosts.drop_last(), addr) == base);
                        assert(route_all(base, hosts, addr) == base.insert(host@, addr));
                    }
                    routes.insert(host, addr);
                },
            }
            i += 1;
        }
        assert(containers@.take(containers@.len() as int) =~= containers@);
        RoutingTable { routes }
    }

    /// The backend that serves `host`, if there is one.
    pub fn lookup(&self, host: &str) -> (backend: Option<HostAddr>)
        ensures
            backend == if self@.contains_key(host@) {
                Some(self@[host@])
            } else {
                None
            },
    {
        match self.routes.get(host) {
            Some(addr) => Some(*addr),
            None => None,
        }
    }
}

/// Whether `name` is the name of a header that concerns a single
/// connection and is not passed on by a proxy.
pub open spec fn is_hop_by_hop(name: Seq<char>) -> bool {
    ||| matches_ignoring_case(name, "connection"@)
    ||| matches_ignoring_case(name, "keep-alive"@)
    ||| matches_ignoring_case(name, "proxy-authenticate"@)
    ||| matches_ignoring_case(name, "proxy-authorization"@)
    ||| matches_ignoring_case(name, "te"@)
    ||| matches_ignoring_case(name, "trailer"@)
    ||| matches_ignoring_case(name, "transfer-encoding"@)
    ||| matches_ignoring_case(name, "upgrade"@)
}

/// The headers that a proxy passes on: all but the hop-by-hop ones, in
/// their order.
pub open spec fn end_to_end(headers: Seq<(Seq<char>, Seq<char>)>) -> Seq<(Seq<char>, Seq<char>)>
    decreases headers.len(),
{
    if headers.len() == 0 {
        Seq::empty()
    } else if is_hop_by_hop(headers.last().0) {
        end_to_end(headers.drop_last())
    } else {
        end_to_end(headers.drop_last()).push(headers.last())
    }
}

/// Checks whether `name` names a hop-by-hop header.
pub fn hop_by_hop(name: &str) -> (yes: bool)
    ensures
        yes == is_hop_by_hop(name@),
{
    eq_ignoring_case(name, "connection") || eq_ignoring_case(name, "keep-alive")
        || eq_ignoring_case(name, "proxy-authenticate") || eq_ignoring_case(
        name,
        "proxy-authorization",
    ) || eq_ignoring_case(name, "te") || eq_ignoring_case(name, "trailer") || eq_ignoring_case(
        name,
        "transfer-encoding",
    ) || eq_ignoring_case(name, "upgrade")
}

/// The headers of a message that are passed on to the other side.
pub fn forwarded_headers(headers: &Vec<(String, String)>) -> (kept: Vec<(String, String)>)
    ensures
        pairs(kept@) == end_to_end(pairs(headers@)),
{
    let mut kept: Vec<(String, String)> = Vec::new();
    let mut i: usize = 0;
    let ghost all = pairs(headers@);
    assert(all.take(0) =~= Seq::<(Seq<char>, Seq<char>)>::empty());
    while i < headers.len()
        invariant
            0 <= i <= headers.len(),
            all == pairs(headers@),
            pairs(kept@) == end_to_end(all.take(i as int)),
        decreases headers.len() - i,
    {
        proof {
            let upto = all.take(i + 1);
            assert(upto.drop_last() =~= all.take(i as int));
            assert(upto.last() == (headers@[i as int].0@, headers@[i as int].1@));
        }
        if !hop_by_hop(headers[i].0.as_str()) {
            let ghost before = pairs(kept@);
            kept.push((headers[i].0.clone(), headers[i].1.clone()));
            assert(pairs(kept@) =~= before.push((headers@[i as int].0@, headers@[i as int].1@)));
        }
        i += 1;
    }
    assert(all.take(all.len() as int) =~= all);
    kept
}

/// What the proxy does with a request.
#[derive(Clone, Copy, Debug, PartialEq, Eq)]
pub enum ProxyDecision {
    /// Forward it to this backend.
    Forward(HostAddr),
    /// Answer `502 Bad Gateway`: no backend serves the requested host.
    BadGateway,
}

/// The decision that `table` calls for when a request names `host`.
pub open spec fn decide(table: Map<Seq<char>, HostAddr>, host: Option<Seq<char>>) -> ProxyDecision {
    match host {
        Some(name) => if table.contains_key(name) {
            ProxyDecision::Forward(table[name])
        } else {
            ProxyDecision::BadGateway
        },
        None => ProxyDecision::BadGateway,
    }
}

/// The reverse proxy: it forwards each request to the backend that serves
/// the request's host.
pub struct ReverseProxy {
    table: RoutingTable,
}

impl ReverseProxy {
    /// The routing table in use.
    pub closed spec fn routes(&self) -> Map<Seq<char>, HostAddr> {
        self.table@
    }

    /// A proxy that knows no backend.
    pub fn new() -> (proxy: ReverseProxy)
        ensures
            proxy.routes() == Map::<Seq<char>, HostAddr>::empty(),
    {
        ReverseProxy { table: RoutingTable::new() }
    }

    /// Replaces the routing table by the one for `containers`. Nothing of
    /// the former table is kept.
    pub fn update_containers(&mut self, containers: &Vec<PublishedContainer>)
        ensures
            final(self).routes() == routes_of(containers@),
    {
        self.table = RoutingTable::from_containers(containers);
    }

    /// Decides what to do with a request whose `Host` header is `host`.
    pub fn serve(&self, host: Option<&str>) -> (decision: ProxyDecision)
        ensures
            decision == decide(
                self.routes(),
                match host {
                    Some(name) => Some(name@),
                    None => None,
                },
            ),
    {
        match host {
            Some(name) => match self.table.lookup(name) {
                Some(backend) => ProxyDecision::Forward(backend),
                None => ProxyDecision::BadGateway,
            },
            None => ProxyDecision::BadGateway,
        }
    }
}

/// After an update the proxy forwards only to published containers: a
/// request is forwarded exactly if one of the containers is reached under
/// its host, and then to such a container; any other request is answered
/// with `502 Bad Gateway`.
pub proof fn lemma_proxy_forwards_only_published(containers: Seq<PublishedContainer>, host: Option<
    Seq<char>,
>)
    ensures
        match decide(routes_of(containers), host) {
            ProxyDecision::Forward(backend) => host is Some && exists|i: int|
                claims(containers, i, host->0) && backend == containers[i].addr(),
            ProxyDecision::BadGateway => host is None || forall|i: int|
                !claims(containers, i, host->0),
        },
{
    if host is Some {
        lemma_routes_come_from_containers(containers, host->0);
    }
}

} // verus!
