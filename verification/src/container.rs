//! What the container engine reports about a container, and what the
//! platform makes of it.

use crate::address::{parse_ipv4, read_ipv4, HostAddr};
use crate::location::{
    ImageLocation, LocationView, ManifestReference, ManifestReferenceView, Reference,
    ReferenceView,
};
use crate::text::{
    chars_of, find_from, find_last, first_index, has_prefix, last_index, lemma_first_index,
    lemma_no_first_index, pairs, push_char, push_text, same_text, starts_with, string_of,
    texts,
};
use vstd::prelude::*;
use vstd::string::StrSliceExecFns;

verus! {

/// The name of the container that runs the image at `location`:
/// `rockslide-<repository>-<image>`.
pub open spec fn container_name_text(location: LocationView) -> Seq<char> {
    "rockslide-"@ + location.repository + seq!['-'] + location.image
}

/// The location that a container name stands for, if the container is
/// managed: what follows the prefix `rockslide-`, cut at its first hyphen.
/// A name of which one of the two parts is empty, or does not do as a path
/// component, is not the name of a managed container.
pub open spec fn managed_location(name: Seq<char>) -> Option<LocationView> {
    if has_prefix(name, "rockslide-"@) {
        let rest = name.skip("rockslide-"@.len() as int);
        match first_index(rest, '-') {
            Some(i) => {
                let location = LocationView { repository: rest.take(i), image: rest.skip(i + 1) };
                if location.is_path_safe() {
                    Some(location)
                } else {
                    None
                }
            },
            None => None,
        }
    } else {
        None
    }
}

/// The location of the first name in `names` that is a managed name.
pub open spec fn first_managed(names: Seq<Seq<char>>) -> Option<LocationView>
    decreases names.len(),
{
    if names.len() == 0 {
        None
    } else {
        match managed_location(names[0]) {
            Some(location) => Some(location),
            None => first_managed(names.drop_first()),
        }
    }
}

/// The location of a managed container is made of two names that do as
/// path components; neither is empty.
pub proof fn lemma_managed_locations_are_path_safe(names: Seq<Seq<char>>)
    ensures
        first_managed(names) matches Some(location) ==> location.is_path_safe(),
    decreases names.len(),
{
    if names.len() > 0 {
        lemma_managed_locations_are_path_safe(names.drop_first());
    }
}

/// The tag of an image name: what follows its last colon.
pub open spec fn image_tag_of(image: Seq<char>) -> Option<ReferenceView> {
    match last_index(image, ':') {
        Some(i) => Some(ReferenceView::Tag(image.skip(i + 1))),
        None => None,
    }
}

/// The name of the container that runs the image at `location`.
pub fn container_name(location: &ImageLocation) -> (name: String)
    ensures
        name@ == container_name_text(location@),
{
    let mut name = "rockslide-".to_owned();
    push_text(&mut name, location.repository());
    push_char(&mut name, '-');
    push_text(&mut name, location.image());
    name
}

/// The location that the container name `name` stands for.
pub fn location_of_name(name: &str) -> (location: Option<ImageLocation>)
    ensures
        match location {
            Some(found) => managed_location(name@) == Some(found@),
            None => managed_location(name@) is None,
        },
{
    let chars = chars_of(name);
    if !starts_with(&chars, "rockslide-") {
        return None;
    }
    let prefix_len = "rockslide-".unicode_len();
    let ghost rest = chars@.skip(prefix_len as int);
    match find_from(&chars, prefix_len, '-') {
        Some(i) => {
            proof {
                lemma_first_index(rest, '-', i - prefix_len);
                assert(rest.take(i - prefix_len) =~= chars@.subrange(prefix_len as int, i as int));
                assert(rest.skip(i - prefix_len + 1) =~= chars@.subrange(
                    i + 1,
                    chars@.len() as int,
                ));
            }
            let repository = string_of(&chars, prefix_len, i);
            let image = string_of(&chars, i + 1, chars.len());
            let location = ImageLocation::new(repository, image);
            if location.is_path_safe() {
                Some(location)
            } else {
                None
            }
        },
        None => {
            proof {
                lemma_no_first_index(rest, '-');
            }
            None
        },
    }
}

/// A managed container's name is read back as the location it was made
/// from, as long as both of its names do as path components and the
/// repository's holds no hyphen.
pub proof fn lemma_container_name_round_trip(location: LocationView)
    requires
        location.is_path_safe(),
        crate::text::lacks(location.repository, '-'),
    ensures
        managed_location(container_name_text(location)) == Some(location),
{
    let prefix = "rockslide-"@;
    let name = container_name_text(location);
    let p = prefix.len() as int;
    let r = location.repository.len() as int;
    assert(name.take(p) =~= prefix);
    let rest = name.skip(p);
    assert(rest =~= location.repository + seq!['-'] + location.image);
    assert(rest[r] == '-');
    assert forall|j: int| 0 <= j < r implies rest[j] != '-' by {
        assert(rest[j] == location.repository[j]);
    }
    lemma_first_index(rest, '-', r);
    assert(rest.take(r) =~= location.repository);
    assert(rest.skip(r + 1) =~= location.image);
}

/// One published port of a container, as the engine reports it.
#[derive(Clone, Debug, PartialEq, Eq)]
pub struct PortMapping {
    /// The address on the host that the port is bound to.
    pub host_ip: String,
    /// The port inside the container.
    pub container_port: u16,
    /// The port on the host.
    pub host_port: u16,
    /// How many consecutive ports are mapped.
    pub range: u16,
    /// `tcp` or `udp`.
    pub protocol: String,
}

impl PortMapping {
    /// The address on the host at which the container can be reached, if
    /// the engine reported an IPv4 address.
    pub fn get_host_listening_addr(&self) -> (addr: Option<HostAddr>)
        ensures
            match addr {
                Some(found) => parse_ipv4(self.host_ip@) == Some(found.ip@) && found.port
                    == self.host_port,
                None => parse_ipv4(self.host_ip@) is None,
            },
    {
        match read_ipv4(self.host_ip.as_str()) {
            Some(ip) => Some(HostAddr { ip, port: self.host_port }),
            None => None,
        }
    }
}

/// A container, as the engine lists it.
#[derive(Clone, Debug, PartialEq, Eq)]
pub struct ContainerJson {
    /// The engine's identifier of the container.
    pub id: String,
    /// The name of the image that the container runs.
    pub image: String,
    /// The names of the container.
    pub names: Vec<String>,
    /// The published ports; empty where the engine reports none.
    pub ports: Vec<PortMapping>,
}

impl ContainerJson {
    /// The location whose image this container runs, if it is managed:
    /// that of its first name of the form `rockslide-<repository>-<image>`
    /// with a repository and an image that do as path components.
    pub fn image_location(&self) -> (location: Option<ImageLocation>)
        ensures
            match location {
                Some(found) => first_managed(texts(self.names@)) == Some(found@)
                    && found@.is_path_safe(),
                None => first_managed(texts(self.names@)) is None,
            },
    {
        proof {
            lemma_managed_locations_are_path_safe(texts(self.names@));
        }
        let ghost all = texts(self.names@);
        let mut i: usize = 0;
        assert(all.skip(0) =~= all);
        while i < self.names.len()
            invariant
                0 <= i <= self.names.len(),
                all == texts(self.names@),
                first_managed(all) == first_managed(all.skip(i as int)),
            decreases self.names.len() - i,
        {
            proof {
                assert(all.skip(i as int)[0] == self.names@[i as int]@);
                assert(all.skip(i as int).drop_first() =~= all.skip(i + 1));
            }
            match location_of_name(self.names[i].as_str()) {
                Some(found) => {
                    return Some(found);
                },
                None => {},
            }
            i += 1;
        }
        None
    }

    /// The tag under which the container's image was pulled: what follows
    /// the last colon of the image name.
    pub fn image_tag(&self) -> (tag: Option<Reference>)
        ensures
            match tag {
                Some(found) => image_tag_of(self.image@) == Some(found@),
                None => image_tag_of(self.image@) is None,
            },
    {
        let chars = chars_of(self.image.as_str());
        match find_last(&chars, ':') {
            Some(i) => {
                let tag = string_of(&chars, i + 1, chars.len());
                assert(chars@.subrange(i + 1, chars@.len() as int) =~= chars@.skip(i + 1));
                Some(Reference::new_tag(tag))
            },
            None => None,
        }
    }

    /// The manifest that the container runs, if it is managed and its image
    /// name carries a tag.
    pub fn manifest_reference(&self) -> (manifest_reference: Option<ManifestReference>)
        ensures
            match manifest_reference {
                Some(found) => {
                    &&& first_managed(texts(self.names@)) == Some(found@.location)
                    &&& image_tag_of(self.image@) == Some(found@.reference)
                },
                None => first_managed(texts(self.names@)) is None || image_tag_of(self.image@)
                    is None,
            },
    {
        let location = match self.image_location() {
            Some(found) => found,
            None => { return None; },
        };
        let reference = match self.image_tag() {
            Some(found) => found,
            None => { return None; },
        };
        Some(ManifestReference::new(location, reference))
    }

    /// The container as the proxy is told of it, with no settings of its
    /// own: `None` unless it is managed, its image name carries a tag, it
    /// has a published port, and that port is bound to an IPv4 address.
    pub fn published_container(&self) -> (container: Option<PublishedContainer>)
        ensures
            match container {
                Some(published) => {
                    &&& first_managed(texts(self.names@)) == Some(published.manifest().location)
                    &&& image_tag_of(self.image@) == Some(published.manifest().reference)
                    &&& self.ports@.len() > 0
                    &&& parse_ipv4(self.ports@[0].host_ip@) == Some(published.addr().ip@)
                    &&& published.addr().port == self.ports@[0].host_port
                    &&& published.settings().access() is None
                },
                None => {
                    ||| first_managed(texts(self.names@)) is None
                    ||| image_tag_of(self.image@) is None
                    ||| self.ports@.len() == 0
                    ||| parse_ipv4(self.ports@[0].host_ip@) is None
                },
            },
    {
        let pending = match load_managed_container(self) {
            Some(pending) => pending,
            None => { return None; },
        };
        match pending.publish(None) {
            Ok(published) => Some(published),
            Err(_) => None,
        }
    }

    /// The first published port, through which the container is reached.
    pub fn active_published_port(&self) -> (port: Option<&PortMapping>)
        ensures
            match port {
                Some(first) => self.ports@.len() > 0 && *first == self.ports@[0],
                None => self.ports@.len() == 0,
            },
    {
        if self.ports.len() > 0 {
            Some(&self.ports[0])
        } else {
            None
        }
    }
}

/// Whether no hostname occurs twice among `access`, a list of hostnames
/// with their hints.
pub open spec fn hostnames_differ(access: Seq<(Seq<char>, Seq<char>)>) -> bool {
    forall|i: int, j: int| 0 <= i < j < access.len() ==> access[i].0 != access[j].0
}

/// Whether `access[i]` is the entry of `hostname`.
pub open spec fn names_host(access: Seq<(Seq<char>, Seq<char>)>, hostname: Seq<char>, i: int) -> bool {
    0 <= i < access.len() && access[i].0 == hostname
}

/// `access`, with `hint` as the hint of `hostname`: in the place of its
/// former hint, if it had one, and else as a new entry at the end.
pub open spec fn with_hint(access: Seq<(Seq<char>, Seq<char>)>, hostname: Seq<char>, hint: Seq<char>) -> Seq<
    (Seq<char>, Seq<char>),
> {
    if exists|i: int| names_host(access, hostname, i) {
        access.update(choose|i: int| names_host(access, hostname, i), (hostname, hint))
    } else {
        access.push((hostname, hint))
    }
}

/// Deployment settings of one manifest: the hostnames under which the
/// container is to be reached, each with a hint for the backend. No
/// hostname occurs twice.
#[derive(Debug, PartialEq, Eq)]
pub struct RuntimeConfig {
    http_access: Option<Vec<(String, String)>>,
}

impl RuntimeConfig {
    /// The hostnames with their hints, in the order in which they were
    /// first named; `None` where the settings say nothing of hostnames.
    pub closed spec fn access(&self) -> Option<Seq<(Seq<char>, Seq<char>)>> {
        match self.http_access {
            Some(list) => Some(pairs(list@)),
            None => None,
        }
    }

    #[verifier::type_invariant]
    spec fn no_hostname_twice(&self) -> bool {
        match self.http_access {
            Some(list) => hostnames_differ(pairs(list@)),
            None => true,
        }
    }

    /// Settings that name no hostname at all, so that the container is
    /// not reached.
    pub fn without_hosts() -> (config: RuntimeConfig)
        ensures
            config.access() == Some(Seq::<(Seq<char>, Seq<char>)>::empty()),
    {
        let list: Vec<(String, String)> = Vec::new();
        assert(pairs(list@) =~= Seq::<(Seq<char>, Seq<char>)>::empty());
        assert(hostnames_differ(pairs(list@)));
        RuntimeConfig { http_access: Some(list) }
    }

    /// These settings with `hint` as the hint of `hostname`, in the place
    /// of an earlier hint of that hostname if there is one.
    pub fn with_host(self, hostname: String, hint: String) -> (config: RuntimeConfig)
        ensures
            config.access() == Some(
                match self.access() {
                    Some(access) => with_hint(access, hostname@, hint@),
                    None => seq![(hostname@, hint@)],
                },
            ),
    {
        proof {
            use_type_invariant(&self);
        }
        let mut list = match self.http_access {
            Some(list) => list,
            None => {
                let mut list: Vec<(String, String)> = Vec::new();
                list.push((hostname, hint));
                assert(pairs(list@) =~= seq![(hostname@, hint@)]);
                assert(hostnames_differ(pairs(list@)));
                return RuntimeConfig { http_access: Some(list) };
            },
        };
        let ghost before = pairs(list@);
        let mut i: usize = 0;
        while i < list.len()
            invariant
                0 <= i <= list.len(),
                before == pairs(list@),
                self.access() == Some(before),
                hostnames_differ(before),
                forall|j: int| 0 <= j < i ==> before[j].0 != hostname@,
            decreases list.len() - i,
        {
            if same_text(list[i].0.as_str(), hostname.as_str()) {
                proof {
                    assert(names_host(before, hostname@, i as int));
                    let k = choose|k: int| names_host(before, hostname@, k);
                    assert(names_host(before, hostname@, k));
                    if k < i {
                        assert(before[k].0 != hostname@);
                    }
                    if i < k {
                        assert(before[i as int].0 != before[k].0);
                    }
                    assert(k == i);
                }
                list[i] = (hostname, hint);
                proof {
                    let after = pairs(list@);
                    assert(after =~= before.update(i as int, (hostname@, hint@)));
                    assert forall|a: int, b: int| 0 <= a < b < after.len() implies after[a].0
                        != after[b].0 by {
                        assert(before[a].0 != before[b].0);
                        assert(after[a].0 == before[a].0);
                        assert(after[b].0 == before[b].0);
                    }
                    assert(hostnames_differ(after));
                }
                return RuntimeConfig { http_access: Some(list) };
            }
            i += 1;
        }
        list.push((hostname, hint));
        proof {
            let after = pairs(list@);
            assert(!exists|k: int| names_host(before, hostname@, k));
            assert(after =~= before.push((hostname@, hint@)));
            assert forall|a: int, b: int| 0 <= a < b < after.len() implies after[a].0
                != after[b].0 by {
                if b < before.len() {
                    assert(before[a].0 != before[b].0);
                } else {
                    assert(before[a].0 != hostname@);
                }
            }
            assert(hostnames_differ(after));
        }
        RuntimeConfig { http_access: Some(list) }
    }

    /// The hostnames with their hints; `None` where the settings say
    /// nothing of hostnames.
    pub fn http_access(&self) -> (access: Option<&Vec<(String, String)>>)
        ensures
            match access {
                Some(list) => self.access() == Some(pairs(list@)) && hostnames_differ(
                    pairs(list@),
                ),
                None => self.access() is None,
            },
    {
        proof {
            use_type_invariant(self);
        }
        match &self.http_access {
            Some(list) => Some(list),
            None => None,
        }
    }
}

impl Clone for RuntimeConfig {
    fn clone(&self) -> (copy: Self)
        ensures
            copy.access() == self.access(),
    {
        proof {
            use_type_invariant(self);
        }
        match &self.http_access {
            None => RuntimeConfig { http_access: None },
            Some(list) => {
                let mut copied: Vec<(String, String)> = Vec::new();
                let mut i: usize = 0;
                while i < list.len()
                    invariant
                        0 <= i <= list.len(),
                        pairs(copied@) == pairs(list@).take(i as int),
                    decreases list.len() - i,
                {
                    let ghost before = pairs(copied@);
                    copied.push((list[i].0.clone(), list[i].1.clone()));
                    assert(pairs(copied@) =~= before.push((list@[i as int].0@, list@[i as int].1@)));
                    assert(pairs(copied@) =~= pairs(list@).take(i + 1));
                    i += 1;
                }
                assert(pairs(list@).take(list@.len() as int) =~= pairs(list@));
                RuntimeConfig { http_access: Some(copied) }
            },
        }
    }
}

impl Default for RuntimeConfig {
    /// Settings that say nothing.
    fn default() -> (config: RuntimeConfig)
        ensures
            config.access() is None,
    {
        RuntimeConfig { http_access: None }
    }
}

/// A running container that the proxy can forward to.
#[derive(Clone, Debug, PartialEq, Eq)]
pub struct PublishedContainer {
    host_addr: HostAddr,
    manifest_reference: ManifestReference,
    config: RuntimeConfig,
}

impl PublishedContainer {
    /// Describes a container that listens at `host_addr` and runs
    /// `manifest_reference` under `config`.
    pub fn new(host_addr: HostAddr, manifest_reference: ManifestReference, config: RuntimeConfig) -> (container:
        PublishedContainer)
        ensures
            container.addr() == host_addr,
            container.manifest() == manifest_reference@,
            container.settings() == config,
    {
        PublishedContainer { host_addr, manifest_reference, config }
    }

    /// Where the container listens.
    pub closed spec fn addr(&self) -> HostAddr {
        self.host_addr
    }

    /// Which manifest the container runs.
    pub closed spec fn manifest(&self) -> ManifestReferenceView {
        self.manifest_reference@
    }

    /// The settings it runs under.
    pub closed spec fn settings(&self) -> RuntimeConfig {
        self.config
    }

    /// Which manifest the container runs.
    pub fn manifest_reference(&self) -> (manifest_reference: &ManifestReference)
        ensures
            manifest_reference@ == self.manifest(),
    {
        &self.manifest_reference
    }

    /// Where the container listens.
    pub fn host_addr(&self) -> (addr: HostAddr)
        ensures
            addr == self.addr(),
    {
        self.host_addr
    }

    /// The settings it runs under.
    pub fn config(&self) -> (config: &RuntimeConfig)
        ensures
            *config == self.settings(),
    {
        &self.config
    }
}

/// Why a managed container could not be published.
#[derive(Clone, Copy, Debug, PartialEq, Eq, Structural)]
pub enum PublishError {
    /// The address that the engine reported for the published port is not
    /// an IPv4 address.
    NoListeningAddress,
}

impl PublishError {
    /// A short description of the error.
    pub fn message(&self) -> (text: &'static str)
        ensures
            text@ == "could not get host listening address"@,
    {
        "could not get host listening address"
    }
}

/// A managed container with a published port, for which the settings are
/// still to be loaded.
#[derive(Debug, PartialEq, Eq)]
pub struct PendingContainer {
    manifest_reference: ManifestReference,
    port: PortMapping,
}

impl PendingContainer {
    /// The manifest whose settings are to be loaded.
    pub closed spec fn manifest(&self) -> ManifestReferenceView {
        self.manifest_reference@
    }

    /// The port through which the container is reached.
    pub closed spec fn port(&self) -> PortMapping {
        self.port
    }

    /// The manifest whose settings are to be loaded.
    pub fn manifest_reference(&self) -> (manifest_reference: &ManifestReference)
        ensures
            manifest_reference@ == self.manifest(),
    {
        &self.manifest_reference
    }

    /// Completes the container with its settings. `config` holds the
    /// settings that were found for the manifest; where none were found,
    /// because no file holds them or because there is no place for such a
    /// file, the container runs under settings that say nothing. Fails
    /// where the engine reported no IPv4 address for the port.
    pub fn publish(self, config: Option<RuntimeConfig>) -> (published: Result<
        PublishedContainer,
        PublishError,
    >)
        ensures
            match published {
                Ok(container) => {
                    &&& parse_ipv4(self.port().host_ip@) == Some(container.addr().ip@)
                    &&& container.addr().port == self.port().host_port
                    &&& container.manifest() == self.manifest()
                    &&& match config {
                        Some(found) => container.settings() == found,
                        None => container.settings().access() is None,
                    }
                },
                Err(e) => parse_ipv4(self.port().host_ip@) is None,
            },
    {
        let host_addr = match self.port.get_host_listening_addr() {
            Some(host_addr) => host_addr,
            None => { return Err(PublishError::NoListeningAddress); },
        };
        let settings = match config {
            Some(found) => found,
            None => RuntimeConfig::default(),
        };
        Ok(PublishedContainer::new(host_addr, self.manifest_reference, settings))
    }
}

/// Looks at a listed container: a managed one with a tagged image and a
/// published port awaits its settings, any other is passed over.
pub fn load_managed_container(container_json: &ContainerJson) -> (pending: Option<PendingContainer>)
    ensures
        match pending {
            Some(found) => {
                &&& first_managed(texts(container_json.names@)) == Some(found.manifest().location)
                &&& image_tag_of(container_json.image@) == Some(found.manifest().reference)
                &&& container_json.ports@.len() > 0
                &&& found.port().host_ip@ == container_json.ports@[0].host_ip@
                &&& found.port().host_port == container_json.ports@[0].host_port
            },
            None => {
                ||| first_managed(texts(container_json.names@)) is None
                ||| image_tag_of(container_json.image@) is None
                ||| container_json.ports@.len() == 0
            },
        },
{
    let manifest_reference = match container_json.manifest_reference() {
        Some(found) => found,
        None => { return None; },
    };
    let port_mapping = match container_json.active_published_port() {
        Some(found) => found,
        None => { return None; },
    };
    let port = PortMapping {
        host_ip: port_mapping.host_ip.clone(),
        container_port: port_mapping.container_port,
        host_port: port_mapping.host_port,
        range: port_mapping.range,
        protocol: port_mapping.protocol.clone(),
    };
    Some(PendingContainer { manifest_reference, port })
}

} // verus!
