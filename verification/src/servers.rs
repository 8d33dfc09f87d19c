//! The list of servers, and the choice of one.

use vstd::prelude::*;

use crate::settings;
use crate::text;

verus! {

/// The name under which servers and ports for WireGuard are listed.
pub const WIREGUARD: &'static str = "wg";

/// Lists under names. No name occurs twice.
#[derive(Debug)]
pub struct KeyedLists<T> {
    entries: Vec<(String, Vec<T>)>,
}

impl<T> KeyedLists<T> {
    #[verifier::type_invariant]
    spec fn names_differ(self) -> bool {
        forall|i: int, j: int|
            0 <= i < j < self.entries@.len() ==> (#[trigger] self.entries@[i]).0@ != (
            #[trigger] self.entries@[j]).0@
    }

    spec fn has(self, name: Seq<char>) -> bool {
        exists|i: int| 0 <= i < self.entries@.len() && (#[trigger] self.entries@[i]).0@ == name
    }

    spec fn place(self, name: Seq<char>) -> int {
        choose|i: int| 0 <= i < self.entries@.len() && (#[trigger] self.entries@[i]).0@ == name
    }
}

impl<T> View for KeyedLists<T> {
    type V = Map<Seq<char>, Seq<T>>;

    closed spec fn view(&self) -> Map<Seq<char>, Seq<T>> {
        Map::new(
            |name: Seq<char>| self.has(name),
            |name: Seq<char>| self.entries@[self.place(name)].1@,
        )
    }
}

impl<T> KeyedLists<T> {
    /// No lists.
    pub fn new() -> (r: KeyedLists<T>)
        ensures
            r@ == Map::<Seq<char>, Seq<T>>::empty(),
    {
        let r: KeyedLists<T> = KeyedLists { entries: Vec::new() };
        assert(r@ =~= Map::<Seq<char>, Seq<T>>::empty());
        r
    }

    /// The place of a name among the entries.
    fn find(&self, name: &str) -> (r: Option<usize>)
        ensures
            match r {
                Some(i) => i < self.entries@.len() && self.entries@[i as int].0@ == name@,
                None => !self.has(name@),
            },
    {
        let mut i: usize = 0;
        while i < self.entries.len()
            invariant
                i <= self.entries@.len(),
                forall|j: int| 0 <= j < i ==> (#[trigger] self.entries@[j]).0@ != name@,
            decreases self.entries.len() - i,
        {
            if text::same_text(self.entries[i].0.as_str(), name) {
                return Some(i);
            }
            i = i + 1;
        }
        None
    }

    /// Puts a list under a name, in place of the one that was there.
    pub fn insert(&mut self, name: String, list: Vec<T>)
        ensures
            final(self)@ == old(self)@.insert(name@, list@),
    {
        proof {
            use_type_invariant(&*self);
        }
        let ghost before = *self;
        let found: Option<usize> = self.find(name.as_str());
        let mut entries: Vec<(String, Vec<T>)> = Vec::new();
        std::mem::swap(&mut entries, &mut self.entries);
        let ghost old_entries = entries@;
        match found {
            Some(i) => {
                entries.set(i, (name, list));
            },
            None => {
                entries.push((name, list));
            },
        }
        let after: KeyedLists<T> = KeyedLists { entries };
        proof {
            let place = match found {
                Some(i) => i as int,
                None => old_entries.len() as int,
            };
            assert(after.entries@[place].0@ == name@);
            assert(after.has(name@));
            assert forall|k: Seq<char>| after.has(k) == (before.has(k) || k == name@) by {
                if before.has(k) && k != name@ {
                    let i = before.place(k);
                    assert(after.entries@[i].0@ == k);
                }
                if after.has(k) && k != name@ {
                    let i = after.place(k);
                    assert(before.entries@[i].0@ == k);
                }
            }
            assert forall|k: Seq<char>| before.has(k) && k != name@ implies #[trigger] after@[k]
                == before@[k] by {
                let i = before.place(k);
                assert(after.entries@[i].0@ == k);
                assert(after.has(k));
                let j = after.place(k);
                assert(after.entries@[j].0@ == k);
                assert(i == j);
            }
            let j = after.place(name@);
            assert(after.entries@[j].0@ == name@);
            assert(j == place);
            assert(after@ =~= before@.insert(name@, list@));
        }
        *self = after;
    }

    /// The list under a name.
    pub fn get(&self, name: &str) -> (r: Option<&Vec<T>>)
        ensures
            match r {
                Some(list) => self@.dom().contains(name@) && self@[name@] == list@,
                None => !self@.dom().contains(name@),
            },
    {
        proof {
            use_type_invariant(self);
        }
        match self.find(name) {
            Some(i) => {
                proof {
                    assert(self.has(name@));
                    let j = self.place(name@);
                    assert(self.entries@[j].0@ == name@);
                    assert(i == j);
                }
                Some(&self.entries[i].1)
            },
            None => None,
        }
    }
}

/// Whether a list holds clones of the items of another, in their order.
pub open spec fn cloned_list<T: Clone>(from: Seq<T>, to: Seq<T>) -> bool {
    &&& to.len() == from.len()
    &&& forall|i: int| 0 <= i < from.len() ==> cloned::<T>(#[trigger] from[i], to[i])
}

impl<T: Clone> Clone for KeyedLists<T> {
    fn clone(&self) -> (r: KeyedLists<T>)
        ensures
            r@.dom() == self@.dom(),
            forall|name: Seq<char>| #[trigger]
                self@.dom().contains(name) ==> cloned_list(self@[name], r@[name]),
    {
        proof {
            use_type_invariant(self);
        }
        let mut entries: Vec<(String, Vec<T>)> = Vec::new();
        let mut i: usize = 0;
        while i < self.entries.len()
            invariant
                i <= self.entries@.len(),
                entries@.len() == i,
                forall|j: int|
                    0 <= j < i ==> (#[trigger] entries@[j]).0@ == self.entries@[j].0@
                        && cloned_list(self.entries@[j].1@, entries@[j].1@),
            decreases self.entries.len() - i,
        {
            entries.push((self.entries[i].0.clone(), self.entries[i].1.clone()));
            i = i + 1;
        }
        let r: KeyedLists<T> = KeyedLists { entries };
        proof {
            assert forall|name: Seq<char>| r.has(name) == self.has(name) by {
                if self.has(name) {
                    let j = self.place(name);
                    assert(r.entries@[j].0@ == name);
                }
                if r.has(name) {
                    let j = r.place(name);
                    assert(self.entries@[j].0@ == name);
                }
            }
            assert(r@.dom() =~= self@.dom());
            assert forall|name: Seq<char>| #[trigger]
                self@.dom().contains(name) implies cloned_list(self@[name], r@[name]) by {
                let j = self.place(name);
                assert(r.entries@[j].0@ == name);
                assert(r.has(name));
                let k = r.place(name);
                assert(r.entries@[k].0@ == name);
                assert(j == k);
            }
        }
        r
    }
}

/// A group of ports.
#[derive(Debug, Clone, PartialEq, Eq)]
pub struct GroupDetails {
    pub ports: Vec<i32>,
}

/// The address of a server.
#[derive(Debug, Clone, Copy, PartialEq, Eq)]
pub enum IpAddr {
    V4([u8; 4]),
    V6([u16; 8]),
}

/// A server of a region.
#[derive(Debug, Clone, PartialEq, Eq)]
pub struct ServerDetails {
    pub ip: IpAddr,
    pub cn: String,
}

/// A region.
#[derive(Clone, Debug)]
pub struct Region {
    pub id: String,
    pub name: String,
    pub port_forward: bool,
    pub offline: bool,
    pub servers: KeyedLists<ServerDetails>,
}

/// The list of servers.
#[derive(Debug)]
pub struct ServerList {
    pub groups: KeyedLists<GroupDetails>,
    pub regions: Vec<Region>,
}

/// Why the client does not start.
#[derive(Debug, Clone, Copy, PartialEq, Eq, Structural)]
pub enum StartError {
    /// The container shares the network of its host.
    HostNetwork,
    /// The kernel does not accept the marks of the tunnel.
    MarkNotSet,
    /// No region has the wanted identifier.
    RegionNotFound,
    /// The region is offline.
    RegionOffline,
    /// The setting for port forwarding is no truth value.
    BadForwardingFlag,
    /// The region forwards no ports.
    ForwardingUnsupported,
}

/// What the user reads of an error.
pub open spec fn start_error_text(e: StartError) -> Seq<char> {
    match e {
        StartError::HostNetwork => "[ERROR] Docker network mode 'host' is not supported"@,
        StartError::MarkNotSet => "[ERROR] net.ipv4.conf.all.src_valid_mark is not set to 1"@,
        StartError::RegionNotFound => "[ERROR] Could not locate region"@,
        StartError::RegionOffline => "[ERROR] Selected server is offline"@,
        StartError::BadForwardingFlag => "[ERROR] PORT_FORWARDING is neither true nor false"@,
        StartError::ForwardingUnsupported =>
            "[ERROR] Selected server doesn't support port forwarding but PORT_FORWARDING is set to true"@,
    }
}

impl StartError {
    /// What the user reads of the error.
    pub fn text(&self) -> (r: &'static str)
        ensures
            r@ == start_error_text(*self),
    {
        match self {
            StartError::HostNetwork => "[ERROR] Docker network mode 'host' is not supported",
            StartError::MarkNotSet => "[ERROR] net.ipv4.conf.all.src_valid_mark is not set to 1",
            StartError::RegionNotFound => "[ERROR] Could not locate region",
            StartError::RegionOffline => "[ERROR] Selected server is offline",
            StartError::BadForwardingFlag => "[ERROR] PORT_FORWARDING is neither true nor false",
            StartError::ForwardingUnsupported =>
                "[ERROR] Selected server doesn't support port forwarding but PORT_FORWARDING is set to true",
        }
    }
}

/// Refuses to run in the network of the host, where the bridge of Docker is to be seen.
pub fn check_network_mode(bridge_found: bool) -> (r: Result<(), StartError>)
    ensures
        r == (if bridge_found {
            Err(StartError::HostNetwork)
        } else {
            Ok(())
        }),
{
    if bridge_found {
        Err(StartError::HostNetwork)
    } else {
        Ok(())
    }
}

/// Refuses to run where the kernel setting `src_valid_mark` is not `1`.
pub fn check_src_valid_mark(value: &str) -> (r: Result<(), StartError>)
    ensures
        r == (if value@ == "1"@ {
            Ok(())
        } else {
            Err(StartError::MarkNotSet)
        }),
{
    if text::same_text(value, "1") {
        Ok(())
    } else {
        Err(StartError::MarkNotSet)
    }
}

/// The JSON of the server list: the first line of the document, which must have a second.
pub fn server_list_json(document: &str) -> (r: Option<String>)
    ensures
        r.deep_view() == (match text::halves(document@, '\n') {
            Some((first, _)) => Some(first),
            None => None,
        }),
        match r {
            Some(first) => !first@.contains('\n') && first@.push('\n').is_prefix_of(document@),
            None => !document@.contains('\n'),
        },
{
    proof {
        text::law_halves_make_up_the_text(document@, '\n');
    }
    match text::split_once(document, '\n') {
        Some((first, _)) => Some(first),
        None => None,
    }
}

/// Whether `i` is the place of the first region with the identifier.
pub open spec fn is_first_region(regions: Seq<Region>, id: Seq<char>, i: int) -> bool {
    &&& 0 <= i < regions.len()
    &&& regions[i].id@ == id
    &&& forall|j: int| 0 <= j < i ==> (#[trigger] regions[j]).id@ != id
}

/// Whether a region has the identifier.
pub open spec fn has_region(regions: Seq<Region>, id: Seq<char>) -> bool {
    exists|i: int| 0 <= i < regions.len() && (#[trigger] regions[i]).id@ == id
}

/// The place of the first region with the identifier.
pub fn find_region(regions: &Vec<Region>, id: &str) -> (r: Option<usize>)
    ensures
        match r {
            Some(i) => is_first_region(regions@, id@, i as int),
            None => !has_region(regions@, id@),
        },
        match r {
            Some(i) => i < regions@.len() && regions@[i as int].id@ == id@ && forall|j: int|
                0 <= j < i ==> (#[trigger] regions@[j]).id@ != id@,
            None => forall|j: int|
                0 <= j < regions@.len() ==> (#[trigger] regions@[j]).id@ != id@,
        },
{
    let mut i: usize = 0;
    while i < regions.len()
        invariant
            i <= regions@.len(),
            forall|j: int| 0 <= j < i ==> (#[trigger] regions@[j]).id@ != id@,
        decreases regions.len() - i,
    {
        if text::same_text(regions[i].id.as_str(), id) {
            return Some(i);
        }
        i = i + 1;
    }
    None
}

/// Whether ports can be forwarded in a region, under a setting that is given as text or not at
/// all.
pub open spec fn admission(region: Region, forwarding: Option<Seq<char>>) -> Result<
    bool,
    StartError,
> {
    if region.offline {
        Err(StartError::RegionOffline)
    } else {
        match settings::flag_value(forwarding, settings::PORT_FORWARDING) {
            None => Err(StartError::BadForwardingFlag),
            Some(forward) => if forward && !region.port_forward {
                Err(StartError::ForwardingUnsupported)
            } else {
                Ok(forward)
            },
        }
    }
}

/// Whether to forward a port in a region, or why the region cannot be used.
pub fn admit_region(region: &Region, forwarding: Option<&str>) -> (r: Result<bool, StartError>)
    ensures
        r == admission(*region, forwarding.deep_view()),
        r is Ok ==> !region.offline,
        r == Ok::<bool, StartError>(true) ==> region.port_forward && (forwarding is None
            || forwarding->0@ == "true"@),
        r == Ok::<bool, StartError>(false) ==> forwarding is Some && forwarding->0@ == "false"@,
{
    proof {
        if forwarding is Some {
            settings::law_what_the_user_says_holds(forwarding->0@, settings::PORT_FORWARDING);
        }
    }
    if region.offline {
        return Err(StartError::RegionOffline);
    }
    match settings::flag(forwarding, settings::PORT_FORWARDING) {
        None => Err(StartError::BadForwardingFlag),
        Some(forward) => if forward && !region.port_forward {
            Err(StartError::ForwardingUnsupported)
        } else {
            Ok(forward)
        },
    }
}

/// The region of a connection, by its place in the list, and whether to forward a port.
#[derive(Debug, Clone, Copy, PartialEq, Eq, Structural)]
pub struct Selection {
    pub region: usize,
    pub forward_port: bool,
}

/// Chooses the first region with the identifier. `forwarding` is the setting for port forwarding,
/// where it is given.
pub fn select_region(list: &ServerList, id: &str, forwarding: Option<&str>) -> (r: Result<
    Selection,
    StartError,
>)
    ensures
        match r {
            Ok(s) => is_first_region(list.regions@, id@, s.region as int) && admission(
                list.regions@[s.region as int],
                forwarding.deep_view(),
            ) == Ok::<bool, StartError>(s.forward_port),
            Err(e) => if has_region(list.regions@, id@) {
                exists|i: int| #[trigger]
                    is_first_region(list.regions@, id@, i) && admission(
                        list.regions@[i],
                        forwarding.deep_view(),
                    ) == Err::<bool, StartError>(e)
            } else {
                e == StartError::RegionNotFound
            },
        },
        match r {
            Ok(s) => {
                let region = list.regions@[s.region as int];
                &&& s.region < list.regions@.len()
                &&& region.id@ == id@
                &&& forall|j: int| 0 <= j < s.region ==> (#[trigger] list.regions@[j]).id@ != id@
                &&& !region.offline
                &&& s.forward_port ==> region.port_forward
                &&& s.forward_port ==> forwarding is None || forwarding->0@ == "true"@
                &&& !s.forward_port ==> forwarding is Some && forwarding->0@ == "false"@
            },
            Err(e) => e == StartError::RegionNotFound <==> forall|j: int|
                0 <= j < list.regions@.len() ==> (#[trigger] list.regions@[j]).id@ != id@,
        },
{
    match find_region(&list.regions, id) {
        Some(region) => match admit_region(&list.regions[region], forwarding) {
            Ok(forward_port) => Ok(Selection { region, forward_port }),
            Err(e) => Err(e),
        },
        None => Err(StartError::RegionNotFound),
    }
}

/// Whoever gets a region with port forwarding gets one that is online and forwards ports; without
/// the setting, ports are forwarded.
pub proof fn law_forwarding_needs_support(region: Region, forwarding: Option<Seq<char>>)
    ensures
        admission(region, forwarding) is Ok ==> !region.offline,
        admission(region, forwarding) == Ok::<bool, StartError>(true) ==> region.port_forward,
        admission(region, None) == (if region.offline {
            Err(StartError::RegionOffline)
        } else if region.port_forward {
            Ok(true)
        } else {
            Err(StartError::ForwardingUnsupported)
        }),
{
}

/// The first server of a region for WireGuard.
pub fn wireguard_server(region: &Region) -> (r: Option<&ServerDetails>)
    ensures
        match r {
            Some(s) => region.servers@.dom().contains(WIREGUARD@)
                && region.servers@[WIREGUARD@].len() > 0 && *s == region.servers@[WIREGUARD@][0],
            None => !region.servers@.dom().contains(WIREGUARD@)
                || region.servers@[WIREGUARD@].len() == 0,
        },
{
    match region.servers.get(WIREGUARD) {
        Some(servers) => if servers.len() > 0 {
            Some(&servers[0])
        } else {
            None
        },
        None => None,
    }
}

/// The first port of the first group for WireGuard.
pub fn wireguard_port(list: &ServerList) -> (r: Option<i32>)
    ensures
        match r {
            Some(port) => list.groups@.dom().contains(WIREGUARD@)
                && list.groups@[WIREGUARD@].len() > 0 && list.groups@[WIREGUARD@][0].ports@.len()
                > 0 && port == list.groups@[WIREGUARD@][0].ports@[0],
            None => !list.groups@.dom().contains(WIREGUARD@) || list.groups@[WIREGUARD@].len() == 0
                || list.groups@[WIREGUARD@][0].ports@.len() == 0,
        },
{
    match list.groups.get(WIREGUARD) {
        Some(groups) => if groups.len() > 0 && groups[0].ports.len() > 0 {
            Some(groups[0].ports[0])
        } else {
            None
        },
        None => None,
    }
}

/// An address of four bytes as it is written.
pub open spec fn v4_text(b: Seq<u8>) -> Seq<char> {
    text::decimal(b[0] as int) + "."@ + text::decimal(b[1] as int) + "."@ + text::decimal(
        b[2] as int,
    ) + "."@ + text::decimal(b[3] as int)
}

/// The socket address that an address and a port make when they are written with a colon between
/// them. An address of sixteen bytes makes none, for want of brackets, and neither does a port
/// that does not fit in two bytes.
pub open spec fn socket_text(ip: IpAddr, port: int) -> Option<Seq<char>> {
    match ip {
        IpAddr::V4(b) => if 0 <= port <= u16::MAX {
            Some(v4_text(b@) + ":"@ + text::decimal(port))
        } else {
            None
        },
        IpAddr::V6(_) => None,
    }
}

/// Writes the socket address of a server.
pub fn socket_address(ip: &IpAddr, port: i32) -> (r: Option<String>)
    ensures
        r.deep_view() == socket_text(*ip, port as int),
{
    match ip {
        IpAddr::V4(b) => if 0 <= port && port <= u16::MAX as i32 {
            let t: String = text::write_decimal(b[0] as i32).concat(".").concat(
                text::write_decimal(b[1] as i32).as_str(),
            ).concat(".").concat(text::write_decimal(b[2] as i32).as_str()).concat(".").concat(
                text::write_decimal(b[3] as i32).as_str(),
            );
            assert(t@ == v4_text(b@));
            Some(t.concat(":").concat(text::write_decimal(port).as_str()))
        } else {
            None
        },
        IpAddr::V6(_) => None,
    }
}

/// What the user says is what the user gets: a region that is online is used without port
/// forwarding exactly when the user says `false`, whether or not it forwards ports; with port
/// forwarding exactly when it forwards ports and the user says `true` or nothing. An offline
/// region is refused whatever the user says, and a setting that is neither `true` nor `false` is
/// refused as such.
pub proof fn law_what_the_user_says_is_what_the_user_gets(region: Region, said: Seq<char>)
    ensures
        admission(region, Some(said)) == Ok::<bool, StartError>(false) <==> !region.offline && said
            == "false"@,
        admission(region, Some(said)) == Ok::<bool, StartError>(true) <==> !region.offline && said
            == "true"@ && region.port_forward,
        admission(region, None) == Ok::<bool, StartError>(true) <==> !region.offline
            && region.port_forward,
        admission(region, None) != Ok::<bool, StartError>(false),
        admission(region, Some(said)) == Err::<bool, StartError>(StartError::RegionOffline)
            <==> region.offline,
        admission(region, Some(said)) == Err::<bool, StartError>(StartError::BadForwardingFlag)
            <==> !region.offline && said != "true"@ && said != "false"@,
        admission(region, Some(said)) == Err::<bool, StartError>(StartError::ForwardingUnsupported)
            <==> !region.offline && said == "true"@ && !region.port_forward,
{
    settings::law_what_the_user_says_holds(said, settings::PORT_FORWARDING);
    text::law_truth_values_read_back(true);
    text::law_truth_values_read_back(false);
}

/// A region is the first with an identifier exactly when it has the identifier and none before it
/// has. There is one exactly when some region has the identifier, and it is the only one.
pub proof fn law_the_first_region_is_the_one(regions: Seq<Region>, id: Seq<char>, i: int, j: int)
    requires
        0 <= i < regions.len(),
        0 <= j < regions.len(),
    ensures
        is_first_region(regions, id, i) <==> regions[i].id@ == id && forall|k: int|
            0 <= k < i ==> (#[trigger] regions[k]).id@ != id,
        is_first_region(regions, id, i) && is_first_region(regions, id, j) ==> i == j,
        regions[i].id@ == id ==> has_region(regions, id),
        is_first_region(regions, id, i) && regions[j].id@ == id ==> i <= j,
        !has_region(regions, id) ==> regions[i].id@ != id,
{
}

/// The socket address holds the address and the port, and nothing else: split at the colon it
/// gives two texts, of which the first, split at the dots, gives four that read as the bytes of
/// the address, and the second reads as the port. Every port of two bytes makes one with an address
/// of four bytes, and none does with an address of sixteen.
pub proof fn law_a_socket_address_reads_back(b: [u8; 4], w: [u16; 8], port: int)
    ensures
        socket_text(IpAddr::V6(w), port) is None,
        socket_text(IpAddr::V4(b), port) is Some <==> 0 <= port <= 0xffff,
        0 <= port <= 0xffff ==> ({
            let parts = text::pieces(socket_text(IpAddr::V4(b), port)->0, ':');
            let bytes = text::pieces(parts[0], '.');
            &&& parts.len() == 2
            &&& parts[1] == text::decimal(port)
            &&& text::unsigned_value(parts[1]) == Some(port as nat)
            &&& bytes.len() == 4
            &&& forall|i: int|
                0 <= i < 4 ==> #[trigger] bytes[i] == text::decimal(b@[i] as int)
                    && text::unsigned_value(bytes[i]) == Some(b@[i] as nat)
        }),
{
    if 0 <= port <= 0xffff {
        reveal_strlit(".");
        reveal_strlit(":");
        let d0 = text::decimal(b@[0] as int);
        let d1 = text::decimal(b@[1] as int);
        let d2 = text::decimal(b@[2] as int);
        let d3 = text::decimal(b@[3] as int);
        let last = text::decimal(port);
        let host = v4_text(b@);
        lemma_decimal_is_digits(b@[0] as nat);
        lemma_decimal_is_digits(b@[1] as nat);
        lemma_decimal_is_digits(b@[2] as nat);
        lemma_decimal_is_digits(b@[3] as nat);
        lemma_decimal_is_digits(port as nat);
        let after2 = d2.push('.') + d3;
        let after1 = d1.push('.') + after2;
        assert(host =~= d0.push('.') + after1);
        text::law_pieces_of_two_texts(d0, after1, '.');
        text::law_pieces_of_two_texts(d1, after2, '.');
        text::law_pieces_of_two_texts(d2, d3, '.');
        text::law_a_text_without_separator_is_one_piece(d0, '.');
        text::law_a_text_without_separator_is_one_piece(d1, '.');
        text::law_a_text_without_separator_is_one_piece(d2, '.');
        text::law_a_text_without_separator_is_one_piece(d3, '.');
        assert(text::pieces(host, '.') =~= seq![d0, d1, d2, d3]);
        let whole = socket_text(IpAddr::V4(b), port)->0;
        assert(whole =~= host.push(':') + last);
        if host.contains(':') {
            let k = choose|k: int| 0 <= k < host.len() && host[k] == ':';
            assert(d0.contains(host[k]) || d1.contains(host[k]) || d2.contains(host[k])
                || d3.contains(host[k]) || host[k] == '.') by {
                lemma_where_in_a_sum(d0, after1, k);
                if k > d0.len() {
                    lemma_where_in_a_sum(d1, after2, k - d0.len() - 1);
                    if k > d0.len() + 1 + d1.len() {
                        lemma_where_in_a_sum(d2, d3, k - d0.len() - 1 - d1.len() - 1);
                    }
                }
            }
        }
        text::law_pieces_of_two_texts(host, last, ':');
        text::law_a_text_without_separator_is_one_piece(host, ':');
        text::law_a_text_without_separator_is_one_piece(last, ':');
        assert(text::pieces(whole, ':') =~= seq![host, last]);
    }
}

proof fn lemma_where_in_a_sum(a: Seq<char>, b: Seq<char>, k: int)
    requires
        0 <= k < (a.push('.') + b).len(),
    ensures
        k < a.len() ==> a.contains((a.push('.') + b)[k]),
        k == a.len() ==> (a.push('.') + b)[k] == '.',
        k > a.len() ==> (a.push('.') + b)[k] == b[k - a.len() - 1] && b.contains(
            (a.push('.') + b)[k],
        ),
{
    let s = a.push('.') + b;
    if k < a.len() {
        assert(a[k] == s[k]);
    } else if k > a.len() {
        assert(b[k - a.len() - 1] == s[k]);
    }
}

proof fn lemma_decimal_is_digits(n: nat)
    ensures
        !text::decimal(n as int).contains('.'),
        !text::decimal(n as int).contains(':'),
        text::unsigned_value(text::decimal(n as int)) == Some(n),
{
    let s = text::decimal(n as int);
    text::law_decimal_reads_back(n);
    text::law_what_is_a_number(s);
    text::law_decimal_starts_with_a_digit(n);
}

} // verus!
