use pia_wireguard::servers::{
    admit_region, check_network_mode, check_src_valid_mark, find_region, select_region,
    server_list_json, socket_address, wireguard_port, wireguard_server, GroupDetails, IpAddr,
    KeyedLists, Region, Selection, ServerDetails, ServerList, StartError,
};

fn server(last: u8) -> ServerDetails {
    ServerDetails { ip: IpAddr::V4([212, 102, 57, last]), cn: format!("frankfurt{last}") }
}

fn region(id: &str, port_forward: bool, offline: bool) -> Region {
    let mut servers = KeyedLists::new();
    servers.insert("ovpnudp".to_string(), vec![server(9)]);
    servers.insert("wg".to_string(), vec![server(1), server(2)]);
    Region {
        id: id.to_string(),
        name: id.to_uppercase(),
        port_forward,
        offline,
        servers,
    }
}

fn list() -> ServerList {
    let mut groups = KeyedLists::new();
    groups.insert(
        "wg".to_string(),
        vec![GroupDetails { ports: vec![1337, 1338] }, GroupDetails { ports: vec![1] }],
    );
    ServerList {
        groups,
        regions: vec![
            region("us-east", false, false),
            region("de-frankfurt", true, false),
            region("mars", true, true),
            region("us-east", true, true),
        ],
    }
}

#[test]
fn a_later_list_takes_the_place_of_an_earlier_one() {
    let mut lists: KeyedLists<i32> = KeyedLists::new();
    assert_eq!(lists.get("wg"), None);
    lists.insert("wg".to_string(), vec![1]);
    lists.insert("ovpn".to_string(), vec![2, 3]);
    lists.insert("wg".to_string(), vec![4]);
    assert_eq!(lists.get("wg"), Some(&vec![4]));
    assert_eq!(lists.get("ovpn"), Some(&vec![2, 3]));
    assert_eq!(lists.get("WG"), None);
}

#[test]
fn a_region_can_be_cloned() {
    let copy = region("de-frankfurt", true, false).clone();
    assert_eq!(copy.id, "de-frankfurt");
    assert_eq!(copy.servers.get("wg"), Some(&vec![server(1), server(2)]));
    assert_eq!(copy.servers.get("ovpnudp"), Some(&vec![server(9)]));
    assert_eq!(copy.servers.get("ovpntcp"), None);
}

#[test]
fn the_first_region_with_the_identifier_is_found() {
    let list = list();
    assert_eq!(find_region(&list.regions, "us-east"), Some(0));
    assert_eq!(find_region(&list.regions, "de-frankfurt"), Some(1));
    assert_eq!(find_region(&list.regions, "de-berlin"), None);
}

#[test]
fn a_region_is_selected() {
    let list = list();
    assert_eq!(
        select_region(&list, "de-frankfurt", Some("true")),
        Ok(Selection { region: 1, forward_port: true })
    );
    assert_eq!(
        select_region(&list, "us-east", Some("false")),
        Ok(Selection { region: 0, forward_port: false })
    );
}

#[test]
fn ports_are_forwarded_unless_the_user_says_otherwise() {
    let list = list();
    assert_eq!(
        select_region(&list, "de-frankfurt", None),
        Ok(Selection { region: 1, forward_port: true })
    );
    assert_eq!(select_region(&list, "us-east", None), Err(StartError::ForwardingUnsupported));
}

#[test]
fn a_region_is_refused() {
    let list = list();
    assert_eq!(select_region(&list, "de-berlin", Some("x")), Err(StartError::RegionNotFound));
    assert_eq!(select_region(&list, "mars", Some("x")), Err(StartError::RegionOffline));
    assert_eq!(
        select_region(&list, "de-frankfurt", Some("TRUE")),
        Err(StartError::BadForwardingFlag)
    );
    assert_eq!(
        select_region(&list, "us-east", Some("true")),
        Err(StartError::ForwardingUnsupported)
    );
    assert_eq!(admit_region(&list.regions[3], Some("true")), Err(StartError::RegionOffline));
}

#[test]
fn the_network_of_the_host_is_refused() {
    assert_eq!(check_network_mode(true), Err(StartError::HostNetwork));
    assert_eq!(check_network_mode(false), Ok(()));
    assert_eq!(check_src_valid_mark("1"), Ok(()));
    assert_eq!(check_src_valid_mark("0"), Err(StartError::MarkNotSet));
    assert_eq!(check_src_valid_mark("1\n"), Err(StartError::MarkNotSet));
}

#[test]
fn errors_have_texts() {
    assert_eq!(
        StartError::HostNetwork.text(),
        "[ERROR] Docker network mode 'host' is not supported"
    );
    assert_eq!(
        StartError::MarkNotSet.text(),
        "[ERROR] net.ipv4.conf.all.src_valid_mark is not set to 1"
    );
    assert_eq!(StartError::RegionNotFound.text(), "[ERROR] Could not locate region");
    assert_eq!(StartError::RegionOffline.text(), "[ERROR] Selected server is offline");
    assert_eq!(
        StartError::ForwardingUnsupported.text(),
        "[ERROR] Selected server doesn't support port forwarding but PORT_FORWARDING is set to true"
    );
    assert_eq!(
        StartError::BadForwardingFlag.text(),
        "[ERROR] PORT_FORWARDING is neither true nor false"
    );
}

#[test]
fn the_first_server_and_port_for_wireguard_are_taken() {
    let list = list();
    assert_eq!(wireguard_server(&list.regions[1]), Some(&server(1)));
    assert_eq!(wireguard_port(&list), Some(1337));
}

#[test]
fn servers_and_ports_can_be_missing() {
    let mut bare = region("x", true, false);
    bare.servers = KeyedLists::new();
    assert_eq!(wireguard_server(&bare), None);
    bare.servers.insert("wg".to_string(), Vec::new());
    assert_eq!(wireguard_server(&bare), None);
    let mut list = ServerList { groups: KeyedLists::new(), regions: Vec::new() };
    assert_eq!(wireguard_port(&list), None);
    list.groups.insert("wg".to_string(), Vec::new());
    assert_eq!(wireguard_port(&list), None);
    list.groups.insert("wg".to_string(), vec![GroupDetails { ports: Vec::new() }]);
    assert_eq!(wireguard_port(&list), None);
}

#[test]
fn the_list_is_the_first_line_of_the_document() {
    assert_eq!(
        server_list_json("{\"regions\":[]}\n\nsigned"),
        Some("{\"regions\":[]}".to_string())
    );
    assert_eq!(server_list_json("{}"), None);
}

#[test]
fn a_socket_address_is_written_with_a_colon() {
    let text = |b: [u8; 4], port: i32| socket_address(&IpAddr::V4(b), port);
    assert_eq!(text([212, 102, 57, 1], 1337), Some("212.102.57.1:1337".to_string()));
    assert_eq!(text([0, 0, 0, 0], 0), Some("0.0.0.0:0".to_string()));
    assert_eq!(text([255, 255, 255, 255], 65535), Some("255.255.255.255:65535".to_string()));
}

#[test]
fn long_addresses_and_large_ports_make_no_socket_address() {
    for port in [-1, 65536, i32::MAX, i32::MIN] {
        assert_eq!(socket_address(&IpAddr::V4([212, 102, 57, 1]), port), None);
    }
    assert_eq!(socket_address(&IpAddr::V6([0x2001, 0xdb8, 0, 0, 0, 0, 0, 1]), 1337), None);
}
