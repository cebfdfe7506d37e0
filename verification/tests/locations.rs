use splot_sdwan::types::config_location::{
    ClientIpLoc, ClientLoc, ConfigLocation, DeviceLoc, NodeLoc, ServiceLoc, VpnClientLoc, VpnLoc, WanLoc, ZoneLoc,
};
use splot_sdwan::types::identifier::Identifier;

fn id(s: &str) -> Identifier {
    s.parse().expect("test identifier should be valid")
}

#[test]
fn top_level_paths() {
    assert_eq!(ConfigLocation::MeshNetwork.to_string(), "meshNetwork");
    assert_eq!(ConfigLocation::Node(id("Home"), NodeLoc::Root).to_string(), "nodes.Home");
    assert_eq!(ConfigLocation::Client(id("Phone"), ClientLoc::Root).to_string(), "clients.Phone");
}

#[test]
fn node_scalar_paths() {
    assert_eq!(ConfigLocation::Node(id("Home"), NodeLoc::MeshIp).to_string(), "nodes.Home.meshIp");
    assert_eq!(ConfigLocation::Node(id("Home"), NodeLoc::ListenPort).to_string(), "nodes.Home.listenPort");
    assert_eq!(ConfigLocation::Node(id("Home"), NodeLoc::WanZone).to_string(), "nodes.Home.wanZone");
}

#[test]
fn zone_and_device_paths() {
    assert_eq!(
        ConfigLocation::Node(id("Home"), NodeLoc::Zone(id("lan"), ZoneLoc::Address)).to_string(),
        "nodes.Home.zones.lan.address"
    );
    assert_eq!(
        ConfigLocation::Node(id("Home"), NodeLoc::Zone(id("lan"), ZoneLoc::Device(id("printer"), DeviceLoc::Ip)))
            .to_string(),
        "nodes.Home.zones.lan.devices.printer.ip"
    );
}

#[test]
fn vpn_interface_client_service_path() {
    let loc = ConfigLocation::Node(
        id("Home"),
        NodeLoc::VpnInterface(id("vpn"), VpnLoc::Client(id("Phone"), VpnClientLoc::Service(id("ssh"), ServiceLoc::Port))),
    );
    assert_eq!(loc.to_string(), "nodes.Home.vpnInterfaces.vpn.clients.Phone.services.ssh.port");
}

#[test]
fn client_ip_and_service_wan_paths() {
    assert_eq!(
        ConfigLocation::Client(id("Phone"), ClientLoc::Ip(id("Home"), ClientIpLoc::Network(id("lan")))).to_string(),
        "clients.Phone.ips.Home.lan"
    );
    assert_eq!(
        ConfigLocation::Client(id("Phone"), ClientLoc::Service(id("http"), ServiceLoc::Wan(WanLoc::Via))).to_string(),
        "clients.Phone.services.http.wan.via"
    );
}

#[test]
fn root_leaf_renders_no_trailing_segment() {
    assert_eq!(
        ConfigLocation::Node(id("Home"), NodeLoc::Zone(id("lan"), ZoneLoc::Device(id("printer"), DeviceLoc::Root)))
            .to_string(),
        "nodes.Home.zones.lan.devices.printer"
    );
    assert_eq!(
        ConfigLocation::Node(id("Home"), NodeLoc::VpnInterface(id("vpn"), VpnLoc::Client(id("Phone"), VpnClientLoc::Root)))
            .to_string(),
        "nodes.Home.vpnInterfaces.vpn.clients.Phone"
    );
}

#[test]
fn location_write_to_appends() {
    let mut s = String::from("at ");
    ConfigLocation::Node(id("Home"), NodeLoc::Tags).write_to(&mut s);
    assert_eq!(s, "at nodes.Home.tags");
}
