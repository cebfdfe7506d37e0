use splot_sdwan::cli::{Cli, Command};
use splot_sdwan::managers::dhcp::DhcpManager;
use splot_sdwan::managers::firewall::FirewallManager;
use splot_sdwan::managers::network::NetworkManager;
use splot_sdwan::managers::UciSectionBuilder;
use splot_sdwan::naming::{interface, mesh_interface, name_prefixed};
use splot_sdwan::pipeline::{delete_command_for_line, Manager, UciPipeline};
use splot_sdwan::protocol::{Protocol, Protocols};
use splot_sdwan::uci::UciBatchCommand;

fn render(cmd: &UciBatchCommand) -> String {
    cmd.to_string()
}

fn builder() -> UciSectionBuilder {
    UciSectionBuilder::new("firewall", "my_rule", "rule")
}

fn strings(v: &[&str]) -> Vec<String> {
    v.iter().map(|s| s.to_string()).collect()
}

#[test]
fn new_emits_set_section_first() {
    let cmds = builder().build();
    assert_eq!(cmds.len(), 1);
    assert_eq!(render(&cmds[0]), "set firewall.spl_my_rule='rule'");
}

#[test]
fn set_appends_property() {
    let cmds = builder().set("dest", "lan").build();
    assert_eq!(cmds.len(), 2);
    assert_eq!(render(&cmds[1]), "set firewall.spl_my_rule.dest='lan'");
}

#[test]
fn set_if_some_emits_when_some() {
    let cmds = builder().set_if_some("name", Some("hello")).build();
    assert_eq!(cmds.len(), 2);
    assert_eq!(render(&cmds[1]), "set firewall.spl_my_rule.name='hello'");
}

#[test]
fn set_if_some_skips_when_none() {
    let cmds = builder().set_if_some("name", None).build();
    assert_eq!(cmds.len(), 1);
}

#[test]
fn extend_list_sorted_output() {
    let cmds = builder().extend_list("src_ip", strings(&["10.0.1.0/24", "10.0.0.0/24", "192.168.0.0/16"])).build();
    assert_eq!(cmds.len(), 4);
    assert_eq!(render(&cmds[1]), "add_list firewall.spl_my_rule.src_ip='10.0.0.0/24'");
    assert_eq!(render(&cmds[2]), "add_list firewall.spl_my_rule.src_ip='10.0.1.0/24'");
    assert_eq!(render(&cmds[3]), "add_list firewall.spl_my_rule.src_ip='192.168.0.0/16'");
}

#[test]
fn extend_list_empty_emits_no_add_list() {
    let cmds = builder().extend_list("src_ip", Vec::new()).build();
    assert_eq!(cmds.len(), 1);
}

#[test]
fn build_preserves_insertion_order() {
    let cmds = builder().set("target", "ACCEPT").set("src", "mesh").extend_list("proto", strings(&["tcp", "udp"])).build();
    assert_eq!(render(&cmds[0]), "set firewall.spl_my_rule='rule'");
    assert_eq!(render(&cmds[1]), "set firewall.spl_my_rule.target='ACCEPT'");
    assert_eq!(render(&cmds[2]), "set firewall.spl_my_rule.src='mesh'");
    assert_eq!(render(&cmds[3]), "add_list firewall.spl_my_rule.proto='tcp'");
    assert_eq!(render(&cmds[4]), "add_list firewall.spl_my_rule.proto='udp'");
}

#[test]
fn extend_list_keeps_repeated_values() {
    let cmds = builder().extend_list("proto", strings(&["udp", "tcp", "udp"])).build();
    let rendered: Vec<String> = cmds.iter().skip(1).map(render).collect();
    assert_eq!(
        rendered,
        vec![
            "add_list firewall.spl_my_rule.proto='tcp'",
            "add_list firewall.spl_my_rule.proto='udp'",
            "add_list firewall.spl_my_rule.proto='udp'",
        ]
    );
}

#[test]
fn builder_prop_path() {
    assert_eq!(builder().prop("dest"), "firewall.spl_my_rule.dest");
}

#[test]
fn interface_prepends_spl_prefix() {
    assert_eq!(interface("x"), "spl_x");
    assert_eq!(interface("my_rule"), "spl_my_rule");
}

// The mesh interface is `spl_mesh`: the zone and network tests and the project's status
// notes all name it so. One older naming test expected `spl_splot_mesh`; this test follows
// the majority and the documentation.
#[test]
fn mesh_interface_name_is_prefixed() {
    assert_eq!(mesh_interface(), "spl_mesh");
}

#[test]
fn name_prefixed_prepends_bracket_label() {
    assert_eq!(name_prefixed("foo"), "[SPLOT] foo");
}

fn protocols(protos: &[Protocol]) -> Protocols {
    Protocols::from_items(&protos.to_vec())
}

#[test]
fn protocol_display() {
    assert_eq!(Protocol::Tcp.to_string(), "tcp");
    assert_eq!(Protocol::Udp.to_string(), "udp");
    assert_eq!(Protocol::Icmp.to_string(), "icmp");
}

#[test]
fn protocols_empty_display() {
    assert_eq!(protocols(&[]).to_string(), "<empty>");
}

#[test]
fn protocols_single_display() {
    assert_eq!(protocols(&[Protocol::Tcp]).to_string(), "tcp");
    assert_eq!(protocols(&[Protocol::Udp]).to_string(), "udp");
}

#[test]
fn protocols_multi_contains_all() {
    let p = protocols(&[Protocol::Tcp, Protocol::Udp]);
    let s = p.to_string();
    assert!(s.contains("tcp"), "missing tcp in {s}");
    assert!(s.contains("udp"), "missing udp in {s}");
}

#[test]
fn protocols_from_hashset() {
    let p = protocols(&[Protocol::Icmp]);
    assert_eq!(p.to_string(), "icmp");
}

#[test]
fn protocols_iterate() {
    let p = protocols(&[Protocol::Tcp, Protocol::Udp]);
    let collected: Vec<Protocol> = p.items().clone();
    assert!(collected.contains(&Protocol::Tcp));
    assert!(collected.contains(&Protocol::Udp));
}

#[test]
fn protocols_drop_repeats() {
    let p = protocols(&[Protocol::Udp, Protocol::Udp, Protocol::Tcp]);
    assert_eq!(p.len(), 2);
    assert!(p.contains(Protocol::Udp) && p.contains(Protocol::Tcp) && !p.contains(Protocol::Icmp));
}

#[test]
fn uci_command_rendering() {
    assert_eq!(UciBatchCommand::set("a.b", "c").to_string(), "set a.b='c'");
    assert_eq!(UciBatchCommand::del("a.b").to_string(), "delete a.b");
    assert_eq!(UciBatchCommand::add("network", "interface").to_string(), "add network interface");
    assert_eq!(UciBatchCommand::add_list("a.b", "c").to_string(), "add_list a.b='c'");
    assert_eq!(UciBatchCommand::commit("network").to_string(), "commit network");
}

#[test]
fn delete_only_splot_sections() {
    let del = delete_command_for_line("network", "network.spl_mesh=interface").unwrap();
    assert_eq!(del.to_string(), "delete network.spl_mesh");
    assert!(delete_command_for_line("network", "network.spl_mesh.proto='wireguard'").is_none());
    assert!(delete_command_for_line("network", "network.lan=interface").is_none());
    assert!(delete_command_for_line("network", "firewall.spl_x=rule").is_none());
}

#[test]
fn pipeline_lists_files_in_order() {
    let p = UciPipeline::new()
        .add(Manager::Network(NetworkManager { private_key: String::from("k") }))
        .add(Manager::Firewall(FirewallManager))
        .add(Manager::Dhcp(DhcpManager));
    assert_eq!(p.config_files(), vec!["network", "firewall", "dhcp"]);
}

#[test]
fn cli_defaults_to_splot_yml() {
    let cli = Cli { config: None, command: Some(Command::Check) };
    assert_eq!(cli.config_path(), "splot.yml");
    assert_eq!(cli.command(), Some(&Command::Check));
    let given = Cli { config: Some(String::from("/etc/splot.yml")), command: None };
    assert_eq!(given.config_path(), "/etc/splot.yml");
    assert!(given.command().is_none());
}
