use smolgnet::error::Error;
use smolgnet::static_switch::{StaticP4Switch, SwitchDisposition, SWITCH_PORT_COUNT};
use smolgnet::wire::gdp::{GdpAddress, GdpHeader, GdpPacket, GdpType, SizeClass};

fn global(destination: u64) -> GdpPacket {
    let header = GdpHeader::global(
        GdpType::Gts,
        SizeClass::Ctrl32,
        16,
        GdpAddress(0x2001_0000_0000_0009),
        GdpAddress(destination),
    );
    GdpPacket::new(header, vec![7; SizeClass::Ctrl32.bytes()]).unwrap()
}

#[test]
fn registered_node_is_switched_to_its_port() {
    let mut switch = StaticP4Switch::new();
    assert_eq!(switch.physical_port_count(), SWITCH_PORT_COUNT);
    let node = GdpAddress(0x2001_0000_0000_0001);
    assert_eq!(switch.register_node(node, 3), Ok(None));
    assert_eq!(switch.node_port(node), Some(3));
    let packet = global(node.0);
    assert_eq!(
        switch.process(1, packet.clone()),
        Ok(SwitchDisposition::Forward { egress_port: 3, packet })
    );
}

#[test]
fn reregistering_a_node_reports_its_old_port() {
    let mut switch = StaticP4Switch::default();
    let node = GdpAddress(0x2001_0000_0000_0001);
    assert_eq!(switch.register_node(node, 3), Ok(None));
    assert_eq!(switch.register_node(node, 5), Ok(Some(3)));
    assert_eq!(switch.node_port(node), Some(5));
    assert_eq!(switch.remove_node(node), Some(5));
    assert_eq!(switch.remove_node(node), None);
    assert_eq!(switch.node_port(node), None);
}

#[test]
fn invalid_ports_and_link_local_nodes_are_refused() {
    let mut switch = StaticP4Switch::new();
    assert_eq!(
        switch.register_node(GdpAddress(0x2001_0000_0000_0001), 8),
        Err(Error::InvalidField)
    );
    assert_eq!(
        switch.register_node(GdpAddress(0xfe80_0000_0000_0001), 1),
        Err(Error::InvalidField)
    );
    assert_eq!(switch.node_port(GdpAddress(0xfe80_0000_0000_0001)), None);
    assert_eq!(switch.process(8, global(1)), Err(Error::InvalidField));
}

#[test]
fn unknown_hairpin_and_local_packets_are_dropped() {
    let mut switch = StaticP4Switch::new();
    let node = GdpAddress(0x2001_0000_0000_0001);
    switch.register_node(node, 2).unwrap();
    assert_eq!(switch.process(0, global(0x2001_0000_0000_0077)), Ok(SwitchDisposition::Drop));
    assert_eq!(switch.process(2, global(node.0)), Ok(SwitchDisposition::Drop));
    let header = GdpHeader::local(GdpType::Gts, SizeClass::Ctrl32, 8, 0x2001_0000_0000_0000, 1, 2).unwrap();
    let local = GdpPacket::new(header, vec![0; SizeClass::Ctrl32.bytes()]).unwrap();
    assert_eq!(switch.process(0, local), Ok(SwitchDisposition::Drop));
}
