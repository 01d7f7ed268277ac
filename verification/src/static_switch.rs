use std::collections::BTreeMap;

use vstd::prelude::*;

use crate::error::{Error, Result};
use crate::wire::gdp::{in_link_local_range, GdpAddress, GdpAddresses, GdpPacket};

verus! {

pub type SwitchPortId = u16;

/// Number of physical ports of the switch.
pub const SWITCH_PORT_COUNT: u16 = 8;

/// What the switch does with one packet.
#[derive(Debug, Clone, PartialEq, Eq)]
pub enum SwitchDisposition {
    Forward { egress_port: SwitchPortId, packet: GdpPacket },
    Drop,
}

/// Exact node-to-port table of the switch, keyed by the 64-bit address.
pub type NodeTable = Map<u64, SwitchPortId>;

/// What the switch decides for `packet` arriving on `ingress_port` under `nodes`.
pub open spec fn switch_outcome(nodes: NodeTable, ingress_port: SwitchPortId, packet: GdpPacket) -> Result<SwitchDisposition> {
    if ingress_port >= SWITCH_PORT_COUNT {
        Err(Error::InvalidField)
    } else {
        match packet.header.addresses {
            GdpAddresses::Local { .. } => Ok(SwitchDisposition::Drop),
            GdpAddresses::Global { destination, .. } => {
                if !nodes.contains_key(destination.0) || nodes[destination.0] == ingress_port {
                    Ok(SwitchDisposition::Drop)
                } else {
                    Ok(SwitchDisposition::Forward { egress_port: nodes[destination.0], packet })
                }
            }
        }
    }
}

/// Fixed eight-port GNet switch management model.
///
/// Node registration is explicit: each globally addressed node is bound to the
/// port behind which it sits, and packets are switched by exact destination.
pub struct StaticP4Switch {
    nodes: BTreeMap<u64, SwitchPortId>,
}

impl View for StaticP4Switch {
    type V = NodeTable;

    closed spec fn view(&self) -> NodeTable {
        self.nodes@
    }
}

impl StaticP4Switch {
    /// A switch with no registered node.
    pub fn new() -> (r: Self)
        ensures
            r@ == Map::<u64, SwitchPortId>::empty(),
    {
        StaticP4Switch { nodes: BTreeMap::new() }
    }

    pub fn physical_port_count(&self) -> (r: u16)
        ensures
            r == SWITCH_PORT_COUNT,
    {
        SWITCH_PORT_COUNT
    }

    /// Port behind which `address` was registered.
    pub fn node_port(&self, address: GdpAddress) -> (r: Option<SwitchPortId>)
        ensures
            r == (if self@.contains_key(address.0) { Some(self@[address.0]) } else { None::<SwitchPortId> }),
    {
        broadcast use vstd::laws_cmp::group_laws_cmp;

        match self.nodes.get(&address.0) {
            Some(p) => Some(*p),
            None => None,
        }
    }

    /// Bind `address` to `port`, giving back the port it was bound to before.
    /// Ports beyond the switch and link-local addresses are refused.
    pub fn register_node(&mut self, address: GdpAddress, port: SwitchPortId) -> (r: Result<Option<SwitchPortId>>)
        ensures
            (port >= SWITCH_PORT_COUNT || in_link_local_range(address)) ==> r == Err::<Option<SwitchPortId>, Error>(Error::InvalidField)
                && final(self)@ == old(self)@,
            !(port >= SWITCH_PORT_COUNT || in_link_local_range(address)) ==> {
                &&& final(self)@ == old(self)@.insert(address.0, port)
                &&& r == Ok::<Option<SwitchPortId>, Error>(
                    if old(self)@.contains_key(address.0) { Some(old(self)@[address.0]) } else { None })
            },
    {
        broadcast use vstd::laws_cmp::group_laws_cmp;

        validate_port(port)?;
        validate_global_node(address)?;
        Ok(self.nodes.insert(address.0, port))
    }

    /// Forget `address`, giving back the port it was bound to.
    pub fn remove_node(&mut self, address: GdpAddress) -> (r: Option<SwitchPortId>)
        ensures
            final(self)@ == old(self)@.remove(address.0),
            r == (if old(self)@.contains_key(address.0) { Some(old(self)@[address.0]) } else { None::<SwitchPortId> }),
    {
        broadcast use vstd::laws_cmp::group_laws_cmp;

        self.nodes.remove(&address.0)
    }

    /// Switch one packet: a globally addressed packet whose destination is
    /// registered behind another port goes out there; anything else is dropped.
    pub fn process(&self, ingress_port: SwitchPortId, packet: GdpPacket) -> (r: Result<SwitchDisposition>)
        ensures
            r == switch_outcome(self@, ingress_port, packet),
    {
        validate_port(ingress_port)?;
        let destination = match packet.header.addresses {
            GdpAddresses::Global { destination, .. } => destination,
            GdpAddresses::Local { .. } => return Ok(SwitchDisposition::Drop),
        };
        let egress_port = match self.node_port(destination) {
            Some(p) => p,
            None => return Ok(SwitchDisposition::Drop),
        };
        if egress_port == ingress_port {
            return Ok(SwitchDisposition::Drop);
        }
        Ok(SwitchDisposition::Forward { egress_port, packet })
    }
}

impl Default for StaticP4Switch {
    fn default() -> (r: Self)
        ensures
            r@ == Map::<u64, SwitchPortId>::empty(),
    {
        Self::new()
    }
}

fn validate_port(port: SwitchPortId) -> (r: Result<()>)
    ensures
        r == (if port >= SWITCH_PORT_COUNT { Err(Error::InvalidField) } else { Ok::<(), Error>(()) }),
{
    if port >= SWITCH_PORT_COUNT {
        return Err(Error::InvalidField);
    }
    Ok(())
}

/// FE80::/16 is reserved for link-local and control addressing and is never a
/// switched node address.
fn validate_global_node(address: GdpAddress) -> (r: Result<()>)
    ensures
        r == (if in_link_local_range(address) { Err(Error::InvalidField) } else { Ok::<(), Error>(()) }),
{
    if address.is_link_local() {
        return Err(Error::InvalidField);
    }
    Ok(())
}

} // verus!
