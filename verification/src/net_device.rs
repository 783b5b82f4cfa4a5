//! One virtual network interface with user-mode networking.

use crate::text::{decimal, decimal_string, texts, Text};
use vstd::prelude::*;
use vstd::string::*;

verus! {

/// A virtual network interface: its identifier, the optional subnet and
/// first DHCP address of its user-mode network, and the host-to-guest port
/// forwards in the order they were added.
#[derive(Debug)]
pub struct NetDevice {
    id: String,
    mask: Option<String>,
    dhcp_start: Option<String>,
    hostwfd: Vec<(u32, u32)>,
}

/// What a `NetDevice` holds, as mathematical values.
pub struct NetDeviceView {
    pub id: Text,
    pub mask: Option<Text>,
    pub dhcp_start: Option<Text>,
    pub forwards: Seq<(u32, u32)>,
}

/// The text of an optional string.
pub open spec fn optional_text(s: Option<String>) -> Option<Text> {
    match s {
        Some(t) => Some(t@),
        None => None,
    }
}

/// The `,net=<mask>` segment, or nothing when no mask is set.
pub open spec fn mask_segment(mask: Option<Text>) -> Text {
    match mask {
        Some(m) => ",net="@ + m,
        None => Seq::empty(),
    }
}

/// The `,dhcpstart=<ip>` segment, or nothing when no address is set.
pub open spec fn dhcp_segment(dhcp_start: Option<Text>) -> Text {
    match dhcp_start {
        Some(ip) => ",dhcpstart="@ + ip,
        None => Seq::empty(),
    }
}

/// The segment that forwards TCP port `host` of the host to port `guest` of
/// the guest.
pub open spec fn forward_segment(host: u32, guest: u32) -> Text {
    ",hostfwd=tcp::"@ + decimal(host as nat) + "-:"@ + decimal(guest as nat)
}

/// The segments of all forwards, one after the other in list order.
pub open spec fn forward_segments(forwards: Seq<(u32, u32)>) -> Text
    decreases forwards.len(),
{
    if forwards.len() == 0 {
        Seq::empty()
    } else {
        forward_segments(forwards.drop_last()) + forward_segment(
            forwards.last().0,
            forwards.last().1,
        )
    }
}

/// One call of a builder method of `NetDevice`, as data.
pub enum NetCall {
    Mask(Text),
    DhcpStart(Text),
    PortForward(u32, u32),
}

/// The forwards that `calls` record, in call order.
pub open spec fn forwards_of(calls: Seq<NetCall>) -> Seq<(u32, u32)>
    decreases calls.len(),
{
    if calls.len() == 0 {
        Seq::empty()
    } else {
        match calls.last() {
            NetCall::PortForward(host, guest) => forwards_of(calls.drop_last()).push(
                (host, guest),
            ),
            _ => forwards_of(calls.drop_last()),
        }
    }
}

impl NetDeviceView {
    /// The device named `id`, before any call.
    pub open spec fn created(id: Text) -> Self {
        NetDeviceView { id, mask: None, dhcp_start: None, forwards: Seq::empty() }
    }

    /// The device after one more call.
    pub open spec fn apply(self, call: NetCall) -> Self {
        match call {
            NetCall::Mask(mask) => NetDeviceView { mask: Some(mask), ..self },
            NetCall::DhcpStart(ip) => NetDeviceView { dhcp_start: Some(ip), ..self },
            NetCall::PortForward(host, guest) => NetDeviceView {
                forwards: self.forwards.push((host, guest)),
                ..self
            },
        }
    }

    /// The device after the given calls, made in order.
    pub open spec fn apply_all(self, calls: Seq<NetCall>) -> Self
        decreases calls.len(),
    {
        if calls.len() == 0 {
            self
        } else {
            self.apply_all(calls.drop_last()).apply(calls.last())
        }
    }

    /// The part of the `-netdev` parameter that comes before the forwards.
    pub open spec fn netdev_head(self) -> Text {
        "user,id="@ + self.id + mask_segment(self.mask) + dhcp_segment(self.dhcp_start)
    }

    /// The composite parameter of `-netdev`.
    pub open spec fn netdev_param(self) -> Text {
        self.netdev_head() + forward_segments(self.forwards)
    }

    /// The parameter of `-device`.
    pub open spec fn device_param(self) -> Text {
        "virtio-net-pci,netdev="@ + self.id + ",romfile="@
    }

    /// The four monitor arguments that describe the interface.
    pub open spec fn render(self) -> Seq<Text> {
        seq!["-netdev"@, self.netdev_param(), "-device"@, self.device_param()]
    }
}

impl View for NetDevice {
    type V = NetDeviceView;

    closed spec fn view(&self) -> NetDeviceView {
        NetDeviceView {
            id: self.id@,
            mask: optional_text(self.mask),
            dhcp_start: optional_text(self.dhcp_start),
            forwards: self.hostwfd@,
        }
    }
}

impl NetDevice {
    /// An interface named `id`, with no mask, no DHCP start and no forwards.
    pub fn new(id: &str) -> (device: Self)
        ensures
            device@ == NetDeviceView::created(id@),
    {
        NetDevice { id: String::from_str(id), mask: None, dhcp_start: None, hostwfd: Vec::new() }
    }

    /// Sets the subnet, replacing an earlier one.
    pub fn mask(self, mask: &str) -> (device: Self)
        ensures
            device@ == self@.apply(NetCall::Mask(mask@)),
    {
        let mut device = self;
        device.mask = Some(String::from_str(mask));
        device
    }

    /// Sets the first address that DHCP hands out, replacing an earlier one.
    pub fn dhcp_start(self, ip: &str) -> (device: Self)
        ensures
            device@ == self@.apply(NetCall::DhcpStart(ip@)),
    {
        let mut device = self;
        device.dhcp_start = Some(String::from_str(ip));
        device
    }

    /// Adds one forward after those already present.
    pub fn port_forward(self, host_port: u32, vm_port: u32) -> (device: Self)
        ensures
            device@ == self@.apply(NetCall::PortForward(host_port, vm_port)),
    {
        let mut device = self;
        device.hostwfd.push((host_port, vm_port));
        device
    }

    /// The monitor arguments for this interface: `-netdev`, its composite
    /// parameter, `-device`, and the device parameter.
    pub fn to_string(&self) -> (tokens: Vec<String>)
        ensures
            texts(tokens@) == self@.render(),
    {
        let mut param = String::from_str("user,id=");
        param.append(self.id.as_str());
        match &self.mask {
            Some(mask) => {
                param.append(",net=");
                param.append(mask.as_str());
            },
            None => {},
        }
        match &self.dhcp_start {
            Some(ip) => {
                param.append(",dhcpstart=");
                param.append(ip.as_str());
            },
            None => {},
        }
        assert(param@ == self@.netdev_head());
        let mut i: usize = 0;
        while i < self.hostwfd.len()
            invariant
                i <= self.hostwfd.len(),
                param@ == self@.netdev_head() + forward_segments(self.hostwfd@.take(i as int)),
            decreases self.hostwfd.len() - i,
        {
            let host = self.hostwfd[i].0;
            let guest = self.hostwfd[i].1;
            param.append(",hostfwd=tcp::");
            param.append(decimal_string(host).as_str());
            param.append("-:");
            param.append(decimal_string(guest).as_str());
            proof {
                let next = self.hostwfd@.take(i + 1);
                assert(next.drop_last() == self.hostwfd@.take(i as int));
                assert(next.last() == self.hostwfd@[i as int]);
            }
            i += 1;
        }
        assert(self.hostwfd@.take(i as int) == self.hostwfd@);
        let mut device = String::from_str("virtio-net-pci,netdev=");
        device.append(self.id.as_str());
        device.append(",romfile=");
        let mut tokens: Vec<String> = Vec::new();
        tokens.push(String::from_str("-netdev"));
        tokens.push(param);
        tokens.push(String::from_str("-device"));
        tokens.push(device);
        assert(texts(tokens@) == self@.render());
        tokens
    }
}

} // verus!
