//! USB descriptors of the handheld's USB client, and their byte images.
//!
//! The descriptors are laid out packed, multi-byte fields little-endian, as
//! the USB specification and the device's USB driver read them.
use vstd::prelude::*;

verus! {

/// The device descriptor.
#[derive(Copy, Clone, Debug, PartialEq, Eq, Structural)]
pub struct DeviceDescriptor {
    /// Size of the descriptor in bytes (18).
    pub b_length: u8,
    /// Descriptor type (1 = device).
    pub b_descriptor_type: u8,
    /// USB specification release, binary-coded decimal.
    pub bcd_usb: u16,
    /// Device class.
    pub b_device_class: u8,
    /// Device subclass.
    pub b_device_sub_class: u8,
    /// Device protocol.
    pub b_device_protocol: u8,
    /// Largest packet on endpoint zero.
    pub b_max_packet_size0: u8,
    /// Vendor identifier.
    pub id_vendor: u16,
    /// Product identifier.
    pub id_product: u16,
    /// Device release, binary-coded decimal.
    pub bcd_device: u16,
    /// Index of the manufacturer string.
    pub i_manufacturer: u8,
    /// Index of the product string.
    pub i_product: u8,
    /// Index of the serial number string.
    pub i_serial_number: u8,
    /// Number of configurations.
    pub b_num_configurations: u8,
}

/// The configuration descriptor.
#[derive(Copy, Clone, Debug, PartialEq, Eq, Structural)]
pub struct ConfigDescriptor {
    /// Size of the descriptor in bytes (9).
    pub b_length: u8,
    /// Descriptor type (2 = configuration).
    pub b_descriptor_type: u8,
    /// Bytes of this configuration with all its interfaces and endpoints.
    pub w_total_length: u16,
    /// Number of interfaces.
    pub b_num_interfaces: u8,
    /// Value selecting this configuration.
    pub b_configuration_value: u8,
    /// Index of the configuration string.
    pub i_configuration: u8,
    /// Attributes (self-powered, remote wake-up).
    pub bm_attributes: u8,
    /// Maximum power in 2 mA units.
    pub b_max_power: u8,
}

/// The interface descriptor.
#[derive(Copy, Clone, Debug, PartialEq, Eq, Structural)]
pub struct InterfaceDescriptor {
    /// Size of the descriptor in bytes (9).
    pub b_length: u8,
    /// Descriptor type (4 = interface).
    pub b_descriptor_type: u8,
    /// Interface number.
    pub b_interface_number: u8,
    /// Alternate setting.
    pub b_alternate_setting: u8,
    /// Number of endpoints besides endpoint zero.
    pub b_num_endpoints: u8,
    /// Interface class.
    pub b_interface_class: u8,
    /// Interface subclass.
    pub b_interface_sub_class: u8,
    /// Interface protocol.
    pub b_interface_protocol: u8,
    /// Index of the interface string.
    pub i_interface: u8,
}

/// An endpoint descriptor.
#[derive(Copy, Clone, Debug, PartialEq, Eq, Structural)]
pub struct EndpointDescriptor {
    /// Size of the descriptor in bytes (7).
    pub b_length: u8,
    /// Descriptor type (5 = endpoint).
    pub b_descriptor_type: u8,
    /// Endpoint address (bit 7 set for IN).
    pub b_endpoint_address: u8,
    /// Transfer type (2 = bulk).
    pub bm_attributes: u8,
    /// Largest packet.
    pub w_max_packet_size: u16,
    /// Polling interval.
    pub b_interval: u8,
}

/// A string descriptor with room for 15 UTF-16 code units.
#[derive(Copy, Clone, Debug)]
pub struct StringDescriptor {
    /// Size of the descriptor in bytes.
    pub b_length: u8,
    /// Descriptor type (3 = string).
    pub b_descriptor_type: u8,
    /// UTF-16LE text.
    pub data: [u8; 30],
}

/// The two bytes of `v`, low byte first.
pub open spec fn le16(v: u16) -> Seq<u8> {
    seq![(v % 256) as u8, (v / 256) as u8]
}

/// The byte image of a device descriptor.
pub open spec fn device_bytes(d: DeviceDescriptor) -> Seq<u8> {
    seq![d.b_length, d.b_descriptor_type] + le16(d.bcd_usb) + seq![
        d.b_device_class,
        d.b_device_sub_class,
        d.b_device_protocol,
        d.b_max_packet_size0,
    ] + le16(d.id_vendor) + le16(d.id_product) + le16(d.bcd_device) + seq![
        d.i_manufacturer,
        d.i_product,
        d.i_serial_number,
        d.b_num_configurations,
    ]
}

/// The byte image of a configuration descriptor.
pub open spec fn config_bytes(c: ConfigDescriptor) -> Seq<u8> {
    seq![c.b_length, c.b_descriptor_type] + le16(c.w_total_length) + seq![
        c.b_num_interfaces,
        c.b_configuration_value,
        c.i_configuration,
        c.bm_attributes,
        c.b_max_power,
    ]
}

/// The byte image of an interface descriptor.
pub open spec fn interface_bytes(i: InterfaceDescriptor) -> Seq<u8> {
    seq![
        i.b_length,
        i.b_descriptor_type,
        i.b_interface_number,
        i.b_alternate_setting,
        i.b_num_endpoints,
        i.b_interface_class,
        i.b_interface_sub_class,
        i.b_interface_protocol,
        i.i_interface,
    ]
}

/// The byte image of an endpoint descriptor.
pub open spec fn endpoint_bytes(e: EndpointDescriptor) -> Seq<u8> {
    seq![e.b_length, e.b_descriptor_type, e.b_endpoint_address, e.bm_attributes] + le16(
        e.w_max_packet_size,
    ) + seq![e.b_interval]
}

/// The two bytes of `v`, low byte first.
fn push_le16(out: &mut Vec<u8>, v: u16)
    ensures
        final(out)@ == old(out)@ + le16(v),
{
    out.push((v % 256) as u8);
    out.push((v / 256) as u8);
    assert(final(out)@ =~= old(out)@ + le16(v));
}

impl DeviceDescriptor {
    /// The packed byte image.
    pub fn to_bytes(&self) -> (r: Vec<u8>)
        ensures
            r@ == device_bytes(*self),
    {
        let mut out: Vec<u8> = Vec::new();
        out.push(self.b_length);
        out.push(self.b_descriptor_type);
        push_le16(&mut out, self.bcd_usb);
        out.push(self.b_device_class);
        out.push(self.b_device_sub_class);
        out.push(self.b_device_protocol);
        out.push(self.b_max_packet_size0);
        push_le16(&mut out, self.id_vendor);
        push_le16(&mut out, self.id_product);
        push_le16(&mut out, self.bcd_device);
        out.push(self.i_manufacturer);
        out.push(self.i_product);
        out.push(self.i_serial_number);
        out.push(self.b_num_configurations);
        assert(out@ =~= device_bytes(*self));
        out
    }
}

impl ConfigDescriptor {
    /// The packed byte image.
    pub fn to_bytes(&self) -> (r: Vec<u8>)
        ensures
            r@ == config_bytes(*self),
    {
        let mut out: Vec<u8> = Vec::new();
        out.push(self.b_length);
        out.push(self.b_descriptor_type);
        push_le16(&mut out, self.w_total_length);
        out.push(self.b_num_interfaces);
        out.push(self.b_configuration_value);
        out.push(self.i_configuration);
        out.push(self.bm_attributes);
        out.push(self.b_max_power);
        assert(out@ =~= config_bytes(*self));
        out
    }
}

impl InterfaceDescriptor {
    /// The packed byte image.
    pub fn to_bytes(&self) -> (r: Vec<u8>)
        ensures
            r@ == interface_bytes(*self),
    {
        let mut out: Vec<u8> = Vec::new();
        out.push(self.b_length);
        out.push(self.b_descriptor_type);
        out.push(self.b_interface_number);
        out.push(self.b_alternate_setting);
        out.push(self.b_num_endpoints);
        out.push(self.b_interface_class);
        out.push(self.b_interface_sub_class);
        out.push(self.b_interface_protocol);
        out.push(self.i_interface);
        assert(out@ =~= interface_bytes(*self));
        out
    }
}

impl EndpointDescriptor {
    /// The packed byte image.
    pub fn to_bytes(&self) -> (r: Vec<u8>)
        ensures
            r@ == endpoint_bytes(*self),
    {
        let mut out: Vec<u8> = Vec::new();
        out.push(self.b_length);
        out.push(self.b_descriptor_type);
        out.push(self.b_endpoint_address);
        out.push(self.bm_attributes);
        push_le16(&mut out, self.w_max_packet_size);
        out.push(self.b_interval);
        assert(out@ =~= endpoint_bytes(*self));
        out
    }
}

/// Copy as many leading bytes of `src` as fit into `dst`; the rest of `dst`
/// keeps its bytes.
pub fn copy_prefix(dst: &mut Vec<u8>, src: &Vec<u8>)
    ensures
        ({
            let n = if src@.len() < old(dst)@.len() {
                src@.len()
            } else {
                old(dst)@.len()
            };
            final(dst)@ == src@.take(n as int) + old(dst)@.skip(n as int)
        }),
{
    let n = if src.len() < dst.len() {
        src.len()
    } else {
        dst.len()
    };
    let mut i: usize = 0;
    while i < n
        invariant
            0 <= i <= n,
            n <= src@.len(),
            n <= old(dst)@.len(),
            dst@.len() == old(dst)@.len(),
            forall|k: int| 0 <= k < i ==> #[trigger] dst@[k] == src@[k],
            forall|k: int| i <= k < dst@.len() ==> #[trigger] dst@[k] == old(dst)@[k],
        decreases n - i,
    {
        dst.set(i, src[i]);
        i = i + 1;
    }
    assert(dst@ =~= src@.take(n as int) + old(dst)@.skip(n as int));
}

/// Bytes of the configuration with its interface and its two endpoints.
pub const TOTAL_LEN: u16 = 32;

/// The device descriptor (the same at high and full speed).
pub fn device_descriptor() -> (r: DeviceDescriptor)
    ensures
        r.b_length == 18,
        r.b_descriptor_type == 1,
        r.bcd_usb == 0x0200,
        r.b_device_class == 0,
        r.b_device_sub_class == 0,
        r.b_device_protocol == 0,
        r.b_max_packet_size0 == 64,
        r.id_vendor == 0,
        r.id_product == 0,
        r.bcd_device == 0x0100,
        r.i_manufacturer == 0,
        r.i_product == 0,
        r.i_serial_number == 0,
        r.b_num_configurations == 1,
{
    DeviceDescriptor {
        b_length: 18,
        b_descriptor_type: 1,
        bcd_usb: 0x0200,
        b_device_class: 0,
        b_device_sub_class: 0,
        b_device_protocol: 0,
        b_max_packet_size0: 64,
        id_vendor: 0,
        id_product: 0,
        bcd_device: 0x0100,
        i_manufacturer: 0,
        i_product: 0,
        i_serial_number: 0,
        b_num_configurations: 1,
    }
}

/// The configuration descriptor: one self-powered configuration with one
/// interface.
pub fn config_descriptor() -> (r: ConfigDescriptor)
    ensures
        r == (ConfigDescriptor {
            b_length: 9,
            b_descriptor_type: 2,
            w_total_length: TOTAL_LEN,
            b_num_interfaces: 1,
            b_configuration_value: 1,
            i_configuration: 0,
            bm_attributes: 0xC0,
            b_max_power: 0,
        }),
{
    ConfigDescriptor {
        b_length: 9,
        b_descriptor_type: 2,
        w_total_length: TOTAL_LEN,
        b_num_interfaces: 1,
        b_configuration_value: 1,
        i_configuration: 0,
        bm_attributes: 0xC0,
        b_max_power: 0,
    }
}

/// The vendor-specific interface with two bulk endpoints.
pub fn interface_descriptor() -> (r: InterfaceDescriptor)
    ensures
        r == (InterfaceDescriptor {
            b_length: 9,
            b_descriptor_type: 4,
            b_interface_number: 0,
            b_alternate_setting: 0,
            b_num_endpoints: 2,
            b_interface_class: 0xFF,
            b_interface_sub_class: 0x01,
            b_interface_protocol: 0xFF,
            i_interface: 1,
        }),
{
    InterfaceDescriptor {
        b_length: 9,
        b_descriptor_type: 4,
        b_interface_number: 0,
        b_alternate_setting: 0,
        b_num_endpoints: 2,
        b_interface_class: 0xFF,
        b_interface_sub_class: 0x01,
        b_interface_protocol: 0xFF,
        i_interface: 1,
    }
}

/// The bulk IN (0x81) and OUT (0x02) endpoints: 512-byte packets at high
/// speed, 64-byte packets at full speed.
pub fn endpoint_descriptors(high_speed: bool) -> (r: [EndpointDescriptor; 2])
    ensures
        r[0] == (EndpointDescriptor {
            b_length: 7,
            b_descriptor_type: 5,
            b_endpoint_address: 0x81,
            bm_attributes: 2,
            w_max_packet_size: if high_speed { 512 } else { 64 },
            b_interval: 0,
        }),
        r[1] == (EndpointDescriptor {
            b_length: 7,
            b_descriptor_type: 5,
            b_endpoint_address: 0x02,
            bm_attributes: 2,
            w_max_packet_size: if high_speed { 512 } else { 64 },
            b_interval: 0,
        }),
{
    let size: u16 = if high_speed {
        512
    } else {
        64
    };
    [
        EndpointDescriptor {
            b_length: 7,
            b_descriptor_type: 5,
            b_endpoint_address: 0x81,
            bm_attributes: 2,
            w_max_packet_size: size,
            b_interval: 0,
        },
        EndpointDescriptor {
            b_length: 7,
            b_descriptor_type: 5,
            b_endpoint_address: 0x02,
            bm_attributes: 2,
            w_max_packet_size: size,
            b_interval: 0,
        },
    ]
}

/// Each descriptor's length field is the length of its byte image, and the
/// configuration's total length is the length of the configuration, the
/// interface and both endpoints together.
pub proof fn lemma_descriptor_lengths(
    d: DeviceDescriptor,
    c: ConfigDescriptor,
    i: InterfaceDescriptor,
    e0: EndpointDescriptor,
    e1: EndpointDescriptor,
)
    requires
        d.b_length == 18,
        c == (ConfigDescriptor { w_total_length: TOTAL_LEN, b_length: 9, ..c }),
        i.b_length == 9,
        e0.b_length == 7,
        e1.b_length == 7,
    ensures
        device_bytes(d).len() == d.b_length,
        config_bytes(c).len() == c.b_length,
        interface_bytes(i).len() == i.b_length,
        endpoint_bytes(e0).len() == e0.b_length,
        c.w_total_length == config_bytes(c).len() + interface_bytes(i).len() + endpoint_bytes(e0).len()
            + endpoint_bytes(e1).len(),
{
}

/// An endpoint entry of the driver's endpoint table.
#[derive(Copy, Clone, Debug, PartialEq, Eq, Structural)]
pub struct UsbEndpoint {
    /// Endpoint number.
    pub endpnum: i32,
    /// Reserved.
    pub unk2: i32,
    /// Reserved.
    pub unk3: i32,
}

/// The interface entry of the driver.
#[derive(Copy, Clone, Debug, PartialEq, Eq, Structural)]
pub struct UsbInterface {
    /// Expected interface number (-1 = any).
    pub expect_interface: i32,
    /// Reserved.
    pub unk8: i32,
    /// Number of interfaces.
    pub num_interface: i32,
}

/// The driver's endpoint table: control endpoint 0, bulk IN 1, bulk OUT 2
/// and a spare 3, in that order.
pub fn endpoint_table() -> (r: [UsbEndpoint; 4])
    ensures
        forall|k: int| 0 <= k < 4 ==> #[trigger] r@[k] == (UsbEndpoint { endpnum: k as i32, unk2: 0, unk3: 0 }),
{
    let r = [
        UsbEndpoint { endpnum: 0, unk2: 0, unk3: 0 },
        UsbEndpoint { endpnum: 1, unk2: 0, unk3: 0 },
        UsbEndpoint { endpnum: 2, unk2: 0, unk3: 0 },
        UsbEndpoint { endpnum: 3, unk2: 0, unk3: 0 },
    ];
    assert(forall|k: int| 0 <= k < 4 ==> #[trigger] r@[k] == (UsbEndpoint { endpnum: k as i32, unk2: 0, unk3: 0 }));
    r
}

/// The driver's single interface, accepting any interface number.
pub fn driver_interface() -> (r: UsbInterface)
    ensures
        r == (UsbInterface { expect_interface: -1i32, unk8: 0, num_interface: 1 }),
{
    UsbInterface { expect_interface: -1, unk8: 0, num_interface: 1 }
}

/// The driver's string descriptor: eight bytes, type 3, text "<>" in
/// UTF-16LE, zero padded.
pub fn driver_string_descriptor() -> (r: [u8; 8])
    ensures
        r@ == seq![8u8, 3u8, 60u8, 0u8, 62u8, 0u8, 0u8, 0u8],
{
    let r = [8u8, 3, 60, 0, 62, 0, 0, 0];
    assert(r@ =~= seq![8u8, 3u8, 60u8, 0u8, 62u8, 0u8, 0u8, 0u8]);
    r
}

/// An endpoint slot of the bus driver's descriptor data: the endpoint
/// descriptor's seven bytes followed by zero padding.
pub struct UsbDataEndpoint {
    /// Descriptor bytes (seven used).
    pub desc: [u8; 16],
}

impl UsbDataEndpoint {
    /// The slot holding endpoint descriptor `e`.
    pub fn from_descriptor(e: &EndpointDescriptor) -> (r: Self)
        ensures
            r.desc@ == endpoint_bytes(*e) + Seq::new(9, |k: int| 0u8),
    {
        let w = e.w_max_packet_size;
        let desc = [
            e.b_length,
            e.b_descriptor_type,
            e.b_endpoint_address,
            e.bm_attributes,
            (w % 256) as u8,
            (w / 256) as u8,
            e.b_interval,
            0u8,
            0,
            0,
            0,
            0,
            0,
            0,
            0,
            0,
        ];
        assert(desc@ =~= endpoint_bytes(*e) + Seq::new(9, |k: int| 0u8));
        UsbDataEndpoint { desc }
    }
}

} // verus!
