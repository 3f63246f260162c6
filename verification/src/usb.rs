//! How the probe presents itself on USB.
use vstd::prelude::*;

use crate::dap::types::DAP_PACKET_SIZE;

verus! {

/// Raspberry Pi.
pub const USB_VID: u16 = 0x2E8A;

/// CMSIS-DAP.
pub const USB_PID: u16 = 0x000C;

pub const USB_MANUFACTURER: &'static str = "Raspberry Pi";

/// Release 02.31, in binary-coded decimal.
pub const USB_DEVICE_RELEASE: u16 = 0x0231;

pub const USB_EP0_SIZE: u8 = 64;

/// Request code under which Windows asks for the descriptors that bind WinUSB.
pub const MSOS_VENDOR_CODE: u8 = 0x01;

/// Interface GUID under which WinUSB offers the DAP endpoints.
pub const DEVICE_INTERFACE_GUID: &'static str = "{CDB3B5AD-293B-4663-AA36-1AAE46463776}";

/// Report descriptor of the HID interface: vendor page, 64 bytes in and 64 bytes out.
pub const DAP_HID_REPORT_DESC: [u8; 25] = [
    0x06, 0x00, 0xFF, 0x09, 0x01, 0xA1, 0x01, 0x15, 0x00, 0x26, 0xFF, 0x00, 0x75, 0x08, 0x95, 0x40,
    0x09, 0x01, 0x81, 0x02, 0x09, 0x01, 0x91, 0x02, 0xC0,
];

/// The device descriptor's contents.
#[derive(Clone, Copy)]
pub struct Identity {
    pub vendor_id: u16,
    pub product_id: u16,
    pub manufacturer: &'static str,
    pub product: &'static str,
    pub serial_number: &'static str,
    pub device_release: u16,
    pub max_packet_size_0: u8,
    /// Class, subclass and protocol of a device whose interfaces are grouped.
    pub class: (u8, u8, u8),
}

/// Who the probe is, for a board's product name and a serial number.
pub fn identity(product: &'static str, serial: &'static str) -> (r: Identity)
    ensures
        r == (Identity {
            vendor_id: USB_VID,
            product_id: USB_PID,
            manufacturer: USB_MANUFACTURER,
            product,
            serial_number: serial,
            device_release: USB_DEVICE_RELEASE,
            max_packet_size_0: USB_EP0_SIZE,
            class: (0xEF, 0x02, 0x01),
        }),
{
    Identity {
        vendor_id: USB_VID,
        product_id: USB_PID,
        manufacturer: USB_MANUFACTURER,
        product,
        serial_number: serial,
        device_release: USB_DEVICE_RELEASE,
        max_packet_size_0: USB_EP0_SIZE,
        class: (0xEF, 0x02, 0x01),
    }
}

/// A HID report carries exactly one DAP packet: 64 fields of eight bits, in and out.
pub proof fn reports_carry_one_packet()
    ensures
        DAP_HID_REPORT_DESC@[12] == 0x75 && DAP_HID_REPORT_DESC@[13] == 8,
        DAP_HID_REPORT_DESC@[14] == 0x95 && DAP_HID_REPORT_DESC@[15] == DAP_PACKET_SIZE,
        DAP_HID_REPORT_DESC@[18] == 0x81 && DAP_HID_REPORT_DESC@[22] == 0x91,
{
}

/// The probe is a CMSIS-DAP probe of Raspberry Pi, a device of grouped interfaces, with the
/// product name and the serial number that it is given.
pub proof fn probes_are_told_by_their_identity(
    product: &'static str,
    serial: &'static str,
    r: Identity,
)
    requires
        call_ensures(identity, (product, serial), r),
    ensures
        r.vendor_id == 0x2E8A && r.product_id == 0x000C && r.device_release == 0x0231,
        r.product == product && r.serial_number == serial,
        r.max_packet_size_0 == 64,
        r.class == (0xEFu8, 2u8, 1u8),
{
}

} // verus!
