//! USB printer enumeration: which devices look like printers, and how they are
//! described.
//!
//! Walking the bus and reading descriptors and strings is left to the caller,
//! which reads an active configuration only where [`needs_interface_scan`] asks
//! for it and the strings only of devices that [`is_usb_printer`] accepts.
use vstd::prelude::*;

use crate::text::{chars_of, hex4, hex4_chars, push_all, string_from_chars};

verus! {

broadcast use vstd::string::group_string_axioms;

/// A device that looks like a printer.
#[derive(Debug, Clone)]
pub struct UsbDeviceInfo {
    pub vendor_id: u16,
    pub product_id: u16,
    pub description: String,
}

impl View for UsbDeviceInfo {
    type V = (u16, u16, Seq<char>);

    open spec fn view(&self) -> (u16, u16, Seq<char>) {
        (self.vendor_id, self.product_id, self.description@)
    }
}

/// The fields of a device descriptor that enumeration reads.
#[derive(PartialEq, Eq, Structural, Clone, Copy, Debug)]
pub struct UsbDescriptor {
    pub vendor_id: u16,
    pub product_id: u16,
    /// The device class code.
    pub class_code: u8,
}

/// What was read of one device on the bus.
#[derive(Debug)]
pub struct UsbDeviceScan {
    /// The device descriptor, or `None` when it could not be read.
    pub descriptor: Option<UsbDescriptor>,
    /// The class codes of every interface setting of the active configuration,
    /// or `None` when it was not read or could not be read.
    pub interface_classes: Option<Vec<u8>>,
    /// The manufacturer string, or `None` when it was not read or could not be read.
    pub manufacturer: Option<String>,
    /// The product string, or `None` when it was not read or could not be read.
    pub product: Option<String>,
}

/// The USB class code of printers.
pub const PRINTER_CLASS: u8 = 7;

/// The class code of devices whose class is given per interface.
pub const PER_INTERFACE_CLASS: u8 = 0;

/// A device looks like a printer: its class is the printer class, or it is a
/// composite device with a printer interface.
pub open spec fn looks_like_printer(class_code: u8, interface_classes: Option<Seq<u8>>) -> bool {
    ||| class_code == PRINTER_CLASS
    ||| class_code == PER_INTERFACE_CLASS && (interface_classes matches Some(classes)
        && has_printer_interface(classes))
}

/// Some interface has the printer class.
pub open spec fn has_printer_interface(classes: Seq<u8>) -> bool {
    exists|i: int| 0 <= i < classes.len() && classes[i] == PRINTER_CLASS
}

/// Whether the interfaces of a device with this class must be read to tell
/// whether it is a printer.
pub fn needs_interface_scan(class_code: u8) -> (r: bool)
    ensures
        r == (class_code == PER_INTERFACE_CLASS),
{
    class_code == PER_INTERFACE_CLASS
}

/// Whether a device looks like a printer.
pub fn is_usb_printer(class_code: u8, interface_classes: Option<&Vec<u8>>) -> (r: bool)
    ensures
        r == looks_like_printer(
            class_code,
            match interface_classes {
                Some(v) => Some(v@),
                None => None,
            },
        ),
{
    if class_code == PRINTER_CLASS {
        return true;
    }
    if class_code != PER_INTERFACE_CLASS {
        return false;
    }
    match interface_classes {
        None => false,
        Some(classes) => {
            let mut i: usize = 0;
            while i < classes.len()
                invariant
                    i <= classes@.len(),
                    interface_classes == Some(classes),
                    class_code == PER_INTERFACE_CLASS,
                    forall|j: int| 0 <= j < i ==> classes@[j] != PRINTER_CLASS,
                decreases classes@.len() - i,
            {
                if classes[i] == PRINTER_CLASS {
                    assert(classes@[i as int] == PRINTER_CLASS);
                    return true;
                }
                i += 1;
            }
            false
        },
    }
}

/// A composite device (class 0) looks like a printer exactly when one of its
/// interfaces has class 7, wherever that interface stands: joining two lists of
/// interface classes keeps a printer interface of either, and other interfaces
/// never hide one. A device of class 7 is a printer whatever its interfaces.
pub proof fn law_printer_interface_anywhere(a: Seq<u8>, b: Seq<u8>, interfaces: Option<Seq<u8>>)
    ensures
        looks_like_printer(0, Some(a)) == a.contains(7u8),
        looks_like_printer(0, Some(a + b)) == (looks_like_printer(0, Some(a)) || looks_like_printer(
            0,
            Some(b),
        )),
        !looks_like_printer(0, None),
        looks_like_printer(7, interfaces),
{
    let ab = a + b;
    if a.contains(7u8) {
        let i = choose|i: int| 0 <= i < a.len() && a[i] == 7u8;
        assert(a[i] == PRINTER_CLASS);
    }
    if has_printer_interface(ab) {
        let i = choose|i: int| 0 <= i < ab.len() && ab[i] == PRINTER_CLASS;
        if i < a.len() {
            assert(ab[i] == a[i]);
        } else {
            assert(ab[i] == b[i - a.len()]);
        }
    }
    if has_printer_interface(a) {
        let i = choose|i: int| 0 <= i < a.len() && a[i] == PRINTER_CLASS;
        assert(ab[i] == a[i]);
    }
    if has_printer_interface(b) {
        let i = choose|i: int| 0 <= i < b.len() && b[i] == PRINTER_CLASS;
        assert(ab[a.len() + i] == b[i]);
    }
}

/// How a printer is described: manufacturer and product joined by a space,
/// whichever of them is known, or else "USB Printer (vvvv:pppp)" with the ids
/// in four lowercase hex digits.
pub open spec fn device_description(
    vendor_id: u16,
    product_id: u16,
    manufacturer: Seq<char>,
    product: Seq<char>,
) -> Seq<char> {
    if manufacturer.len() > 0 && product.len() > 0 {
        manufacturer + " "@ + product
    } else if product.len() > 0 {
        product
    } else if manufacturer.len() > 0 {
        manufacturer
    } else {
        "USB Printer ("@ + hex4(vendor_id) + ":"@ + hex4(product_id) + ")"@
    }
}

/// The description of a printer.
pub fn usb_device_description(vendor_id: u16, product_id: u16, manufacturer: &str, product: &str) -> (d:
    String)
    ensures
        d@ == device_description(vendor_id, product_id, manufacturer@, product@),
{
    let m = chars_of(manufacturer);
    let p = chars_of(product);
    let mut v: Vec<char>;
    if m.len() > 0 && p.len() > 0 {
        v = m;
        v.push(' ');
        push_all(&mut v, &p);
        proof {
            reveal_strlit(" ");
            assert(v@ =~= manufacturer@ + " "@ + product@);
        }
    } else if p.len() > 0 {
        v = p;
    } else if m.len() > 0 {
        v = m;
    } else {
        v = chars_of("USB Printer (");
        push_all(&mut v, &hex4_chars(vendor_id));
        v.push(':');
        push_all(&mut v, &hex4_chars(product_id));
        v.push(')');
        proof {
            reveal_strlit(":");
            reveal_strlit(")");
            assert(v@ =~= "USB Printer ("@ + hex4(vendor_id) + ":"@ + hex4(product_id) + ")"@);
        }
    }
    string_from_chars(&v)
}

/// The text of an optional string, empty when absent.
pub open spec fn text_or_empty(s: Option<String>) -> Seq<char> {
    match s {
        Some(t) => t@,
        None => Seq::empty(),
    }
}

/// The interface class codes of a scan, as plain values.
pub open spec fn interface_classes_of(scan: UsbDeviceScan) -> Option<Seq<u8>> {
    match scan.interface_classes {
        Some(v) => Some(v@),
        None => None,
    }
}

/// A scanned device is listed: its descriptor was read and it looks like a printer.
pub open spec fn scan_is_printer(scan: UsbDeviceScan) -> bool {
    scan.descriptor matches Some(d) && looks_like_printer(d.class_code, interface_classes_of(scan))
}

/// How a listed device is reported.
pub open spec fn scan_info(scan: UsbDeviceScan) -> (u16, u16, Seq<char>) {
    let d = scan.descriptor.unwrap();
    (
        d.vendor_id,
        d.product_id,
        device_description(
            d.vendor_id,
            d.product_id,
            text_or_empty(scan.manufacturer),
            text_or_empty(scan.product),
        ),
    )
}

/// The devices of a scan that look like printers, in bus order.
pub open spec fn printers_of(scans: Seq<UsbDeviceScan>) -> Seq<(u16, u16, Seq<char>)>
    decreases scans.len(),
{
    if scans.len() == 0 {
        seq![]
    } else if scan_is_printer(scans.last()) {
        printers_of(scans.drop_last()).push(scan_info(scans.last()))
    } else {
        printers_of(scans.drop_last())
    }
}

/// The error text of a failed enumeration.
pub open spec fn enumeration_error(detail: Seq<char>) -> Seq<char> {
    "Failed to enumerate USB devices: "@ + detail
}

/// The devices that look like printers, from what was read of the bus, or the
/// error when the bus could not be enumerated.
pub fn list_usb_devices(enumeration: Result<Vec<UsbDeviceScan>, String>) -> (r: Result<
    Vec<UsbDeviceInfo>,
    String,
>)
    ensures
        enumeration matches Err(e) ==> (r matches Err(m) && m@ == enumeration_error(e@)),
        enumeration matches Ok(scans) ==> (r matches Ok(infos) && infos@.map_values(
            |i: UsbDeviceInfo| i@,
        ) == printers_of(scans@)),
{
    match enumeration {
        Err(e) => {
            let mut v = chars_of("Failed to enumerate USB devices: ");
            push_all(&mut v, &chars_of(e.as_str()));
            Err(string_from_chars(&v))
        },
        Ok(scans) => {
            let mut infos: Vec<UsbDeviceInfo> = Vec::new();
            let mut i: usize = 0;
            while i < scans.len()
                invariant
                    i <= scans@.len(),
                    infos@.map_values(|x: UsbDeviceInfo| x@) == printers_of(scans@.take(i as int)),
                decreases scans@.len() - i,
            {
                let scan = &scans[i];
                let ghost before = infos@;
                assert(scans@.take(i + 1).drop_last() =~= scans@.take(i as int));
                assert(scans@.take(i + 1).last() == scans@[i as int]);
                if let Some(d) = scan.descriptor {
                    let classes = match &scan.interface_classes {
                        Some(v) => Some(v),
                        None => None,
                    };
                    if is_usb_printer(d.class_code, classes) {
                        let manufacturer = match &scan.manufacturer {
                            Some(s) => s.as_str(),
                            None => "",
                        };
                        let product = match &scan.product {
                            Some(s) => s.as_str(),
                            None => "",
                        };
                        proof {
                            reveal_strlit("");
                        }
                        let description = usb_device_description(
                            d.vendor_id,
                            d.product_id,
                            manufacturer,
                            product,
                        );
                        infos.push(
                            UsbDeviceInfo { vendor_id: d.vendor_id, product_id: d.product_id, description },
                        );
                        assert(infos@.map_values(|x: UsbDeviceInfo| x@) =~= before.map_values(
                            |x: UsbDeviceInfo| x@,
                        ).push(scan_info(scans@[i as int])));
                    }
                }
                i += 1;
            }
            assert(scans@.take(i as int) =~= scans@);
            Ok(infos)
        },
    }
}

} // verus!
