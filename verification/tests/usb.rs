use pos_hardware::usb::{
    is_usb_printer, list_usb_devices, needs_interface_scan, usb_device_description, UsbDescriptor, UsbDeviceScan,
};

fn scan(class_code: u8, interfaces: Option<Vec<u8>>, m: Option<&str>, p: Option<&str>) -> UsbDeviceScan {
    UsbDeviceScan {
        descriptor: Some(UsbDescriptor { vendor_id: 0x04b8, product_id: 0x0e28, class_code }),
        interface_classes: interfaces,
        manufacturer: m.map(String::from),
        product: p.map(String::from),
    }
}

#[test]
fn printer_class_and_composite_with_printer_interface() {
    assert!(is_usb_printer(7, None));
    assert!(is_usb_printer(0, Some(&vec![3, 7])));
    assert!(!is_usb_printer(0, Some(&vec![3, 8])));
    assert!(!is_usb_printer(0, None));
    assert!(!is_usb_printer(9, Some(&vec![7])));
    assert!(needs_interface_scan(0));
    assert!(!needs_interface_scan(7));
}

#[test]
fn descriptions() {
    assert_eq!(usb_device_description(1, 2, "EPSON", "TM-T20III"), "EPSON TM-T20III");
    assert_eq!(usb_device_description(1, 2, "", "TM-T20III"), "TM-T20III");
    assert_eq!(usb_device_description(1, 2, "EPSON", ""), "EPSON");
    assert_eq!(usb_device_description(0x04b8, 0x0e28, "", ""), "USB Printer (04b8:0e28)");
    assert_eq!(usb_device_description(0, 0xffff, "", ""), "USB Printer (0000:ffff)");
}

#[test]
fn listing_keeps_printers_in_bus_order() {
    let scans = vec![
        scan(7, None, Some("EPSON"), Some("TM-T20III")),
        scan(3, None, None, None),
        UsbDeviceScan { descriptor: None, interface_classes: None, manufacturer: None, product: None },
        scan(0, Some(vec![7]), None, None),
    ];
    let infos = list_usb_devices(Ok(scans)).expect("listing");
    assert_eq!(infos.len(), 2);
    assert_eq!((infos[0].vendor_id, infos[0].product_id), (0x04b8, 0x0e28));
    assert_eq!(infos[0].description, "EPSON TM-T20III");
    assert_eq!(infos[1].description, "USB Printer (04b8:0e28)");
}

#[test]
fn enumeration_failure_is_reported() {
    let err = list_usb_devices(Err("Access denied (insufficient permissions)".into())).unwrap_err();
    assert_eq!(err, "Failed to enumerate USB devices: Access denied (insufficient permissions)");
}
