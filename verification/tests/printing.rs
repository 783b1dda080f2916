use pos_hardware::printing::{
    default_port, map_err, open_cash_drawer, print_job, Align, Connection, JobAction, JobStep, PrintJob,
    PrintOp, PrinterCommand, PrinterFault, PrinterTarget, StepError,
};

/// A readable name for an action.
fn describe(action: &JobAction) -> String {
    match action {
        JobAction::Connect(Connection::Network { host, port }) => format!("connect network {host}:{port}"),
        JobAction::Connect(Connection::Usb { vendor_id, product_id }) => {
            format!("connect usb {vendor_id:04x}:{product_id:04x}")
        }
        JobAction::Connect(Connection::Buffer) => "connect buffer".to_string(),
        JobAction::Run(command) => match command {
            PrinterCommand::Init => "init".to_string(),
            PrinterCommand::Justify(a) => format!("justify {a:?}"),
            PrinterCommand::Size(w, h) => format!("size {w}x{h}"),
            PrinterCommand::ResetSize => "reset size".to_string(),
            PrinterCommand::Bold(b) => format!("bold {b}"),
            PrinterCommand::WriteLine(t) => format!("writeln {t}"),
            PrinterCommand::BitImage { path, option } => {
                format!("image {path} {:?} {:?} {:?}", option.max_width(), option.max_height(), option.scale())
            }
            PrinterCommand::Feeds(n) => format!("feed {n}"),
            PrinterCommand::PrintCut => "print cut".to_string(),
            PrinterCommand::CashDrawer => "cash drawer".to_string(),
            PrinterCommand::Custom(b) => format!("custom {b:?}"),
            PrinterCommand::Print => "print".to_string(),
        },
        JobAction::Spool(name) => format!("spool {name}"),
        JobAction::Pulse { address, bytes } => format!("pulse {address} {bytes:?}"),
        JobAction::Fail(m) => format!("fail {m}"),
    }
}

/// Performs every action successfully, recording them, until the job ends.
fn run_all(mut job: PrintJob) -> (Vec<String>, Result<(), String>) {
    let mut seen = Vec::new();
    let mut last = Ok(());
    loop {
        match job.next(last) {
            JobStep::Perform(action) => {
                seen.push(describe(&action));
                last = Ok(());
            }
            JobStep::Finished(result) => return (seen, result),
        }
    }
}

fn text(text: &str) -> PrintOp {
    PrintOp::Text { text: text.into(), bold: false, align: None, size: None }
}

#[test]
fn default_port_is_9100() {
    assert_eq!(default_port(), 9100);
}

#[test]
fn network_job_initializes_styles_text_and_cuts() {
    let target = PrinterTarget::Network { host: "127.0.0.1".into(), port: 9100 };
    let ops = vec![
        PrintOp::Text { text: "HELLO KITCHEN".into(), bold: true, align: Some(Align::Center), size: Some((2, 2)) },
        PrintOp::Feed { lines: 2 },
        PrintOp::Cut,
    ];
    let (seen, result) = run_all(print_job(&target, &ops));
    assert_eq!(result, Ok(()));
    assert_eq!(
        seen,
        vec![
            "connect network 127.0.0.1:9100",
            "init",
            "justify Center",
            "size 2x2",
            "bold true",
            "writeln HELLO KITCHEN",
            "bold false",
            "reset size",
            "justify Left",
            "feed 2",
            "print cut",
            "print",
        ]
    );
}

#[test]
fn plain_text_op_only_toggles_bold() {
    let target = PrinterTarget::Usb { vendor_id: 0x04b8, product_id: 0x0202 };
    let (seen, result) = run_all(print_job(&target, &[text("plain")]));
    assert_eq!(result, Ok(()));
    assert_eq!(
        seen,
        vec!["connect usb 04b8:0202", "init", "bold false", "writeln plain", "bold false", "print"]
    );
}

#[test]
fn every_op_kind_is_planned() {
    let target = PrinterTarget::System { name: "EPSON TM-T20III".into() };
    let ops = vec![
        PrintOp::Image { path: "/tmp/logo.png".into(), max_width: Some(384) },
        PrintOp::DrawerKick,
        PrintOp::Raw { bytes: vec![27, 64] },
    ];
    let (seen, result) = run_all(print_job(&target, &ops));
    assert_eq!(result, Ok(()));
    assert_eq!(
        seen,
        vec![
            "connect buffer",
            "init",
            "image /tmp/logo.png Some(384) None Normal",
            "cash drawer",
            "custom [27, 64]",
            "print",
            "spool EPSON TM-T20III",
        ]
    );
}

#[test]
fn image_width_not_multiple_of_8_fails_the_job_there() {
    let target = PrinterTarget::System { name: "Kitchen".into() };
    let ops = vec![text("before"), PrintOp::Image { path: "logo.png".into(), max_width: Some(100) }, text("after")];
    let (seen, result) = run_all(print_job(&target, &ops));
    assert_eq!(result, Err("Input error: bit image max width must be a multiple of 8".to_string()));
    assert_eq!(seen, vec!["connect buffer", "init", "bold false", "writeln before", "bold false"]);
}

#[test]
fn a_failed_action_ends_the_job_with_its_text() {
    let target = PrinterTarget::Network { host: "printer.local".into(), port: 9100 };
    let mut job = print_job(&target, &[text("x")]);
    assert!(matches!(job.next(Ok(())), JobStep::Perform(JobAction::Connect(_))));
    let step = job.next(Err(StepError::Printer(PrinterFault::Io("invalid IP address syntax".into()))));
    assert!(matches!(step, JobStep::Finished(Err(ref m)) if m == "IO error: invalid IP address syntax"));
    assert!(matches!(job.next(Ok(())), JobStep::Finished(Ok(()))));

    let mut job = print_job(&PrinterTarget::System { name: "Bar".into() }, &[]);
    let mut step = job.next(Ok(()));
    while let JobStep::Perform(JobAction::Connect(_) | JobAction::Run(_)) = step {
        step = job.next(Ok(()));
    }
    assert!(matches!(step, JobStep::Perform(JobAction::Spool(ref n)) if n == "Bar"));
    let step = job.next(Err(StepError::Other("spooler offline".into())));
    assert!(matches!(step, JobStep::Finished(Err(ref m)) if m == "spooler offline"));
}

#[test]
fn network_drawer_kick_is_the_bare_pulse() {
    let target = PrinterTarget::Network { host: "192.168.1.50".into(), port: 9100 };
    let (seen, result) = run_all(open_cash_drawer(&target));
    assert_eq!(result, Ok(()));
    assert_eq!(seen, vec!["pulse 192.168.1.50:9100 [27, 112, 0, 25, 255]"]);
    let target = PrinterTarget::Network { host: "10.0.0.7".into(), port: 0 };
    let (seen, _) = run_all(open_cash_drawer(&target));
    assert_eq!(seen, vec!["pulse 10.0.0.7:0 [27, 112, 0, 25, 255]"]);
}

#[test]
fn usb_and_system_drawer_kick_is_initialized_and_sent() {
    let (seen, _) = run_all(open_cash_drawer(&PrinterTarget::Usb { vendor_id: 1208, product_id: 514 }));
    assert_eq!(seen, vec!["connect usb 04b8:0202", "init", "cash drawer", "print"]);
    let (seen, _) = run_all(open_cash_drawer(&PrinterTarget::System { name: "Front".into() }));
    assert_eq!(seen, vec!["connect buffer", "init", "cash drawer", "print", "spool Front"]);
}

#[test]
fn printer_error_texts() {
    assert_eq!(PrinterFault::Io("x".into()).message(), "IO error: x");
    assert_eq!(PrinterFault::Input("invalid text_size width: 9".into()).message(), "Input error: invalid text_size width: 9");
    assert_eq!(PrinterFault::InvalidResponse("y".into()).message(), "Invalid response: y");
    assert_eq!(map_err::<u8>(Ok(3)), Ok(3));
    assert_eq!(map_err::<u8>(Err(PrinterFault::Io("down".into()))), Err("IO error: down".to_string()));
}

#[test]
fn ops_before_a_rejected_image_run_in_full_and_in_order() {
    let target = PrinterTarget::Network { host: "10.0.0.5".into(), port: 9100 };
    let ops = vec![
        PrintOp::Text { text: "TOTAL".into(), bold: true, align: Some(Align::Center), size: Some((2, 2)) },
        PrintOp::Image { path: "logo.png".into(), max_width: Some(384) },
        PrintOp::Image { path: "wide.png".into(), max_width: Some(390) },
        text("never"),
    ];
    let (seen, result) = run_all(print_job(&target, &ops));
    assert_eq!(result, Err("Input error: bit image max width must be a multiple of 8".to_string()));
    assert_eq!(
        seen,
        vec![
            "connect network 10.0.0.5:9100",
            "init",
            "justify Center",
            "size 2x2",
            "bold true",
            "writeln TOTAL",
            "bold false",
            "reset size",
            "justify Left",
            "image logo.png Some(384) None Normal",
        ]
    );
}
