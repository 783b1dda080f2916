use pos_hardware::keyboard::{
    block_describes_physical_keyboard, device_is_physical_keyboard, has_physical_keyboard, judge_block,
    split_blocks, split_lines, table_lists_physical_keyboard, toggle_virtual_keyboard,
    upper_name_is_virtual, virtual_keyboard_name, KeyboardProbe, RawInputDevice, ToggleAction,
    ToggleState,
};

const POWER_BUTTON: &str = "I: Bus=0019 Vendor=0000 Product=0001 Version=0000\n\
N: Name=\"Power Button\"\n\
P: Phys=LNXPWRBN/button/input0\n\
H: Handlers=kbd event0 \n\
B: PROP=0\n\
B: EV=3\n\
B: KEY=10000000000000 0";

const KEYBOARD: &str = "I: Bus=0011 Vendor=0001 Product=0001 Version=ab41\n\
N: Name=\"Generic USB Keyboard\"\n\
P: Phys=isa0060/serio0/input0\n\
H: Handlers=sysrq kbd leds event3 \n\
B: PROP=0\n\
B: EV=120013\n\
B: KEY=402000000 3803078f800d001 feffffdfffefffff fffffffffffffffe\n\
B: MSC=10\n\
B: LED=7";

const MOUSE: &str = "I: Bus=0003 Vendor=046d Product=c077 Version=0111\n\
N: Name=\"Logitech USB Optical Mouse\"\n\
H: Handlers=mouse0 event4 \n\
B: EV=17\n\
B: KEY=ff0000 0 0 0 0";

fn chars(s: &str) -> Vec<char> {
    s.chars().collect()
}

fn table(blocks: &[&str]) -> String {
    blocks.join("\n\n")
}

#[test]
fn keyboard_block_is_found() {
    assert!(block_describes_physical_keyboard(&chars(KEYBOARD)));
    assert!(table_lists_physical_keyboard(&table(&[POWER_BUTTON, MOUSE, KEYBOARD])));
}

#[test]
fn power_button_and_mouse_are_not_keyboards() {
    assert!(!block_describes_physical_keyboard(&chars(POWER_BUTTON)));
    assert!(!block_describes_physical_keyboard(&chars(MOUSE)));
    assert!(!table_lists_physical_keyboard(&table(&[POWER_BUTTON, MOUSE])));
    assert!(!table_lists_physical_keyboard(""));
}

#[test]
fn event_bitmap_is_matched_in_any_case() {
    let lower = KEYBOARD.replace("B: EV=", "b: ev=");
    assert!(block_describes_physical_keyboard(&chars(&lower)));
    let without = KEYBOARD.replace("B: EV=120013\n", "");
    assert!(!block_describes_physical_keyboard(&chars(&without)));
}

#[test]
fn known_non_keyboards_are_skipped_in_any_case() {
    let speaker = KEYBOARD.replace("Generic USB Keyboard", "pc speaker");
    assert!(!block_describes_physical_keyboard(&chars(&speaker)));
    let video = KEYBOARD.replace("Generic USB Keyboard", "Video Bus");
    assert!(!block_describes_physical_keyboard(&chars(&video)));
}

#[test]
fn handler_line_needs_kbd_and_event() {
    let no_event = KEYBOARD.replace("H: Handlers=sysrq kbd leds event3 ", "H: Handlers=sysrq kbd leds");
    assert!(!block_describes_physical_keyboard(&chars(&no_event)));
    let indented = KEYBOARD.replace("H: Handlers=", " H: Handlers=");
    assert!(!block_describes_physical_keyboard(&chars(&indented)));
}

#[test]
fn key_bitmap_must_exceed_twenty_bytes() {
    let base = KEYBOARD.replace(
        "B: KEY=402000000 3803078f800d001 feffffdfffefffff fffffffffffffffe",
        "B: KEY=01234567890123456789",
    );
    assert!(!block_describes_physical_keyboard(&chars(&base)));
    let longer = base.replace("B: KEY=01234567890123456789", "B: KEY=012345678901234567890");
    assert!(block_describes_physical_keyboard(&chars(&longer)));
    // a carriage return before the newline is not part of the line
    let crlf = base.replace("B: KEY=01234567890123456789\n", "B: KEY=01234567890123456789\r\n");
    assert!(!block_describes_physical_keyboard(&chars(&crlf)));
    // the length is counted in UTF-8 bytes: ten two-byte characters and one more byte
    let wide = base.replace("B: KEY=01234567890123456789", "B: KEY=éééééééééé1");
    assert!(block_describes_physical_keyboard(&chars(&wide)));
}

#[test]
fn blocks_split_on_blank_lines() {
    let blocks = split_blocks(&chars("a\n\nb\n\n\nc"));
    assert_eq!(blocks, vec![chars("a"), chars("b"), chars("\nc")]);
    assert_eq!(split_blocks(&chars("")), vec![chars("")]);
    assert_eq!(split_blocks(&chars("x\n\n")), vec![chars("x"), chars("")]);
}

#[test]
fn lines_split_like_str_lines() {
    assert_eq!(split_lines(&chars("a\r\nb\n\nc")), vec![chars("a"), chars("b"), chars(""), chars("c")]);
    assert_eq!(split_lines(&chars("a\n")), vec![chars("a")]);
    assert_eq!(split_lines(&chars("a\r")), vec![chars("a\r")]);
    assert!(split_lines(&chars("")).is_empty());
}

#[test]
fn unreadable_table_or_no_probe_assumes_a_keyboard() {
    assert!(has_physical_keyboard(&KeyboardProbe::InputDeviceTable(None)));
    assert!(has_physical_keyboard(&KeyboardProbe::RawInputDevices(None)));
    assert!(has_physical_keyboard(&KeyboardProbe::NoProbe));
    assert!(!has_physical_keyboard(&KeyboardProbe::InputDeviceTable(Some(MOUSE.to_string()))));
    assert!(has_physical_keyboard(&KeyboardProbe::InputDeviceTable(Some(KEYBOARD.to_string()))));
}

#[test]
fn virtual_keyboards_are_recognized_by_name() {
    assert!(virtual_keyboard_name(&"\\\\?\\Root#RDP_KBD#0000".to_string()));
    assert!(virtual_keyboard_name(&"hyper-v Virtual Keyboard".to_string()));
    assert!(virtual_keyboard_name(&"\\\\?\\terminput_kbd".to_string()));
    assert!(!virtual_keyboard_name(&"\\\\?\\HID#VID_046D&PID_C31C".to_string()));
}

#[test]
fn raw_input_list_needs_a_physical_keyboard() {
    let rdp = RawInputDevice { is_keyboard: true, name: Some("RDP keyboard".to_string()) };
    let mouse = RawInputDevice { is_keyboard: false, name: None };
    let unnamed = RawInputDevice { is_keyboard: true, name: None };
    assert!(!has_physical_keyboard(&KeyboardProbe::RawInputDevices(Some(vec![]))));
    assert!(!has_physical_keyboard(&KeyboardProbe::RawInputDevices(Some(vec![rdp, mouse]))));
    let rdp = RawInputDevice { is_keyboard: true, name: Some("RDP keyboard".to_string()) };
    assert!(has_physical_keyboard(&KeyboardProbe::RawInputDevices(Some(vec![rdp, unnamed]))));
}

fn program(action: &ToggleAction) -> Option<&'static str> {
    match action {
        ToggleAction::Probe(p) | ToggleAction::Stop(p) | ToggleAction::Launch(p) => Some(p),
        _ => None,
    }
}

#[test]
fn toggle_stops_a_running_keyboard() {
    let (state, action) = toggle_virtual_keyboard(ToggleState::Start, false);
    assert_eq!(state, ToggleState::Probing(0));
    assert!(matches!(action, ToggleAction::Probe("onboard")));
    let (state, action) = toggle_virtual_keyboard(state, true);
    assert_eq!(state, ToggleState::Finished);
    assert!(matches!(action, ToggleAction::Stop("onboard")));
}

#[test]
fn toggle_tries_programs_in_order() {
    let mut state = ToggleState::Start;
    let mut seen = Vec::new();
    let mut succeeded = false;
    for _ in 0..20 {
        let (next, action) = toggle_virtual_keyboard(state, succeeded);
        state = next;
        match action {
            ToggleAction::Probe(p) => {
                seen.push(format!("probe {p}"));
                succeeded = false;
            }
            ToggleAction::Launch(p) => {
                seen.push(format!("launch {p}"));
                succeeded = p == "florence";
            }
            ToggleAction::Done => {
                seen.push("done".to_string());
                break;
            }
            other => panic!("unexpected action {:?}", program(&other)),
        }
    }
    assert_eq!(
        seen,
        vec![
            "probe onboard",
            "launch onboard",
            "probe squeekboard",
            "launch squeekboard",
            "probe florence",
            "launch florence",
            "done"
        ]
    );
    assert_eq!(state, ToggleState::Finished);
}

#[test]
fn toggle_gives_up_after_the_last_program() {
    let (state, action) = toggle_virtual_keyboard(ToggleState::Launching(3), false);
    assert_eq!(state, ToggleState::Finished);
    assert!(matches!(action, ToggleAction::NotFound));
    let (state, action) = toggle_virtual_keyboard(ToggleState::Launching(2), false);
    assert_eq!(state, ToggleState::Probing(3));
    assert!(matches!(action, ToggleAction::Probe("xvkbd")));
    let (state, action) = toggle_virtual_keyboard(ToggleState::Finished, true);
    assert_eq!(state, ToggleState::Finished);
    assert!(matches!(action, ToggleAction::Done));
}

#[test]
fn joined_tables_list_a_keyboard_when_either_does() {
    let without = table(&[POWER_BUTTON, MOUSE]);
    let closed = format!("{without}\n\n");
    for first in [without.as_str(), closed.as_str(), ""] {
        let joined = format!("{first}\n\n{KEYBOARD}");
        assert!(table_lists_physical_keyboard(&joined));
        let joined = format!("{first}\n\n{MOUSE}");
        assert!(!table_lists_physical_keyboard(&joined));
        let joined = format!("{KEYBOARD}\n\n{first}");
        assert!(table_lists_physical_keyboard(&joined));
    }
}

#[test]
fn a_first_table_ending_in_crlf_joins_differently() {
    // The key bitmap of this block is exactly 20 bytes once "\r\n" ends its line.
    let short = KEYBOARD.replace(
        "B: KEY=402000000 3803078f800d001 feffffdfffefffff fffffffffffffffe\nB: MSC=10\nB: LED=7",
        "B: KEY=01234567890123456789\r\n",
    );
    assert!(!table_lists_physical_keyboard(&short));
    assert!(!table_lists_physical_keyboard(MOUSE));
    // Joined by a blank line, the block keeps the "\r", so the bitmap is 21 bytes.
    assert!(table_lists_physical_keyboard(&format!("{short}\n\n{MOUSE}")));
}

#[test]
fn a_block_is_judged_by_the_uppercase_it_is_given() {
    let upper: Vec<char> = chars(&KEYBOARD.to_uppercase());
    assert!(judge_block(&chars(KEYBOARD), &upper));
    // the event bitmap and the non-keyboard names are looked up in the uppercase given
    assert!(!judge_block(&chars(KEYBOARD), &chars("NO BITMAP HERE")));
    assert!(!judge_block(&chars(KEYBOARD), &chars("EV=3 POWER BUTTON")));
    assert!(judge_block(&chars(KEYBOARD), &chars("EV=")));
    // the handler and key bitmap lines are read from the block itself
    assert!(!judge_block(&chars(MOUSE), &chars("EV=")));
}

#[test]
fn uppercase_names_of_virtual_keyboards() {
    assert!(upper_name_is_virtual(&chars("\\\\?\\ROOT#RDP_KBD#0000")));
    assert!(upper_name_is_virtual(&chars("HYPER-V VIRTUAL KEYBOARD")));
    assert!(upper_name_is_virtual(&chars("TERMINPUT")));
    assert!(!upper_name_is_virtual(&chars("hyper-v virtual keyboard")));
    assert!(!upper_name_is_virtual(&chars("\\\\?\\HID#VID_046D&PID_C31C")));
}

#[test]
fn one_raw_input_device_at_a_time() {
    assert!(device_is_physical_keyboard(&RawInputDevice { is_keyboard: true, name: None }));
    assert!(device_is_physical_keyboard(&RawInputDevice {
        is_keyboard: true,
        name: Some("\\\\?\\HID#VID_046D&PID_C31C".to_string()),
    }));
    assert!(!device_is_physical_keyboard(&RawInputDevice {
        is_keyboard: true,
        name: Some("Remote rdp keyboard".to_string()),
    }));
    assert!(!device_is_physical_keyboard(&RawInputDevice { is_keyboard: false, name: None }));
}

/// Runs a whole toggle: program `i` runs when `running[i]`, starts when `startable[i]`.
fn whole_toggle(running: [bool; 4], startable: [bool; 4]) -> Vec<String> {
    let names = ["onboard", "squeekboard", "florence", "xvkbd"];
    let index = |p: &str| names.iter().position(|n| *n == p).unwrap();
    let mut state = ToggleState::Start;
    let mut succeeded = false;
    let mut seen = Vec::new();
    while state != ToggleState::Finished {
        let (next, action) = toggle_virtual_keyboard(state, succeeded);
        state = next;
        match action {
            ToggleAction::Probe(p) => {
                seen.push(format!("probe {p}"));
                succeeded = running[index(p)];
            }
            ToggleAction::Launch(p) => {
                seen.push(format!("launch {p}"));
                succeeded = startable[index(p)];
            }
            ToggleAction::Stop(p) => seen.push(format!("stop {p}")),
            ToggleAction::Done => seen.push("done".to_string()),
            ToggleAction::NotFound => seen.push("not found".to_string()),
        }
    }
    seen
}

#[test]
fn a_whole_toggle_touches_only_the_first_usable_program() {
    assert_eq!(
        whole_toggle([false, true, true, false], [false, true, true, true]),
        vec!["probe onboard", "launch onboard", "probe squeekboard", "stop squeekboard"]
    );
    assert_eq!(
        whole_toggle([false, false, true, false], [false, true, false, false]),
        vec!["probe onboard", "launch onboard", "probe squeekboard", "launch squeekboard", "done"]
    );
    assert_eq!(
        whole_toggle([false; 4], [false; 4]),
        vec![
            "probe onboard",
            "launch onboard",
            "probe squeekboard",
            "launch squeekboard",
            "probe florence",
            "launch florence",
            "probe xvkbd",
            "launch xvkbd",
            "not found"
        ]
    );
}
