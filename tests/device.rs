use audioviz::device::{select_device, DeviceChoice};

fn names(list: &[&str]) -> Vec<String> {
    list.iter().map(|s| s.to_string()).collect()
}

#[test]
fn unknown_device_name_falls_back_to_default() {
    let inputs = names(&["Built-in Microphone", "USB Audio Device"]);
    let wanted = Some("NonExistentDevice123".to_string());
    assert_eq!(select_device(&inputs, &wanted), DeviceChoice::Default);
}

#[test]
fn no_configured_name_uses_default() {
    let inputs = names(&["Built-in Microphone"]);
    assert_eq!(select_device(&inputs, &None), DeviceChoice::Default);
}

#[test]
fn empty_device_list_uses_default() {
    let wanted = Some("USB Audio Device".to_string());
    assert_eq!(select_device(&Vec::new(), &wanted), DeviceChoice::Default);
}

#[test]
fn exact_name_is_selected() {
    let inputs = names(&["Built-in Microphone", "USB Audio Device", "HDMI"]);
    let wanted = Some("USB Audio Device".to_string());
    assert_eq!(select_device(&inputs, &wanted), DeviceChoice::Named(1));
}

#[test]
fn first_of_equal_names_is_selected() {
    let inputs = names(&["Monitor", "pulse", "Monitor"]);
    let wanted = Some("Monitor".to_string());
    assert_eq!(select_device(&inputs, &wanted), DeviceChoice::Named(0));
}

#[test]
fn match_is_exact_not_prefix() {
    let inputs = names(&["USB Audio Device 2", "usb audio device"]);
    let wanted = Some("USB Audio Device".to_string());
    assert_eq!(select_device(&inputs, &wanted), DeviceChoice::Default);
}
