use grebe::config::{DisplayConfig, GrebeConfig, NotificationConfig};
use grebe::notify::{expiration_ticks, notification_toast, to_widestr, toast_xml, APP_ID};

fn cfg(add_to_start: bool, silent: bool) -> GrebeConfig {
    GrebeConfig {
        verbose: false,
        port: "COM3".to_string(),
        blacklist: vec![],
        aliases: vec![],
        run_on_start: false,
        select_new_app: true,
        volume_scroll_size: 2,
        invert_volume: false,
        invert_navigation: false,
        add_to_start,
        notifications: NotificationConfig {
            on_first_connect: true,
            on_reconnect: true,
            on_disconnect: true,
            silent,
            expiration: 10,
        },
        display: DisplayConfig { invert: false, text_color: 0xFFFFFF, background_color: 0 },
    }
}

const EXPECTED_TOAST: &str = "<toast>
            <visual>
                <binding template=\"ToastGeneric\">
                    <text>Mixer Connected</text>
                    <text>Communicating with mixer on COM3</text>
                </binding>
            </visual>
            <audio silent=\"true\" />
        </toast>";

#[test]
fn toast_document_text() {
    assert_eq!(toast_xml("Mixer Connected", "Communicating with mixer on COM3", true), EXPECTED_TOAST);
    let loud = toast_xml("t", "m", false);
    assert!(loud.contains("<audio silent=\"false\" />"));
    assert!(loud.contains("<text>t</text>"));
    assert!(loud.contains("<text>m</text>"));
}

#[test]
fn toast_only_when_in_start_menu() {
    assert!(notification_toast(&cfg(false, true), "a", "b").is_none());
    assert_eq!(
        notification_toast(&cfg(true, true), "Mixer Connected", "Communicating with mixer on COM3").unwrap(),
        EXPECTED_TOAST
    );
    assert!(notification_toast(&cfg(true, false), "a", "b").unwrap().contains("silent=\"false\""));
}

#[test]
fn expiry_in_windows_ticks() {
    assert_eq!(expiration_ticks(0, 0), 116_444_736_000_000_000);
    assert_eq!(expiration_ticks(0, 5), 116_444_736_000_000_000 + 50_000_000);
    // one second after the epoch, expiring ten seconds later
    assert_eq!(expiration_ticks(1_000_000_000, 10), 116_444_736_000_000_000 + 10_000_000 + 100_000_000);
    // nanoseconds below 100 do not count
    assert_eq!(expiration_ticks(199, 0), 116_444_736_000_000_001);
    assert_eq!(expiration_ticks(0, -1), 116_444_736_000_000_000 - 10_000_000);
}

#[test]
fn wide_strings_are_utf16_with_terminator() {
    assert_eq!(to_widestr(""), vec![0u16]);
    assert_eq!(to_widestr("Ab"), vec![0x41, 0x62, 0]);
    assert_eq!(to_widestr("é€"), vec![0xE9, 0x20AC, 0]);
    assert_eq!(to_widestr("A😀"), vec![0x41, 0xD83D, 0xDE00, 0]);
    let s = "C:\\Users\\me\\Grebe.exe";
    let mut expected: Vec<u16> = s.encode_utf16().collect();
    expected.push(0);
    assert_eq!(to_widestr(s), expected);
}

#[test]
fn app_identity() {
    assert_eq!(APP_ID, "Grebe.HardwareVolumeMixer");
}
