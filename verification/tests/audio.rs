use grebe::audio::{is_system_session, process_name, AudioStateManager};

fn manager() -> AudioStateManager<&'static str> {
    AudioStateManager::new(vec!["Steam".to_string(), "Discord".to_string()])
}

#[test]
fn system_session_is_pid_zero() {
    assert!(is_system_session(0));
    assert!(!is_system_session(1234));
}

#[test]
fn admission_rules() {
    let mut m = manager();
    assert!(m.admits(100, &"Firefox".to_string()));
    assert!(!m.admits(0, &"Firefox".to_string()));
    assert!(!m.admits(100, &"Unknown".to_string()));
    assert!(!m.admits(100, &"Discord".to_string()));
    assert!(!m.admits(100, &"Steam".to_string()));
    // blacklist entries match whole names only
    assert!(m.admits(100, &"Steam Helper".to_string()));
    assert!(m.add_session(100, &"Firefox".to_string(), "firefox session"));
    assert!(!m.admits(100, &"Firefox".to_string()));
    assert!(m.admits(101, &"Firefox".to_string()));
}

#[test]
fn add_look_up_remove() {
    let mut m = manager();
    assert!(m.add_session(7, &"Seven".to_string(), "seven"));
    assert!(m.add_session(9, &"Nine".to_string(), "nine"));
    assert_eq!(m.session(7), Some(&"seven"));
    assert_eq!(m.session(8), None);
    assert_eq!(m.remove_session(7), Some("seven"));
    assert_eq!(m.remove_session(7), None);
    assert_eq!(m.session(7), None);
    assert_eq!(m.session(9), Some(&"nine"));
    assert!(m.admits(7, &"Game".to_string()));
}

#[test]
fn refused_sessions_are_not_tracked() {
    let mut m = manager();
    assert!(!m.add_session(0, &"System".to_string(), "system"));
    assert_eq!(m.session(0), None);
    assert!(!m.add_session(5, &"Unknown".to_string(), "unknown"));
    assert!(!m.add_session(6, &"Steam".to_string(), "steam"));
    assert_eq!(m.session(5), None);
    assert_eq!(m.session(6), None);
    assert!(m.add_session(6, &"Game".to_string(), "game"));
    assert!(!m.add_session(6, &"Game".to_string(), "again"));
    assert_eq!(m.session(6), Some(&"game"));
}

#[test]
fn process_name_fallbacks() {
    assert_eq!(process_name(Some("firefox".to_string()), Some("Firefox".to_string())), "Firefox");
    assert_eq!(process_name(Some("firefox".to_string()), None), "firefox");
    assert_eq!(process_name(None, None), "Unknown");
    assert_eq!(process_name(None, Some("Desc".to_string())), "Desc");
}
