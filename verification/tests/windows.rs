use feed::text::{
    characters, contains_char, contains_double_dot, decimal, joined, same_text, starts_with, trim,
};
use feed::window::{
    answer_permission, close_scan_window, configure_linux_media_permissions, open_scan_window,
    opened_scan_window, PermissionAnswer, PermissionRequest, ScanRequest,
};

fn opened(target: &str) -> Option<String> {
    match open_scan_window(target, false) {
        ScanRequest::Open(target) => Some(target),
        ScanRequest::Refuse(text) => {
            assert_eq!(text, "Percorso della Scansione non valido.");
            None
        }
        ScanRequest::Focus(_) => panic!("no window is open"),
    }
}

#[test]
fn targets_of_the_scan_page() {
    assert_eq!(opened("scan.html"), Some("scan.html".to_string()));
    assert_eq!(opened("  scan.html?a=1\n"), Some("scan.html?a=1".to_string()));
    assert_eq!(opened("scan.html?"), Some("scan.html?".to_string()));
    assert_eq!(opened(""), None);
    assert_eq!(opened("scan.htm"), None);
    assert_eq!(opened("scan.htmlx"), None);
    assert_eq!(opened("/scan.html"), None);
    assert_eq!(opened("https://example.org/scan.html"), None);
    assert_eq!(opened("scan.html?x=.."), None);
    assert_eq!(opened("scan.html?x=.a."), Some("scan.html?x=.a.".to_string()));
    assert_eq!(opened("scan.html?x=#"), None);
}

#[test]
fn targets_are_measured_in_bytes() {
    let longest = format!("scan.html?{}", "a".repeat(8182));
    assert_eq!(opened(&longest), Some(longest.clone()));
    assert_eq!(opened(&format!("{}a", longest)), None);
    assert_eq!(opened(&format!("{}   ", longest)), Some(longest));
    let wide = format!("scan.html?{}", "è".repeat(4091));
    assert_eq!(opened(&wide), Some(wide.clone()));
    assert_eq!(opened(&format!("{}è", wide)), None);
}

#[test]
fn asking_again_for_an_opened_target() {
    let target = opened("\u{3000} scan.html?q=1 \u{a0}").unwrap();
    assert_eq!(target, "scan.html?q=1");
    assert_eq!(opened(&target), Some(target));
}

#[test]
fn one_scan_window_at_a_time() {
    assert!(matches!(
        open_scan_window("scan.html", true),
        ScanRequest::Focus(text)
            if text == "Una finestra di Scansione è già aperta. Chiudila prima di avviarne un'altra."
    ));
    assert!(matches!(open_scan_window("other.html", true), ScanRequest::Refuse(_)));
}

#[test]
fn white_space_is_that_of_unicode() {
    for code in 0..0x11_0000u32 {
        if let Some(c) = char::from_u32(code) {
            let text = format!("{}a{}", c, c);
            assert_eq!(trim(&text) == "a", c.is_whitespace());
        }
    }
    assert_eq!(trim(" \t "), "");
    assert_eq!(trim(" a b "), "a b");
}

#[test]
fn window_failures() {
    assert_eq!(opened_scan_window(Ok(())), Ok(()));
    assert_eq!(
        opened_scan_window(Err("x".to_string())),
        Err("Impossibile aprire la finestra di Scansione: x".to_string())
    );
    assert_eq!(close_scan_window(None), Ok(()));
    assert_eq!(close_scan_window(Some(Ok(()))), Ok(()));
    assert_eq!(
        close_scan_window(Some(Err("x".to_string()))),
        Err("Impossibile chiudere la finestra di Scansione: x".to_string())
    );
    assert_eq!(configure_linux_media_permissions(Ok(())), Ok(()));
    assert_eq!(
        configure_linux_media_permissions(Err("x".to_string())),
        Err("Impossibile configurare i permessi della videocamera: x".to_string())
    );
}

#[test]
fn only_the_camera_is_allowed() {
    let media = |video, audio| answer_permission(PermissionRequest::UserMedia { video, audio });
    assert_eq!(media(true, false), PermissionAnswer::Allow);
    assert_eq!(media(true, true), PermissionAnswer::Deny);
    assert_eq!(media(false, true), PermissionAnswer::Deny);
    assert_eq!(media(false, false), PermissionAnswer::Deny);
    assert_eq!(answer_permission(PermissionRequest::DeviceInfo), PermissionAnswer::Allow);
    assert_eq!(answer_permission(PermissionRequest::Other), PermissionAnswer::Pass);
}

#[test]
fn texts() {
    assert_eq!(characters("aè"), vec!['a', 'è']);
    assert!(same_text("a", "a"));
    assert!(!same_text("a", "b"));
    assert_eq!(joined("a", "è"), "aè");
    assert_eq!(decimal(0), "0");
    assert_eq!(decimal(907), "907");
    assert!(starts_with("abc", "ab"));
    assert!(!starts_with("ab", "abc"));
    assert!(starts_with("ab", ""));
    assert!(contains_char("abc", 'c'));
    assert!(!contains_char("", 'c'));
    assert!(contains_double_dot("a..b"));
    assert!(contains_double_dot(".."));
    assert!(!contains_double_dot("."));
    assert!(!contains_double_dot(""));
}
