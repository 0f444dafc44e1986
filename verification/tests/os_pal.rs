use ttgtiso_desk::config::{ConnectionMode, DesktopSessionType};
use ttgtiso_desk::os_pal::{
    desktop_launch_candidates, detect_graphical_session, detect_preferred_graphical_session,
    list_graphical_sessions, passwd_entry, should_attach_to_existing_session, wayland_display_candidates,
    wayland_display_number, x11_display_number, xauthority_candidates, RuntimeDirProbe, X11SocketProbe,
};
use ttgtiso_desk::shared_types::SessionKind;

#[test]
fn desktop_candidates_include_full_desktop_shells() {
    let candidates = desktop_launch_candidates(&ConnectionMode::Desktop, &DesktopSessionType::Auto);
    assert!(candidates.iter().any(|c| c == "gnome-session"));
    assert!(candidates.iter().any(|c| c == "startplasma-x11"));
}

#[test]
fn launch_candidates_by_mode() {
    assert_eq!(desktop_launch_candidates(&ConnectionMode::App, &DesktopSessionType::Attach), vec!["xterm".to_string()]);
    assert!(desktop_launch_candidates(&ConnectionMode::Desktop, &DesktopSessionType::Attach).is_empty());
    let v = desktop_launch_candidates(&ConnectionMode::Desktop, &DesktopSessionType::Virtual);
    assert_eq!(v.len(), 9);
    assert_eq!(v[0], "fly-wm");
    assert_eq!(v[8], "openbox");
}

#[test]
fn attach_decision() {
    assert!(should_attach_to_existing_session(&ConnectionMode::Desktop, &DesktopSessionType::Attach, false));
    assert!(should_attach_to_existing_session(&ConnectionMode::Desktop, &DesktopSessionType::Auto, true));
    assert!(!should_attach_to_existing_session(&ConnectionMode::Desktop, &DesktopSessionType::Auto, false));
    assert!(!should_attach_to_existing_session(&ConnectionMode::App, &DesktopSessionType::Attach, true));
}

const PASSWD: &str = "root:x:0:0:root:/root:/bin/bash\nalice:x:1000:1000:Alice:/home/alice:/bin/bash\r\nbad:x:abc:1:b:/b:/bin/sh\n";

#[test]
fn passwd_lookup() {
    assert_eq!(passwd_entry(PASSWD, 1000), Some(("alice".to_string(), "/home/alice".to_string())));
    assert_eq!(passwd_entry(PASSWD, 0), Some(("root".to_string(), "/root".to_string())));
    assert_eq!(passwd_entry(PASSWD, 5), None);
}

#[test]
fn socket_names() {
    assert_eq!(x11_display_number("X0"), Some(0));
    assert_eq!(x11_display_number("X12"), Some(12));
    assert_eq!(x11_display_number("X256"), None);
    assert_eq!(x11_display_number("Y1"), None);
    assert_eq!(wayland_display_number("wayland-1"), Some(1));
    assert_eq!(wayland_display_number("wayland-"), None);
    assert_eq!(wayland_display_candidates(7), vec!["wayland-7".to_string(), "wayland-0".to_string(), "wayland-1".to_string()]);
    assert_eq!(
        xauthority_candidates("/home/a", "/run/user/1000", "a"),
        vec![
            "/home/a/.Xauthority".to_string(),
            "/run/user/1000/Xauthority".to_string(),
            "/run/user/1000/gdm/Xauthority".to_string(),
            "/var/run/lightdm/a/xauthority".to_string(),
        ]
    );
}

#[test]
fn sessions_from_scan() {
    let x11 = vec![
        X11SocketProbe { name: "X0".to_string(), uid: 0, account: None, xauthority: None, wayland_display: None },
        X11SocketProbe { name: "README".to_string(), uid: 5, account: None, xauthority: None, wayland_display: None },
        X11SocketProbe { name: "X3".to_string(), uid: 1001, account: None, xauthority: Some("/x".to_string()), wayland_display: None },
    ];
    let runtime = vec![RuntimeDirProbe {
        name: "1000".to_string(),
        is_dir: true,
        account: Some(("alice".to_string(), "/home/alice".to_string())),
        wayland_display: Some("wayland-0".to_string()),
        xauthority: None,
    }];
    let s = list_graphical_sessions(&x11, &runtime);
    assert_eq!(s.len(), 3);
    assert_eq!(s[0].display, ":0");
    assert!(s[0].active_console);
    assert_eq!(s[1].username, "user_1001");
    assert_eq!(s[1].home, "/home/user_1001");
    assert!(s[1].is_x11());
    assert_eq!(s[2].session_kind, SessionKind::Wayland);
    assert!(s[2].is_wayland());
    assert_eq!(s[2].wayland_display.as_deref(), Some("wayland-0"));
    let preferred = detect_preferred_graphical_session(Some("alice"), s.clone()).unwrap();
    assert_eq!(preferred.uid, 1000);
    let fallback = detect_preferred_graphical_session(Some("bob"), s.clone()).unwrap();
    assert_eq!(fallback.display_id, 0);
    assert_eq!(detect_graphical_session(s).unwrap().display_id, 0);
    assert!(detect_graphical_session(Vec::new()).is_none());
}
