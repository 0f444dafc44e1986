use ttgtiso_desk::agent::apps::{desktop_entry, order_applications};
use ttgtiso_desk::agent::platform::{auth_files_in_cmdline, is_x_server, is_xauth_file, processor_count};
use ttgtiso_desk::clock::to_whole_units;
use ttgtiso_desk::os_pal::user_id_from_name;
use ttgtiso_desk::session::backends::{desktop_shell_command, user_home, user_uid};

const PASSWD: &str = "root:x:0:0:root:/root:/bin/bash\n\
alice:x:1000:1000:Alice:/home/alice:/bin/bash\n\
bob:x:notanumber:1001::/srv/bob:/bin/sh\n\
bob:x:1001:1001::/home/bob2:/bin/sh\n\
carol:x:1002\n";

#[test]
fn user_ids_come_from_the_first_usable_line() {
    assert_eq!(user_uid(PASSWD, "alice"), Some(1000));
    assert_eq!(user_uid(PASSWD, "root"), Some(0));
    // The first line for bob has no numeric id; the next one counts.
    assert_eq!(user_uid(PASSWD, "bob"), Some(1001));
    // Three fields are enough for the id.
    assert_eq!(user_uid(PASSWD, "carol"), Some(1002));
    assert_eq!(user_uid(PASSWD, "dave"), None);
    assert_eq!(user_uid("", "alice"), None);
}

#[test]
fn home_directories_come_from_the_first_line_naming_the_user() {
    assert_eq!(user_home(PASSWD, "alice"), Some("/home/alice".to_string()));
    assert_eq!(user_home(PASSWD, "bob"), Some("/srv/bob".to_string()));
    // A line with fewer than six fields has no home.
    assert_eq!(user_home(PASSWD, "carol"), None);
    assert_eq!(user_home(PASSWD, "dave"), None);
}

#[test]
fn desktop_shell_commands_run_as_the_user_on_x11() {
    let plan = desktop_shell_command("alice", Some(1000), Some("/home/alice"), 12, "fly-wm");
    assert_eq!(plan.program, "runuser");
    assert_eq!(plan.args, vec!["-u", "alice", "--", "fly-wm"]);
    let env: Vec<(String, Option<String>)> = plan.env;
    assert_eq!(env[0], ("HOME".to_string(), Some("/home/alice".to_string())));
    assert_eq!(env[3], ("XDG_RUNTIME_DIR".to_string(), Some("/run/user/1000".to_string())));
    assert_eq!(env[4], ("DBUS_SESSION_BUS_ADDRESS".to_string(), Some("unix:path=/run/user/1000/bus".to_string())));
    assert_eq!(env[5], ("DISPLAY".to_string(), Some(":12".to_string())));
    assert_eq!(env[6], ("WAYLAND_DISPLAY".to_string(), None));
    assert_eq!(env[10], ("XAUTHORITY".to_string(), None));
    assert_eq!(env.len(), 11);

    let fallback = desktop_shell_command("eve", None, None, 10, "openbox");
    assert_eq!(fallback.env[0], ("HOME".to_string(), Some("/home/eve".to_string())));
    assert_eq!(fallback.env[3], ("XDG_RUNTIME_DIR".to_string(), Some("/run/user/1000".to_string())));
}

#[test]
fn authority_files_follow_each_auth_flag() {
    let cmdline = "/usr/lib/Xorg\0:0\0-auth\0/var/run/lightdm/root/:0\0-nolisten\0tcp\0";
    assert_eq!(auth_files_in_cmdline(cmdline), vec!["/var/run/lightdm/root/:0".to_string()]);
    assert_eq!(auth_files_in_cmdline("Xorg\0-auth\0a\0-auth\0b"), vec!["a".to_string(), "b".to_string()]);
    // A trailing flag names nothing.
    assert!(auth_files_in_cmdline("Xorg\0-auth").is_empty());
    assert!(auth_files_in_cmdline("").is_empty());
}

#[test]
fn x_servers_and_authority_files_are_recognised() {
    assert!(is_x_server("Xorg\n"));
    assert!(is_x_server("X"));
    assert!(is_x_server("Xwayland\n"));
    assert!(!is_x_server("Xvfb\n"));
    assert!(!is_x_server("bash"));
    assert!(is_xauth_file("xauth_AbCdEf"));
    assert!(!is_xauth_file("Xauthority"));
}

#[test]
fn processors_are_counted_with_one_at_least() {
    let cpuinfo = "processor\t: 0\nmodel name\t: x\n\nprocessor\t: 1\nflags\t: fpu\n";
    assert_eq!(processor_count(cpuinfo), 2);
    assert_eq!(processor_count(""), 1);
    assert_eq!(processor_count("model name: x\n"), 1);
}

#[test]
fn runtime_directory_names_give_user_ids() {
    assert_eq!(user_id_from_name("1000"), Some(1000));
    assert_eq!(user_id_from_name("4294967295"), Some(u32::MAX));
    assert_eq!(user_id_from_name("4294967296"), None);
    assert_eq!(user_id_from_name("gdm"), None);
    assert_eq!(user_id_from_name(""), None);
}

#[test]
fn desktop_entries_give_name_and_command() {
    let firefox = "[Desktop Entry]\nName=Firefox \nName=Other\nExec= firefox %u \nType=Application\n";
    assert_eq!(desktop_entry(firefox), Some(("Firefox".to_string(), "firefox".to_string())));
    let hidden = "[Desktop Entry]\nName=Helper\nExec=helper\nNoDisplay= TRUE\n";
    assert_eq!(desktop_entry(hidden), None);
    let shown = "[Desktop Entry]\nName=Tool\nExec=tool --x\nNoDisplay=false\n";
    assert_eq!(desktop_entry(shown), Some(("Tool".to_string(), "tool --x".to_string())));
    assert_eq!(desktop_entry("Name=NoCommand\n"), None);
    assert_eq!(desktop_entry("Name=Empty\nExec=%f\n"), None);
    assert_eq!(desktop_entry("Exec=x\r\nName=Crlf\r\n"), Some(("Crlf".to_string(), "x".to_string())));
}

#[test]
fn applications_are_ordered_without_case_and_repeats() {
    let found = vec![
        ("zeta".to_string(), "z1".to_string()),
        ("Alpha".to_string(), "a1".to_string()),
        ("beta".to_string(), "b1".to_string()),
        ("Alpha".to_string(), "a2".to_string()),
        ("alpha".to_string(), "a3".to_string()),
    ];
    let ordered = order_applications(&found);
    assert_eq!(
        ordered,
        vec![
            ("Alpha".to_string(), "a1".to_string()),
            ("alpha".to_string(), "a3".to_string()),
            ("beta".to_string(), "b1".to_string()),
            ("zeta".to_string(), "z1".to_string()),
        ]
    );
    assert!(order_applications(&Vec::new()).is_empty());
}

#[test]
fn clock_units_are_whole_and_saturate() {
    assert_eq!(to_whole_units(2_500_000_000, 1_000_000_000), 2);
    assert_eq!(to_whole_units(999_999, 1_000_000), 0);
    assert_eq!(to_whole_units(u128::MAX, 1), u64::MAX);
}
