use xfprintd_pam_core::config::colors;
use xfprintd_pam_core::events::{
    DeviceError, EnrollStatusEvent, EnrollmentEvent, VerifyFingerSelectedEvent, VerifyStatusEvent,
};
use xfprintd_pam_core::pam_config::{
    build_del_script, escape_for_sed_regex, expected_config, is_configured_content, login_path,
    polkit_path, sudo_path, PamConfig,
};
use xfprintd_pam_core::pam_helper::{get_login_path, PamHelper};
use xfprintd_pam_core::util::{
    create_short_finger_name, display_finger_name, get_distribution_name,
    is_supported_distribution, parse_os_release_name, replace_str,
};

#[test]
fn color_scheme_values() {
    let c = colors();
    assert_eq!(c.progress, "#a277ff");
    assert_eq!(c.warning, "#ff6ac1");
    assert_eq!(c.error, "#ff4d6d");
    assert_eq!(c.success, "#a277ff");
    assert_eq!(c.neutral, "#8a8f98");
    assert_eq!(c.process, "#5ea2ff");
}

#[test]
fn event_values_carry_fields() {
    let e = VerifyFingerSelectedEvent { finger_name: "left-thumb".to_string() };
    assert_eq!(e, e.clone());
    let v = VerifyStatusEvent { result: "verify-match".to_string(), done: true };
    assert!(v.done);
    let s = EnrollStatusEvent { result: "enroll-stage-passed".to_string(), done: false };
    assert_eq!(s.result, "enroll-stage-passed");
    match EnrollmentEvent::SetText("hello".to_string()) {
        EnrollmentEvent::SetText(t) => assert_eq!(t, "hello"),
        EnrollmentEvent::EnrollCompleted => panic!("wrong variant"),
    }
}

#[test]
fn device_error_messages() {
    assert_eq!(
        DeviceError::ConnectionFailed("bus down".to_string()).message(),
        "Connection failed: bus down"
    );
    assert_eq!(DeviceError::NoDeviceAvailable.message(), "No fingerprint devices available");
    assert_eq!(DeviceError::ClaimFailed("busy".to_string()).message(), "Failed to claim device: busy");
    assert_eq!(DeviceError::OperationFailed("x".to_string()).message(), "Operation failed: x");
}

#[test]
fn expected_config_known_paths() {
    let login = expected_config(login_path()).unwrap();
    assert!(login.contains("pam_succeed_if.so"));
    assert!(login.contains("pam_fprintd.so"));
    let sudo = expected_config(sudo_path()).unwrap();
    assert!(sudo.contains("[success=1  default=ignore]"));
    let polkit = expected_config(polkit_path()).unwrap();
    assert!(polkit.contains("pam_unix.so try_first_pass likeauth nullok"));
    assert_eq!(polkit.lines().count(), 3);
}

#[test]
fn expected_config_unknown_path() {
    let r = expected_config("/etc/pam.d/other");
    assert!(matches!(
        r,
        Err(xfprintd_pam_core::orchestrator::PatchError::UnknownTarget)
    ));
}

#[test]
fn sed_escaping() {
    assert_eq!(escape_for_sed_regex("plain words"), "plain words");
    assert_eq!(escape_for_sed_regex("a.b*c"), "a\\.b\\*c");
    assert_eq!(escape_for_sed_regex("/path/[x]"), "\\/path\\/\\[x\\]");
    assert_eq!(escape_for_sed_regex("back\\slash"), "back\\\\slash");
    assert_eq!(escape_for_sed_regex("(a)?{b}+^$|"), "\\(a\\)\\?\\{b\\}\\+\\^\\$\\|");
}

#[test]
fn del_script_lists_each_line_then_blanks() {
    assert_eq!(
        build_del_script("auth a\nauth b.x"),
        "/^auth a$/d\n/^auth b\\.x$/d\n/^$/d"
    );
    assert_eq!(build_del_script(""), "/^$/d");
}

#[test]
fn configured_content_checks_all_lines_trimmed() {
    let expected = "auth a\nauth b";
    assert!(is_configured_content(expected, "#%PAM-1.0\n  auth a  \nauth b\nother\n"));
    assert!(!is_configured_content(expected, "#%PAM-1.0\nauth a\n"));
    assert!(is_configured_content("", "anything"));
}

#[test]
fn check_configurations_per_service() {
    let login_content = format!("#%PAM-1.0\n{}\n", expected_config(login_path()).unwrap());
    let (l, s, p) = PamConfig::check_configurations(
        &Some(login_content),
        &Some("#%PAM-1.0\n".to_string()),
        &None,
    );
    assert!(l);
    assert!(!s);
    assert!(!p);
}

#[test]
fn apply_patch_builds_guarded_sed_command() {
    let cmd = PamConfig::apply_patch(sudo_path()).unwrap();
    let expected = format!(
        "if [ ! -f '{p}' ]; then\n  echo '#%PAM-1.0' > '{p}'\nfi\nsed -i '1r /dev/fd/3' '{p}' 3<<'PATCH'\n{c}\nPATCH",
        p = "/etc/pam.d/sudo",
        c = expected_config(sudo_path()).unwrap(),
    );
    assert_eq!(cmd, expected);
    assert!(matches!(
        PamConfig::apply_patch("/etc/pam.d/nope"),
        Err(xfprintd_pam_core::orchestrator::PatchError::UnknownTarget)
    ));
}

#[test]
fn remove_patch_builds_delete_script_command() {
    let cmd = PamConfig::remove_patch(login_path()).unwrap();
    let script = build_del_script(expected_config(login_path()).unwrap());
    let expected = format!(
        "if [ -f '{p}' ]; then\n  sed -i -f /dev/fd/3 '{p}' 3<<'SED'\n{s}\nSED\nfi",
        p = "/etc/pam.d/login",
        s = script,
    );
    assert_eq!(cmd, expected);
}

#[test]
fn copy_default_polkit_command() {
    assert_eq!(
        PamConfig::copy_default_polkit(),
        "if [ ! -f '/etc/pam.d/polkit-1' ] && [ -f '/usr/lib/pam.d/polkit-1' ]; then echo 'Copying default polkit config' && cp '/usr/lib/pam.d/polkit-1' '/etc/pam.d/polkit-1'; else echo 'polkit config exists or default missing, skipping copy'; fi"
    );
}

#[test]
fn login_path_follows_display_manager() {
    assert_eq!(get_login_path(true), "/etc/pam.d/sddm");
    assert_eq!(get_login_path(false), "/etc/pam.d/login");
}

#[test]
fn target_argument_shapes() {
    assert_eq!(
        PamHelper::target_json_arg("/etc/pam.d/sudo"),
        "{\"file\":\"/etc/pam.d/sudo\"}"
    );
    assert_eq!(
        PamHelper::target_json_arg("/etc/pam.d/polkit-1"),
        "{\"file\":\"/etc/pam.d/polkit-1\",\"default\":\"/usr/lib/pam.d/polkit-1\"}"
    );
}

#[test]
fn check_output_parsing() {
    let stdout = "applied: /etc/pam.d/sddm\nnot-applied: /etc/pam.d/sudo\napplied: /etc/pam.d/polkit-1\n";
    assert_eq!(PamHelper::parse_check_output(stdout), (true, false, true));
    let stdout2 = "applied: /etc/pam.d/login\napplied: /etc/pam.d/sudo\n";
    assert_eq!(PamHelper::parse_check_output(stdout2), (true, true, false));
    assert_eq!(PamHelper::parse_check_output(""), (false, false, false));
    assert_eq!(PamHelper::parse_check_output("applied: /etc/pam.d/other\n"), (false, false, false));
}

#[test]
fn finger_display_names() {
    assert_eq!(display_finger_name("left-thumb"), "Left thumb");
    assert_eq!(display_finger_name("right-index-finger"), "Right index finger");
    assert_eq!(display_finger_name(""), "");
    assert_eq!(display_finger_name("thumb"), "Thumb");
}

#[test]
fn finger_short_names() {
    assert_eq!(create_short_finger_name("Left index finger"), "Index");
    assert_eq!(create_short_finger_name("Right thumb"), "Thumb");
    assert_eq!(create_short_finger_name("left index finger"), "Left index");
    assert_eq!(create_short_finger_name(""), "");
}

#[test]
fn replace_all_occurrences() {
    assert_eq!(replace_str("a-b-c", "-", " "), "a b c");
    assert_eq!(replace_str("aaa", "aa", "b"), "ba");
    assert_eq!(replace_str("none", "x", "y"), "none");
}

#[test]
fn supported_distribution_is_case_insensitive() {
    assert!(is_supported_distribution("XeroLinux"));
    assert!(is_supported_distribution("XEROLINUX rolling"));
    assert!(!is_supported_distribution("Ubuntu"));
    assert!(!is_supported_distribution(""));
}

#[test]
fn os_release_name_parsing() {
    assert_eq!(
        parse_os_release_name("ID=xero\nNAME=\"XeroLinux\"\nVERSION=1\n"),
        Some("XeroLinux".to_string())
    );
    assert_eq!(parse_os_release_name("NAME=Arch\n"), Some("Arch".to_string()));
    assert_eq!(parse_os_release_name("ID=none\n"), None);
    assert_eq!(parse_os_release_name("NAME=\"\"\nNAME=Later\n"), Some("Later".to_string()));
}

#[test]
fn distribution_name_fallback_chain() {
    let etc = Some("NAME=\"First\"\n".to_string());
    let usr = Some("NAME=\"Second\"\n".to_string());
    let lsb = Some("DISTRIB_ID=Third\n".to_string());
    assert_eq!(get_distribution_name(&etc, &usr, &lsb), Some("First".to_string()));
    assert_eq!(get_distribution_name(&None, &usr, &lsb), Some("Second".to_string()));
    assert_eq!(get_distribution_name(&None, &None, &lsb), Some("Third".to_string()));
    assert_eq!(get_distribution_name(&None, &None, &None), None);
    assert_eq!(
        get_distribution_name(&Some("ID=x\n".to_string()), &None, &lsb),
        Some("Third".to_string())
    );
}
