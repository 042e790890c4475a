use xfprintd_pam_core::allowlist::is_allowlisted_path;
use xfprintd_pam_core::orchestrator::{
    check_exit_code, is_config_applied, mutate_exit_code, plan_apply, plan_remove,
    privilege_gate, status_line, Operation, PatchError, TargetConfig,
};
use xfprintd_pam_core::resolver::{get_patch_path, normalize_patch_text};
use xfprintd_pam_core::writer::{choose_mode, default_mode, split_path, temp_file_name, u64_to_dec};

const BEGIN: &str = "# BEGIN xfprintd-gui";
const END: &str = "# END xfprintd-gui";

#[test]
fn allowlist_accepts_policy_dir_only() {
    assert!(is_allowlisted_path("/etc/pam.d/sudo"));
    assert!(is_allowlisted_path("/etc/pam.d"));
    assert!(!is_allowlisted_path("/etc/passwd"));
    assert!(!is_allowlisted_path("/tmp/pam.d/sudo"));
    assert!(!is_allowlisted_path(""));
    // A plain textual prefix check, by design: longer names sharing the
    // prefix pass.
    assert!(is_allowlisted_path("/etc/pam.dx"));
}

#[test]
fn patch_path_mirrors_target() {
    assert_eq!(
        get_patch_path("/etc/pam.d/sudo"),
        "/opt/xfprintd-gui/patches/etc/pam.d/sudo.patch"
    );
    assert_eq!(
        get_patch_path("/etc/pam.d/polkit-1"),
        "/opt/xfprintd-gui/patches/etc/pam.d/polkit-1.patch"
    );
}

#[test]
fn patch_path_appends_extension() {
    // Appending keeps resolution injective: a target's own extension stays.
    assert_eq!(
        get_patch_path("/etc/pam.d/common-auth.conf"),
        "/opt/xfprintd-gui/patches/etc/pam.d/common-auth.conf.patch"
    );
    assert_ne!(
        get_patch_path("/etc/pam.d/a"),
        get_patch_path("/etc/pam.d/a.conf")
    );
}

#[test]
fn patch_path_accepts_relative_target() {
    assert_eq!(get_patch_path("name"), "/opt/xfprintd-gui/patches/name.patch");
}

#[test]
fn patch_text_is_trimmed() {
    assert_eq!(normalize_patch_text("auth a\nauth b\n\n  \n"), "auth a\nauth b");
    assert_eq!(normalize_patch_text("auth a"), "auth a");
    assert_eq!(normalize_patch_text(""), "");
}

#[test]
fn temp_name_is_unique_shape_and_never_the_target() {
    // The crash-safety slice the library can state: the temporary file's
    // name is never the target's own name, so creating and filling it
    // leaves the target untouched until the rename.
    assert_eq!(temp_file_name("sudo", 123, 456), ".sudo.123-456.tmp");
    assert_ne!(temp_file_name("sudo", 123, 456), "sudo");
    assert_eq!(temp_file_name("", 1, 2), "..1-2.tmp");
}

#[test]
fn decimal_rendering() {
    assert_eq!(u64_to_dec(0), "0");
    assert_eq!(u64_to_dec(7), "7");
    assert_eq!(u64_to_dec(1234567890), "1234567890");
    assert_eq!(u64_to_dec(u64::MAX), "18446744073709551615");
}

#[test]
fn path_splitting() {
    assert_eq!(
        split_path("/etc/pam.d/sudo"),
        Some(("/etc/pam.d".to_string(), "sudo".to_string()))
    );
    assert_eq!(split_path("/sudo"), Some(("/".to_string(), "sudo".to_string())));
    assert_eq!(split_path("sudo"), None);
    // Nothing after the last slash leaves the writer no file to name.
    assert_eq!(split_path("/"), None);
    assert_eq!(split_path("/etc/pam.d/"), None);
    assert_eq!(split_path(""), None);
}

#[test]
fn modes() {
    assert_eq!(default_mode(), 0o644);
    assert_eq!(choose_mode(Some(0o600)), 0o600);
    assert_eq!(choose_mode(None), 0o644);
}

#[test]
fn apply_forbidden_outside_allowlist() {
    // Outside an approved prefix an apply is refused outright and no
    // content to write is produced.
    let target = TargetConfig::new("/etc/shadow".to_string());
    let r = plan_apply(&target, &Some("p".to_string()), &None, &None);
    assert!(matches!(r, Err(PatchError::Forbidden)));
}

#[test]
fn apply_missing_patch_is_not_found() {
    let target = TargetConfig::new("/etc/pam.d/svc".to_string());
    let r = plan_apply(&target, &None, &Some("#%PAM-1.0\n".to_string()), &None);
    assert!(matches!(r, Err(PatchError::NotFound)));
}

#[test]
fn apply_strips_stale_block_before_inserting() {
    let target = TargetConfig::new("/etc/pam.d/svc".to_string());
    let existing = format!("#%PAM-1.0\n{BEGIN}\nstale\n{END}\nauth keep\n");
    let r = plan_apply(&target, &Some("fresh\n".to_string()), &Some(existing), &None).unwrap();
    assert_eq!(r, format!("#%PAM-1.0\n{BEGIN}\nfresh\n{END}\nauth keep\n"));
}

#[test]
fn apply_uses_default_template_when_file_missing() {
    // The template-fallback law on concrete values: the written file is the
    // template's content with the fresh block after its first line.
    let target = TargetConfig {
        file: "/etc/pam.d/polkit-1".to_string(),
        default: Some("/usr/lib/pam.d/polkit-1".to_string()),
    };
    let template = "#%PAM-1.0\nauth stock\n".to_string();
    let r = plan_apply(&target, &Some("fresh".to_string()), &None, &Some(template)).unwrap();
    assert_eq!(r, format!("#%PAM-1.0\n{BEGIN}\nfresh\n{END}\nauth stock\n"));
}

#[test]
fn remove_is_noop_on_missing_or_disallowed() {
    assert_eq!(plan_remove("/etc/pam.d/svc", &None), None);
    let content = format!("h\n{BEGIN}\nx\n{END}\n");
    assert_eq!(plan_remove("/etc/secret", &Some(content)), None);
}

#[test]
fn remove_skips_write_when_unchanged() {
    assert_eq!(plan_remove("/etc/pam.d/svc", &Some("#%PAM-1.0\nauth keep\n".to_string())), None);
}

#[test]
fn remove_strips_block() {
    let content = format!("#%PAM-1.0\n{BEGIN}\nx\n{END}\nauth keep\n");
    assert_eq!(
        plan_remove("/etc/pam.d/svc", &Some(content)),
        Some("#%PAM-1.0\nauth keep\n".to_string())
    );
}

#[test]
fn check_reports_marker_presence_only() {
    assert!(!is_config_applied(&None));
    assert!(!is_config_applied(&Some("#%PAM-1.0\nauth keep\n".to_string())));
    assert!(is_config_applied(&Some(format!("#%PAM-1.0\n{BEGIN}\nx\n{END}\n"))));
}

#[test]
fn end_to_end_scenario() {
    // Start with no file; apply, check, remove, check again.
    let path = "/etc/pam.d/svc";
    let target = TargetConfig::new(path.to_string());
    let written = plan_apply(&target, &Some("line-A\nline-B".to_string()), &None, &None).unwrap();
    assert_eq!(written, format!("#%PAM-1.0\n{BEGIN}\nline-A\nline-B\n{END}\n"));
    assert!(is_config_applied(&Some(written.clone())));
    let restored = plan_remove(path, &Some(written)).unwrap();
    assert_eq!(restored, "#%PAM-1.0\n");
    assert!(!is_config_applied(&Some(restored)));
}

#[test]
fn second_apply_changes_nothing() {
    let target = TargetConfig::new("/etc/pam.d/svc".to_string());
    let patch = Some("line-A\nline-B".to_string());
    let first = plan_apply(&target, &patch, &None, &None).unwrap();
    let second = plan_apply(&target, &patch, &Some(first.clone()), &None).unwrap();
    assert_eq!(second, first);
}

#[test]
fn privilege_gate_codes() {
    assert_eq!(privilege_gate(Operation::Apply, 1000), Some(126));
    assert_eq!(privilege_gate(Operation::RemoveAll, 1), Some(126));
    assert_eq!(privilege_gate(Operation::Apply, 0), None);
    assert_eq!(privilege_gate(Operation::Check, 1000), None);
    assert_eq!(privilege_gate(Operation::CheckAll, 1000), None);
}

#[test]
fn exit_codes() {
    assert_eq!(mutate_exit_code(0), 0);
    assert_eq!(mutate_exit_code(3), 1);
    assert_eq!(check_exit_code(true, true), 2);
    assert_eq!(check_exit_code(false, true), 0);
    assert_eq!(check_exit_code(false, false), 1);
}

#[test]
fn report_lines() {
    assert_eq!(status_line("applied", "/etc/pam.d/sudo"), "applied: /etc/pam.d/sudo");
    assert_eq!(status_line("Error", "boom"), "Error: boom");
}

#[test]
fn error_messages() {
    assert_eq!(PatchError::Forbidden.message(), "target path is not allowlisted");
    assert_eq!(PatchError::UnknownTarget.message(), "no patch content for target");
    assert_eq!(PatchError::NotFound.message(), "patch file not found");
    assert_eq!(PatchError::InvalidPath.message(), "path has no parent directory");
    assert_eq!(
        PatchError::IoFailure("disk gone".to_string()).message(),
        "io failure: disk gone"
    );
    assert_eq!(PatchError::PermissionDenied.message(), "permission denied");
}

#[test]
fn target_config_new_has_no_default() {
    let t = TargetConfig::new("/etc/pam.d/login".to_string());
    assert_eq!(t.file, "/etc/pam.d/login");
    assert!(t.default.is_none());
}
