use virtual_core::detect::{
    accel_for, audio_backend, candidate_dirs, core_ext, display_backend, install_hint, parse_version,
    qemu_supports_snapshot_jobs, retroarch_dirs, uefi_candidates, uefi_vars_template, HostOs,
};
use virtual_core::model::Arch;

#[test]
fn accel_matches_host() {
    assert_eq!(accel_for(HostOs::MacOs, Arch::Aarch64, Arch::Aarch64), Some("hvf"));
    assert_eq!(accel_for(HostOs::MacOs, Arch::Aarch64, Arch::X86_64), None);
    assert_eq!(accel_for(HostOs::Linux, Arch::X86_64, Arch::I386), Some("kvm"));
    assert_eq!(accel_for(HostOs::Windows, Arch::X86_64, Arch::X86_64), Some("whpx"));
    assert_eq!(accel_for(HostOs::Linux, Arch::X86_64, Arch::M68k), None);
}

#[test]
fn versions() {
    assert_eq!(parse_version("QEMU emulator version 9.2.0 (v9.2.0)\nCopyright"), Some("9.2.0".into()));
    assert_eq!(parse_version("RetroArch 1.19.1 (Git 6a5d4bd)"), Some("1.19.1".into()));
    assert_eq!(parse_version("nothing"), None);
    assert!(qemu_supports_snapshot_jobs("9.2.0"));
    assert!(!qemu_supports_snapshot_jobs("5.2.0"));
}

#[test]
fn hints_and_dirs() {
    assert!(install_hint(HostOs::MacOs, "qemu").contains("brew"));
    assert!(candidate_dirs(HostOs::MacOs).iter().any(|d| d.contains("homebrew")));
    let (cores, system) = retroarch_dirs(HostOs::MacOs, "/Users/x");
    assert!(cores.ends_with("/cores") && system.ends_with("/system"));
    assert!(uefi_candidates("/opt/homebrew", Arch::X86_64)[0].contains("edk2-x86_64-code.fd"));
    assert!(uefi_candidates("/x", Arch::M68k).is_empty());
}

#[test]
fn host_backends() {
    assert_eq!(display_backend(HostOs::Linux), "gtk");
    assert_eq!(audio_backend(HostOs::MacOs), "coreaudio");
    assert_eq!(core_ext(HostOs::Windows), "dll");
    assert!(uefi_vars_template("/opt/homebrew", Arch::M68k).is_empty());
}

#[test]
fn snapshot_jobs_need_qemu_six() {
    assert!(qemu_supports_snapshot_jobs("6.0.0"));
    assert!(!qemu_supports_snapshot_jobs("abc"));
}
