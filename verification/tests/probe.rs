use virtual_core::detect::HostOs;
use virtual_core::model::Arch;
use virtual_core::probe::{
    cores_dir, detect_all, find_binary, find_qemu_binary, find_uefi, prefix_of, qemu_img_path, retroarch_path,
    swtpm_path, system_dir,
};
use virtual_core::settings::Settings;

#[test]
fn prefix_from_binary_path() {
    assert_eq!(prefix_of("/opt/homebrew/bin/qemu-system-x86_64"), "/opt/homebrew");
    assert_eq!(prefix_of("/usr/bin/qemu-system-i386"), "/usr");
}

#[test]
fn missing_binary_yields_hint() {
    let s = Settings::default();
    let dirs: Vec<String> = vec!["/usr/bin".into()];
    let all = detect_all(&s, HostOs::Linux, Arch::X86_64, &dirs, &|_: &str| false, &|_: &str| None);
    assert_eq!(all.len(), 4);
    for e in all {
        if !e.ok && e.engine != "swtpm" {
            assert!(!e.hint.is_empty(), "{}: Hinweis fehlt", e.engine);
        }
    }
}

#[test]
fn found_engines_report_version_and_accelerator() {
    let s = Settings::default();
    let dirs: Vec<String> = vec!["/usr/bin".into()];
    let all = detect_all(
        &s,
        HostOs::Linux,
        Arch::X86_64,
        &dirs,
        &|p: &str| p == "/usr/bin/qemu-system-x86_64",
        &|_: &str| Some("9.2.0".to_string()),
    );
    assert!(all[0].ok);
    assert_eq!(all[0].path.as_deref(), Some("/usr/bin/qemu-system-x86_64"));
    assert_eq!(all[0].version.as_deref(), Some("9.2.0"));
    assert_eq!(all[0].accel.as_deref(), Some("kvm"));
    assert!(all[0].hint.is_empty());
    assert!(!all[1].ok);
    assert!(!all[1].hint.is_empty());
}

#[test]
fn override_folder_is_searched_first() {
    let dirs: Vec<String> = vec!["/usr/bin".into()];
    let r = find_binary("qemu-img", "/opt/q", HostOs::Linux, &dirs, &|p: &str| p == "/opt/q/qemu-img" || p == "/usr/bin/qemu-img");
    assert_eq!(r.as_deref(), Some("/opt/q/qemu-img"));
    let mut s = Settings::default();
    s.qemu_dir = "/opt/q".into();
    let r = qemu_img_path(&s, HostOs::Windows, &dirs, &|p: &str| p == "/usr/bin/qemu-img.exe");
    assert_eq!(r.as_deref(), Some("/usr/bin/qemu-img.exe"));
    assert!(swtpm_path(HostOs::Windows, &dirs, &|_: &str| true).is_none());
    let q = find_qemu_binary(Arch::NoArch, &s, HostOs::Linux, &dirs, &|_: &str| true);
    assert!(q.is_none());
}

#[test]
fn retroarch_and_its_folders() {
    let mut s = Settings::default();
    s.retroarch_path = "/apps/retroarch".into();
    let dirs: Vec<String> = Vec::new();
    assert_eq!(retroarch_path(&s, HostOs::Linux, &dirs, &|p: &str| p == "/apps/retroarch").as_deref(), Some("/apps/retroarch"));
    let c = cores_dir(&Settings::default(), HostOs::MacOs, "/Users/x", &|p: &str| p.starts_with("/Applications"));
    assert_eq!(c, "/Applications/RetroArch.app/Contents/Resources/cores");
    let sys = system_dir(&Settings::default(), HostOs::Linux, "/home/x");
    assert!(sys.ends_with("/system"));
}

#[test]
fn uefi_next_to_the_binary() {
    let (code, vars) = find_uefi("/opt/homebrew/bin/qemu-system-x86_64", Arch::X86_64, &|p: &str| p.contains("edk2"));
    assert!(code.unwrap().contains("edk2-x86_64-code.fd"));
    assert!(vars.is_some());
    let (code, vars) = find_uefi("/usr/bin/qemu-system-m68k", Arch::M68k, &|_: &str| true);
    assert!(code.is_none() && vars.is_none());
}

#[test]
fn retroarch_and_swtpm_entries_are_searched() {
    let mut s = Settings::default();
    let dirs: Vec<String> = vec!["/usr/bin".into()];
    let have = |p: &str| p == "/usr/bin/retroarch" || p == "/usr/bin/swtpm" || p == "/opt/ra/retroarch";
    let all = detect_all(&s, HostOs::Linux, Arch::X86_64, &dirs, &have, &|_: &str| None);
    assert_eq!(all[2].path.as_deref(), Some("/usr/bin/retroarch"));
    assert_eq!(all[3].path.as_deref(), Some("/usr/bin/swtpm"));
    s.retroarch_path = "/opt/ra/retroarch".into();
    let all = detect_all(&s, HostOs::Linux, Arch::X86_64, &dirs, &have, &|_: &str| None);
    assert_eq!(all[2].path.as_deref(), Some("/opt/ra/retroarch"));
    let win = detect_all(&s, HostOs::Windows, Arch::X86_64, &dirs, &|_: &str| true, &|_: &str| None);
    assert!(win[3].path.is_none(), "no swtpm on Windows");
}
