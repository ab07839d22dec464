use virtual_core::argv::{icount_shift, qemu_argv, qemu_img_create, render, HostContext};
use virtual_core::builtin::builtin_profiles;
use virtual_core::model::{DiskRef, Engine, Machine, MediaKind, MediaRef, NetworkMode, PortForward, SharedFolder};

fn ctx(accel: Option<&str>) -> HostContext {
    HostContext {
        machine_dir: "/vm/test".into(),
        accel: accel.map(String::from),
        qmp: "/vm/test/qmp.sock".into(),
        uefi_code: Some("/fw/OVMF_CODE.fd".into()),
        uefi_vars: Some("/vm/test/nvram.fd".into()),
        tpm_socket: Some("/vm/test/tpm/sock".into()),
        display_backend: "cocoa".into(),
        audio_backend: "coreaudio".into(),
        process_names: false,
    }
}

fn machine(profile: &str) -> Machine {
    let p = builtin_profiles().into_iter().find(|p| p.id == profile).expect("Profil");
    let mut m = p.instantiate("m1", "Test", "2026-09-10T00:00:00Z");
    if p.default_disk_gb > 0 {
        m.disks.push(DiskRef { id: "d1".into(), size_gb: p.default_disk_gb, ..DiskRef::default() });
    }
    m
}

fn has_pair(a: &[String], flag: &str, value: &str) -> bool {
    a.windows(2).any(|w| w[0] == flag && w[1] == value)
}

#[test]
fn modern_uefi_uses_accel_virtio_and_tpm() {
    let mut m = machine("modern-x86-uefi");
    m.media.push(MediaRef { id: "c".into(), kind: MediaKind::Cdrom, path: "/iso/win11.iso".into(), slot: 0 });
    let a = qemu_argv(&m, &ctx(Some("hvf"))).unwrap();
    assert!(has_pair(&a, "-M", "q35,accel=hvf"));
    assert!(has_pair(&a, "-cpu", "host"));
    assert!(a.iter().any(|x| x.starts_with("if=pflash") && x.contains("OVMF_CODE")));
    assert!(a.iter().any(|x| x.starts_with("virtio-blk-pci,drive=disk0")));
    assert!(a.iter().any(|x| x.contains("/iso/win11.iso") && x.contains("media=cdrom")));
    assert!(a.iter().any(|x| x == "tpm-tis,tpmdev=tpm0"));
    assert!(has_pair(&a, "-netdev", "user,id=net0"));
    assert!(!a.contains(&"-icount".to_string()), "kein icount mit Beschleuniger");
    assert!(!a.contains(&"-snapshot".to_string()));
}

#[test]
fn retro_pc_is_isolated_throttled_and_has_floppy() {
    let m = machine("pc-1996-pentium133");
    let a = qemu_argv(&m, &ctx(None)).unwrap();
    assert!(has_pair(&a, "-M", "pc,accel=tcg"));
    assert!(has_pair(&a, "-cpu", "pentium"));
    assert!(has_pair(&a, "-icount", "shift=1,align=off,sleep=on"));
    assert!(has_pair(&a, "-nic", "none"), "Retro-Profil ohne Netz");
    assert!(has_pair(&a, "-vga", "cirrus"));
    assert!(a.iter().any(|x| x == "sb16,audiodev=snd0"));
    assert!(a.iter().any(|x| x == "adlib,audiodev=snd0"));
    assert!(a.iter().any(|x| x.starts_with("if=floppy")), "leeres Diskettenlaufwerk");
    assert!(a.iter().any(|x| x.contains("/vm/test/disk-0.qcow2") && x.contains("if=ide")));
}

#[test]
fn throwaway_adds_snapshot_flag_and_isolated_restricts() {
    let mut m = machine("pc-1999-pentium3");
    m.isolation.throwaway = true;
    m.network.mode = NetworkMode::Isolated;
    m.network.forwards.push(PortForward { proto: "tcp".into(), host_port: 2222, guest_port: 22 });
    let a = qemu_argv(&m, &ctx(None)).unwrap();
    assert!(a.contains(&"-snapshot".to_string()));
    assert!(has_pair(&a, "-netdev", "user,id=net0,restrict=on,hostfwd=tcp::2222-:22"));
    assert!(a.iter().any(|x| x == "rtl8139,netdev=net0"));
}

#[test]
fn quadra_uses_rom_and_no_device_flags() {
    let mut m = machine("mac-1994-quadra");
    m.media.push(MediaRef { id: "r".into(), kind: MediaKind::Rom, path: "Q800.ROM".into(), slot: 0 });
    let a = qemu_argv(&m, &ctx(None)).unwrap();
    assert!(has_pair(&a, "-M", "q800,accel=tcg"));
    assert!(has_pair(&a, "-bios", "/vm/test/Q800.ROM"));
    assert!(!a.iter().any(|x| x.contains("nubus-macfb")), "Board-Grafik nicht als -device");
    assert!(a.iter().any(|x| x.contains("if=scsi") && x.contains("media=disk")));
}

#[test]
fn uefi_without_firmware_is_an_error() {
    let m = machine("modern-x86-uefi");
    let mut c = ctx(Some("kvm"));
    c.uefi_code = None;
    assert!(qemu_argv(&m, &c).is_err());
}

#[test]
fn every_qemu_profile_builds() {
    for p in builtin_profiles().into_iter().filter(|p| p.engine == Engine::Qemu) {
        let m = machine(&p.id);
        let a = qemu_argv(&m, &ctx(None)).unwrap_or_else(|e| panic!("{}: {e}", p.id));
        assert!(a.iter().any(|x| x.starts_with("unix:/vm/test/qmp.sock")));
        assert!(a.contains(&"-no-user-config".to_string()));
    }
}

#[test]
fn icount_mapping() {
    assert_eq!(icount_shift(100), None);
    assert_eq!(icount_shift(75), Some(1));
    assert_eq!(icount_shift(60), Some(2));
    assert_eq!(icount_shift(30), Some(3));
}

#[test]
fn render_quotes_spaces() {
    let s = render("qemu-system-i386", &["-name".into(), "Win 98".into()]);
    assert_eq!(s, "qemu-system-i386 -name 'Win 98'");
}

#[test]
fn render_escapes_single_quotes_and_keeps_plain_words() {
    let s = render("q", &["a".into(), "it's here".into(), "x\"y".into()]);
    assert_eq!(s, "q a 'it'\\''s here' 'x\"y'");
}

#[test]
fn console_machine_is_no_qemu_machine() {
    let m = machine("console-snes");
    assert_eq!(qemu_argv(&m, &ctx(None)).unwrap_err(), "Keine QEMU-Maschine");
}

#[test]
fn qemu_img_create_takes_at_least_one_gib() {
    assert_eq!(qemu_img_create("/vm/d.qcow2", "qcow2", 0), vec!["create", "-f", "qcow2", "/vm/d.qcow2", "1G"]);
    assert_eq!(qemu_img_create("/vm/d.qcow2", "raw", 64), vec!["create", "-f", "raw", "/vm/d.qcow2", "64G"]);
}

#[test]
fn offline_machine_has_no_nic_and_isolated_shares_stay_read_only() {
    let m = machine("console-nes");
    assert_eq!(m.network.mode, NetworkMode::Off);
    assert!(m.isolation.read_only_shares);
    let m = machine("pc-1992-486");
    let a = qemu_argv(&m, &ctx(None)).unwrap();
    assert!(has_pair(&a, "-nic", "none"));
    assert!(!a.contains(&"-snapshot".to_string()));
}

#[test]
fn isolated_shares_are_read_only() {
    let mut m = machine("modern-x86-uefi");
    m.shared_folders.push(SharedFolder { host_path: "/home/u/data".into(), name: "data".into(), read_only: false });
    m.shared_folders.push(SharedFolder { host_path: "/home/u/iso".into(), name: "iso".into(), read_only: true });
    let a = qemu_argv(&m, &ctx(Some("kvm"))).unwrap();
    assert!(has_pair(&a, "-fsdev", "local,id=fs0,path=/home/u/data,security_model=mapped-xattr"));
    assert!(has_pair(&a, "-fsdev", "local,id=fs1,path=/home/u/iso,security_model=mapped-xattr,readonly=on"));
    m.isolation.read_only_shares = true;
    let a = qemu_argv(&m, &ctx(Some("kvm"))).unwrap();
    assert!(has_pair(&a, "-fsdev", "local,id=fs0,path=/home/u/data,security_model=mapped-xattr,readonly=on"));
    assert!(has_pair(&a, "-device", "virtio-9p-pci,fsdev=fs1,mount_tag=iso"));
}

#[test]
fn floppies_are_read_only_drives() {
    let mut m = machine("pc-1996-pentium133");
    let a = qemu_argv(&m, &ctx(None)).unwrap();
    assert!(has_pair(
        &a,
        "-drive",
        "if=floppy,index=0,media=disk,format=raw,readonly=on,file.driver=null-co,file.read-zeroes=on,file.size=1474560"
    ));
    m.media.push(MediaRef { id: "f".into(), kind: MediaKind::Floppy, path: "boot.img".into(), slot: 0 });
    m.media.push(MediaRef { id: "g".into(), kind: MediaKind::Floppy, path: "/d/data.img".into(), slot: 1 });
    let a = qemu_argv(&m, &ctx(None)).unwrap();
    assert!(has_pair(&a, "-drive", "file=/vm/test/boot.img,if=floppy,index=0,format=raw,readonly=on"));
    assert!(has_pair(&a, "-drive", "file=/d/data.img,if=floppy,index=1,format=raw,readonly=on"));
    assert!(!a.iter().any(|x| x.contains("null-co")), "no empty drive beside an inserted floppy");
    assert!(!a.contains(&"-fda".to_string()));
}

#[test]
fn process_name_only_where_supported() {
    let m = machine("pc-1996-pentium133");
    let a = qemu_argv(&m, &ctx(None)).unwrap();
    assert!(has_pair(&a, "-name", "Test"));
    let mut c = ctx(None);
    c.process_names = true;
    let a = qemu_argv(&m, &c).unwrap();
    assert!(has_pair(&a, "-name", "Test,process=virtual-m1"));
}
