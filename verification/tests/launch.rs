use virtual_core::builtin::builtin_profiles;
use virtual_core::detect::HostOs;
use virtual_core::launch::{
    auto_state_file, libretro_context, libretro_preview, machine_missing_bios, missing_bios_error, preview_endpoint,
    qemu_context, qemu_preview, rom_stem, slot_of, state_file, tpm_socket,
};
use virtual_core::model::{Arch, DiskRef, Machine, MediaKind, MediaRef};
use virtual_core::settings::Settings;

fn machine(profile: &str) -> Machine {
    let p = builtin_profiles().into_iter().find(|p| p.id == profile).unwrap();
    let mut m = p.instantiate("m1", "Test VM", "now");
    if p.default_disk_gb > 0 {
        m.disks.push(DiskRef { id: "d1".into(), size_gb: p.default_disk_gb, ..DiskRef::default() });
    }
    m
}

#[test]
fn qemu_context_finds_binary_and_firmware() {
    let m = machine("modern-x86-uefi");
    let dirs: Vec<String> = vec!["/opt/homebrew/bin".into()];
    let have = |p: &str| p == "/opt/homebrew/bin/qemu-system-x86_64" || p.ends_with("edk2-x86_64-code.fd");
    let l = qemu_context(&m, "/vm/a", &Settings::default(), HostOs::MacOs, Arch::X86_64, &dirs, &have, "/vm/a/qmp.sock", None).unwrap();
    assert_eq!(l.binary, "/opt/homebrew/bin/qemu-system-x86_64");
    assert_eq!(l.ctx.accel.as_deref(), Some("hvf"));
    assert_eq!(l.ctx.uefi_code.as_deref(), Some("/opt/homebrew/share/qemu/edk2-x86_64-code.fd"));
    assert_eq!(l.ctx.uefi_vars.as_deref(), Some("/vm/a/nvram.fd"));
    assert!(l.nvram_template.is_none());
    assert_eq!(l.ctx.display_backend, "cocoa");
    assert!(!l.ctx.process_names, "QEMU names its process on Linux only");
    let none = |_: &str| false;
    let e = qemu_context(&m, "/vm/a", &Settings::default(), HostOs::Linux, Arch::X86_64, &dirs, &none, "q", None).unwrap_err();
    assert!(e.starts_with("qemu-system-x86_64 nicht gefunden — "));
    let c = machine("console-nes");
    assert_eq!(
        qemu_context(&c, "/vm/a", &Settings::default(), HostOs::Linux, Arch::X86_64, &dirs, &none, "q", None).unwrap_err(),
        "Maschine ohne QEMU-Architektur"
    );
}

#[test]
fn qemu_preview_renders_the_command_line() {
    let m = machine("pc-1996-pentium133");
    let dirs: Vec<String> = vec!["/usr/bin".into()];
    let have = |p: &str| p == "/usr/bin/qemu-system-i386";
    let s = qemu_preview(&m, "/vm/w98", &Settings::default(), HostOs::Linux, Arch::X86_64, &dirs, &have).unwrap();
    assert!(s.starts_with("/usr/bin/qemu-system-i386 -M pc,accel=kvm"));
    assert!(!s.contains("-icount"));
    assert!(s.contains("-nic none"));
    assert!(s.contains("unix:/vm/w98/qmp.sock,server=on,wait=off"));
    assert!(s.contains("-name 'Test VM,process=virtual-m1'"));
    assert_eq!(preview_endpoint("/vm/w98", HostOs::Windows), "tcp:127.0.0.1:4444");
    assert_eq!(tpm_socket("/vm/w98"), "/vm/w98/tpm/sock");
}

#[test]
fn console_files_and_preview() {
    let mut m = machine("console-psx");
    assert!(rom_stem(&m).is_none());
    m.media.push(MediaRef { id: "r".into(), kind: MediaKind::Rom, path: "/games/Final Fantasy.cue".into(), slot: 0 });
    assert_eq!(rom_stem(&m).as_deref(), Some("Final Fantasy"));
    assert_eq!(state_file(&m, "/vm/psx", 2).as_deref(), Some("/vm/psx/states/Final Fantasy.state2"));
    assert_eq!(auto_state_file("/vm/psx/states/a.state2"), "/vm/psx/states/a.state2.auto");
    assert_eq!(slot_of("7"), Ok(7));
    assert_eq!(slot_of("x").unwrap_err(), "Ungültiger Slot");
    let ctx = libretro_context("/vm/psx", "/cores".into(), "/system".into(), 55355, HostOs::Linux);
    assert_eq!(ctx.core_ext, "so");
    let missing = machine_missing_bios(&m, &ctx, |p: &str| p.ends_with("scph5500.bin"));
    assert_eq!(missing, vec!["scph5501.bin".to_string(), "scph5502.bin".to_string()]);
    assert_eq!(missing_bios_error("/system", &missing), "BIOS-Dateien fehlen im System-Ordner /system: scph5501.bin, scph5502.bin");
    let s = libretro_preview(&m, &ctx, Some("/usr/bin/retroarch".into()), HostOs::Linux, |_: &str| true).unwrap();
    assert_eq!(
        s,
        "/usr/bin/retroarch -L /cores/swanstation_libretro.so --appendconfig /vm/psx/retroarch.cfg --verbose --fullscreen '/games/Final Fantasy.cue'"
    );
    let e = libretro_preview(&m, &ctx, None, HostOs::Linux, |_: &str| true).unwrap_err();
    assert!(e.starts_with("retroarch nicht gefunden — "));
    let pc = machine("pc-2003-xp");
    assert_eq!(libretro_preview(&pc, &ctx, None, HostOs::Linux, |_: &str| true).unwrap_err(), "Keine Konsolen-Maschine");
    assert!(machine_missing_bios(&pc, &ctx, |_: &str| false).is_empty());
}
