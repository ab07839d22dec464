use virtual_core::builtin::{builtin_profiles, load_profiles};
use virtual_core::model::{Engine, NetworkMode};
use virtual_core::profile::merge_profiles;

#[test]
fn builtin_profiles_parse_and_are_unique() {
    let all = builtin_profiles();
    assert!(all.len() >= 20);
    let mut ids: Vec<&str> = all.iter().map(|p| p.id.as_str()).collect();
    ids.sort();
    ids.dedup();
    assert_eq!(ids.len(), all.len(), "doppelte Profil-Id");
    for p in &all {
        assert!(!p.name.is_empty());
        assert!(matches!(p.category.as_str(), "modern" | "retro-pc" | "retro-mac" | "other-arch" | "console"));
        match p.engine {
            Engine::Qemu => {
                assert!(p.arch.qemu_binary().is_some(), "{}: Arch fehlt", p.id);
                assert!(!p.machine_type.is_empty(), "{}: machineType fehlt", p.id);
                assert!(p.memory_mb > 0);
            }
            Engine::Libretro => {
                let l = p.libretro.as_ref().expect("Konsole ohne libretro-Block");
                assert!(!l.core.is_empty());
                assert!(!l.extensions.is_empty(), "{}: extensions fehlen", p.id);
            }
        }
    }
}

#[test]
fn retro_profiles_start_isolated() {
    for p in builtin_profiles() {
        if matches!(p.category.as_str(), "retro-pc" | "retro-mac" | "console") {
            assert_eq!(p.network.mode, NetworkMode::Off, "{}: Retro-Profil mit Netz", p.id);
            assert!(p.isolation.read_only_shares, "{}: Ordner nicht schreibgeschützt", p.id);
        }
    }
}

#[test]
fn user_profile_overrides_builtin() {
    let mut p = builtin_profiles().remove(0);
    p.name = "eigen".into();
    let id = p.id.clone();
    let all = load_profiles(vec![p]);
    assert_eq!(all.iter().filter(|x| x.id == id).count(), 1);
    assert_eq!(all.iter().find(|x| x.id == id).unwrap().name, "eigen");
}

#[test]
fn instantiate_copies_hardware() {
    let p = builtin_profiles().into_iter().find(|p| p.id == "pc-1996-pentium133").unwrap();
    let m = p.instantiate("m1", "Win98", "2026-09-10T00:00:00Z");
    assert_eq!(m.machine_type, "pc");
    assert_eq!(m.cpu.model, "pentium");
    assert_eq!(m.network.mode, NetworkMode::Off);
    assert!(m.devices.floppy);
}

#[test]
fn new_user_profile_joins_and_nameless_one_is_ignored() {
    let base = builtin_profiles().len();
    let mut a = builtin_profiles().remove(1);
    a.id = "my-own".into();
    let mut b = builtin_profiles().remove(2);
    b.id = String::new();
    let all = load_profiles(vec![a, b]);
    assert_eq!(all.len(), base + 1);
    assert_eq!(all.last().unwrap().id, "my-own");
}

#[test]
fn last_user_profile_with_an_id_wins() {
    let mut a = builtin_profiles().remove(0);
    a.name = "first".into();
    let mut b = builtin_profiles().remove(0);
    b.name = "second".into();
    let id = a.id.clone();
    let all = merge_profiles(builtin_profiles(), vec![a, b]);
    assert_eq!(all.iter().filter(|x| x.id == id).count(), 1);
    assert_eq!(all[0].name, "second");
}

#[test]
fn instantiated_console_takes_the_core() {
    let p = builtin_profiles().into_iter().find(|p| p.id == "console-nes").unwrap();
    let m = p.instantiate("n1", "NES", "now");
    let l = m.libretro.unwrap();
    assert_eq!(l.core, "mesen");
    assert_eq!(l.fallback_core.as_deref(), Some("nestopia"));
    assert_eq!(l.state_slot, 0);
    assert_eq!(m.boot, "auto");
    assert_eq!(m.created_at, "now");
}

#[test]
fn pentium_133_hardware() {
    let p = builtin_profiles().into_iter().find(|p| p.id == "pc-1996-pentium133").unwrap();
    assert_eq!(p.name, "PC 1996 — Pentium 133");
    assert_eq!((p.cpu.model.as_str(), p.cpu.clock_percent, p.memory_mb), ("pentium", 75, 64));
    assert_eq!(p.devices.graphics, "cirrus-vga");
    assert_eq!(p.devices.audio, vec!["sb16".to_string(), "adlib".to_string()]);
    assert_eq!(p.devices.nic, "ne2k_isa");
    assert_eq!(p.devices.storage_bus, "ide");
    assert!(p.devices.floppy);
    assert_eq!(p.default_disk_gb, 4);
}
