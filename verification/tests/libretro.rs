use virtual_core::builtin::builtin_profiles;
use virtual_core::libretro::{
    core_filename, machine_config, missing_bios, parse_status, resolve_core, retroarch_argv, slot_commands,
    state_filename, LibretroContext,
};
use virtual_core::model::{Machine, MediaKind, MediaRef};

fn ctx() -> LibretroContext {
    LibretroContext {
        machine_dir: "/vm/snes".into(),
        cores_dir: "/cores".into(),
        system_dir: "/system".into(),
        cmd_port: 55400,
        core_ext: "dylib".into(),
    }
}

fn machine() -> Machine {
    let p = builtin_profiles().into_iter().find(|p| p.id == "console-psx").unwrap();
    let mut m = p.instantiate("c1", "PSX", "2026-09-10T00:00:00Z");
    m.media.push(MediaRef { id: "r".into(), kind: MediaKind::Rom, path: "/games/game.cue".into(), slot: 0 });
    m
}

#[test]
fn resolves_primary_then_fallback() {
    let m = machine();
    let c = ctx();
    let cfg = m.libretro.as_ref().unwrap();
    let only_fallback = |p: &str| p.ends_with("pcsx_rearmed_libretro.dylib");
    assert_eq!(resolve_core(cfg, &c, only_fallback).unwrap(), "/cores/pcsx_rearmed_libretro.dylib");
    assert_eq!(resolve_core(cfg, &c, |_: &str| true).unwrap(), "/cores/swanstation_libretro.dylib");
    assert!(resolve_core(cfg, &c, |_: &str| false).is_err());
}

#[test]
fn reports_missing_bios() {
    let m = machine();
    let c = ctx();
    let have_us = |p: &str| p.ends_with("scph5501.bin");
    let missing = missing_bios(m.libretro.as_ref().unwrap(), &c, have_us);
    assert_eq!(missing, vec!["scph5500.bin".to_string(), "scph5502.bin".to_string()]);
}

#[test]
fn builds_argv_and_config() {
    let m = machine();
    let c = ctx();
    let a = retroarch_argv(&m, &c, "/cores/swanstation_libretro.dylib", "/vm/snes/retroarch.cfg").unwrap();
    assert_eq!(a[0], "-L");
    assert!(a.contains(&"--fullscreen".to_string()));
    assert_eq!(a.last().unwrap(), "/games/game.cue");
    let cfg = machine_config(&m, &c);
    assert!(cfg.contains("network_cmd_port = \"55400\""));
    assert!(cfg.contains("system_directory = \"/system\""));
    assert!(cfg.contains("savestate_directory = \"/vm/snes/states\""));
    assert!(cfg.contains("sort_savestates_enable = \"false\""), "States flach im Ordner");
    assert!(cfg.contains("history_list_enable = \"false\""));
    assert!(cfg.contains("quit_press_twice = \"false\""), "QUIT muss beim ersten Mal wirken");
}

#[test]
fn no_rom_is_an_error() {
    let mut m = machine();
    m.media.clear();
    assert!(retroarch_argv(&m, &ctx(), "/c", "/cfg").is_err());
}

#[test]
fn slots_and_states() {
    assert_eq!(slot_commands(0, 2), vec!["STATE_SLOT_PLUS", "STATE_SLOT_PLUS"]);
    assert_eq!(slot_commands(3, 1), vec!["STATE_SLOT_MINUS", "STATE_SLOT_MINUS"]);
    assert!(slot_commands(2, 2).is_empty());
    assert_eq!(state_filename("game", 0), "game.state");
    assert_eq!(state_filename("game", 3), "game.state3");
    assert_eq!(parse_status("GET_STATUS PLAYING snes9x,game,crc32=abcd"), Some("running"));
    assert_eq!(parse_status("GET_STATUS PAUSED x"), Some("paused"));
    assert_eq!(parse_status("nope"), None);
}

#[test]
fn core_file_names_and_contentless_status() {
    assert_eq!(core_filename("snes9x", "so"), "snes9x_libretro.so");
    assert_eq!(parse_status("  GET_STATUS CONTENTLESS"), Some("contentless"));
    assert_eq!(parse_status("GET_STATUS"), None);
    assert_eq!(parse_status("GET_STATUS WEIRD"), None);
}

#[test]
fn missing_core_names_the_primary_core() {
    let m = machine();
    let e = resolve_core(m.libretro.as_ref().unwrap(), &ctx(), |_: &str| false).unwrap_err();
    assert!(e.starts_with("Core „swanstation“ nicht gefunden in /cores"));
}
