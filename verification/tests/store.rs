use virtual_core::builtin::builtin_profiles;
use virtual_core::image::Analysis;
use virtual_core::image::Layout;
use virtual_core::machines::{
    attach_medium, cd_image_step, detach_medium, find_dir, find_profile, machine_dir_name, machine_name,
    machines_folder, media_kind_for, merge_saved, must_convert, needs_disk, profiles_folder, settings_path, slugify,
    CdStep,
};
use virtual_core::machines::{free_machine_dir, sort_by_name};
use virtual_core::model::{Engine, Machine, MediaKind, MediaRef};

#[test]
fn slugs() {
    assert_eq!(slugify("Windows 98 SE"), "windows-98-se");
    assert_eq!(slugify("Äpfel & Öl"), "apfel-ol");
    assert_eq!(slugify("***"), "maschine");
}

#[test]
fn slug_edges() {
    assert_eq!(slugify("  Straße  "), "strase");
    assert_eq!(slugify("a--b"), "a-b");
    assert_eq!(slugify(""), "maschine");
    assert_eq!(machine_dir_name("test-vm", 1), "test-vm");
    assert_eq!(machine_dir_name("test-vm", 2), "test-vm-2");
    assert_eq!(settings_path("/cfg"), "/cfg/settings.json");
}

#[test]
fn folders_found_by_machine_id() {
    let mut a = Machine::default();
    a.id = "abc".into();
    let mut b = Machine::default();
    b.id = "def".into();
    let entries = vec![("/m/a".to_string(), a), ("/m/b".to_string(), b)];
    assert_eq!(find_dir(&entries, "def").as_deref(), Some("/m/b"));
    assert!(find_dir(&entries, "nope").is_none());
}

#[test]
fn media_kinds_and_conversion_need() {
    assert_eq!(media_kind_for("/a/game.sfc", Engine::Libretro), MediaKind::Rom);
    assert_eq!(media_kind_for("/a/DOS.IMG", Engine::Qemu), MediaKind::Floppy);
    assert_eq!(media_kind_for("/a/x.iso", Engine::Qemu), MediaKind::Cdrom);
    assert!(must_convert("/a/x.NRG"));
    assert!(!must_convert("/a/x.bin"));
}

#[test]
fn cd_images_kept_converted_or_refused() {
    let iso = Analysis { kind: "iso", data_file: "/a/x.iso".into(), layout: None };
    assert!(matches!(cd_image_step("/vm", "/a/x.iso", &Ok(iso)), CdStep::Keep(p) if p == "/a/x.iso"));
    let raw = Analysis {
        kind: "nrg",
        data_file: "/a/x.nrg".into(),
        layout: Some(Layout { sector_size: 2352, data_offset: 16, start: 0, end: 2352 }),
    };
    match cd_image_step("/vm", "/a/x.nrg", &Ok(raw)) {
        CdStep::Convert { dst, stored } => {
            assert_eq!(dst, "/vm/x.iso");
            assert_eq!(stored, "x.iso");
        }
        _ => panic!(),
    }
    assert!(matches!(cd_image_step("/vm", "/a/x.cue", &Err("kaputt".into())), CdStep::Fail(e) if e == "Abbild nicht lesbar: kaputt"));
    assert!(matches!(cd_image_step("/vm", "/a/x.hfs", &Err("kaputt".into())), CdStep::Keep(p) if p == "/a/x.hfs"));
}

#[test]
fn media_change_replaces_the_drive() {
    let mut m = Machine::default();
    m.media.push(MediaRef { id: "1".into(), kind: MediaKind::Cdrom, path: "/a.iso".into(), slot: 0 });
    m.media.push(MediaRef { id: "2".into(), kind: MediaKind::Floppy, path: "/f.img".into(), slot: 0 });
    attach_medium(&mut m, MediaRef { id: "3".into(), kind: MediaKind::Cdrom, path: "/b.iso".into(), slot: 0 }, "t1");
    assert_eq!(m.media.iter().map(|x| x.id.as_str()).collect::<Vec<_>>(), vec!["2", "3"]);
    assert_eq!(m.media_of(MediaKind::Cdrom, 0).unwrap().path, "/b.iso");
    assert_eq!(m.updated_at, "t1");
    detach_medium(&mut m, "2", "t2");
    assert_eq!(m.media.len(), 1);
    assert_eq!(m.updated_at, "t2");
}

#[test]
fn saved_edits_keep_creation_and_profile() {
    let mut stored = Machine::default();
    stored.created_at = "c".into();
    stored.profile_id = "pc-1992-486".into();
    let mut edit = Machine::default();
    edit.name = "Neu".into();
    merge_saved(&mut edit, &stored, "u");
    assert_eq!((edit.created_at.as_str(), edit.profile_id.as_str(), edit.updated_at.as_str()), ("c", "pc-1992-486", "u"));
    edit.profile_id = "other".into();
    merge_saved(&mut edit, &stored, "v");
    assert_eq!(edit.profile_id, "other");
}

#[test]
fn new_machine_names_and_profiles() {
    assert_eq!(machine_name("  Win 98 ").unwrap(), "Win 98");
    assert_eq!(machine_name(" \t").unwrap_err(), "Name fehlt");
    let p = find_profile(builtin_profiles(), "console-gba").unwrap();
    assert_eq!(p.name, "Game Boy Advance");
    assert_eq!(find_profile(builtin_profiles(), "nope").unwrap_err(), "Profil nicht gefunden");
    assert!(needs_disk(Engine::Qemu, 8));
    assert!(!needs_disk(Engine::Libretro, 8));
    assert!(!needs_disk(Engine::Qemu, 0));
}

#[test]
fn machines_folder_setting_or_default() {
    assert_eq!(machines_folder("", "/data/virtual"), "/data/virtual/machines");
    assert_eq!(machines_folder("   ", "/data/virtual"), "/data/virtual/machines");
    assert_eq!(machines_folder("  /vm/store ", "/data/virtual"), "/vm/store");
    assert_eq!(profiles_folder("/cfg/virtual"), "/cfg/virtual/profiles");
}

#[test]
fn free_machine_dir_takes_the_lowest_free_number() {
    let taken = ["/vm/win-98", "/vm/win-98-2"];
    let d = free_machine_dir("/vm", "win-98", &|p: &str| taken.contains(&p));
    assert_eq!(d.as_deref(), Some("/vm/win-98-3"));
    assert_eq!(free_machine_dir("/vm", "dos", &|p: &str| taken.contains(&p)).as_deref(), Some("/vm/dos"));
}

#[test]
fn slugs_are_fixed_points_and_fall_back() {
    for name in ["Windows 98 SE", "Äpfel & Öl", "***", "  Straße  ", "a--b", "PC-1996"] {
        let s = slugify(name);
        assert_eq!(slugify(&s), s, "slug of {name:?}");
    }
    assert_eq!(slugify("!!! ???"), "maschine");
    assert_eq!(slugify(""), "maschine");
    assert_eq!(slugify("日本"), "maschine");
}

#[test]
fn machines_are_listed_by_name_ignoring_case() {
    let entry = |dir: &str, name: &str| {
        let mut m = Machine::default();
        m.name = name.into();
        (dir.to_string(), m)
    };
    let sorted = sort_by_name(vec![
        entry("/a", "beta"),
        entry("/b", "Alpha"),
        entry("/c", "BETA"),
        entry("/d", "alpha 2"),
        entry("/e", "Äther"),
    ]);
    let dirs: Vec<&str> = sorted.iter().map(|(d, _)| d.as_str()).collect();
    assert_eq!(dirs, vec!["/b", "/d", "/a", "/c", "/e"]);
}
