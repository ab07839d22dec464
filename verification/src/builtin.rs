//! The built-in machine profiles, in the order the new-machine assistant shows them.
use vstd::prelude::*;
use crate::model::{Engine, Arch, Cpu, Firmware, Devices, Network, NetworkMode, Isolation, Display, PortForward,
    spec_qemu_binary};
use crate::profile::{Profile, ProfileView, ProfileLibretroView, ProfileOs, ProfileLibretro, ids_unique, has_id, merge_profiles, overlay_all,
    lemma_overlay_all, lemma_overlay_all_last};
use crate::detect::views;

verus! {

/// A list of strings from literals.
pub fn strings(items: &[&str]) -> (r: Vec<String>)
    ensures
        r@.len() == items@.len(),
        forall|i: int| 0 <= i < items@.len() ==> #[trigger] r@[i]@ == items@[i]@,
{
    let mut out: Vec<String> = Vec::new();
    let mut i: usize = 0;
    while i < items.len()
        invariant
            i <= items@.len(),
            out@.len() == i,
            forall|j: int| 0 <= j < i ==> #[trigger] out@[j]@ == items@[j]@,
        decreases items@.len() - i,
    {
        out.push(String::from_str(items[i]));
        i = i + 1;
    }
    out
}

/// The categories a profile can belong to.
pub open spec fn known_category(c: Seq<char>) -> bool {
    c == "modern"@ || c == "retro-pc"@ || c == "retro-mac"@ || c == "other-arch"@ || c == "console"@
}

/// Retro machines and consoles.
pub open spec fn retro_category(c: Seq<char>) -> bool {
    c == "retro-pc"@ || c == "retro-mac"@ || c == "console"@
}

/// What every built-in profile satisfies: a known category and a name; QEMU machines
/// with an emulator binary, a board and memory; consoles with a core and ROM
/// extensions; retro machines and consoles without network and with read-only shares.
pub open spec fn well_formed_profile(p: Profile) -> bool {
    &&& known_category(p.category@)
    &&& p.name@.len() > 0
    &&& p.id@.len() > 0
    &&& (p.engine == Engine::Qemu ==> spec_qemu_binary(p.arch) is Some && p.machine_type@.len() > 0 && p.memory_mb > 0)
    &&& (p.engine == Engine::Libretro ==> (p.libretro matches Some(l) && l.core@.len() > 0 && l.extensions@.len() > 0))
    &&& (retro_category(p.category@) ==> p.network.mode == NetworkMode::Off && p.isolation.read_only_shares)
}

/// Hardware of a QEMU profile.
pub struct Hw<'a> {
    pub arch: Arch,
    pub machine_type: &'a str,
    pub cpu: &'a str,
    pub cores: u32,
    pub clock_percent: u32,
    pub memory_mb: u32,
    pub firmware: Firmware,
    pub tpm: bool,
    pub graphics: &'a str,
    pub audio: &'a [&'a str],
    pub nic: &'a str,
    pub storage_bus: &'a str,
    pub floppy: bool,
    pub input: &'a str,
    pub network: NetworkMode,
    pub disk_gb: u32,
    pub needs_rom: bool,
}

/// Descriptive part of a profile.
pub struct Info<'a> {
    pub id: &'a str,
    pub name: &'a str,
    pub epoch: u32,
    pub category: &'a str,
    pub family: &'a str,
    pub versions: &'a [&'a str],
    pub hint: &'a str,
    pub tier: &'a str,
    pub beta: bool,
}

/// The characters of each literal of a list.
pub open spec fn texts_of(s: Seq<&str>) -> Seq<Seq<char>> {
    s.map_values(|x: &str| x@)
}

/// The descriptive part of a profile, as values.
pub struct InfoView {
    pub id: Seq<char>,
    pub name: Seq<char>,
    pub epoch: u32,
    pub category: Seq<char>,
    pub family: Seq<char>,
    pub versions: Seq<Seq<char>>,
    pub hint: Seq<char>,
    pub tier: Seq<char>,
    pub beta: bool,
}

/// The hardware of a QEMU profile, as values.
pub struct HwView {
    pub arch: Arch,
    pub machine_type: Seq<char>,
    pub cpu: Seq<char>,
    pub cores: u32,
    pub clock_percent: u32,
    pub memory_mb: u32,
    pub firmware: Firmware,
    pub tpm: bool,
    pub graphics: Seq<char>,
    pub audio: Seq<Seq<char>>,
    pub nic: Seq<char>,
    pub storage_bus: Seq<char>,
    pub floppy: bool,
    pub input: Seq<char>,
    pub network: NetworkMode,
    pub disk_gb: u32,
    pub needs_rom: bool,
}

pub open spec fn info_view(i: Info) -> InfoView {
    InfoView {
        id: i.id@,
        name: i.name@,
        epoch: i.epoch,
        category: i.category@,
        family: i.family@,
        versions: texts_of(i.versions@),
        hint: i.hint@,
        tier: i.tier@,
        beta: i.beta,
    }
}

pub open spec fn hw_view(h: Hw) -> HwView {
    HwView {
        arch: h.arch,
        machine_type: h.machine_type@,
        cpu: h.cpu@,
        cores: h.cores,
        clock_percent: h.clock_percent,
        memory_mb: h.memory_mb,
        firmware: h.firmware,
        tpm: h.tpm,
        graphics: h.graphics@,
        audio: texts_of(h.audio@),
        nic: h.nic@,
        storage_bus: h.storage_bus@,
        floppy: h.floppy,
        input: h.input@,
        network: h.network,
        disk_gb: h.disk_gb,
        needs_rom: h.needs_rom,
    }
}

/// A QEMU profile from its description and hardware: no port forwards, no proxy; no
/// network means read-only shares; never throw-away; an engine window without GL at
/// HiDPI; no notes.
pub open spec fn qemu_profile_view(i: InfoView, h: HwView) -> ProfileView {
    ProfileView {
        id: i.id,
        name: i.name,
        epoch: i.epoch,
        category: i.category,
        os_family: i.family,
        os_versions: i.versions,
        os_hint: i.hint,
        engine: Engine::Qemu,
        arch: h.arch,
        machine_type: h.machine_type,
        cpu_model: h.cpu,
        cores: h.cores,
        clock_percent: h.clock_percent,
        memory_mb: h.memory_mb,
        firmware: h.firmware,
        tpm: h.tpm,
        graphics: h.graphics,
        audio: h.audio,
        nic: h.nic,
        storage_bus: h.storage_bus,
        floppy: h.floppy,
        input: h.input,
        network_mode: h.network,
        forwards: Seq::empty(),
        proxy: false,
        isolation: Isolation { throwaway: false, read_only_shares: h.network == NetworkMode::Off },
        display_kind: "window"@,
        gl: false,
        hidpi: true,
        fullscreen: false,
        tier: i.tier,
        beta: i.beta,
        notes: Seq::empty(),
        default_disk_gb: h.disk_gb,
        needs_rom: h.needs_rom,
        libretro: None,
    }
}

/// A console profile from its description and core: RetroArch, no QEMU hardware, no
/// network, read-only shares, fullscreen, no disk.
pub open spec fn console_profile_view(i: InfoView, core: Seq<char>, fallback: Option<Seq<char>>,
    bios: Seq<Seq<char>>, extensions: Seq<Seq<char>>) -> ProfileView {
    ProfileView {
        id: i.id,
        name: i.name,
        epoch: i.epoch,
        category: "console"@,
        os_family: i.family,
        os_versions: i.versions,
        os_hint: i.hint,
        engine: Engine::Libretro,
        arch: Arch::NoArch,
        machine_type: Seq::empty(),
        cpu_model: Seq::empty(),
        cores: 1,
        clock_percent: 100,
        memory_mb: 0,
        firmware: Firmware::Bios,
        tpm: false,
        graphics: Seq::empty(),
        audio: Seq::empty(),
        nic: Seq::empty(),
        storage_bus: Seq::empty(),
        floppy: false,
        input: Seq::empty(),
        network_mode: NetworkMode::Off,
        forwards: Seq::empty(),
        proxy: false,
        isolation: Isolation { throwaway: false, read_only_shares: true },
        display_kind: "window"@,
        gl: false,
        hidpi: true,
        fullscreen: true,
        tier: i.tier,
        beta: i.beta,
        notes: Seq::empty(),
        default_disk_gb: 0,
        needs_rom: false,
        libretro: Some(ProfileLibretroView { core, fallback_core: fallback, bios, extensions }),
    }
}

fn strings_of(items: &[&str]) -> (r: Vec<String>)
    ensures
        views(r@) == texts_of(items@),
{
    let r = strings(items);
    assert(views(r@) =~= texts_of(items@));
    r
}

fn profile_os(info: &Info) -> (r: ProfileOs)
    ensures
        r.family@ == info.family@,
        views(r.versions@) == texts_of(info.versions@),
        r.hint@ == info.hint@,
{
    ProfileOs { family: String::from_str(info.family), versions: strings_of(info.versions), hint: String::from_str(info.hint) }
}

/// A QEMU profile; retro machines get no network, read-only shares and a throw-away offer off.
fn qemu_profile(info: Info, hw: Hw) -> (p: Profile)
    requires
        info.id@.len() > 0,
        info.name@.len() > 0,
        known_category(info.category@),
        spec_qemu_binary(hw.arch) is Some,
        hw.machine_type@.len() > 0,
        hw.memory_mb > 0,
        retro_category(info.category@) ==> hw.network == NetworkMode::Off,
    ensures
        well_formed_profile(p),
        p@ == qemu_profile_view(info_view(info), hw_view(hw)),
{
    let audio = strings_of(hw.audio);
    let forwards: Vec<PortForward> = Vec::new();
    let p = Profile {
        id: String::from_str(info.id),
        name: String::from_str(info.name),
        epoch: info.epoch,
        category: String::from_str(info.category),
        os: profile_os(&info),
        engine: Engine::Qemu,
        arch: hw.arch,
        machine_type: String::from_str(hw.machine_type),
        cpu: Cpu { model: String::from_str(hw.cpu), cores: hw.cores, clock_percent: hw.clock_percent },
        memory_mb: hw.memory_mb,
        firmware: hw.firmware,
        tpm: hw.tpm,
        devices: Devices {
            graphics: String::from_str(hw.graphics),
            audio,
            nic: String::from_str(hw.nic),
            storage_bus: String::from_str(hw.storage_bus),
            floppy: hw.floppy,
            input: String::from_str(hw.input),
        },
        network: Network { mode: hw.network, forwards, proxy: false },
        isolation: Isolation { throwaway: false, read_only_shares: hw.network == NetworkMode::Off },
        display: Display { kind: String::from_str("window"), gl: false, hidpi: true, fullscreen: false },
        tier: String::from_str(info.tier),
        beta: info.beta,
        notes: String::new(),
        default_disk_gb: hw.disk_gb,
        needs_rom: hw.needs_rom,
        libretro: None,
    };
    assert(p.network.forwards@.map_values(|f: PortForward| (f.proto@, f.host_port, f.guest_port))
        =~= Seq::<(Seq<char>, u16, u16)>::empty());
    assert(p@ =~= qemu_profile_view(info_view(info), hw_view(hw)));
    p
}

/// A console profile: RetroArch with a core, offline, read-only shares, fullscreen.
fn console_profile(info: Info, core: &str, fallback: Option<&str>, bios: &[&str], extensions: &[&str]) -> (p: Profile)
    requires
        info.id@.len() > 0,
        info.name@.len() > 0,
        core@.len() > 0,
        extensions@.len() > 0,
    ensures
        well_formed_profile(p),
        p@ == console_profile_view(info_view(info), core@,
            (match fallback { Some(f) => Some(f@), None => None }), texts_of(bios@), texts_of(extensions@)),
{
    let b = strings_of(bios);
    let ext = strings_of(extensions);
    let forwards: Vec<PortForward> = Vec::new();
    let p = Profile {
        id: String::from_str(info.id),
        name: String::from_str(info.name),
        epoch: info.epoch,
        category: String::from_str("console"),
        os: profile_os(&info),
        engine: Engine::Libretro,
        arch: Arch::NoArch,
        machine_type: String::new(),
        cpu: Cpu { model: String::new(), cores: 1, clock_percent: 100 },
        memory_mb: 0,
        firmware: Firmware::Bios,
        tpm: false,
        devices: Devices {
            graphics: String::new(),
            audio: Vec::new(),
            nic: String::new(),
            storage_bus: String::new(),
            floppy: false,
            input: String::new(),
        },
        network: Network { mode: NetworkMode::Off, forwards, proxy: false },
        isolation: Isolation { throwaway: false, read_only_shares: true },
        display: Display { kind: String::from_str("window"), gl: false, hidpi: true, fullscreen: true },
        tier: String::from_str(info.tier),
        beta: info.beta,
        notes: String::new(),
        default_disk_gb: 0,
        needs_rom: false,
        libretro: Some(ProfileLibretro {
            core: String::from_str(core),
            fallback_core: match fallback {
                Some(f) => Some(String::from_str(f)),
                None => None,
            },
            bios: b,
            extensions: ext,
        }),
    };
    proof {
        reveal_strlit("console");
        lemma_categories();
    }
    assert(p.network.forwards@.map_values(|f: PortForward| (f.proto@, f.host_port, f.guest_port))
        =~= Seq::<(Seq<char>, u16, u16)>::empty());
    assert(views(p.devices.audio@) =~= Seq::<Seq<char>>::empty());
    assert(views(ext@).len() == ext@.len());
    assert(p@ =~= console_profile_view(info_view(info), core@,
        (match fallback { Some(f) => Some(f@), None => None }), texts_of(bios@), texts_of(extensions@)));
    p
}


/// Ids of the built-in profiles, in order.
pub open spec fn builtin_ids() -> Seq<Seq<char>> {
    seq![
        "modern-x86-uefi"@,
        "modern-x86-bios"@,
        "modern-arm-uefi"@,
        "pc-1992-486"@,
        "pc-1996-pentium133"@,
        "pc-1999-pentium3"@,
        "pc-2003-xp"@,
        "mac-1994-quadra"@,
        "mac-1999-g3"@,
        "linux-riscv"@,
        "linux-mips"@,
        "console-nes"@,
        "console-snes"@,
        "console-gameboy"@,
        "console-gba"@,
        "console-megadrive"@,
        "console-pce"@,
        "console-n64"@,
        "console-psx"@,
        "console-psp"@,
        "console-nds"@,
        "console-saturn"@,
        "console-dreamcast"@,
        "console-arcade"@,
        "console-atari2600"@,
        "console-msx"@,
        "console-dos"@
    ]
}

/// No two built-in profiles share an id.
pub proof fn lemma_builtin_ids_distinct()
    ensures
        builtin_ids().len() == 27,
        forall|i: int, j: int| 0 <= i < j < builtin_ids().len() ==> builtin_ids()[i] != builtin_ids()[j],
{
    reveal_strlit("modern-x86-uefi");
    assert("modern-x86-uefi"@.len() == 15 && "modern-x86-uefi"@[0] == 'm' && "modern-x86-uefi"@[7] == 'x' && "modern-x86-uefi"@[8] == '8' && "modern-x86-uefi"@[9] == '6' && "modern-x86-uefi"@[10] == '-' && "modern-x86-uefi"@[11] == 'u');
    reveal_strlit("modern-x86-bios");
    assert("modern-x86-bios"@.len() == 15 && "modern-x86-bios"@[0] == 'm' && "modern-x86-bios"@[7] == 'x' && "modern-x86-bios"@[8] == '8' && "modern-x86-bios"@[9] == '6' && "modern-x86-bios"@[10] == '-' && "modern-x86-bios"@[11] == 'b');
    reveal_strlit("modern-arm-uefi");
    assert("modern-arm-uefi"@.len() == 15 && "modern-arm-uefi"@[0] == 'm' && "modern-arm-uefi"@[7] == 'a' && "modern-arm-uefi"@[8] == 'r' && "modern-arm-uefi"@[9] == 'm' && "modern-arm-uefi"@[10] == '-' && "modern-arm-uefi"@[11] == 'u');
    reveal_strlit("pc-1992-486");
    assert("pc-1992-486"@.len() == 11 && "pc-1992-486"@[0] == 'p' && "pc-1992-486"@[7] == '-' && "pc-1992-486"@[8] == '4' && "pc-1992-486"@[9] == '8' && "pc-1992-486"@[10] == '6');
    reveal_strlit("pc-1996-pentium133");
    assert("pc-1996-pentium133"@.len() == 18 && "pc-1996-pentium133"@[0] == 'p' && "pc-1996-pentium133"@[7] == '-' && "pc-1996-pentium133"@[8] == 'p' && "pc-1996-pentium133"@[9] == 'e' && "pc-1996-pentium133"@[10] == 'n' && "pc-1996-pentium133"@[11] == 't');
    reveal_strlit("pc-1999-pentium3");
    assert("pc-1999-pentium3"@.len() == 16 && "pc-1999-pentium3"@[0] == 'p' && "pc-1999-pentium3"@[7] == '-' && "pc-1999-pentium3"@[8] == 'p' && "pc-1999-pentium3"@[9] == 'e' && "pc-1999-pentium3"@[10] == 'n' && "pc-1999-pentium3"@[11] == 't');
    reveal_strlit("pc-2003-xp");
    assert("pc-2003-xp"@.len() == 10 && "pc-2003-xp"@[0] == 'p' && "pc-2003-xp"@[7] == '-' && "pc-2003-xp"@[8] == 'x' && "pc-2003-xp"@[9] == 'p');
    reveal_strlit("mac-1994-quadra");
    assert("mac-1994-quadra"@.len() == 15 && "mac-1994-quadra"@[0] == 'm' && "mac-1994-quadra"@[7] == '4' && "mac-1994-quadra"@[8] == '-' && "mac-1994-quadra"@[9] == 'q' && "mac-1994-quadra"@[10] == 'u' && "mac-1994-quadra"@[11] == 'a');
    reveal_strlit("mac-1999-g3");
    assert("mac-1999-g3"@.len() == 11 && "mac-1999-g3"@[0] == 'm' && "mac-1999-g3"@[7] == '9' && "mac-1999-g3"@[8] == '-' && "mac-1999-g3"@[9] == 'g' && "mac-1999-g3"@[10] == '3');
    reveal_strlit("linux-riscv");
    assert("linux-riscv"@.len() == 11 && "linux-riscv"@[0] == 'l' && "linux-riscv"@[7] == 'i' && "linux-riscv"@[8] == 's' && "linux-riscv"@[9] == 'c' && "linux-riscv"@[10] == 'v');
    reveal_strlit("linux-mips");
    assert("linux-mips"@.len() == 10 && "linux-mips"@[0] == 'l' && "linux-mips"@[7] == 'i' && "linux-mips"@[8] == 'p' && "linux-mips"@[9] == 's');
    reveal_strlit("console-nes");
    assert("console-nes"@.len() == 11 && "console-nes"@[0] == 'c' && "console-nes"@[7] == '-' && "console-nes"@[8] == 'n' && "console-nes"@[9] == 'e' && "console-nes"@[10] == 's');
    reveal_strlit("console-snes");
    assert("console-snes"@.len() == 12 && "console-snes"@[0] == 'c' && "console-snes"@[7] == '-' && "console-snes"@[8] == 's' && "console-snes"@[9] == 'n' && "console-snes"@[10] == 'e' && "console-snes"@[11] == 's');
    reveal_strlit("console-gameboy");
    assert("console-gameboy"@.len() == 15 && "console-gameboy"@[0] == 'c' && "console-gameboy"@[7] == '-' && "console-gameboy"@[8] == 'g' && "console-gameboy"@[9] == 'a' && "console-gameboy"@[10] == 'm' && "console-gameboy"@[11] == 'e');
    reveal_strlit("console-gba");
    assert("console-gba"@.len() == 11 && "console-gba"@[0] == 'c' && "console-gba"@[7] == '-' && "console-gba"@[8] == 'g' && "console-gba"@[9] == 'b' && "console-gba"@[10] == 'a');
    reveal_strlit("console-megadrive");
    assert("console-megadrive"@.len() == 17 && "console-megadrive"@[0] == 'c' && "console-megadrive"@[7] == '-' && "console-megadrive"@[8] == 'm' && "console-megadrive"@[9] == 'e' && "console-megadrive"@[10] == 'g' && "console-megadrive"@[11] == 'a');
    reveal_strlit("console-pce");
    assert("console-pce"@.len() == 11 && "console-pce"@[0] == 'c' && "console-pce"@[7] == '-' && "console-pce"@[8] == 'p' && "console-pce"@[9] == 'c' && "console-pce"@[10] == 'e');
    reveal_strlit("console-n64");
    assert("console-n64"@.len() == 11 && "console-n64"@[0] == 'c' && "console-n64"@[7] == '-' && "console-n64"@[8] == 'n' && "console-n64"@[9] == '6' && "console-n64"@[10] == '4');
    reveal_strlit("console-psx");
    assert("console-psx"@.len() == 11 && "console-psx"@[0] == 'c' && "console-psx"@[7] == '-' && "console-psx"@[8] == 'p' && "console-psx"@[9] == 's' && "console-psx"@[10] == 'x');
    reveal_strlit("console-psp");
    assert("console-psp"@.len() == 11 && "console-psp"@[0] == 'c' && "console-psp"@[7] == '-' && "console-psp"@[8] == 'p' && "console-psp"@[9] == 's' && "console-psp"@[10] == 'p');
    reveal_strlit("console-nds");
    assert("console-nds"@.len() == 11 && "console-nds"@[0] == 'c' && "console-nds"@[7] == '-' && "console-nds"@[8] == 'n' && "console-nds"@[9] == 'd' && "console-nds"@[10] == 's');
    reveal_strlit("console-saturn");
    assert("console-saturn"@.len() == 14 && "console-saturn"@[0] == 'c' && "console-saturn"@[7] == '-' && "console-saturn"@[8] == 's' && "console-saturn"@[9] == 'a' && "console-saturn"@[10] == 't' && "console-saturn"@[11] == 'u');
    reveal_strlit("console-dreamcast");
    assert("console-dreamcast"@.len() == 17 && "console-dreamcast"@[0] == 'c' && "console-dreamcast"@[7] == '-' && "console-dreamcast"@[8] == 'd' && "console-dreamcast"@[9] == 'r' && "console-dreamcast"@[10] == 'e' && "console-dreamcast"@[11] == 'a');
    reveal_strlit("console-arcade");
    assert("console-arcade"@.len() == 14 && "console-arcade"@[0] == 'c' && "console-arcade"@[7] == '-' && "console-arcade"@[8] == 'a' && "console-arcade"@[9] == 'r' && "console-arcade"@[10] == 'c' && "console-arcade"@[11] == 'a');
    reveal_strlit("console-atari2600");
    assert("console-atari2600"@.len() == 17 && "console-atari2600"@[0] == 'c' && "console-atari2600"@[7] == '-' && "console-atari2600"@[8] == 'a' && "console-atari2600"@[9] == 't' && "console-atari2600"@[10] == 'a' && "console-atari2600"@[11] == 'r');
    reveal_strlit("console-msx");
    assert("console-msx"@.len() == 11 && "console-msx"@[0] == 'c' && "console-msx"@[7] == '-' && "console-msx"@[8] == 'm' && "console-msx"@[9] == 's' && "console-msx"@[10] == 'x');
    reveal_strlit("console-dos");
    assert("console-dos"@.len() == 11 && "console-dos"@[0] == 'c' && "console-dos"@[7] == '-' && "console-dos"@[8] == 'd' && "console-dos"@[9] == 'o' && "console-dos"@[10] == 's');
    assert forall|i: int, j: int| 0 <= i < j < builtin_ids().len() implies builtin_ids()[i] != builtin_ids()[j] by {
        assert(i == 0 || i == 1 || i == 2 || i == 3 || i == 4 || i == 5 || i == 6 || i == 7 || i == 8 || i == 9 || i == 10 || i == 11 || i == 12 || i == 13 || i == 14 || i == 15 || i == 16 || i == 17 || i == 18 || i == 19 || i == 20 || i == 21 || i == 22 || i == 23 || i == 24 || i == 25 || i == 26);
        assert(j == 0 || j == 1 || j == 2 || j == 3 || j == 4 || j == 5 || j == 6 || j == 7 || j == 8 || j == 9 || j == 10 || j == 11 || j == 12 || j == 13 || j == 14 || j == 15 || j == 16 || j == 17 || j == 18 || j == 19 || j == 20 || j == 21 || j == 22 || j == 23 || j == 24 || j == 25 || j == 26);
    }
}


/// The five category names are pairwise different.
proof fn lemma_categories()
    ensures
        retro_category("retro-pc"@),
        retro_category("retro-mac"@),
        retro_category("console"@),
        known_category("modern"@),
        known_category("other-arch"@),
        !retro_category("modern"@),
        !retro_category("other-arch"@),
{
    reveal_strlit("modern");
    reveal_strlit("retro-pc");
    reveal_strlit("retro-mac");
    reveal_strlit("other-arch");
    reveal_strlit("console");
    assert("modern"@.len() == 6 && "retro-pc"@.len() == 8 && "retro-mac"@.len() == 9);
    assert("other-arch"@.len() == 10 && "console"@.len() == 7);
}

/// Current PCs and ARM machines (virtualised when the host matches).
fn modern_profiles() -> (v: Vec<Profile>)
    ensures
        v@.len() == 3,
        forall|i: int| 0 <= i < v@.len() ==> well_formed_profile(#[trigger] v@[i]),
        forall|i: int| 0 <= i < v@.len() ==> #[trigger] v@[i].id@ == builtin_ids()[0 + i],
        v@.map_values(|p: Profile| p@) == spec_modern_profiles(),
{
    proof {
        lemma_categories();
    }
    let mut v: Vec<Profile> = Vec::new();
    let versions: &[&str] = &["Windows 11", "Windows 10", "Ubuntu", "Fedora", "FreeBSD"];
    let audio: &[&str] = &["intel-hda"];
    proof {
        reveal_strlit("modern-x86-uefi");
        reveal_strlit("Moderner PC (UEFI, TPM 2.0)");
        reveal_strlit("q35");
        assert(texts_of(versions@) =~= seq!["Windows 11"@, "Windows 10"@, "Ubuntu"@, "Fedora"@, "FreeBSD"@]);
        assert(texts_of(audio@) =~= seq!["intel-hda"@]);
    }
    v.push(qemu_profile(
        Info { id: "modern-x86-uefi", name: "Moderner PC (UEFI, TPM 2.0)", epoch: 0, category: "modern", family: "Windows / Linux / BSD",
            versions, hint: "Windows 11 braucht UEFI und TPM 2.0 — beides ist eingeschaltet.", tier: "free", beta: false },
        Hw { arch: Arch::X86_64, machine_type: "q35", cpu: "host", cores: 4, clock_percent: 100, memory_mb: 8192,
            firmware: Firmware::Uefi, tpm: true, graphics: "virtio-vga", audio, nic: "virtio-net-pci", storage_bus: "virtio",
            floppy: false, input: "usb", network: NetworkMode::Nat, disk_gb: 64, needs_rom: false },
    ));
    assert(v@[0]@ == profile_modern_x86_uefi());
    let versions: &[&str] = &["Windows 7", "Linux", "FreeBSD", "Haiku", "ReactOS"];
    let audio: &[&str] = &["intel-hda"];
    proof {
        reveal_strlit("modern-x86-bios");
        reveal_strlit("Moderner PC (BIOS)");
        reveal_strlit("q35");
        assert(texts_of(versions@) =~= seq!["Windows 7"@, "Linux"@, "FreeBSD"@, "Haiku"@, "ReactOS"@]);
        assert(texts_of(audio@) =~= seq!["intel-hda"@]);
    }
    v.push(qemu_profile(
        Info { id: "modern-x86-bios", name: "Moderner PC (BIOS)", epoch: 0, category: "modern", family: "Linux / BSD / ältere Windows",
            versions, hint: "", tier: "free", beta: false },
        Hw { arch: Arch::X86_64, machine_type: "q35", cpu: "host", cores: 2, clock_percent: 100, memory_mb: 4096,
            firmware: Firmware::Bios, tpm: false, graphics: "virtio-vga", audio, nic: "virtio-net-pci", storage_bus: "virtio",
            floppy: false, input: "usb", network: NetworkMode::Nat, disk_gb: 32, needs_rom: false },
    ));
    assert(v@[1]@ == profile_modern_x86_bios());
    let versions: &[&str] = &["Windows 11 ARM", "Ubuntu ARM", "Fedora ARM"];
    let audio: &[&str] = &["intel-hda"];
    proof {
        reveal_strlit("modern-arm-uefi");
        reveal_strlit("ARM-Rechner (UEFI)");
        reveal_strlit("virt");
        assert(texts_of(versions@) =~= seq!["Windows 11 ARM"@, "Ubuntu ARM"@, "Fedora ARM"@]);
        assert(texts_of(audio@) =~= seq!["intel-hda"@]);
    }
    v.push(qemu_profile(
        Info { id: "modern-arm-uefi", name: "ARM-Rechner (UEFI)", epoch: 0, category: "modern", family: "Windows 11 ARM / Linux",
            versions, hint: "Auf x86-Hosts läuft ARM ohne Beschleuniger langsam.", tier: "free", beta: false },
        Hw { arch: Arch::Aarch64, machine_type: "virt", cpu: "host", cores: 4, clock_percent: 100, memory_mb: 8192,
            firmware: Firmware::Uefi, tpm: true, graphics: "virtio-gpu-pci", audio, nic: "virtio-net-pci", storage_bus: "virtio",
            floppy: false, input: "usb", network: NetworkMode::Nat, disk_gb: 64, needs_rom: false },
    ));
    assert(v@[2]@ == profile_modern_arm_uefi());
    assert(v@.map_values(|p: Profile| p@) =~= spec_modern_profiles());
    v
}

/// Retro PCs and Macs on the hardware of their time.
fn retro_profiles() -> (v: Vec<Profile>)
    ensures
        v@.len() == 6,
        forall|i: int| 0 <= i < v@.len() ==> well_formed_profile(#[trigger] v@[i]),
        forall|i: int| 0 <= i < v@.len() ==> #[trigger] v@[i].id@ == builtin_ids()[3 + i],
        v@.map_values(|p: Profile| p@) == spec_retro_profiles(),
{
    proof {
        lemma_categories();
    }
    let mut v: Vec<Profile> = Vec::new();
    let versions: &[&str] = &["MS-DOS 6.22", "FreeDOS", "Windows 3.11"];
    let audio: &[&str] = &["sb16", "adlib"];
    proof {
        reveal_strlit("pc-1992-486");
        reveal_strlit("PC 1992 — 486DX2/66");
        reveal_strlit("pc");
        assert(texts_of(versions@) =~= seq!["MS-DOS 6.22"@, "FreeDOS"@, "Windows 3.11"@]);
        assert(texts_of(audio@) =~= seq!["sb16"@, "adlib"@]);
    }
    v.push(qemu_profile(
        Info { id: "pc-1992-486", name: "PC 1992 — 486DX2/66", epoch: 1992, category: "retro-pc", family: "MS-DOS / Windows 3.x",
            versions, hint: "Treiber: Sound Blaster 16 (A220 I5 D1 H5), Cirrus Logic GD5446, NE2000.", tier: "free", beta: false },
        Hw { arch: Arch::I386, machine_type: "pc", cpu: "486", cores: 1, clock_percent: 40, memory_mb: 16,
            firmware: Firmware::Bios, tpm: false, graphics: "cirrus-vga", audio, nic: "ne2k_isa", storage_bus: "ide",
            floppy: true, input: "ps2", network: NetworkMode::Off, disk_gb: 2, needs_rom: false },
    ));
    assert(v@[0]@ == profile_pc_1992_486());
    let versions: &[&str] = &["Windows 95", "Windows 98", "MS-DOS 7"];
    let audio: &[&str] = &["sb16", "adlib"];
    proof {
        reveal_strlit("pc-1996-pentium133");
        reveal_strlit("PC 1996 — Pentium 133");
        reveal_strlit("pc");
        assert(texts_of(versions@) =~= seq!["Windows 95"@, "Windows 98"@, "MS-DOS 7"@]);
        assert(texts_of(audio@) =~= seq!["sb16"@, "adlib"@]);
    }
    v.push(qemu_profile(
        Info { id: "pc-1996-pentium133", name: "PC 1996 — Pentium 133", epoch: 1996, category: "retro-pc", family: "Windows 9x",
            versions, hint: "Treiber: Sound Blaster 16, Cirrus Logic GD5446, NE2000.", tier: "free", beta: false },
        Hw { arch: Arch::I386, machine_type: "pc", cpu: "pentium", cores: 1, clock_percent: 75, memory_mb: 64,
            firmware: Firmware::Bios, tpm: false, graphics: "cirrus-vga", audio, nic: "ne2k_isa", storage_bus: "ide",
            floppy: true, input: "ps2", network: NetworkMode::Off, disk_gb: 4, needs_rom: false },
    ));
    assert(v@[1]@ == profile_pc_1996_pentium133());
    let versions: &[&str] = &["Windows 98 SE", "Windows ME", "Windows 2000"];
    let audio: &[&str] = &["sb16"];
    proof {
        reveal_strlit("pc-1999-pentium3");
        reveal_strlit("PC 1999 — Pentium III");
        reveal_strlit("pc");
        assert(texts_of(versions@) =~= seq!["Windows 98 SE"@, "Windows ME"@, "Windows 2000"@]);
        assert(texts_of(audio@) =~= seq!["sb16"@]);
    }
    v.push(qemu_profile(
        Info { id: "pc-1999-pentium3", name: "PC 1999 — Pentium III", epoch: 1999, category: "retro-pc", family: "Windows 98 / ME / 2000",
            versions, hint: "Netzwerk: Realtek RTL8139.", tier: "free", beta: false },
        Hw { arch: Arch::I386, machine_type: "pc", cpu: "pentium3", cores: 1, clock_percent: 100, memory_mb: 256,
            firmware: Firmware::Bios, tpm: false, graphics: "VGA", audio, nic: "rtl8139", storage_bus: "ide",
            floppy: true, input: "ps2", network: NetworkMode::Off, disk_gb: 8, needs_rom: false },
    ));
    assert(v@[2]@ == profile_pc_1999_pentium3());
    let versions: &[&str] = &["Windows XP", "Windows 2000"];
    let audio: &[&str] = &["ac97"];
    proof {
        reveal_strlit("pc-2003-xp");
        reveal_strlit("PC 2003 — Windows XP");
        reveal_strlit("pc");
        assert(texts_of(versions@) =~= seq!["Windows XP"@, "Windows 2000"@]);
        assert(texts_of(audio@) =~= seq!["ac97"@]);
    }
    v.push(qemu_profile(
        Info { id: "pc-2003-xp", name: "PC 2003 — Windows XP", epoch: 2003, category: "retro-pc", family: "Windows XP / 2000",
            versions, hint: "Sound: AC97-Treiber von Realtek.", tier: "free", beta: false },
        Hw { arch: Arch::I386, machine_type: "pc", cpu: "max", cores: 1, clock_percent: 100, memory_mb: 512,
            firmware: Firmware::Bios, tpm: false, graphics: "VGA", audio, nic: "rtl8139", storage_bus: "ide",
            floppy: false, input: "ps2", network: NetworkMode::Off, disk_gb: 16, needs_rom: false },
    ));
    assert(v@[3]@ == profile_pc_2003_xp());
    let versions: &[&str] = &["System 7.1", "Mac OS 7.6", "Mac OS 8.1"];
    let audio: &[&str] = &["asc"];
    proof {
        reveal_strlit("mac-1994-quadra");
        reveal_strlit("Macintosh Quadra 800");
        reveal_strlit("q800");
        assert(texts_of(versions@) =~= seq!["System 7.1"@, "Mac OS 7.6"@, "Mac OS 8.1"@]);
        assert(texts_of(audio@) =~= seq!["asc"@]);
    }
    v.push(qemu_profile(
        Info { id: "mac-1994-quadra", name: "Macintosh Quadra 800", epoch: 1994, category: "retro-mac", family: "Mac OS 7–8.1",
            versions, hint: "Das Quadra-800-ROM (Q800.ROM) liefern Sie selbst.", tier: "free", beta: false },
        Hw { arch: Arch::M68k, machine_type: "q800", cpu: "m68040", cores: 1, clock_percent: 100, memory_mb: 128,
            firmware: Firmware::Bios, tpm: false, graphics: "", audio, nic: "", storage_bus: "scsi",
            floppy: false, input: "", network: NetworkMode::Off, disk_gb: 2, needs_rom: true },
    ));
    assert(v@[4]@ == profile_mac_1994_quadra());
    let versions: &[&str] = &["Mac OS 8.6", "Mac OS 9.2"];
    let audio: &[&str] = &["screamer"];
    proof {
        reveal_strlit("mac-1999-g3");
        reveal_strlit("Power Macintosh G4 (Mac OS 9)");
        reveal_strlit("mac99");
        assert(texts_of(versions@) =~= seq!["Mac OS 8.6"@, "Mac OS 9.2"@]);
        assert(texts_of(audio@) =~= seq!["screamer"@]);
    }
    v.push(qemu_profile(
        Info { id: "mac-1999-g3", name: "Power Macintosh G4 (Mac OS 9)", epoch: 1999, category: "retro-mac", family: "Mac OS 8.5–9.2",
            versions, hint: "", tier: "free", beta: false },
        Hw { arch: Arch::Ppc, machine_type: "mac99", cpu: "g4", cores: 1, clock_percent: 100, memory_mb: 512,
            firmware: Firmware::Bios, tpm: false, graphics: "", audio, nic: "", storage_bus: "ide",
            floppy: false, input: "", network: NetworkMode::Off, disk_gb: 8, needs_rom: false },
    ));
    assert(v@[5]@ == profile_mac_1999_g3());
    assert(v@.map_values(|p: Profile| p@) =~= spec_retro_profiles());
    v
}

/// Other architectures under emulation.
fn other_arch_profiles() -> (v: Vec<Profile>)
    ensures
        v@.len() == 2,
        forall|i: int| 0 <= i < v@.len() ==> well_formed_profile(#[trigger] v@[i]),
        forall|i: int| 0 <= i < v@.len() ==> #[trigger] v@[i].id@ == builtin_ids()[9 + i],
        v@.map_values(|p: Profile| p@) == spec_other_arch_profiles(),
{
    proof {
        lemma_categories();
    }
    let mut v: Vec<Profile> = Vec::new();
    let versions: &[&str] = &["Debian riscv64", "Fedora riscv64", "FreeBSD riscv64"];
    let audio: &[&str] = &[];
    proof {
        reveal_strlit("linux-riscv");
        reveal_strlit("RISC-V 64 (Linux)");
        reveal_strlit("virt");
        assert(texts_of(versions@) =~= seq!["Debian riscv64"@, "Fedora riscv64"@, "FreeBSD riscv64"@]);
        assert(texts_of(audio@) =~= Seq::<Seq<char>>::empty());
    }
    v.push(qemu_profile(
        Info { id: "linux-riscv", name: "RISC-V 64 (Linux)", epoch: 0, category: "other-arch", family: "Linux / BSD",
            versions, hint: "", tier: "free", beta: false },
        Hw { arch: Arch::Riscv64, machine_type: "virt", cpu: "rv64", cores: 2, clock_percent: 100, memory_mb: 2048,
            firmware: Firmware::Bios, tpm: false, graphics: "virtio-gpu-pci", audio, nic: "virtio-net-pci", storage_bus: "virtio",
            floppy: false, input: "virtio", network: NetworkMode::Nat, disk_gb: 16, needs_rom: false },
    ));
    assert(v@[0]@ == profile_linux_riscv());
    let versions: &[&str] = &["Debian mips"];
    let audio: &[&str] = &[];
    proof {
        reveal_strlit("linux-mips");
        reveal_strlit("MIPS Malta (Linux)");
        reveal_strlit("malta");
        assert(texts_of(versions@) =~= seq!["Debian mips"@]);
        assert(texts_of(audio@) =~= Seq::<Seq<char>>::empty());
    }
    v.push(qemu_profile(
        Info { id: "linux-mips", name: "MIPS Malta (Linux)", epoch: 0, category: "other-arch", family: "Linux",
            versions, hint: "", tier: "free", beta: false },
        Hw { arch: Arch::Mips, machine_type: "malta", cpu: "24Kf", cores: 1, clock_percent: 100, memory_mb: 256,
            firmware: Firmware::Bios, tpm: false, graphics: "", audio, nic: "", storage_bus: "ide",
            floppy: false, input: "", network: NetworkMode::Nat, disk_gb: 8, needs_rom: false },
    ));
    assert(v@[1]@ == profile_linux_mips());
    assert(v@.map_values(|p: Profile| p@) =~= spec_other_arch_profiles());
    v
}

/// Consoles and handhelds through RetroArch.
fn console_profiles() -> (v: Vec<Profile>)
    ensures
        v@.len() == 16,
        forall|i: int| 0 <= i < v@.len() ==> well_formed_profile(#[trigger] v@[i]),
        forall|i: int| 0 <= i < v@.len() ==> #[trigger] v@[i].id@ == builtin_ids()[11 + i],
        v@.map_values(|p: Profile| p@) == spec_console_profiles(),
{
    proof {
        lemma_categories();
    }
    let mut v: Vec<Profile> = Vec::new();
    let versions: &[&str] = &[];
    let bios: &[&str] = &[];
    let extensions: &[&str] = &["nes", "fds", "unf", "unif"];
    proof {
        reveal_strlit("console-nes");
        reveal_strlit("Nintendo Entertainment System");
        reveal_strlit("mesen");
        assert(texts_of(versions@) =~= Seq::<Seq<char>>::empty());
        assert(texts_of(bios@) =~= Seq::<Seq<char>>::empty());
        assert(texts_of(extensions@) =~= seq!["nes"@, "fds"@, "unf"@, "unif"@]);
    }
    v.push(console_profile(
        Info { id: "console-nes", name: "Nintendo Entertainment System", epoch: 1985, category: "console", family: "NES / Famicom",
            versions, hint: "", tier: "free", beta: false },
        "mesen", Some("nestopia"), bios, extensions,
    ));
    assert(v@[0]@ == profile_console_nes());
    let versions: &[&str] = &[];
    let bios: &[&str] = &[];
    let extensions: &[&str] = &["sfc", "smc"];
    proof {
        reveal_strlit("console-snes");
        reveal_strlit("Super Nintendo");
        reveal_strlit("snes9x");
        assert(texts_of(versions@) =~= Seq::<Seq<char>>::empty());
        assert(texts_of(bios@) =~= Seq::<Seq<char>>::empty());
        assert(texts_of(extensions@) =~= seq!["sfc"@, "smc"@]);
    }
    v.push(console_profile(
        Info { id: "console-snes", name: "Super Nintendo", epoch: 1990, category: "console", family: "SNES / Super Famicom",
            versions, hint: "", tier: "free", beta: false },
        "snes9x", None, bios, extensions,
    ));
    assert(v@[1]@ == profile_console_snes());
    let versions: &[&str] = &[];
    let bios: &[&str] = &[];
    let extensions: &[&str] = &["gb", "gbc", "dmg"];
    proof {
        reveal_strlit("console-gameboy");
        reveal_strlit("Game Boy / Game Boy Color");
        reveal_strlit("gambatte");
        assert(texts_of(versions@) =~= Seq::<Seq<char>>::empty());
        assert(texts_of(bios@) =~= Seq::<Seq<char>>::empty());
        assert(texts_of(extensions@) =~= seq!["gb"@, "gbc"@, "dmg"@]);
    }
    v.push(console_profile(
        Info { id: "console-gameboy", name: "Game Boy / Game Boy Color", epoch: 1989, category: "console", family: "Game Boy",
            versions, hint: "", tier: "free", beta: false },
        "gambatte", None, bios, extensions,
    ));
    assert(v@[2]@ == profile_console_gameboy());
    let versions: &[&str] = &[];
    let bios: &[&str] = &[];
    let extensions: &[&str] = &["gba"];
    proof {
        reveal_strlit("console-gba");
        reveal_strlit("Game Boy Advance");
        reveal_strlit("mgba");
        assert(texts_of(versions@) =~= Seq::<Seq<char>>::empty());
        assert(texts_of(bios@) =~= Seq::<Seq<char>>::empty());
        assert(texts_of(extensions@) =~= seq!["gba"@]);
    }
    v.push(console_profile(
        Info { id: "console-gba", name: "Game Boy Advance", epoch: 2001, category: "console", family: "Game Boy Advance",
            versions, hint: "", tier: "free", beta: false },
        "mgba", None, bios, extensions,
    ));
    assert(v@[3]@ == profile_console_gba());
    let versions: &[&str] = &[];
    let bios: &[&str] = &[];
    let extensions: &[&str] = &["md", "gen", "smd", "sms", "gg", "bin"];
    proof {
        reveal_strlit("console-megadrive");
        reveal_strlit("Sega Master System / Game Gear / Mega Drive");
        reveal_strlit("genesis_plus_gx");
        assert(texts_of(versions@) =~= Seq::<Seq<char>>::empty());
        assert(texts_of(bios@) =~= Seq::<Seq<char>>::empty());
        assert(texts_of(extensions@) =~= seq!["md"@, "gen"@, "smd"@, "sms"@, "gg"@, "bin"@]);
    }
    v.push(console_profile(
        Info { id: "console-megadrive", name: "Sega Master System / Game Gear / Mega Drive", epoch: 1988, category: "console", family: "Sega 8/16 Bit",
            versions, hint: "", tier: "free", beta: false },
        "genesis_plus_gx", None, bios, extensions,
    ));
    assert(v@[4]@ == profile_console_megadrive());
    let versions: &[&str] = &[];
    let bios: &[&str] = &[];
    let extensions: &[&str] = &["pce", "cue", "ccd", "chd"];
    proof {
        reveal_strlit("console-pce");
        reveal_strlit("PC Engine / TurboGrafx-16");
        reveal_strlit("mednafen_pce_fast");
        assert(texts_of(versions@) =~= Seq::<Seq<char>>::empty());
        assert(texts_of(bios@) =~= Seq::<Seq<char>>::empty());
        assert(texts_of(extensions@) =~= seq!["pce"@, "cue"@, "ccd"@, "chd"@]);
    }
    v.push(console_profile(
        Info { id: "console-pce", name: "PC Engine / TurboGrafx-16", epoch: 1987, category: "console", family: "PC Engine",
            versions, hint: "", tier: "free", beta: false },
        "mednafen_pce_fast", None, bios, extensions,
    ));
    assert(v@[5]@ == profile_console_pce());
    let versions: &[&str] = &[];
    let bios: &[&str] = &[];
    let extensions: &[&str] = &["n64", "z64", "v64"];
    proof {
        reveal_strlit("console-n64");
        reveal_strlit("Nintendo 64");
        reveal_strlit("mupen64plus_next");
        assert(texts_of(versions@) =~= Seq::<Seq<char>>::empty());
        assert(texts_of(bios@) =~= Seq::<Seq<char>>::empty());
        assert(texts_of(extensions@) =~= seq!["n64"@, "z64"@, "v64"@]);
    }
    v.push(console_profile(
        Info { id: "console-n64", name: "Nintendo 64", epoch: 1996, category: "console", family: "Nintendo 64",
            versions, hint: "", tier: "free", beta: false },
        "mupen64plus_next", None, bios, extensions,
    ));
    assert(v@[6]@ == profile_console_n64());
    let versions: &[&str] = &[];
    let bios: &[&str] = &["scph5500.bin", "scph5501.bin", "scph5502.bin"];
    let extensions: &[&str] = &["cue", "bin", "chd", "pbp", "iso"];
    proof {
        reveal_strlit("console-psx");
        reveal_strlit("PlayStation");
        reveal_strlit("swanstation");
        assert(texts_of(versions@) =~= Seq::<Seq<char>>::empty());
        assert(texts_of(bios@) =~= seq!["scph5500.bin"@, "scph5501.bin"@, "scph5502.bin"@]);
        assert(texts_of(extensions@) =~= seq!["cue"@, "bin"@, "chd"@, "pbp"@, "iso"@]);
    }
    v.push(console_profile(
        Info { id: "console-psx", name: "PlayStation", epoch: 1994, category: "console", family: "PlayStation",
            versions, hint: "", tier: "free", beta: false },
        "swanstation", Some("pcsx_rearmed"), bios, extensions,
    ));
    assert(v@[7]@ == profile_console_psx());
    let versions: &[&str] = &[];
    let bios: &[&str] = &[];
    let extensions: &[&str] = &["iso", "cso", "pbp"];
    proof {
        reveal_strlit("console-psp");
        reveal_strlit("PlayStation Portable");
        reveal_strlit("ppsspp");
        assert(texts_of(versions@) =~= Seq::<Seq<char>>::empty());
        assert(texts_of(bios@) =~= Seq::<Seq<char>>::empty());
        assert(texts_of(extensions@) =~= seq!["iso"@, "cso"@, "pbp"@]);
    }
    v.push(console_profile(
        Info { id: "console-psp", name: "PlayStation Portable", epoch: 2004, category: "console", family: "PSP",
            versions, hint: "", tier: "free", beta: false },
        "ppsspp", None, bios, extensions,
    ));
    assert(v@[8]@ == profile_console_psp());
    let versions: &[&str] = &[];
    let bios: &[&str] = &["bios7.bin", "bios9.bin", "firmware.bin"];
    let extensions: &[&str] = &["nds"];
    proof {
        reveal_strlit("console-nds");
        reveal_strlit("Nintendo DS");
        reveal_strlit("melonds");
        assert(texts_of(versions@) =~= Seq::<Seq<char>>::empty());
        assert(texts_of(bios@) =~= seq!["bios7.bin"@, "bios9.bin"@, "firmware.bin"@]);
        assert(texts_of(extensions@) =~= seq!["nds"@]);
    }
    v.push(console_profile(
        Info { id: "console-nds", name: "Nintendo DS", epoch: 2004, category: "console", family: "Nintendo DS",
            versions, hint: "", tier: "free", beta: false },
        "melonds", None, bios, extensions,
    ));
    assert(v@[9]@ == profile_console_nds());
    let versions: &[&str] = &[];
    let bios: &[&str] = &["sega_101.bin", "mpr-17933.bin"];
    let extensions: &[&str] = &["cue", "chd", "ccd"];
    proof {
        reveal_strlit("console-saturn");
        reveal_strlit("Sega Saturn");
        reveal_strlit("mednafen_saturn");
        assert(texts_of(versions@) =~= Seq::<Seq<char>>::empty());
        assert(texts_of(bios@) =~= seq!["sega_101.bin"@, "mpr-17933.bin"@]);
        assert(texts_of(extensions@) =~= seq!["cue"@, "chd"@, "ccd"@]);
    }
    v.push(console_profile(
        Info { id: "console-saturn", name: "Sega Saturn", epoch: 1994, category: "console", family: "Sega Saturn",
            versions, hint: "", tier: "free", beta: false },
        "mednafen_saturn", None, bios, extensions,
    ));
    assert(v@[10]@ == profile_console_saturn());
    let versions: &[&str] = &[];
    let bios: &[&str] = &["dc/dc_boot.bin", "dc/dc_flash.bin"];
    let extensions: &[&str] = &["gdi", "cdi", "chd"];
    proof {
        reveal_strlit("console-dreamcast");
        reveal_strlit("Sega Dreamcast");
        reveal_strlit("flycast");
        assert(texts_of(versions@) =~= Seq::<Seq<char>>::empty());
        assert(texts_of(bios@) =~= seq!["dc/dc_boot.bin"@, "dc/dc_flash.bin"@]);
        assert(texts_of(extensions@) =~= seq!["gdi"@, "cdi"@, "chd"@]);
    }
    v.push(console_profile(
        Info { id: "console-dreamcast", name: "Sega Dreamcast", epoch: 1998, category: "console", family: "Sega Dreamcast",
            versions, hint: "", tier: "free", beta: false },
        "flycast", None, bios, extensions,
    ));
    assert(v@[11]@ == profile_console_dreamcast());
    let versions: &[&str] = &[];
    let bios: &[&str] = &["neogeo.zip"];
    let extensions: &[&str] = &["zip", "7z"];
    proof {
        reveal_strlit("console-arcade");
        reveal_strlit("Neo Geo / Arcade");
        reveal_strlit("fbneo");
        assert(texts_of(versions@) =~= Seq::<Seq<char>>::empty());
        assert(texts_of(bios@) =~= seq!["neogeo.zip"@]);
        assert(texts_of(extensions@) =~= seq!["zip"@, "7z"@]);
    }
    v.push(console_profile(
        Info { id: "console-arcade", name: "Neo Geo / Arcade", epoch: 1990, category: "console", family: "Arcade",
            versions, hint: "", tier: "free", beta: false },
        "fbneo", None, bios, extensions,
    ));
    assert(v@[12]@ == profile_console_arcade());
    let versions: &[&str] = &[];
    let bios: &[&str] = &[];
    let extensions: &[&str] = &["a26", "bin"];
    proof {
        reveal_strlit("console-atari2600");
        reveal_strlit("Atari 2600");
        reveal_strlit("stella");
        assert(texts_of(versions@) =~= Seq::<Seq<char>>::empty());
        assert(texts_of(bios@) =~= Seq::<Seq<char>>::empty());
        assert(texts_of(extensions@) =~= seq!["a26"@, "bin"@]);
    }
    v.push(console_profile(
        Info { id: "console-atari2600", name: "Atari 2600", epoch: 1977, category: "console", family: "Atari 2600",
            versions, hint: "", tier: "free", beta: false },
        "stella", None, bios, extensions,
    ));
    assert(v@[13]@ == profile_console_atari2600());
    let versions: &[&str] = &[];
    let bios: &[&str] = &[];
    let extensions: &[&str] = &["rom", "mx1", "mx2", "dsk", "cas"];
    proof {
        reveal_strlit("console-msx");
        reveal_strlit("MSX");
        reveal_strlit("bluemsx");
        assert(texts_of(versions@) =~= Seq::<Seq<char>>::empty());
        assert(texts_of(bios@) =~= Seq::<Seq<char>>::empty());
        assert(texts_of(extensions@) =~= seq!["rom"@, "mx1"@, "mx2"@, "dsk"@, "cas"@]);
    }
    v.push(console_profile(
        Info { id: "console-msx", name: "MSX", epoch: 1983, category: "console", family: "MSX",
            versions, hint: "", tier: "free", beta: false },
        "bluemsx", None, bios, extensions,
    ));
    assert(v@[14]@ == profile_console_msx());
    let versions: &[&str] = &[];
    let bios: &[&str] = &[];
    let extensions: &[&str] = &["zip", "dosz", "exe", "com", "bat", "iso", "cue"];
    proof {
        reveal_strlit("console-dos");
        reveal_strlit("DOS-Spiele (DOSBox Pure)");
        reveal_strlit("dosbox_pure");
        assert(texts_of(versions@) =~= Seq::<Seq<char>>::empty());
        assert(texts_of(bios@) =~= Seq::<Seq<char>>::empty());
        assert(texts_of(extensions@) =~= seq!["zip"@, "dosz"@, "exe"@, "com"@, "bat"@, "iso"@, "cue"@]);
    }
    v.push(console_profile(
        Info { id: "console-dos", name: "DOS-Spiele (DOSBox Pure)", epoch: 1990, category: "console", family: "MS-DOS",
            versions, hint: "", tier: "free", beta: false },
        "dosbox_pure", None, bios, extensions,
    ));
    assert(v@[15]@ == profile_console_dos());
    assert(v@.map_values(|p: Profile| p@) =~= spec_console_profiles());
    v
}

/// The built-in profile `modern-x86-uefi` (Moderner PC (UEFI, TPM 2.0)).
pub open spec fn profile_modern_x86_uefi() -> ProfileView {
    qemu_profile_view(
        InfoView { id: "modern-x86-uefi"@, name: "Moderner PC (UEFI, TPM 2.0)"@, epoch: 0, category: "modern"@, family: "Windows / Linux / BSD"@,
            versions: seq!["Windows 11"@, "Windows 10"@, "Ubuntu"@, "Fedora"@, "FreeBSD"@],
            hint: "Windows 11 braucht UEFI und TPM 2.0 — beides ist eingeschaltet."@, tier: "free"@, beta: false },
        HwView { arch: Arch::X86_64, machine_type: "q35"@, cpu: "host"@, cores: 4, clock_percent: 100, memory_mb: 8192,
            firmware: Firmware::Uefi, tpm: true, graphics: "virtio-vga"@, audio: seq!["intel-hda"@], nic: "virtio-net-pci"@, storage_bus: "virtio"@,
            floppy: false, input: "usb"@, network: NetworkMode::Nat, disk_gb: 64, needs_rom: false },
    )
}

/// The built-in profile `modern-x86-bios` (Moderner PC (BIOS)).
pub open spec fn profile_modern_x86_bios() -> ProfileView {
    qemu_profile_view(
        InfoView { id: "modern-x86-bios"@, name: "Moderner PC (BIOS)"@, epoch: 0, category: "modern"@, family: "Linux / BSD / ältere Windows"@,
            versions: seq!["Windows 7"@, "Linux"@, "FreeBSD"@, "Haiku"@, "ReactOS"@],
            hint: ""@, tier: "free"@, beta: false },
        HwView { arch: Arch::X86_64, machine_type: "q35"@, cpu: "host"@, cores: 2, clock_percent: 100, memory_mb: 4096,
            firmware: Firmware::Bios, tpm: false, graphics: "virtio-vga"@, audio: seq!["intel-hda"@], nic: "virtio-net-pci"@, storage_bus: "virtio"@,
            floppy: false, input: "usb"@, network: NetworkMode::Nat, disk_gb: 32, needs_rom: false },
    )
}

/// The built-in profile `modern-arm-uefi` (ARM-Rechner (UEFI)).
pub open spec fn profile_modern_arm_uefi() -> ProfileView {
    qemu_profile_view(
        InfoView { id: "modern-arm-uefi"@, name: "ARM-Rechner (UEFI)"@, epoch: 0, category: "modern"@, family: "Windows 11 ARM / Linux"@,
            versions: seq!["Windows 11 ARM"@, "Ubuntu ARM"@, "Fedora ARM"@],
            hint: "Auf x86-Hosts läuft ARM ohne Beschleuniger langsam."@, tier: "free"@, beta: false },
        HwView { arch: Arch::Aarch64, machine_type: "virt"@, cpu: "host"@, cores: 4, clock_percent: 100, memory_mb: 8192,
            firmware: Firmware::Uefi, tpm: true, graphics: "virtio-gpu-pci"@, audio: seq!["intel-hda"@], nic: "virtio-net-pci"@, storage_bus: "virtio"@,
            floppy: false, input: "usb"@, network: NetworkMode::Nat, disk_gb: 64, needs_rom: false },
    )
}

/// The built-in profile `pc-1992-486` (PC 1992 — 486DX2/66).
pub open spec fn profile_pc_1992_486() -> ProfileView {
    qemu_profile_view(
        InfoView { id: "pc-1992-486"@, name: "PC 1992 — 486DX2/66"@, epoch: 1992, category: "retro-pc"@, family: "MS-DOS / Windows 3.x"@,
            versions: seq!["MS-DOS 6.22"@, "FreeDOS"@, "Windows 3.11"@],
            hint: "Treiber: Sound Blaster 16 (A220 I5 D1 H5), Cirrus Logic GD5446, NE2000."@, tier: "free"@, beta: false },
        HwView { arch: Arch::I386, machine_type: "pc"@, cpu: "486"@, cores: 1, clock_percent: 40, memory_mb: 16,
            firmware: Firmware::Bios, tpm: false, graphics: "cirrus-vga"@, audio: seq!["sb16"@, "adlib"@], nic: "ne2k_isa"@, storage_bus: "ide"@,
            floppy: true, input: "ps2"@, network: NetworkMode::Off, disk_gb: 2, needs_rom: false },
    )
}

/// The built-in profile `pc-1996-pentium133` (PC 1996 — Pentium 133).
pub open spec fn profile_pc_1996_pentium133() -> ProfileView {
    qemu_profile_view(
        InfoView { id: "pc-1996-pentium133"@, name: "PC 1996 — Pentium 133"@, epoch: 1996, category: "retro-pc"@, family: "Windows 9x"@,
            versions: seq!["Windows 95"@, "Windows 98"@, "MS-DOS 7"@],
            hint: "Treiber: Sound Blaster 16, Cirrus Logic GD5446, NE2000."@, tier: "free"@, beta: false },
        HwView { arch: Arch::I386, machine_type: "pc"@, cpu: "pentium"@, cores: 1, clock_percent: 75, memory_mb: 64,
            firmware: Firmware::Bios, tpm: false, graphics: "cirrus-vga"@, audio: seq!["sb16"@, "adlib"@], nic: "ne2k_isa"@, storage_bus: "ide"@,
            floppy: true, input: "ps2"@, network: NetworkMode::Off, disk_gb: 4, needs_rom: false },
    )
}

/// The built-in profile `pc-1999-pentium3` (PC 1999 — Pentium III).
pub open spec fn profile_pc_1999_pentium3() -> ProfileView {
    qemu_profile_view(
        InfoView { id: "pc-1999-pentium3"@, name: "PC 1999 — Pentium III"@, epoch: 1999, category: "retro-pc"@, family: "Windows 98 / ME / 2000"@,
            versions: seq!["Windows 98 SE"@, "Windows ME"@, "Windows 2000"@],
            hint: "Netzwerk: Realtek RTL8139."@, tier: "free"@, beta: false },
        HwView { arch: Arch::I386, machine_type: "pc"@, cpu: "pentium3"@, cores: 1, clock_percent: 100, memory_mb: 256,
            firmware: Firmware::Bios, tpm: false, graphics: "VGA"@, audio: seq!["sb16"@], nic: "rtl8139"@, storage_bus: "ide"@,
            floppy: true, input: "ps2"@, network: NetworkMode::Off, disk_gb: 8, needs_rom: false },
    )
}

/// The built-in profile `pc-2003-xp` (PC 2003 — Windows XP).
pub open spec fn profile_pc_2003_xp() -> ProfileView {
    qemu_profile_view(
        InfoView { id: "pc-2003-xp"@, name: "PC 2003 — Windows XP"@, epoch: 2003, category: "retro-pc"@, family: "Windows XP / 2000"@,
            versions: seq!["Windows XP"@, "Windows 2000"@],
            hint: "Sound: AC97-Treiber von Realtek."@, tier: "free"@, beta: false },
        HwView { arch: Arch::I386, machine_type: "pc"@, cpu: "max"@, cores: 1, clock_percent: 100, memory_mb: 512,
            firmware: Firmware::Bios, tpm: false, graphics: "VGA"@, audio: seq!["ac97"@], nic: "rtl8139"@, storage_bus: "ide"@,
            floppy: false, input: "ps2"@, network: NetworkMode::Off, disk_gb: 16, needs_rom: false },
    )
}

/// The built-in profile `mac-1994-quadra` (Macintosh Quadra 800).
pub open spec fn profile_mac_1994_quadra() -> ProfileView {
    qemu_profile_view(
        InfoView { id: "mac-1994-quadra"@, name: "Macintosh Quadra 800"@, epoch: 1994, category: "retro-mac"@, family: "Mac OS 7–8.1"@,
            versions: seq!["System 7.1"@, "Mac OS 7.6"@, "Mac OS 8.1"@],
            hint: "Das Quadra-800-ROM (Q800.ROM) liefern Sie selbst."@, tier: "free"@, beta: false },
        HwView { arch: Arch::M68k, machine_type: "q800"@, cpu: "m68040"@, cores: 1, clock_percent: 100, memory_mb: 128,
            firmware: Firmware::Bios, tpm: false, graphics: ""@, audio: seq!["asc"@], nic: ""@, storage_bus: "scsi"@,
            floppy: false, input: ""@, network: NetworkMode::Off, disk_gb: 2, needs_rom: true },
    )
}

/// The built-in profile `mac-1999-g3` (Power Macintosh G4 (Mac OS 9)).
pub open spec fn profile_mac_1999_g3() -> ProfileView {
    qemu_profile_view(
        InfoView { id: "mac-1999-g3"@, name: "Power Macintosh G4 (Mac OS 9)"@, epoch: 1999, category: "retro-mac"@, family: "Mac OS 8.5–9.2"@,
            versions: seq!["Mac OS 8.6"@, "Mac OS 9.2"@],
            hint: ""@, tier: "free"@, beta: false },
        HwView { arch: Arch::Ppc, machine_type: "mac99"@, cpu: "g4"@, cores: 1, clock_percent: 100, memory_mb: 512,
            firmware: Firmware::Bios, tpm: false, graphics: ""@, audio: seq!["screamer"@], nic: ""@, storage_bus: "ide"@,
            floppy: false, input: ""@, network: NetworkMode::Off, disk_gb: 8, needs_rom: false },
    )
}

/// The built-in profile `linux-riscv` (RISC-V 64 (Linux)).
pub open spec fn profile_linux_riscv() -> ProfileView {
    qemu_profile_view(
        InfoView { id: "linux-riscv"@, name: "RISC-V 64 (Linux)"@, epoch: 0, category: "other-arch"@, family: "Linux / BSD"@,
            versions: seq!["Debian riscv64"@, "Fedora riscv64"@, "FreeBSD riscv64"@],
            hint: ""@, tier: "free"@, beta: false },
        HwView { arch: Arch::Riscv64, machine_type: "virt"@, cpu: "rv64"@, cores: 2, clock_percent: 100, memory_mb: 2048,
            firmware: Firmware::Bios, tpm: false, graphics: "virtio-gpu-pci"@, audio: Seq::<Seq<char>>::empty(), nic: "virtio-net-pci"@, storage_bus: "virtio"@,
            floppy: false, input: "virtio"@, network: NetworkMode::Nat, disk_gb: 16, needs_rom: false },
    )
}

/// The built-in profile `linux-mips` (MIPS Malta (Linux)).
pub open spec fn profile_linux_mips() -> ProfileView {
    qemu_profile_view(
        InfoView { id: "linux-mips"@, name: "MIPS Malta (Linux)"@, epoch: 0, category: "other-arch"@, family: "Linux"@,
            versions: seq!["Debian mips"@],
            hint: ""@, tier: "free"@, beta: false },
        HwView { arch: Arch::Mips, machine_type: "malta"@, cpu: "24Kf"@, cores: 1, clock_percent: 100, memory_mb: 256,
            firmware: Firmware::Bios, tpm: false, graphics: ""@, audio: Seq::<Seq<char>>::empty(), nic: ""@, storage_bus: "ide"@,
            floppy: false, input: ""@, network: NetworkMode::Nat, disk_gb: 8, needs_rom: false },
    )
}

/// The built-in profile `console-nes` (Nintendo Entertainment System).
pub open spec fn profile_console_nes() -> ProfileView {
    console_profile_view(
        InfoView { id: "console-nes"@, name: "Nintendo Entertainment System"@, epoch: 1985, category: "console"@, family: "NES / Famicom"@,
            versions: Seq::<Seq<char>>::empty(),
            hint: ""@, tier: "free"@, beta: false },
        "mesen"@, Some("nestopia"@), Seq::<Seq<char>>::empty(), seq!["nes"@, "fds"@, "unf"@, "unif"@],
    )
}

/// The built-in profile `console-snes` (Super Nintendo).
pub open spec fn profile_console_snes() -> ProfileView {
    console_profile_view(
        InfoView { id: "console-snes"@, name: "Super Nintendo"@, epoch: 1990, category: "console"@, family: "SNES / Super Famicom"@,
            versions: Seq::<Seq<char>>::empty(),
            hint: ""@, tier: "free"@, beta: false },
        "snes9x"@, None, Seq::<Seq<char>>::empty(), seq!["sfc"@, "smc"@],
    )
}

/// The built-in profile `console-gameboy` (Game Boy / Game Boy Color).
pub open spec fn profile_console_gameboy() -> ProfileView {
    console_profile_view(
        InfoView { id: "console-gameboy"@, name: "Game Boy / Game Boy Color"@, epoch: 1989, category: "console"@, family: "Game Boy"@,
            versions: Seq::<Seq<char>>::empty(),
            hint: ""@, tier: "free"@, beta: false },
        "gambatte"@, None, Seq::<Seq<char>>::empty(), seq!["gb"@, "gbc"@, "dmg"@],
    )
}

/// The built-in profile `console-gba` (Game Boy Advance).
pub open spec fn profile_console_gba() -> ProfileView {
    console_profile_view(
        InfoView { id: "console-gba"@, name: "Game Boy Advance"@, epoch: 2001, category: "console"@, family: "Game Boy Advance"@,
            versions: Seq::<Seq<char>>::empty(),
            hint: ""@, tier: "free"@, beta: false },
        "mgba"@, None, Seq::<Seq<char>>::empty(), seq!["gba"@],
    )
}

/// The built-in profile `console-megadrive` (Sega Master System / Game Gear / Mega Drive).
pub open spec fn profile_console_megadrive() -> ProfileView {
    console_profile_view(
        InfoView { id: "console-megadrive"@, name: "Sega Master System / Game Gear / Mega Drive"@, epoch: 1988, category: "console"@, family: "Sega 8/16 Bit"@,
            versions: Seq::<Seq<char>>::empty(),
            hint: ""@, tier: "free"@, beta: false },
        "genesis_plus_gx"@, None, Seq::<Seq<char>>::empty(), seq!["md"@, "gen"@, "smd"@, "sms"@, "gg"@, "bin"@],
    )
}

/// The built-in profile `console-pce` (PC Engine / TurboGrafx-16).
pub open spec fn profile_console_pce() -> ProfileView {
    console_profile_view(
        InfoView { id: "console-pce"@, name: "PC Engine / TurboGrafx-16"@, epoch: 1987, category: "console"@, family: "PC Engine"@,
            versions: Seq::<Seq<char>>::empty(),
            hint: ""@, tier: "free"@, beta: false },
        "mednafen_pce_fast"@, None, Seq::<Seq<char>>::empty(), seq!["pce"@, "cue"@, "ccd"@, "chd"@],
    )
}

/// The built-in profile `console-n64` (Nintendo 64).
pub open spec fn profile_console_n64() -> ProfileView {
    console_profile_view(
        InfoView { id: "console-n64"@, name: "Nintendo 64"@, epoch: 1996, category: "console"@, family: "Nintendo 64"@,
            versions: Seq::<Seq<char>>::empty(),
            hint: ""@, tier: "free"@, beta: false },
        "mupen64plus_next"@, None, Seq::<Seq<char>>::empty(), seq!["n64"@, "z64"@, "v64"@],
    )
}

/// The built-in profile `console-psx` (PlayStation).
pub open spec fn profile_console_psx() -> ProfileView {
    console_profile_view(
        InfoView { id: "console-psx"@, name: "PlayStation"@, epoch: 1994, category: "console"@, family: "PlayStation"@,
            versions: Seq::<Seq<char>>::empty(),
            hint: ""@, tier: "free"@, beta: false },
        "swanstation"@, Some("pcsx_rearmed"@), seq!["scph5500.bin"@, "scph5501.bin"@, "scph5502.bin"@], seq!["cue"@, "bin"@, "chd"@, "pbp"@, "iso"@],
    )
}

/// The built-in profile `console-psp` (PlayStation Portable).
pub open spec fn profile_console_psp() -> ProfileView {
    console_profile_view(
        InfoView { id: "console-psp"@, name: "PlayStation Portable"@, epoch: 2004, category: "console"@, family: "PSP"@,
            versions: Seq::<Seq<char>>::empty(),
            hint: ""@, tier: "free"@, beta: false },
        "ppsspp"@, None, Seq::<Seq<char>>::empty(), seq!["iso"@, "cso"@, "pbp"@],
    )
}

/// The built-in profile `console-nds` (Nintendo DS).
pub open spec fn profile_console_nds() -> ProfileView {
    console_profile_view(
        InfoView { id: "console-nds"@, name: "Nintendo DS"@, epoch: 2004, category: "console"@, family: "Nintendo DS"@,
            versions: Seq::<Seq<char>>::empty(),
            hint: ""@, tier: "free"@, beta: false },
        "melonds"@, None, seq!["bios7.bin"@, "bios9.bin"@, "firmware.bin"@], seq!["nds"@],
    )
}

/// The built-in profile `console-saturn` (Sega Saturn).
pub open spec fn profile_console_saturn() -> ProfileView {
    console_profile_view(
        InfoView { id: "console-saturn"@, name: "Sega Saturn"@, epoch: 1994, category: "console"@, family: "Sega Saturn"@,
            versions: Seq::<Seq<char>>::empty(),
            hint: ""@, tier: "free"@, beta: false },
        "mednafen_saturn"@, None, seq!["sega_101.bin"@, "mpr-17933.bin"@], seq!["cue"@, "chd"@, "ccd"@],
    )
}

/// The built-in profile `console-dreamcast` (Sega Dreamcast).
pub open spec fn profile_console_dreamcast() -> ProfileView {
    console_profile_view(
        InfoView { id: "console-dreamcast"@, name: "Sega Dreamcast"@, epoch: 1998, category: "console"@, family: "Sega Dreamcast"@,
            versions: Seq::<Seq<char>>::empty(),
            hint: ""@, tier: "free"@, beta: false },
        "flycast"@, None, seq!["dc/dc_boot.bin"@, "dc/dc_flash.bin"@], seq!["gdi"@, "cdi"@, "chd"@],
    )
}

/// The built-in profile `console-arcade` (Neo Geo / Arcade).
pub open spec fn profile_console_arcade() -> ProfileView {
    console_profile_view(
        InfoView { id: "console-arcade"@, name: "Neo Geo / Arcade"@, epoch: 1990, category: "console"@, family: "Arcade"@,
            versions: Seq::<Seq<char>>::empty(),
            hint: ""@, tier: "free"@, beta: false },
        "fbneo"@, None, seq!["neogeo.zip"@], seq!["zip"@, "7z"@],
    )
}

/// The built-in profile `console-atari2600` (Atari 2600).
pub open spec fn profile_console_atari2600() -> ProfileView {
    console_profile_view(
        InfoView { id: "console-atari2600"@, name: "Atari 2600"@, epoch: 1977, category: "console"@, family: "Atari 2600"@,
            versions: Seq::<Seq<char>>::empty(),
            hint: ""@, tier: "free"@, beta: false },
        "stella"@, None, Seq::<Seq<char>>::empty(), seq!["a26"@, "bin"@],
    )
}

/// The built-in profile `console-msx` (MSX).
pub open spec fn profile_console_msx() -> ProfileView {
    console_profile_view(
        InfoView { id: "console-msx"@, name: "MSX"@, epoch: 1983, category: "console"@, family: "MSX"@,
            versions: Seq::<Seq<char>>::empty(),
            hint: ""@, tier: "free"@, beta: false },
        "bluemsx"@, None, Seq::<Seq<char>>::empty(), seq!["rom"@, "mx1"@, "mx2"@, "dsk"@, "cas"@],
    )
}

/// The built-in profile `console-dos` (DOS-Spiele (DOSBox Pure)).
pub open spec fn profile_console_dos() -> ProfileView {
    console_profile_view(
        InfoView { id: "console-dos"@, name: "DOS-Spiele (DOSBox Pure)"@, epoch: 1990, category: "console"@, family: "MS-DOS"@,
            versions: Seq::<Seq<char>>::empty(),
            hint: ""@, tier: "free"@, beta: false },
        "dosbox_pure"@, None, Seq::<Seq<char>>::empty(), seq!["zip"@, "dosz"@, "exe"@, "com"@, "bat"@, "iso"@, "cue"@],
    )
}

/// The built-in profiles of the group: Current PCs and ARM machines (virtualised when the host matches).
pub open spec fn spec_modern_profiles() -> Seq<ProfileView> {
    seq![profile_modern_x86_uefi(), profile_modern_x86_bios(), profile_modern_arm_uefi()]
}

/// The built-in profiles of the group: Retro PCs and Macs on the hardware of their time.
pub open spec fn spec_retro_profiles() -> Seq<ProfileView> {
    seq![profile_pc_1992_486(), profile_pc_1996_pentium133(), profile_pc_1999_pentium3(), profile_pc_2003_xp(), profile_mac_1994_quadra(), profile_mac_1999_g3()]
}

/// The built-in profiles of the group: Other architectures under emulation.
pub open spec fn spec_other_arch_profiles() -> Seq<ProfileView> {
    seq![profile_linux_riscv(), profile_linux_mips()]
}

/// The built-in profiles of the group: Consoles and handhelds through RetroArch.
pub open spec fn spec_console_profiles() -> Seq<ProfileView> {
    seq![profile_console_nes(), profile_console_snes(), profile_console_gameboy(), profile_console_gba(), profile_console_megadrive(), profile_console_pce(), profile_console_n64(), profile_console_psx(), profile_console_psp(), profile_console_nds(), profile_console_saturn(), profile_console_dreamcast(), profile_console_arcade(), profile_console_atari2600(), profile_console_msx(), profile_console_dos()]
}

/// All built-in profiles, as values, in order.
#[verifier::opaque]
pub open spec fn spec_builtin_profiles() -> Seq<ProfileView> {
    spec_modern_profiles() + spec_retro_profiles() + spec_other_arch_profiles() + spec_console_profiles()
}

/// The built-in profiles: all well formed, ids as listed, no id twice.
pub fn builtin_profiles() -> (v: Vec<Profile>)
    ensures
        v@.len() == builtin_ids().len(),
        forall|i: int| 0 <= i < v@.len() ==> well_formed_profile(#[trigger] v@[i]),
        forall|i: int| 0 <= i < v@.len() ==> #[trigger] v@[i].id@ == builtin_ids()[i],
        forall|i: int, j: int| 0 <= i < j < v@.len() ==> v@[i].id@ != v@[j].id@,
        v@.map_values(|p: Profile| p@) == spec_builtin_profiles(),
{
    proof {
        lemma_builtin_ids_distinct();
        reveal(spec_builtin_profiles);
    }
    let mut v = modern_profiles();
    let ghost a = v@;
    let mut r = retro_profiles();
    let ghost b = r@;
    v.append(&mut r);
    let mut o = other_arch_profiles();
    let ghost c = o@;
    v.append(&mut o);
    let mut k = console_profiles();
    let ghost d = k@;
    v.append(&mut k);
    assert(v@ =~= a + b + c + d);
    assert(v@.map_values(|p: Profile| p@) =~= a.map_values(|p: Profile| p@) + b.map_values(|p: Profile| p@)
        + c.map_values(|p: Profile| p@) + d.map_values(|p: Profile| p@));
    v
}

proof fn lemma_in_builtin(bs: Seq<Profile>, k: int)
    requires
        bs.map_values(|p: Profile| p@) == spec_builtin_profiles(),
        0 <= k < bs.len(),
    ensures
        spec_builtin_profiles().contains(bs[k]@),
{
    assert(bs.map_values(|p: Profile| p@)[k] == bs[k]@);
}

/// The built-in profiles with the user's profiles laid over them: a user profile
/// replaces the built-in one with its id (the last one with an id wins), a new id joins
/// the list, a profile without id is ignored. Ids stay unique and no built-in id is lost.
pub fn load_profiles(user: Vec<Profile>) -> (r: Vec<Profile>)
    ensures
        exists|b: Seq<Profile>| b.map_values(|p: Profile| p@) == spec_builtin_profiles() && r@ == overlay_all(b, user@),
        ids_unique(r@),
        forall|i: int| 0 <= i < builtin_ids().len() ==> has_id(r@, #[trigger] builtin_ids()[i]),
        forall|k: int| 0 <= k < user@.len() && (#[trigger] user@[k]).id@.len() > 0
            && (forall|j: int| k < j < user@.len() ==> user@[j].id@ != user@[k].id@) ==> r@.contains(user@[k]),
        forall|y: Profile| r@.contains(y) ==> user@.contains(y) || (well_formed_profile(y)
            && builtin_ids().contains(y.id@) && spec_builtin_profiles().contains(y@)
            && forall|k: int| 0 <= k < user@.len() && (#[trigger] user@[k]).id@.len() > 0 ==> user@[k].id@ != y.id@),
{
    let b = builtin_profiles();
    let ghost bs = b@;
    let ghost us = user@;
    let r = merge_profiles(b, user);
    proof {
        lemma_overlay_all(bs, us);
        assert forall|i: int| 0 <= i < builtin_ids().len() implies has_id(r@, #[trigger] builtin_ids()[i]) by {
            assert(bs[i].id@ == builtin_ids()[i]);
            assert(has_id(bs, builtin_ids()[i]));
        }
        assert forall|k: int| 0 <= k < us.len() && (#[trigger] us[k]).id@.len() > 0
            && (forall|j: int| k < j < us.len() ==> us[j].id@ != us[k].id@) implies r@.contains(us[k]) by {
            lemma_overlay_all_last(bs, us, k);
        }
        assert forall|y: Profile| r@.contains(y) && !us.contains(y) implies well_formed_profile(y) && builtin_ids().contains(y.id@)
            && spec_builtin_profiles().contains(y@) by {
            let k = choose|k: int| 0 <= k < bs.len() && bs[k] == y;
            assert(well_formed_profile(bs[k]));
            assert(builtin_ids()[k] == y.id@);
            lemma_in_builtin(bs, k);
        }
    }
    r
}

} // verus!
