//! What an engine is started with: the QEMU binary and host context of a machine, the
//! RetroArch context and files of a console, and the command lines shown as preview.
use vstd::prelude::*;
use crate::model::{Machine, MediaKind, Firmware, Arch, spec_qemu_binary};
use crate::argv::{HostContext, qemu_argv, spec_qemu_argv, uefi_missing, render, rendered, strs};
use crate::detect::{HostOs, accel_for, spec_accel_for, display_backend, audio_backend, core_ext, install_hint,
    spec_install_hint, spec_uefi_candidates, spec_uefi_vars_template, views};
use crate::libretro::{LibretroContext, resolve_core, retroarch_argv, missing_bios, state_filename,
    spec_state_filename, first_rom, spec_retroarch_argv, spec_resolve_core};
use crate::probe::{find_qemu_binary, find_uefi, swtpm_path, found_binary, exe_name, opt_view, first_yes, all_no,
    spec_prefix_of, answered};
use crate::settings::Settings;
use crate::paths::{join_path, resolve, file_stem_of, file_stem, extension_of, extension, with_extension_of, with_extension};
use crate::text::push_str;

verus! {

/// The QEMU binary, host context and NVRAM template a machine starts with.
#[derive(Debug)]
pub struct QemuLaunch {
    pub binary: String,
    pub ctx: HostContext,
    /// Template for a new NVRAM file, where one was found.
    pub nvram_template: Option<String>,
}

/// The machine uses UEFI firmware.
pub open spec fn uses_uefi(m: Machine) -> bool {
    m.firmware == Firmware::Uefi || m.firmware == Firmware::UefiSecure
}

/// What the UEFI search (code file, NVRAM template) answered for a binary.
pub open spec fn uefi_found<F: Fn(&str) -> bool>(f: F, bin: Seq<char>, arch: Arch, code: Option<Seq<char>>, vars: Option<Seq<char>>) -> bool {
    let codes = spec_uefi_candidates(spec_prefix_of(bin), arch);
    let temps = spec_uefi_vars_template(spec_prefix_of(bin), arch);
    &&& match code {
        Some(c) => exists|k: int| first_yes(f, codes, k) && codes[k] == c,
        None => all_no(f, codes),
    }
    &&& match vars {
        Some(v) => exists|k: int| first_yes(f, temps, k) && temps[k] == v,
        None => all_no(f, temps),
    }
}

/// A launch of a machine: the binary found for its architecture; the accelerator for
/// the host; UEFI code and template searched next to the binary when the machine uses
/// UEFI, and then the NVRAM copy `nvram.fd` in the machine folder; the given QMP
/// endpoint and TPM socket; the host's display and audio backends; process names on
/// Linux only.
pub open spec fn launch_ok<F: Fn(&str) -> bool>(
    f: F, m: Machine, dir: Seq<char>, settings: Settings, host: HostOs, host_arch: Arch,
    path_dirs: Seq<Seq<char>>, endpoint: Seq<char>, tpm_socket: Option<Seq<char>>, l: QemuLaunch,
) -> bool {
    &&& spec_qemu_binary(m.arch) matches Some(b)
    &&& found_binary(f, exe_name(b, host), settings.qemu_dir@, path_dirs, host, Some(l.binary@))
    &&& l.ctx.machine_dir@ == dir
    &&& opt_view(l.ctx.accel) == spec_accel_for(host, host_arch, m.arch)
    &&& l.ctx.qmp@ == endpoint
    &&& (if uses_uefi(m) {
        uefi_found(f, l.binary@, m.arch, opt_view(l.ctx.uefi_code), opt_view(l.nvram_template))
    } else {
        l.ctx.uefi_code is None && l.nvram_template is None
    })
    &&& (if l.ctx.uefi_code is Some { opt_view(l.ctx.uefi_vars) == Some(join_path(dir, "nvram.fd"@)) } else { l.ctx.uefi_vars is None })
    &&& opt_view(l.ctx.tpm_socket) == tpm_socket
    &&& l.ctx.display_backend@ == display_backend_of(host)
    &&& l.ctx.audio_backend@ == audio_backend_of(host)
    &&& l.ctx.process_names == (host == HostOs::Linux)
}

/// The display backend of a host.
pub open spec fn display_backend_of(host: HostOs) -> Seq<char> {
    match host {
        HostOs::MacOs => "cocoa"@,
        HostOs::Windows => "sdl"@,
        HostOs::Linux => "gtk"@,
    }
}

/// The audio backend of a host.
pub open spec fn audio_backend_of(host: HostOs) -> Seq<char> {
    match host {
        HostOs::MacOs => "coreaudio"@,
        HostOs::Windows => "dsound"@,
        HostOs::Linux => "pa"@,
    }
}

fn string_opt(o: Option<&str>) -> (r: Option<String>)
    ensures
        opt_view(r) == (match o { Some(s) => Some(s@), None => None::<Seq<char>> }),
{
    match o {
        Some(s) => Some(String::from_str(s)),
        None => None,
    }
}

/// The binary and host context a QEMU machine starts with (no side effects: the NVRAM
/// copy is the caller's to create).
pub fn qemu_context<F: Fn(&str) -> bool>(
    m: &Machine,
    dir: &str,
    settings: &Settings,
    host: HostOs,
    host_arch: Arch,
    path_dirs: &Vec<String>,
    is_file: &F,
    endpoint: &str,
    tpm_socket: Option<String>,
) -> (r: Result<QemuLaunch, String>)
    requires
        forall|x: &str| call_requires(*is_file, (x,)),
    ensures
        match r {
            Ok(l) => launch_ok(*is_file, *m, dir@, *settings, host, host_arch, views(path_dirs@), endpoint@, opt_view(tpm_socket), l),
            Err(e) => match spec_qemu_binary(m.arch) {
                None => e@ == "Maschine ohne QEMU-Architektur"@,
                Some(b) => found_binary(*is_file, exe_name(b, host), settings.qemu_dir@, views(path_dirs@), host, None)
                    && e@ == b + " nicht gefunden — "@ + spec_install_hint(host, "qemu"@),
            },
        },
{
    let binary_name = match m.arch.qemu_binary() {
        Some(b) => b,
        None => return Err(String::from_str("Maschine ohne QEMU-Architektur")),
    };
    let bin = match find_qemu_binary(m.arch, settings, host, path_dirs, is_file) {
        Some(b) => b,
        None => {
            let mut e = String::from_str(binary_name);
            push_str(&mut e, " nicht gefunden — ");
            let hint = install_hint(host, "qemu");
            push_str(&mut e, hint.as_str());
            return Err(e);
        },
    };
    let accel = string_opt(accel_for(host, host_arch, m.arch));
    let (uefi_code, nvram_template) = if m.firmware == Firmware::Uefi || m.firmware == Firmware::UefiSecure {
        find_uefi(bin.as_str(), m.arch, is_file)
    } else {
        (None, None)
    };
    let uefi_vars = if uefi_code.is_some() { Some(resolve(dir, "nvram.fd")) } else { None };
    let ctx = HostContext {
        machine_dir: String::from_str(dir),
        accel,
        qmp: String::from_str(endpoint),
        uefi_code,
        uefi_vars,
        tpm_socket,
        display_backend: String::from_str(display_backend(host)),
        audio_backend: String::from_str(audio_backend(host)),
        process_names: host == HostOs::Linux,
    };
    Ok(QemuLaunch { binary: bin, ctx, nvram_template })
}

/// The QMP endpoint shown in a preview: a fixed TCP port on Windows, else the socket in
/// the machine folder.
pub open spec fn spec_preview_endpoint(dir: Seq<char>, host: HostOs) -> Seq<char> {
    if host == HostOs::Windows { "tcp:127.0.0.1:4444"@ } else { join_path(dir, "qmp.sock"@) }
}

/// The QMP endpoint shown in a preview.
pub fn preview_endpoint(dir: &str, host: HostOs) -> (r: String)
    ensures
        r@ == spec_preview_endpoint(dir@, host),
{
    if host == HostOs::Windows { String::from_str("tcp:127.0.0.1:4444") } else { resolve(dir, "qmp.sock") }
}

/// The swtpm socket of a machine: `tpm/sock` in its folder.
pub open spec fn spec_tpm_socket(dir: Seq<char>) -> Seq<char> {
    join_path(join_path(dir, "tpm"@), "sock"@)
}

/// The swtpm socket of a machine.
pub fn tpm_socket(dir: &str) -> (r: String)
    ensures
        r@ == spec_tpm_socket(dir@),
{
    let t = resolve(dir, "tpm");
    resolve(t.as_str(), "sock")
}

/// The QEMU command line of a machine as shown to the user: the launch with the preview
/// endpoint and, for a TPM machine where swtpm exists, its socket; then the arguments.
pub fn qemu_preview<F: Fn(&str) -> bool>(
    m: &Machine,
    dir: &str,
    settings: &Settings,
    host: HostOs,
    host_arch: Arch,
    path_dirs: &Vec<String>,
    is_file: &F,
) -> (r: Result<String, String>)
    requires
        forall|x: &str| call_requires(*is_file, (x,)),
        m.disks@.len() + m.media@.len() + 2 < u64::MAX,
    ensures
        r matches Ok(s) ==> exists|l: QemuLaunch, tpm: Option<Seq<char>>|
            (tpm is Some ==> m.tpm && tpm == Some(spec_tpm_socket(dir@)))
            && launch_ok(*is_file, *m, dir@, *settings, host, host_arch, views(path_dirs@), spec_preview_endpoint(dir@, host), tpm, l)
            && m.engine == crate::model::Engine::Qemu && !uefi_missing(*m, l.ctx)
            && s@ == rendered(l.binary@, spec_qemu_argv(*m, l.ctx), spec_qemu_argv(*m, l.ctx).len()),
        spec_qemu_binary(m.arch) is None ==> (r matches Err(e) && e@ == "Maschine ohne QEMU-Architektur"@),
{
    let endpoint = preview_endpoint(dir, host);
    let tpm = if m.tpm && swtpm_path(host, path_dirs, is_file).is_some() { Some(tpm_socket(dir)) } else { None };
    let ghost tpm_v = opt_view(tpm);
    let l = qemu_context(m, dir, settings, host, host_arch, path_dirs, is_file, endpoint.as_str(), tpm)?;
    let args = qemu_argv(m, &l.ctx)?;
    let s = render(l.binary.as_str(), args.as_slice());
    assert(strs(args@).len() == args@.len());
    Ok(s)
}

/// The RetroArch context of a console: its folder, the cores and system folders, the
/// command port, and the host's core extension.
pub fn libretro_context(dir: &str, cores_dir: String, system_dir: String, port: u16, host: HostOs) -> (r: LibretroContext)
    ensures
        r.machine_dir@ == dir@,
        r.cores_dir == cores_dir,
        r.system_dir == system_dir,
        r.cmd_port == port,
        r.core_ext@ == match host {
            HostOs::MacOs => "dylib"@,
            HostOs::Windows => "dll"@,
            HostOs::Linux => "so"@,
        },
{
    LibretroContext {
        machine_dir: String::from_str(dir),
        cores_dir,
        system_dir,
        cmd_port: port,
        core_ext: String::from_str(core_ext(host)),
    }
}

/// The file stem of the first ROM of a machine.
pub open spec fn spec_rom_stem(m: Machine) -> Option<Seq<char>> {
    match first_rom(m.media@) {
        Some(k) => file_stem_of(m.media@[k].path@),
        None => None,
    }
}

/// The file stem of the first ROM of a machine (its save states are named after it).
pub fn rom_stem(m: &Machine) -> (r: Option<String>)
    ensures
        opt_view(r) == spec_rom_stem(*m),
{
    let mut k: usize = 0;
    while k < m.media.len() && m.media[k].kind != MediaKind::Rom
        invariant
            k <= m.media@.len(),
            forall|j: int| 0 <= j < k ==> m.media@[j].kind != MediaKind::Rom,
        decreases m.media@.len() - k,
    {
        k = k + 1;
    }
    if k == m.media.len() {
        return None;
    }
    proof {
        let c = choose|i: int| 0 <= i < m.media@.len() && m.media@[i].kind == MediaKind::Rom
            && forall|j: int| 0 <= j < i ==> m.media@[j].kind != MediaKind::Rom;
        assert(c == k as int) by {
            if c < k {} else if c > k { assert(m.media@[k as int].kind == MediaKind::Rom); }
        }
    }
    file_stem(m.media[k].path.as_str())
}

/// The save-state file of a slot: `states/<rom stem>.state…` in the machine folder.
pub open spec fn spec_state_file(m: Machine, dir: Seq<char>, slot: u32) -> Option<Seq<char>> {
    match spec_rom_stem(m) {
        Some(stem) => Some(join_path(join_path(dir, "states"@), spec_state_filename(stem, slot))),
        None => None,
    }
}

/// The save-state file of a slot.
pub fn state_file(m: &Machine, dir: &str, slot: u32) -> (r: Option<String>)
    ensures
        opt_view(r) == spec_state_file(*m, dir@, slot),
{
    match rom_stem(m) {
        Some(stem) => {
            let states = resolve(dir, "states");
            let name = state_filename(stem.as_str(), slot);
            Some(resolve(states.as_str(), name.as_str()))
        },
        None => None,
    }
}

/// The automatic companion of a save-state file: its extension with `.auto` appended.
pub open spec fn spec_auto_state_file(f: Seq<char>) -> Seq<char> {
    with_extension_of(f, (match extension_of(f) { Some(e) => e, None => Seq::empty() }) + ".auto"@)
}

/// The automatic companion of a save-state file.
pub fn auto_state_file(f: &str) -> (r: String)
    ensures
        r@ == spec_auto_state_file(f@),
{
    let mut e = match extension(f) {
        Some(x) => x,
        None => String::new(),
    };
    push_str(&mut e, ".auto");
    with_extension(f, e.as_str())
}

/// The slot of a save-state snapshot, from its tag.
pub fn slot_of(tag: &str) -> (r: Result<u32, String>)
    ensures
        match crate::text::spec_parse_u32(tag@) {
            Some(v) => r == Ok::<u32, String>(v),
            None => r matches Err(e) && e@ == "Ungültiger Slot"@,
        },
{
    match crate::text::parse_u32(tag) {
        Some(v) => Ok(v),
        None => Err(String::from_str("Ungültiger Slot")),
    }
}

/// The BIOS files a console machine lacks (none for other machines).
pub fn machine_missing_bios<F: Fn(&str) -> bool>(m: &Machine, ctx: &LibretroContext, file_exists: F) -> (r: Vec<String>)
    requires
        forall|x: &str| call_requires(file_exists, (x,)),
    ensures
        m.libretro is None ==> r@.len() == 0,
        m.libretro matches Some(cfg) ==> exists|answers: Seq<bool>|
            answers.len() == cfg.bios@.len()
                && (forall|i: int| 0 <= i < answers.len() ==> answered(file_exists, join_path(ctx.system_dir@, cfg.bios@[i]@), #[trigger] answers[i]))
                && views(r@) == crate::libretro::kept_where_no(views(cfg.bios@), answers),
{
    match &m.libretro {
        Some(cfg) => missing_bios(cfg, ctx, file_exists),
        None => Vec::new(),
    }
}

/// The error for missing BIOS files: the system folder and the files, comma-separated.
pub open spec fn spec_missing_bios_error(system_dir: Seq<char>, missing: Seq<String>) -> Seq<char> {
    "BIOS-Dateien fehlen im System-Ordner "@ + system_dir + ": "@ + comma_joined(missing, 0)
}

/// Texts from `i` on, joined by `, `.
pub open spec fn comma_joined(items: Seq<String>, i: int) -> Seq<char>
    decreases items.len() - i,
{
    if i < 0 || i >= items.len() {
        Seq::empty()
    } else if i == items.len() - 1 {
        items[i]@
    } else {
        items[i]@ + ", "@ + comma_joined(items, i + 1)
    }
}

/// The error for missing BIOS files.
pub fn missing_bios_error(system_dir: &str, missing: &Vec<String>) -> (r: String)
    ensures
        r@ == spec_missing_bios_error(system_dir@, missing@),
{
    let mut acc = String::new();
    let n = missing.len();
    let mut i = n;
    while i > 0
        invariant
            i <= n,
            n == missing@.len(),
            acc@ == comma_joined(missing@, i as int),
        decreases i,
    {
        i = i - 1;
        let mut next = String::from_str(missing[i].as_str());
        if i + 1 < n {
            push_str(&mut next, ", ");
        }
        push_str(&mut next, acc.as_str());
        acc = next;
    }
    let mut s = String::from_str("BIOS-Dateien fehlen im System-Ordner ");
    push_str(&mut s, system_dir);
    push_str(&mut s, ": ");
    push_str(&mut s, acc.as_str());
    s
}

/// The RetroArch command line of a console as shown to the user: the core (checked),
/// the configuration `retroarch.cfg` in the machine folder, the game.
pub fn libretro_preview<F: Fn(&str) -> bool>(
    m: &Machine,
    ctx: &LibretroContext,
    retroarch: Option<String>,
    host: HostOs,
    file_exists: F,
) -> (r: Result<String, String>)
    requires
        forall|x: &str| call_requires(file_exists, (x,)),
    ensures
        m.libretro is None ==> (r matches Err(e) && e@ == "Keine Konsolen-Maschine"@),
        m.libretro is Some && retroarch is None ==> (r matches Err(e)
            && e@ == "retroarch nicht gefunden — "@ + spec_install_hint(host, "retroarch"@)),
        r matches Ok(s) ==> (m.libretro matches Some(cfg) && retroarch matches Some(bin) && first_rom(m.media@) matches Some(k)
            && exists|core: Seq<char>| spec_resolve_core(file_exists, cfg, *ctx, Ok(core))
                && s@ == rendered(bin@, spec_retroarch_argv(*m, *ctx, core, join_path(ctx.machine_dir@, "retroarch.cfg"@), m.media@[k]),
                    spec_retroarch_argv(*m, *ctx, core, join_path(ctx.machine_dir@, "retroarch.cfg"@), m.media@[k]).len())),
{
    let cfg = match &m.libretro {
        Some(c) => c,
        None => return Err(String::from_str("Keine Konsolen-Maschine")),
    };
    let bin = match retroarch {
        Some(b) => b,
        None => {
            let mut e = String::from_str("retroarch nicht gefunden — ");
            let hint = install_hint(host, "retroarch");
            push_str(&mut e, hint.as_str());
            return Err(e);
        },
    };
    let core = resolve_core(cfg, ctx, file_exists)?;
    let cfg_path = resolve(ctx.machine_dir.as_str(), "retroarch.cfg");
    let args = retroarch_argv(m, ctx, core.as_str(), cfg_path.as_str())?;
    Ok(render(bin.as_str(), args.as_slice()))
}

} // verus!
