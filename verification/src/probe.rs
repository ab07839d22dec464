//! Engine discovery on the host: binaries in an override folder, in PATH and
//! in the usual install folders; firmware next to QEMU; the folders of
//! RetroArch. Whether a file or folder exists is asked through the test the
//! caller hands in; running `--version` is the caller's part too.
use vstd::prelude::*;
use crate::model::{Arch, EngineInfo, spec_qemu_binary};
use crate::settings::Settings;
use crate::detect::{HostOs, candidate_dirs, spec_candidate_dirs, install_hint, spec_install_hint, retroarch_dirs,
    spec_retroarch_dirs, uefi_candidates, spec_uefi_candidates, uefi_vars_template, spec_uefi_vars_template,
    accel_for, spec_accel_for, views};
use crate::paths::{join_path, resolve, parent, parent_of, file_name, file_name_of};
use crate::text::{str_eq, push_str};

verus! {

/// The test `f` answered `b` for some path spelled `p`.
pub open spec fn answered<F: Fn(&str) -> bool>(f: F, p: Seq<char>, b: bool) -> bool {
    exists|x: &str| x@ == p && #[trigger] call_ensures(f, (x,), b)
}

/// `k` is the first index of `cands` for which the test answered yes.
pub open spec fn first_yes<F: Fn(&str) -> bool>(f: F, cands: Seq<Seq<char>>, k: int) -> bool {
    0 <= k < cands.len() && answered(f, cands[k], true)
        && forall|j: int| 0 <= j < k ==> answered(f, #[trigger] cands[j], false)
}

/// The test answered no for every candidate.
pub open spec fn all_no<F: Fn(&str) -> bool>(f: F, cands: Seq<Seq<char>>) -> bool {
    forall|j: int| 0 <= j < cands.len() ==> answered(f, #[trigger] cands[j], false)
}

/// The first candidate that exists.
pub fn first_existing<F: Fn(&str) -> bool>(cands: &Vec<String>, test: &F) -> (r: Option<usize>)
    requires
        forall|x: &str| call_requires(*test, (x,)),
    ensures
        match r {
            Some(k) => first_yes(*test, views(cands@), k as int),
            None => all_no(*test, views(cands@)),
        },
{
    let mut i: usize = 0;
    while i < cands.len()
        invariant
            i <= cands@.len(),
            forall|x: &str| call_requires(*test, (x,)),
            forall|j: int| 0 <= j < i ==> answered(*test, #[trigger] views(cands@)[j], false),
        decreases cands@.len() - i,
    {
        let c = cands[i].as_str();
        let yes = test(c);
        assert(views(cands@)[i as int] == c@);
        if yes {
            assert(answered(*test, c@, true));
            return Some(i);
        }
        assert(answered(*test, c@, false));
        i = i + 1;
    }
    None
}

/// File name of an executable on the host (`.exe` on Windows).
pub open spec fn exe_name(name: Seq<char>, host: HostOs) -> Seq<char> {
    if host == HostOs::Windows { name + ".exe"@ } else { name }
}

fn exe(name: &str, host: HostOs) -> (r: String)
    ensures
        r@ == exe_name(name@, host),
{
    let mut s = String::from_str(name);
    if host == HostOs::Windows {
        push_str(&mut s, ".exe");
    }
    s
}

/// Each folder of a list joined with a file name.
pub open spec fn joined_all(dirs: Seq<Seq<char>>, file: Seq<char>) -> Seq<Seq<char>> {
    dirs.map_values(|d: Seq<char>| join_path(d, file))
}

/// Where a binary is looked for: the override folder, then PATH, then the usual folders.
pub open spec fn binary_search_list(file: Seq<char>, override_dir: Seq<char>, path_dirs: Seq<Seq<char>>, host: HostOs) -> Seq<Seq<char>> {
    (if override_dir.len() > 0 { seq![join_path(override_dir, file)] } else { Seq::empty() })
        + joined_all(path_dirs, file) + joined_all(spec_candidate_dirs(host), file)
}

/// The override is itself the binary: an existing file with the binary's name.
pub open spec fn override_is_binary<F: Fn(&str) -> bool>(f: F, file: Seq<char>, override_dir: Seq<char>) -> bool {
    override_dir.len() > 0 && file_name_of(override_dir) == Some(file) && answered(f, override_dir, true)
}

/// What `find_binary` may answer for a search.
pub open spec fn found_binary<F: Fn(&str) -> bool>(f: F, file: Seq<char>, override_dir: Seq<char>, path_dirs: Seq<Seq<char>>, host: HostOs, r: Option<Seq<char>>) -> bool {
    let list = binary_search_list(file, override_dir, path_dirs, host);
    match r {
        Some(p) => (override_is_binary(f, file, override_dir) && p == override_dir)
            || (exists|k: int| first_yes(f, list, k) && list[k] == p),
        None => all_no(f, list),
    }
}

fn joined_list(dirs: &Vec<String>, file: &str) -> (r: Vec<String>)
    ensures
        views(r@) == joined_all(views(dirs@), file@),
{
    let mut out: Vec<String> = Vec::new();
    let mut i: usize = 0;
    while i < dirs.len()
        invariant
            i <= dirs@.len(),
            out@.len() == i,
            forall|j: int| 0 <= j < i ==> #[trigger] out@[j]@ == join_path(dirs@[j]@, file@),
        decreases dirs@.len() - i,
    {
        out.push(resolve(dirs[i].as_str(), file));
        i = i + 1;
    }
    assert(views(out@) =~= joined_all(views(dirs@), file@));
    out
}

/// Looks for a binary: first in the override (folder or the file itself), then in the
/// PATH folders, then in the usual install folders.
pub fn find_binary<F: Fn(&str) -> bool>(name: &str, override_dir: &str, host: HostOs, path_dirs: &Vec<String>, is_file: &F) -> (r: Option<String>)
    requires
        forall|x: &str| call_requires(*is_file, (x,)),
    ensures
        found_binary(*is_file, exe_name(name@, host), override_dir@, views(path_dirs@), host,
            match r { Some(p) => Some(p@), None => None }),
{
    let file = exe(name, host);
    let mut list: Vec<String> = Vec::new();
    if override_dir.unicode_len() > 0 {
        let fname = file_name(override_dir);
        let named = match &fname {
            Some(f) => str_eq(f.as_str(), file.as_str()),
            None => false,
        };
        if named && is_file(override_dir) {
            assert(answered(*is_file, override_dir@, true));
            return Some(String::from_str(override_dir));
        }
        list.push(resolve(override_dir, file.as_str()));
    }
    let mut rest = joined_list(path_dirs, file.as_str());
    list.append(&mut rest);
    let cands = candidate_dirs(host);
    let mut more = joined_list(&cands, file.as_str());
    list.append(&mut more);
    assert(views(list@) =~= binary_search_list(file@, override_dir@, views(path_dirs@), host));
    match first_existing(&list, is_file) {
        Some(k) => Some(list[k].clone()),
        None => None,
    }
}


/// The optional text of an optional string.
pub open spec fn opt_view(o: Option<String>) -> Option<Seq<char>> {
    match o {
        Some(s) => Some(s@),
        None => None,
    }
}

/// The QEMU system emulator for an architecture, searched with the QEMU folder override.
pub fn find_qemu_binary<F: Fn(&str) -> bool>(arch: Arch, settings: &Settings, host: HostOs, path_dirs: &Vec<String>, is_file: &F) -> (r: Option<String>)
    requires
        forall|x: &str| call_requires(*is_file, (x,)),
    ensures
        match spec_qemu_binary(arch) {
            Some(b) => found_binary(*is_file, exe_name(b, host), settings.qemu_dir@, views(path_dirs@), host, opt_view(r)),
            None => r is None,
        },
{
    match arch.qemu_binary() {
        Some(b) => find_binary(b, settings.qemu_dir.as_str(), host, path_dirs, is_file),
        None => None,
    }
}

/// `qemu-img`, searched with the QEMU folder override.
pub fn qemu_img_path<F: Fn(&str) -> bool>(settings: &Settings, host: HostOs, path_dirs: &Vec<String>, is_file: &F) -> (r: Option<String>)
    requires
        forall|x: &str| call_requires(*is_file, (x,)),
    ensures
        found_binary(*is_file, exe_name("qemu-img"@, host), settings.qemu_dir@, views(path_dirs@), host, opt_view(r)),
{
    find_binary("qemu-img", settings.qemu_dir.as_str(), host, path_dirs, is_file)
}

/// swtpm (not available on Windows).
pub fn swtpm_path<F: Fn(&str) -> bool>(host: HostOs, path_dirs: &Vec<String>, is_file: &F) -> (r: Option<String>)
    requires
        forall|x: &str| call_requires(*is_file, (x,)),
    ensures
        host == HostOs::Windows ==> r is None,
        host != HostOs::Windows ==> found_binary(*is_file, exe_name("swtpm"@, host), ""@, views(path_dirs@), host, opt_view(r)),
{
    if host == HostOs::Windows {
        return None;
    }
    find_binary("swtpm", "", host, path_dirs, is_file)
}

/// RetroArch: the configured file itself when it exists, else searched with it as override.
pub fn retroarch_path<F: Fn(&str) -> bool>(settings: &Settings, host: HostOs, path_dirs: &Vec<String>, is_file: &F) -> (r: Option<String>)
    requires
        forall|x: &str| call_requires(*is_file, (x,)),
    ensures
        (settings.retroarch_path@.len() > 0 && answered(*is_file, settings.retroarch_path@, true) && opt_view(r) == Some(settings.retroarch_path@))
            || found_binary(*is_file, exe_name("retroarch"@, host), settings.retroarch_path@, views(path_dirs@), host, opt_view(r)),
{
    let p = settings.retroarch_path.as_str();
    if p.unicode_len() > 0 && is_file(p) {
        return Some(settings.retroarch_path.clone());
    }
    find_binary("retroarch", p, host, path_dirs, is_file)
}

/// Folder of the cores bundled inside the macOS RetroArch application.
pub open spec fn bundle_cores_dir() -> Seq<char> {
    "/Applications/RetroArch.app/Contents/Resources/cores"@
}

/// What `cores_dir` may answer: the setting, else the RetroArch convention, falling back
/// to the macOS application bundle when only that folder exists.
pub open spec fn spec_cores_dir<F: Fn(&str) -> bool>(f: F, settings: Settings, host: HostOs, home: Seq<char>, r: Seq<char>) -> bool {
    let conv = spec_retroarch_dirs(host, home).0;
    if settings.cores_dir@.len() > 0 {
        r == settings.cores_dir@
    } else if host == HostOs::MacOs {
        (answered(f, conv, true) && r == conv)
            || (answered(f, conv, false) && answered(f, bundle_cores_dir(), true) && r == bundle_cores_dir())
            || (answered(f, conv, false) && answered(f, bundle_cores_dir(), false) && r == conv)
    } else {
        r == conv
    }
}

/// Folder of the libretro cores (setting, else RetroArch convention, else the app bundle).
pub fn cores_dir<F: Fn(&str) -> bool>(settings: &Settings, host: HostOs, home: &str, is_dir: &F) -> (r: String)
    requires
        forall|x: &str| call_requires(*is_dir, (x,)),
    ensures
        spec_cores_dir(*is_dir, *settings, host, home@, r@),
{
    if settings.cores_dir.as_str().unicode_len() > 0 {
        return settings.cores_dir.clone();
    }
    let (cores, _) = retroarch_dirs(host, home);
    if host == HostOs::MacOs {
        let there = is_dir(cores.as_str());
        if !there {
            let bundle = "/Applications/RetroArch.app/Contents/Resources/cores";
            let b = is_dir(bundle);
            if b {
                return String::from_str(bundle);
            }
            return cores;
        }
    }
    cores
}

/// System/BIOS folder of RetroArch (setting, else RetroArch convention).
pub fn system_dir(settings: &Settings, host: HostOs, home: &str) -> (r: String)
    ensures
        r@ == if settings.system_dir@.len() > 0 { settings.system_dir@ } else { spec_retroarch_dirs(host, home@).1 },
{
    if settings.system_dir.as_str().unicode_len() > 0 {
        return settings.system_dir.clone();
    }
    let (_, system) = retroarch_dirs(host, home);
    system
}

/// Install prefix of a QEMU binary: two folders up (`/opt/homebrew/bin/qemu-…` → `/opt/homebrew`),
/// `/usr` when there are not two.
pub open spec fn spec_prefix_of(bin: Seq<char>) -> Seq<char> {
    match parent_of(bin) {
        Some(b) => match parent_of(b) {
            Some(p) => p,
            None => "/usr"@,
        },
        None => "/usr"@,
    }
}

pub fn prefix_of(bin: &str) -> (r: String)
    ensures
        r@ == spec_prefix_of(bin@),
{
    match parent(bin) {
        Some(b) => match parent(b.as_str()) {
            Some(p) => p,
            None => String::from_str("/usr"),
        },
        None => String::from_str("/usr"),
    }
}

/// UEFI firmware of a QEMU binary: the first existing code file and the first existing
/// NVRAM template.
pub fn find_uefi<F: Fn(&str) -> bool>(qemu_bin: &str, arch: Arch, is_file: &F) -> (r: (Option<String>, Option<String>))
    requires
        forall|x: &str| call_requires(*is_file, (x,)),
    ensures
        ({
            let codes = spec_uefi_candidates(spec_prefix_of(qemu_bin@), arch);
            match r.0 {
                Some(c) => exists|k: int| first_yes(*is_file, codes, k) && codes[k] == c@,
                None => all_no(*is_file, codes),
            }
        }),
        ({
            let vars = spec_uefi_vars_template(spec_prefix_of(qemu_bin@), arch);
            match r.1 {
                Some(v) => exists|k: int| first_yes(*is_file, vars, k) && vars[k] == v@,
                None => all_no(*is_file, vars),
            }
        }),
{
    let prefix = prefix_of(qemu_bin);
    let codes = uefi_candidates(prefix.as_str(), arch);
    let vars = uefi_vars_template(prefix.as_str(), arch);
    let code = match first_existing(&codes, is_file) {
        Some(k) => Some(codes[k].clone()),
        None => None,
    };
    let var = match first_existing(&vars, is_file) {
        Some(k) => Some(vars[k].clone()),
        None => None,
    };
    (code, var)
}

/// The engine whose install hint applies (`qemu-img` comes with QEMU).
pub open spec fn hint_engine(engine: Seq<char>) -> Seq<char> {
    if engine == "qemu-img"@ { "qemu"@ } else { engine }
}

/// An engine entry: found when it has a path, the version as the probe reported it,
/// and an install hint only when missing.
pub open spec fn engine_info_of<G: Fn(&str) -> Option<String>>(g: G, engine: Seq<char>, binary: Seq<char>, path: Option<Seq<char>>, accel: Option<Seq<char>>, host: HostOs, e: EngineInfo) -> bool {
    &&& e.engine@ == engine
    &&& e.binary@ == binary
    &&& opt_view(e.path) == path
    &&& e.ok == (path is Some)
    &&& opt_view(e.accel) == accel
    &&& (path is None ==> e.version is None)
    &&& (path matches Some(p) ==> exists|x: &str| x@ == p && #[trigger] call_ensures(g, (x,), e.version))
    &&& e.hint@ == if path is Some { Seq::empty() } else { spec_install_hint(host, hint_engine(engine)) }
}

fn info<G: Fn(&str) -> Option<String>>(engine: &str, binary: &str, path: Option<String>, accel: Option<String>, version_of: &G, host: HostOs) -> (r: EngineInfo)
    requires
        forall|x: &str| call_requires(*version_of, (x,)),
    ensures
        engine_info_of(*version_of, engine@, binary@, opt_view(path), opt_view(accel), host, r),
{
    let version = match &path {
        Some(p) => version_of(p.as_str()),
        None => None,
    };
    let ok = path.is_some();
    let hint = if ok {
        String::new()
    } else if str_eq(engine, "qemu-img") {
        install_hint(host, "qemu")
    } else {
        install_hint(host, engine)
    };
    EngineInfo {
        engine: String::from_str(engine),
        binary: String::from_str(binary),
        path,
        version,
        ok,
        accel,
        hint,
    }
}

/// Overview of all engines for the settings page: QEMU for the host architecture
/// (with its accelerator), qemu-img, RetroArch and swtpm.
pub fn detect_all<F: Fn(&str) -> bool, G: Fn(&str) -> Option<String>>(
    settings: &Settings,
    host: HostOs,
    host_arch: Arch,
    path_dirs: &Vec<String>,
    is_file: &F,
    version_of: &G,
) -> (r: Vec<EngineInfo>)
    requires
        forall|x: &str| call_requires(*is_file, (x,)),
        forall|x: &str| call_requires(*version_of, (x,)),
    ensures
        r@.len() == 4,
        ({
            let qb = match spec_qemu_binary(host_arch) { Some(b) => b, None => "qemu-system-x86_64"@ };
            &&& engine_info_of(*version_of, "qemu"@, qb, opt_view(r@[0].path), spec_accel_for(host, host_arch, host_arch), host, r@[0])
            &&& found_binary(*is_file, exe_name(qb, host), settings.qemu_dir@, views(path_dirs@), host, opt_view(r@[0].path))
        }),
        engine_info_of(*version_of, "qemu-img"@, "qemu-img"@, opt_view(r@[1].path), None, host, r@[1]),
        found_binary(*is_file, exe_name("qemu-img"@, host), settings.qemu_dir@, views(path_dirs@), host, opt_view(r@[1].path)),
        engine_info_of(*version_of, "retroarch"@, "retroarch"@, opt_view(r@[2].path), None, host, r@[2]),
        (settings.retroarch_path@.len() > 0 && answered(*is_file, settings.retroarch_path@, true)
            && opt_view(r@[2].path) == Some(settings.retroarch_path@))
            || found_binary(*is_file, exe_name("retroarch"@, host), settings.retroarch_path@, views(path_dirs@), host,
                opt_view(r@[2].path)),
        engine_info_of(*version_of, "swtpm"@, "swtpm"@, opt_view(r@[3].path), None, host, r@[3]),
        host == HostOs::Windows ==> r@[3].path is None,
        host != HostOs::Windows ==> found_binary(*is_file, exe_name("swtpm"@, host), ""@, views(path_dirs@), host,
            opt_view(r@[3].path)),
{
    let qemu_bin: &str = match host_arch.qemu_binary() {
        Some(b) => b,
        None => "qemu-system-x86_64",
    };
    let qemu = find_binary(qemu_bin, settings.qemu_dir.as_str(), host, path_dirs, is_file);
    let accel = match accel_for(host, host_arch, host_arch) {
        Some(a) => Some(String::from_str(a)),
        None => None,
    };
    let mut v: Vec<EngineInfo> = Vec::new();
    v.push(info("qemu", qemu_bin, qemu, accel, version_of, host));
    v.push(info("qemu-img", "qemu-img", qemu_img_path(settings, host, path_dirs, is_file), None, version_of, host));
    v.push(info("retroarch", "retroarch", retroarch_path(settings, host, path_dirs, is_file), None, version_of, host));
    v.push(info("swtpm", "swtpm", swtpm_path(host, path_dirs, is_file), None, version_of, host));
    v
}

} // verus!
