//! Engine detection as pure functions: binary names, candidate paths, version
//! parsing, accelerator per host. Running `--version` and probing paths is the
//! caller's part; here it comes in as values or as an existence test.
use vstd::prelude::*;
use crate::model::Arch;
use crate::text::{str_eq, push_str, is_unicode_whitespace, spec_is_whitespace, is_ascii_digit_char, spec_is_digit, parse_u32, spec_parse_u32};

verus! {

/// Operating system of the host.
#[derive(Debug, Clone, Copy, PartialEq, Eq, Structural)]
pub enum HostOs {
    MacOs,
    Windows,
    Linux,
}

/// The accelerator for a guest on a host, when the architectures fit
/// (i386 runs accelerated on x86_64 hosts).
pub open spec fn spec_accel_for(host: HostOs, host_arch: Arch, guest: Arch) -> Option<Seq<char>> {
    if host_arch == guest || (host_arch == Arch::X86_64 && guest == Arch::I386) {
        Some(match host {
            HostOs::MacOs => "hvf"@,
            HostOs::Windows => "whpx"@,
            HostOs::Linux => "kvm"@,
        })
    } else {
        None
    }
}

pub fn accel_for(host: HostOs, host_arch: Arch, guest: Arch) -> (r: Option<&'static str>)
    ensures
        r is Some == spec_accel_for(host, host_arch, guest) is Some,
        r matches Some(a) ==> spec_accel_for(host, host_arch, guest) == Some(a@),
{
    let compatible = host_arch == guest || (host_arch == Arch::X86_64 && guest == Arch::I386);
    if !compatible {
        return None;
    }
    Some(match host {
        HostOs::MacOs => "hvf",
        HostOs::Windows => "whpx",
        HostOs::Linux => "kvm",
    })
}

/// Display backend per host (QEMU `-display`).
pub fn display_backend(host: HostOs) -> (r: &'static str)
    ensures
        r@ == match host {
            HostOs::MacOs => "cocoa"@,
            HostOs::Windows => "sdl"@,
            HostOs::Linux => "gtk"@,
        },
{
    match host {
        HostOs::MacOs => "cocoa",
        HostOs::Windows => "sdl",
        HostOs::Linux => "gtk",
    }
}

/// Audio backend per host (QEMU `-audiodev`).
pub fn audio_backend(host: HostOs) -> (r: &'static str)
    ensures
        r@ == match host {
            HostOs::MacOs => "coreaudio"@,
            HostOs::Windows => "dsound"@,
            HostOs::Linux => "pa"@,
        },
{
    match host {
        HostOs::MacOs => "coreaudio",
        HostOs::Windows => "dsound",
        HostOs::Linux => "pa",
    }
}

/// File extension of libretro cores.
pub fn core_ext(host: HostOs) -> (r: &'static str)
    ensures
        r@ == match host {
            HostOs::MacOs => "dylib"@,
            HostOs::Windows => "dll"@,
            HostOs::Linux => "so"@,
        },
{
    match host {
        HostOs::MacOs => "dylib",
        HostOs::Windows => "dll",
        HostOs::Linux => "so",
    }
}

/// Strings of a list, as character sequences.
pub open spec fn views(v: Seq<String>) -> Seq<Seq<char>> {
    v.map_values(|s: String| s@)
}

/// Usual install locations outside PATH (Homebrew, winget, distributions).
pub open spec fn spec_candidate_dirs(host: HostOs) -> Seq<Seq<char>> {
    match host {
        HostOs::MacOs => seq![
            "/opt/homebrew/bin"@,
            "/usr/local/bin"@,
            "/opt/local/bin"@,
            "/Applications/RetroArch.app/Contents/MacOS"@,
        ],
        HostOs::Windows => seq![
            "C:\\Program Files\\qemu"@,
            "C:\\Program Files (x86)\\qemu"@,
            "C:\\RetroArch-Win64"@,
            "C:\\Program Files\\RetroArch"@,
        ],
        HostOs::Linux => seq!["/usr/bin"@, "/usr/local/bin"@, "/snap/bin"@, "/var/lib/flatpak/exports/bin"@],
    }
}

pub fn candidate_dirs(host: HostOs) -> (r: Vec<String>)
    ensures
        views(r@) == spec_candidate_dirs(host),
{
    let mut r: Vec<String> = Vec::new();
    match host {
        HostOs::MacOs => {
            r.push(String::from_str("/opt/homebrew/bin"));
            r.push(String::from_str("/usr/local/bin"));
            r.push(String::from_str("/opt/local/bin"));
            r.push(String::from_str("/Applications/RetroArch.app/Contents/MacOS"));
        },
        HostOs::Windows => {
            r.push(String::from_str("C:\\Program Files\\qemu"));
            r.push(String::from_str("C:\\Program Files (x86)\\qemu"));
            r.push(String::from_str("C:\\RetroArch-Win64"));
            r.push(String::from_str("C:\\Program Files\\RetroArch"));
        },
        HostOs::Linux => {
            r.push(String::from_str("/usr/bin"));
            r.push(String::from_str("/usr/local/bin"));
            r.push(String::from_str("/snap/bin"));
            r.push(String::from_str("/var/lib/flatpak/exports/bin"));
        },
    }
    assert(views(r@) =~= spec_candidate_dirs(host));
    r
}

/// Installation hint per host and engine (empty for unknown engines).
pub open spec fn spec_install_hint(host: HostOs, engine: Seq<char>) -> Seq<char> {
    if engine == "qemu"@ {
        match host {
            HostOs::MacOs => "brew install qemu"@,
            HostOs::Windows => "winget install SoftwareFreedomConservancy.QEMU"@,
            HostOs::Linux => "sudo apt install qemu-system  ·  sudo dnf install qemu"@,
        }
    } else if engine == "retroarch"@ {
        match host {
            HostOs::MacOs => "brew install --cask retroarch-metal"@,
            HostOs::Windows => "winget install Libretro.RetroArch"@,
            HostOs::Linux => "sudo apt install retroarch  ·  flatpak install org.libretro.RetroArch"@,
        }
    } else if engine == "swtpm"@ {
        match host {
            HostOs::MacOs => "brew install swtpm"@,
            HostOs::Windows => "swtpm ist unter Windows nicht verfügbar — TPM entfällt"@,
            HostOs::Linux => "sudo apt install swtpm"@,
        }
    } else {
        Seq::empty()
    }
}

pub fn install_hint(host: HostOs, engine: &str) -> (r: String)
    ensures
        r@ == spec_install_hint(host, engine@),
{
    if str_eq(engine, "qemu") {
        String::from_str(match host {
            HostOs::MacOs => "brew install qemu",
            HostOs::Windows => "winget install SoftwareFreedomConservancy.QEMU",
            HostOs::Linux => "sudo apt install qemu-system  ·  sudo dnf install qemu",
        })
    } else if str_eq(engine, "retroarch") {
        String::from_str(match host {
            HostOs::MacOs => "brew install --cask retroarch-metal",
            HostOs::Windows => "winget install Libretro.RetroArch",
            HostOs::Linux => "sudo apt install retroarch  ·  flatpak install org.libretro.RetroArch",
        })
    } else if str_eq(engine, "swtpm") {
        String::from_str(match host {
            HostOs::MacOs => "brew install swtpm",
            HostOs::Windows => "swtpm ist unter Windows nicht verfügbar — TPM entfällt",
            HostOs::Linux => "sudo apt install swtpm",
        })
    } else {
        String::new()
    }
}

/// Default folders of libretro cores and of system files per host (RetroArch conventions).
pub open spec fn spec_retroarch_dirs(host: HostOs, home: Seq<char>) -> (Seq<char>, Seq<char>) {
    match host {
        HostOs::MacOs => (
            home + "/Library/Application Support/RetroArch/cores"@,
            home + "/Library/Application Support/RetroArch/system"@,
        ),
        HostOs::Windows => ("C:\\RetroArch-Win64\\cores"@, "C:\\RetroArch-Win64\\system"@),
        HostOs::Linux => (home + "/.config/retroarch/cores"@, home + "/.config/retroarch/system"@),
    }
}

fn joined(a: &str, b: &str) -> (r: String)
    ensures
        r@ == a@ + b@,
{
    let mut s = String::from_str(a);
    push_str(&mut s, b);
    s
}

pub fn retroarch_dirs(host: HostOs, home: &str) -> (r: (String, String))
    ensures
        (r.0@, r.1@) == spec_retroarch_dirs(host, home@),
{
    match host {
        HostOs::MacOs => (
            joined(home, "/Library/Application Support/RetroArch/cores"),
            joined(home, "/Library/Application Support/RetroArch/system"),
        ),
        HostOs::Windows => (String::from_str("C:\\RetroArch-Win64\\cores"), String::from_str("C:\\RetroArch-Win64\\system")),
        HostOs::Linux => (joined(home, "/.config/retroarch/cores"), joined(home, "/.config/retroarch/system")),
    }
}

/// UEFI firmware candidates for a QEMU prefix (Homebrew, distributions, Windows installer).
pub open spec fn spec_uefi_candidates(prefix: Seq<char>, guest: Arch) -> Seq<Seq<char>> {
    match guest {
        Arch::X86_64 | Arch::I386 => seq![
            prefix + "/share/qemu/edk2-x86_64-code.fd"@,
            prefix + "/share/qemu/edk2-x86_64-secure-code.fd"@,
            "/usr/share/OVMF/OVMF_CODE_4M.fd"@,
            "/usr/share/OVMF/OVMF_CODE.fd"@,
            "/usr/share/edk2/ovmf/OVMF_CODE.fd"@,
            "/usr/share/edk2-ovmf/x64/OVMF_CODE.fd"@,
        ],
        Arch::Aarch64 => seq![
            prefix + "/share/qemu/edk2-aarch64-code.fd"@,
            "/usr/share/AAVMF/AAVMF_CODE.fd"@,
            "/usr/share/edk2/aarch64/QEMU_EFI-pflash.raw"@,
        ],
        _ => Seq::empty(),
    }
}

pub fn uefi_candidates(prefix: &str, guest: Arch) -> (r: Vec<String>)
    ensures
        views(r@) == spec_uefi_candidates(prefix@, guest),
{
    let mut v: Vec<String> = Vec::new();
    match guest {
        Arch::X86_64 | Arch::I386 => {
            v.push(joined(prefix, "/share/qemu/edk2-x86_64-code.fd"));
            v.push(joined(prefix, "/share/qemu/edk2-x86_64-secure-code.fd"));
            v.push(String::from_str("/usr/share/OVMF/OVMF_CODE_4M.fd"));
            v.push(String::from_str("/usr/share/OVMF/OVMF_CODE.fd"));
            v.push(String::from_str("/usr/share/edk2/ovmf/OVMF_CODE.fd"));
            v.push(String::from_str("/usr/share/edk2-ovmf/x64/OVMF_CODE.fd"));
        },
        Arch::Aarch64 => {
            v.push(joined(prefix, "/share/qemu/edk2-aarch64-code.fd"));
            v.push(String::from_str("/usr/share/AAVMF/AAVMF_CODE.fd"));
            v.push(String::from_str("/usr/share/edk2/aarch64/QEMU_EFI-pflash.raw"));
        },
        _ => {},
    }
    assert(views(v@) =~= spec_uefi_candidates(prefix@, guest));
    v
}

/// Templates for the NVRAM copy next to the firmware code.
pub open spec fn spec_uefi_vars_template(prefix: Seq<char>, guest: Arch) -> Seq<Seq<char>> {
    match guest {
        Arch::X86_64 | Arch::I386 => seq![
            prefix + "/share/qemu/edk2-i386-vars.fd"@,
            "/usr/share/OVMF/OVMF_VARS_4M.fd"@,
            "/usr/share/OVMF/OVMF_VARS.fd"@,
            "/usr/share/edk2/ovmf/OVMF_VARS.fd"@,
        ],
        Arch::Aarch64 => seq![prefix + "/share/qemu/edk2-arm-vars.fd"@, "/usr/share/AAVMF/AAVMF_VARS.fd"@],
        _ => Seq::empty(),
    }
}

pub fn uefi_vars_template(prefix: &str, guest: Arch) -> (r: Vec<String>)
    ensures
        views(r@) == spec_uefi_vars_template(prefix@, guest),
{
    let mut v: Vec<String> = Vec::new();
    match guest {
        Arch::X86_64 | Arch::I386 => {
            v.push(joined(prefix, "/share/qemu/edk2-i386-vars.fd"));
            v.push(String::from_str("/usr/share/OVMF/OVMF_VARS_4M.fd"));
            v.push(String::from_str("/usr/share/OVMF/OVMF_VARS.fd"));
            v.push(String::from_str("/usr/share/edk2/ovmf/OVMF_VARS.fd"));
        },
        Arch::Aarch64 => {
            v.push(joined(prefix, "/share/qemu/edk2-arm-vars.fd"));
            v.push(String::from_str("/usr/share/AAVMF/AAVMF_VARS.fd"));
        },
        _ => {},
    }
    assert(views(v@) =~= spec_uefi_vars_template(prefix@, guest));
    v
}


/// First index at or after `i` that is not whitespace (or the end).
pub open spec fn ws_end(s: Seq<char>, i: nat) -> nat
    decreases s.len() - i,
{
    if i < s.len() && spec_is_whitespace(s[i as int]) { ws_end(s, i + 1) } else { i }
}

/// First index at or after `i` that is whitespace (or the end).
pub open spec fn word_end(s: Seq<char>, i: nat) -> nat
    decreases s.len() - i,
{
    if i < s.len() && !spec_is_whitespace(s[i as int]) { word_end(s, i + 1) } else { i }
}

/// Characters kept at the end of a version: digits and dots.
pub open spec fn version_char(c: char) -> bool {
    spec_is_digit(c) || c == '.'
}

/// A word without the trailing characters that are neither digit nor dot.
pub open spec fn trim_version_tail(w: Seq<char>) -> Seq<char>
    decreases w.len(),
{
    if w.len() > 0 && !version_char(w.last()) { trim_version_tail(w.drop_last()) } else { w }
}

pub proof fn lemma_ws_end(s: Seq<char>, i: nat)
    requires
        i <= s.len(),
    ensures
        i <= ws_end(s, i) <= s.len(),
        forall|k: int| i <= k < ws_end(s, i) ==> spec_is_whitespace(#[trigger] s[k]),
        ws_end(s, i) < s.len() ==> !spec_is_whitespace(s[ws_end(s, i) as int]),
    decreases s.len() - i,
{
    if i < s.len() && spec_is_whitespace(s[i as int]) {
        lemma_ws_end(s, i + 1);
    }
}

pub proof fn lemma_word_end(s: Seq<char>, i: nat)
    requires
        i <= s.len(),
    ensures
        i <= word_end(s, i) <= s.len(),
        forall|k: int| i <= k < word_end(s, i) ==> !spec_is_whitespace(#[trigger] s[k]),
        word_end(s, i) < s.len() ==> spec_is_whitespace(s[word_end(s, i) as int]),
    decreases s.len() - i,
{
    if i < s.len() && !spec_is_whitespace(s[i as int]) {
        lemma_word_end(s, i + 1);
    }
}

/// The first whitespace-separated word from index `i` on that starts with a digit and
/// holds a dot, without its trailing non-version characters.
pub open spec fn version_from(s: Seq<char>, i: nat) -> Option<Seq<char>>
    decreases s.len() - i,
{
    if i >= s.len() {
        None
    } else {
        let a = ws_end(s, i);
        if a >= s.len() {
            None
        } else {
            let b = word_end(s, a);
            let w = s.subrange(a as int, b as int);
            if b <= a {
                None
            } else if spec_is_digit(w[0]) && w.contains('.') {
                Some(trim_version_tail(w))
            } else {
                proof {
                    lemma_ws_end(s, i);
                    lemma_word_end(s, a);
                }
                version_from(s, b)
            }
        }
    }
}

/// `QEMU emulator version 9.2.0 (v9.2.0)` → `9.2.0`; `RetroArch 1.19.1 …` → `1.19.1`.
pub open spec fn spec_parse_version(output: Seq<char>) -> Option<Seq<char>> {
    version_from(output, 0)
}

pub fn parse_version(output: &str) -> (r: Option<String>)
    ensures
        r is Some == spec_parse_version(output@) is Some,
        r matches Some(v) ==> spec_parse_version(output@) == Some(v@),
{
    let ghost s = output@;
    let n = output.unicode_len();
    let mut i: usize = 0;
    while i < n
        invariant
            n == s.len(),
            s == output@,
            i <= n,
            version_from(s, 0) == version_from(s, i as nat),
        decreases n - i,
    {
        proof {
            lemma_ws_end(s, i as nat);
        }
        let mut a = i;
        while a < n && is_unicode_whitespace(output.get_char(a))
            invariant
                n == s.len(),
                s == output@,
                i <= a <= n,
                ws_end(s, i as nat) == ws_end(s, a as nat),
            decreases n - a,
        {
            a = a + 1;
        }
        if a >= n {
            return None;
        }
        proof {
            lemma_word_end(s, a as nat);
        }
        let mut b = a;
        let mut has_dot = false;
        while b < n && !is_unicode_whitespace(output.get_char(b))
            invariant
                n == s.len(),
                s == output@,
                a <= b <= n,
                word_end(s, a as nat) == word_end(s, b as nat),
                has_dot == s.subrange(a as int, b as int).contains('.'),
            decreases n - b,
        {
            let c = output.get_char(b);
            proof {
                let w0 = s.subrange(a as int, b as int);
                let w1 = s.subrange(a as int, b + 1);
                assert(w1 =~= w0.push(c));
                if c == '.' {
                    assert(w1[b - a] == '.');
                }
                if w1.contains('.') && c != '.' {
                    let k = choose|k: int| 0 <= k < w1.len() && w1[k] == '.';
                    assert(w0[k] == '.');
                }
            }
            if c == '.' {
                has_dot = true;
            }
            b = b + 1;
        }
        let ghost w = s.subrange(a as int, b as int);
        if has_dot && is_ascii_digit_char(output.get_char(a)) {
            let mut k = b;
            while k > a && !(is_ascii_digit_char(output.get_char(k - 1)) || output.get_char(k - 1) == '.')
                invariant
                    n == s.len(),
                    s == output@,
                    a <= k <= b <= n,
                    w == s.subrange(a as int, b as int),
                    trim_version_tail(w) == trim_version_tail(s.subrange(a as int, k as int)),
                decreases k - a,
            {
                assert(s.subrange(a as int, k as int).drop_last() =~= s.subrange(a as int, k - 1));
                k = k - 1;
            }
            let mut out = String::new();
            let mut j = a;
            while j < k
                invariant
                    n == s.len(),
                    s == output@,
                    a <= j <= k <= n,
                    out@ == s.subrange(a as int, j as int),
                decreases k - j,
            {
                out.push(output.get_char(j));
                j = j + 1;
                assert(out@ =~= s.subrange(a as int, j as int));
            }
            assert(trim_version_tail(s.subrange(a as int, k as int)) == s.subrange(a as int, k as int));
            return Some(out);
        }
        i = b;
    }
    None
}

/// The major version of a dotted version text (0 when it does not parse).
pub open spec fn major_of(version: Seq<char>) -> nat {
    let first = if version.contains('.') {
        version.subrange(0, choose|k: int| 0 <= k < version.len() && version[k] == '.'
            && forall|j: int| 0 <= j < k ==> version[j] != '.')
    } else {
        version
    };
    match spec_parse_u32(first) {
        Some(v) => v as nat,
        None => 0,
    }
}

/// Minimum version for job-based snapshots (`snapshot-save`): QEMU 6.
pub fn qemu_supports_snapshot_jobs(version: &str) -> (r: bool)
    ensures
        r == (major_of(version@) >= 6),
{
    let n = version.unicode_len();
    let mut k: usize = 0;
    while k < n && version.get_char(k) != '.'
        invariant
            n == version@.len(),
            k <= n,
            forall|j: int| 0 <= j < k ==> version@[j] != '.',
        decreases n - k,
    {
        k = k + 1;
    }
    let first = version.substring_char(0, k);
    proof {
        if version@.contains('.') {
            let c = choose|c: int| 0 <= c < version@.len() && version@[c] == '.'
                && forall|j: int| 0 <= j < c ==> version@[j] != '.';
            assert(k < n) by {
                let w = choose|w: int| 0 <= w < version@.len() && version@[w] == '.';
                assert(w >= k);
            }
            assert(c == k) by {
                if c < k {} else if c > k { assert(version@[k as int] == '.'); }
            }
        } else {
            assert(first@ =~= version@) by {
                if k < n { assert(version@[k as int] == '.'); }
            }
        }
    }
    let v = match parse_u32(first) {
        Some(v) => v,
        None => 0,
    };
    v >= 6
}

} // verus!
