//! Data model: every machine is a folder with a `machine.json`; these types are
//! the contract between the engines, the stored files and the user interface.
use vstd::prelude::*;

verus! {

/// Which engine runs the machine.
#[derive(Debug, Clone, Copy, PartialEq, Eq, Structural)]
pub enum Engine {
    Qemu,
    Libretro,
}

impl Default for Engine {
    fn default() -> (r: Self)
        ensures
            r == Engine::Qemu,
    {
        Engine::Qemu
    }
}

/// Guest architecture — selects the QEMU binary (`qemu-system-<arch>`).
#[allow(non_camel_case_types)]
#[derive(Debug, Clone, Copy, PartialEq, Eq, Structural)]
pub enum Arch {
    X86_64,
    I386,
    Aarch64,
    M68k,
    Ppc,
    Riscv64,
    Mips,
    /// Consoles: no CPU architecture in the QEMU sense.
    NoArch,
}

impl Default for Arch {
    fn default() -> (r: Self)
        ensures
            r == Arch::X86_64,
    {
        Arch::X86_64
    }
}

/// Name of the QEMU system emulator for an architecture.
pub open spec fn spec_qemu_binary(a: Arch) -> Option<Seq<char>> {
    match a {
        Arch::X86_64 => Some("qemu-system-x86_64"@),
        Arch::I386 => Some("qemu-system-i386"@),
        Arch::Aarch64 => Some("qemu-system-aarch64"@),
        Arch::M68k => Some("qemu-system-m68k"@),
        Arch::Ppc => Some("qemu-system-ppc"@),
        Arch::Riscv64 => Some("qemu-system-riscv64"@),
        Arch::Mips => Some("qemu-system-mips"@),
        Arch::NoArch => None,
    }
}

impl Arch {
    pub fn qemu_binary(self) -> (r: Option<&'static str>)
        ensures
            r is Some == spec_qemu_binary(self) is Some,
            r matches Some(b) ==> spec_qemu_binary(self) == Some(b@),
    {
        match self {
            Arch::X86_64 => Some("qemu-system-x86_64"),
            Arch::I386 => Some("qemu-system-i386"),
            Arch::Aarch64 => Some("qemu-system-aarch64"),
            Arch::M68k => Some("qemu-system-m68k"),
            Arch::Ppc => Some("qemu-system-ppc"),
            Arch::Riscv64 => Some("qemu-system-riscv64"),
            Arch::Mips => Some("qemu-system-mips"),
            Arch::NoArch => None,
        }
    }
}

#[derive(Debug, Clone, Copy, PartialEq, Eq, Structural)]
pub enum Firmware {
    Bios,
    Uefi,
    UefiSecure,
}

impl Default for Firmware {
    fn default() -> (r: Self)
        ensures
            r == Firmware::Bios,
    {
        Firmware::Bios
    }
}

#[derive(Debug, Clone, Copy, PartialEq, Eq, Structural)]
pub enum NetworkMode {
    /// No network device — the default for retro profiles.
    Off,
    /// SLIRP with `restrict=on`: the guest sees only the host proxy, never the LAN.
    Isolated,
    /// Ordinary SLIRP NAT.
    Nat,
    /// Bridged — treated like NAT for now.
    Bridged,
}

impl Default for NetworkMode {
    fn default() -> (r: Self)
        ensures
            r == NetworkMode::Off,
    {
        NetworkMode::Off
    }
}

#[derive(Debug, PartialEq, Eq)]
pub struct PortForward {
    /// "tcp" | "udp"
    pub proto: String,
    pub host_port: u16,
    pub guest_port: u16,
}

impl Clone for PortForward {
    fn clone(&self) -> (r: Self)
        ensures
            r == *self,
    {
        PortForward { proto: self.proto.clone(), host_port: self.host_port, guest_port: self.guest_port }
    }
}

#[derive(Debug, PartialEq, Eq)]
pub struct Network {
    pub mode: NetworkMode,
    pub forwards: Vec<PortForward>,
    /// Isolated: offer a proxy to the host (stored only).
    pub proxy: bool,
}

impl Default for Network {
    fn default() -> (r: Self)
        ensures
            r.mode == NetworkMode::Off,
            r.forwards@.len() == 0,
            !r.proxy,
    {
        Network { mode: NetworkMode::Off, forwards: Vec::new(), proxy: false }
    }
}

impl Clone for Network {
    fn clone(&self) -> (r: Self)
        ensures
            r.mode == self.mode,
            r.forwards@ == self.forwards@,
            r.proxy == self.proxy,
    {
        let mut forwards: Vec<PortForward> = Vec::new();
        let mut i: usize = 0;
        while i < self.forwards.len()
            invariant
                i <= self.forwards@.len(),
                forwards@ == self.forwards@.subrange(0, i as int),
            decreases self.forwards@.len() - i,
        {
            forwards.push(self.forwards[i].clone());
            i = i + 1;
            assert(forwards@ =~= self.forwards@.subrange(0, i as int));
        }
        assert(forwards@ =~= self.forwards@);
        Network { mode: self.mode, forwards, proxy: self.proxy }
    }
}

/// A copy of a list of strings.
pub fn clone_strings(v: &Vec<String>) -> (r: Vec<String>)
    ensures
        r@ == v@,
{
    let mut out: Vec<String> = Vec::new();
    let mut i: usize = 0;
    while i < v.len()
        invariant
            i <= v@.len(),
            out@ == v@.subrange(0, i as int),
        decreases v@.len() - i,
    {
        out.push(v[i].clone());
        i = i + 1;
        assert(out@ =~= v@.subrange(0, i as int));
    }
    assert(out@ =~= v@);
    out
}

#[derive(Debug, PartialEq, Eq)]
pub struct Cpu {
    /// QEMU CPU model (`host`, `pentium`, `486`, `m68040`, `g4`, …).
    pub model: String,
    pub cores: u32,
    /// 100 = full speed; below that `-icount` throttles (TCG only).
    pub clock_percent: u32,
}

impl Default for Cpu {
    fn default() -> (r: Self)
        ensures
            r.model@ == "host"@,
            r.cores == 2,
            r.clock_percent == 100,
    {
        Cpu { model: String::from_str("host"), cores: 2, clock_percent: 100 }
    }
}

impl Clone for Cpu {
    fn clone(&self) -> (r: Self)
        ensures
            r == *self,
    {
        Cpu { model: self.model.clone(), cores: self.cores, clock_percent: self.clock_percent }
    }
}

#[derive(Debug, PartialEq, Eq)]
pub struct Devices {
    /// QEMU graphics device: `virtio-vga`, `virtio-vga-gl`, `cirrus-vga`, `VGA`, `std`, …
    pub graphics: String,
    /// Sound devices: `sb16`, `adlib`, `ac97`, `intel-hda`, `es1370`, `gus`
    pub audio: Vec<String>,
    /// Network card: `virtio-net-pci`, `e1000`, `rtl8139`, `ne2k_isa`, `ne2k_pci`, `pcnet`
    pub nic: String,
    /// Bus of the system disk: `virtio` | `ide` | `sata` | `scsi`
    pub storage_bus: String,
    /// Floppy drive(s) present.
    pub floppy: bool,
    /// Input: `ps2` | `usb` | `virtio`
    pub input: String,
}

impl Default for Devices {
    fn default() -> (r: Self)
        ensures
            r.graphics@ == "virtio-vga"@,
            r.audio@.len() == 1,
            r.audio@[0]@ == "intel-hda"@,
            r.nic@ == "virtio-net-pci"@,
            r.storage_bus@ == "virtio"@,
            !r.floppy,
            r.input@ == "usb"@,
    {
        let mut audio: Vec<String> = Vec::new();
        audio.push(String::from_str("intel-hda"));
        Devices {
            graphics: String::from_str("virtio-vga"),
            audio,
            nic: String::from_str("virtio-net-pci"),
            storage_bus: String::from_str("virtio"),
            floppy: false,
            input: String::from_str("usb"),
        }
    }
}

impl Clone for Devices {
    fn clone(&self) -> (r: Self)
        ensures
            r.graphics == self.graphics,
            r.audio@ == self.audio@,
            r.nic == self.nic,
            r.storage_bus == self.storage_bus,
            r.floppy == self.floppy,
            r.input == self.input,
    {
        Devices {
            graphics: self.graphics.clone(),
            audio: clone_strings(&self.audio),
            nic: self.nic.clone(),
            storage_bus: self.storage_bus.clone(),
            floppy: self.floppy,
            input: self.input.clone(),
        }
    }
}

#[derive(Debug, PartialEq, Eq)]
pub struct DiskRef {
    pub id: String,
    /// Relative to the machine folder, or absolute.
    pub path: String,
    /// `qcow2` | `raw` | `vmdk` | `vhdx` | `vdi`
    pub format: String,
    pub size_gb: u32,
    pub encrypted: bool,
    pub backing: Option<String>,
}

impl Default for DiskRef {
    fn default() -> (r: Self)
        ensures
            r.id@ == Seq::<char>::empty(),
            r.path@ == "disk-0.qcow2"@,
            r.format@ == "qcow2"@,
            r.size_gb == 32,
            !r.encrypted,
            r.backing is None,
    {
        DiskRef {
            id: String::new(),
            path: String::from_str("disk-0.qcow2"),
            format: String::from_str("qcow2"),
            size_gb: 32,
            encrypted: false,
            backing: None,
        }
    }
}

#[derive(Debug, Clone, Copy, PartialEq, Eq, Structural)]
pub enum MediaKind {
    Cdrom,
    Floppy,
    /// Console ROM / disc image for libretro; for QEMU machines the firmware ROM (q800).
    Rom,
    /// Physical drive.
    Physical,
}

impl Default for MediaKind {
    fn default() -> (r: Self)
        ensures
            r == MediaKind::Cdrom,
    {
        MediaKind::Cdrom
    }
}

#[derive(Debug, PartialEq, Eq)]
pub struct MediaRef {
    pub id: String,
    pub kind: MediaKind,
    pub path: String,
    /// Drive slot: floppy 0/1, CD 0…
    pub slot: u32,
}

impl Default for MediaRef {
    fn default() -> (r: Self)
        ensures
            r.id@ == Seq::<char>::empty(),
            r.kind == MediaKind::Cdrom,
            r.path@ == Seq::<char>::empty(),
            r.slot == 0,
    {
        MediaRef { id: String::new(), kind: MediaKind::Cdrom, path: String::new(), slot: 0 }
    }
}

#[derive(Debug, PartialEq, Eq)]
pub struct SharedFolder {
    pub host_path: String,
    pub name: String,
    pub read_only: bool,
}

impl Default for SharedFolder {
    fn default() -> (r: Self)
        ensures
            r.host_path@ == Seq::<char>::empty(),
            r.name@ == Seq::<char>::empty(),
            !r.read_only,
    {
        SharedFolder { host_path: String::new(), name: String::new(), read_only: false }
    }
}

#[derive(Debug, Clone, Copy, PartialEq, Eq, Structural)]
pub struct Isolation {
    /// `-snapshot`: changes are dropped when the machine ends.
    pub throwaway: bool,
    /// Mount shared folders read-only.
    pub read_only_shares: bool,
}

impl Default for Isolation {
    fn default() -> (r: Self)
        ensures
            !r.throwaway,
            !r.read_only_shares,
    {
        Isolation { throwaway: false, read_only_shares: false }
    }
}

#[derive(Debug, PartialEq, Eq)]
pub struct Display {
    /// `window` (engine window) | `headless` | `vnc` | `spice`
    pub kind: String,
    pub gl: bool,
    pub hidpi: bool,
    /// Fullscreen at start (libretro).
    pub fullscreen: bool,
}

impl Default for Display {
    fn default() -> (r: Self)
        ensures
            r.kind@ == "window"@,
            !r.gl,
            r.hidpi,
            !r.fullscreen,
    {
        Display { kind: String::from_str("window"), gl: false, hidpi: true, fullscreen: false }
    }
}

impl Clone for Display {
    fn clone(&self) -> (r: Self)
        ensures
            r == *self,
    {
        Display { kind: self.kind.clone(), gl: self.gl, hidpi: self.hidpi, fullscreen: self.fullscreen }
    }
}

/// Console machine: which libretro core, which BIOS files.
#[derive(Debug, PartialEq, Eq)]
pub struct LibretroConfig {
    pub core: String,
    pub fallback_core: Option<String>,
    /// Expected files in the system/BIOS folder (relative).
    pub bios: Vec<String>,
    /// Current save-state slot (the application manages slots, RetroArch only knows +/-).
    pub state_slot: u32,
}

impl Default for LibretroConfig {
    fn default() -> (r: Self)
        ensures
            r.core@ == Seq::<char>::empty(),
            r.fallback_core is None,
            r.bios@.len() == 0,
            r.state_slot == 0,
    {
        LibretroConfig { core: String::new(), fallback_core: None, bios: Vec::new(), state_slot: 0 }
    }
}

#[derive(Debug, PartialEq, Eq)]
pub struct Machine {
    pub id: String,
    pub name: String,
    pub profile_id: String,
    /// `modern` | `retro-pc` | `retro-mac` | `other-arch` | `console`
    pub category: String,
    pub engine: Engine,
    pub arch: Arch,
    /// QEMU `-M` (q35, pc, virt, q800, mac99 …); empty for libretro.
    pub machine_type: String,
    pub cpu: Cpu,
    pub memory_mb: u32,
    pub firmware: Firmware,
    pub tpm: bool,
    pub disks: Vec<DiskRef>,
    pub media: Vec<MediaRef>,
    pub network: Network,
    pub display: Display,
    pub devices: Devices,
    pub usb: Vec<String>,
    pub shared_folders: Vec<SharedFolder>,
    pub isolation: Isolation,
    pub libretro: Option<LibretroConfig>,
    /// Boot choice: `auto` | `disk` | `cdrom` | `floppy`.
    pub boot: String,
    /// Free extra QEMU arguments.
    pub extra_args: Vec<String>,
    pub notes: String,
    pub created_at: String,
    pub updated_at: String,
}

impl Default for Machine {
    fn default() -> (r: Self)
        ensures
            r.id@ == Seq::<char>::empty(),
            r.name@ == Seq::<char>::empty(),
            r.profile_id@ == Seq::<char>::empty(),
            r.category@ == Seq::<char>::empty(),
            r.engine == Engine::Qemu,
            r.arch == Arch::X86_64,
            r.machine_type@ == Seq::<char>::empty(),
            r.cpu.model@ == "host"@ && r.cpu.cores == 2 && r.cpu.clock_percent == 100,
            r.memory_mb == 0,
            r.firmware == Firmware::Bios,
            !r.tpm,
            r.disks@.len() == 0,
            r.media@.len() == 0,
            r.network.mode == NetworkMode::Off && r.network.forwards@.len() == 0 && !r.network.proxy,
            r.display.kind@ == "window"@ && !r.display.gl && r.display.hidpi && !r.display.fullscreen,
            r.devices.graphics@ == "virtio-vga"@,
            r.devices.audio@.len() == 1 && r.devices.audio@[0]@ == "intel-hda"@,
            r.devices.nic@ == "virtio-net-pci"@,
            r.devices.storage_bus@ == "virtio"@,
            !r.devices.floppy,
            r.devices.input@ == "usb"@,
            r.usb@.len() == 0,
            r.shared_folders@.len() == 0,
            !r.isolation.throwaway && !r.isolation.read_only_shares,
            r.libretro is None,
            r.boot@ == Seq::<char>::empty(),
            r.extra_args@.len() == 0,
            r.notes@ == Seq::<char>::empty(),
            r.created_at@ == Seq::<char>::empty(),
            r.updated_at@ == Seq::<char>::empty(),
    {
        Machine {
            id: String::new(),
            name: String::new(),
            profile_id: String::new(),
            category: String::new(),
            engine: Engine::Qemu,
            arch: Arch::X86_64,
            machine_type: String::new(),
            cpu: Cpu::default(),
            memory_mb: 0,
            firmware: Firmware::Bios,
            tpm: false,
            disks: Vec::new(),
            media: Vec::new(),
            network: Network::default(),
            display: Display::default(),
            devices: Devices::default(),
            usb: Vec::new(),
            shared_folders: Vec::new(),
            isolation: Isolation::default(),
            libretro: None,
            boot: String::new(),
            extra_args: Vec::new(),
            notes: String::new(),
            created_at: String::new(),
            updated_at: String::new(),
        }
    }
}

/// Index of the first medium of a kind in a slot, if any.
pub open spec fn first_media_index(media: Seq<MediaRef>, kind: MediaKind, slot: u32) -> Option<int> {
    if exists|i: int| 0 <= i < media.len() && media[i].kind == kind && media[i].slot == slot {
        Some(choose|i: int|
            0 <= i < media.len() && media[i].kind == kind && media[i].slot == slot
                && forall|j: int| 0 <= j < i ==> !(media[j].kind == kind && media[j].slot == slot))
    } else {
        None
    }
}

impl Machine {
    pub fn is_console(&self) -> (r: bool)
        ensures
            r == (self.engine == Engine::Libretro),
    {
        self.engine == Engine::Libretro
    }

    /// Medium of a kind in a slot (the first one found).
    pub fn media_of(&self, kind: MediaKind, slot: u32) -> (r: Option<&MediaRef>)
        ensures
            match r {
                Some(x) => exists|i: int|
                    0 <= i < self.media@.len() && self.media@[i] == *x && x.kind == kind && x.slot == slot
                        && forall|j: int| 0 <= j < i ==> !(#[trigger] self.media@[j].kind == kind && self.media@[j].slot == slot),
                None => forall|j: int| 0 <= j < self.media@.len() ==> !(#[trigger] self.media@[j].kind == kind && self.media@[j].slot == slot),
            },
    {
        let mut i: usize = 0;
        while i < self.media.len()
            invariant
                i <= self.media@.len(),
                forall|j: int| 0 <= j < i ==> !(#[trigger] self.media@[j].kind == kind && self.media@[j].slot == slot),
            decreases self.media@.len() - i,
        {
            if self.media[i].kind == kind && self.media[i].slot == slot {
                return Some(&self.media[i]);
            }
            i = i + 1;
        }
        None
    }
}

/// Snapshot entry in `snapshots.json` — for QEMU an internal qcow2 snapshot
/// with `tag`, for libretro a save-state slot.
#[derive(Debug, PartialEq, Eq)]
pub struct Snapshot {
    pub id: String,
    pub machine_id: String,
    pub parent_id: Option<String>,
    pub name: String,
    pub note: String,
    pub created_at: String,
    /// `internal` (qcow2 tag) | `state` (libretro slot) | `overlay`
    pub kind: String,
    /// qcow2 tag or save-state slot as text.
    pub tag: String,
}

impl Default for Snapshot {
    fn default() -> (r: Self)
        ensures
            r.id@ == Seq::<char>::empty(),
            r.machine_id@ == Seq::<char>::empty(),
            r.parent_id is None,
            r.name@ == Seq::<char>::empty(),
            r.note@ == Seq::<char>::empty(),
            r.created_at@ == Seq::<char>::empty(),
            r.kind@ == Seq::<char>::empty(),
            r.tag@ == Seq::<char>::empty(),
    {
        Snapshot {
            id: String::new(),
            machine_id: String::new(),
            parent_id: None,
            name: String::new(),
            note: String::new(),
            created_at: String::new(),
            kind: String::new(),
            tag: String::new(),
        }
    }
}

/// Runtime state of a machine (not stored).
#[derive(Debug, PartialEq, Eq)]
pub struct MachineStatus {
    pub id: String,
    /// `stopped` | `starting` | `running` | `paused` | `error`
    pub state: String,
    pub pid: Option<u32>,
    pub since: Option<String>,
    pub error: Option<String>,
}

impl Default for MachineStatus {
    fn default() -> (r: Self)
        ensures
            r.id@ == Seq::<char>::empty(),
            r.state@ == Seq::<char>::empty(),
            r.pid is None,
            r.since is None,
            r.error is None,
    {
        MachineStatus { id: String::new(), state: String::new(), pid: None, since: None, error: None }
    }
}

/// An engine found on the host.
#[derive(Debug, PartialEq, Eq)]
pub struct EngineInfo {
    /// `qemu` | `qemu-img` | `retroarch` | `swtpm`
    pub engine: String,
    /// Binary name, e.g. `qemu-system-x86_64`
    pub binary: String,
    pub path: Option<String>,
    pub version: Option<String>,
    pub ok: bool,
    /// Usable accelerator for the host architecture (hvf/whpx/kvm) — qemu only.
    pub accel: Option<String>,
    /// Installation hint when not found.
    pub hint: String,
}

impl Default for EngineInfo {
    fn default() -> (r: Self)
        ensures
            r.engine@ == Seq::<char>::empty(),
            r.binary@ == Seq::<char>::empty(),
            r.path is None,
            r.version is None,
            !r.ok,
            r.accel is None,
            r.hint@ == Seq::<char>::empty(),
    {
        EngineInfo {
            engine: String::new(),
            binary: String::new(),
            path: None,
            version: None,
            ok: false,
            accel: None,
            hint: String::new(),
        }
    }
}

} // verus!
