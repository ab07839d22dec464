//! Machine → QEMU command line as a pure function. Everything that depends on
//! the host (accelerator, firmware paths, sockets) comes in through
//! `HostContext`, so every profile yields a deterministic argument list.
use vstd::prelude::*;
use crate::model::{Arch, Machine, MediaKind, MediaRef, DiskRef, NetworkMode, Firmware, Engine, SharedFolder, PortForward};
use crate::paths::{join_path, resolve};
use crate::text::{str_eq, dec, dec_string, push_dec, push_str, has_prefix, has_suffix, starts_with, ends_with, contains_char};

verus! {

#[derive(Debug)]
pub struct HostContext {
    /// Folder of the machine (for relative disk and media paths).
    pub machine_dir: String,
    /// Accelerator available for guest arch = host arch (`hvf`/`whpx`/`kvm`), else None.
    pub accel: Option<String>,
    /// QMP endpoint: Unix socket path, or `tcp:127.0.0.1:PORT`.
    pub qmp: String,
    /// UEFI firmware code for x86_64 or aarch64, if found.
    pub uefi_code: Option<String>,
    /// Writable NVRAM copy in the machine folder.
    pub uefi_vars: Option<String>,
    /// swtpm socket, if a TPM is wanted and swtpm is present.
    pub tpm_socket: Option<String>,
    /// Display backend of the host: `cocoa` | `gtk` | `sdl`
    pub display_backend: String,
    /// Audio backend of the host: `coreaudio` | `dsound` | `pa` | `pipewire` | `none`
    pub audio_backend: String,
    /// Name the QEMU process after the machine (`-name …,process=…`); QEMU supports
    /// this on Linux only.
    pub process_names: bool,
}

impl Default for HostContext {
    fn default() -> (r: Self)
        ensures
            r.machine_dir@ == Seq::<char>::empty(),
            r.accel is None,
            r.qmp@ == Seq::<char>::empty(),
            r.uefi_code is None,
            r.uefi_vars is None,
            r.tpm_socket is None,
            r.display_backend@ == Seq::<char>::empty(),
            r.audio_backend@ == Seq::<char>::empty(),
            !r.process_names,
    {
        HostContext {
            machine_dir: String::new(),
            accel: None,
            qmp: String::new(),
            uefi_code: None,
            uefi_vars: None,
            tpm_socket: None,
            display_backend: String::new(),
            audio_backend: String::new(),
            process_names: false,
        }
    }
}

/// The characters of each string of a list.
pub open spec fn strs(v: Seq<String>) -> Seq<Seq<char>> {
    v.map_values(|s: String| s@)
}

/// Boards whose graphics, network and sound are built in — no `-device` for them.
pub open spec fn spec_integrated_board(mt: Seq<char>) -> bool {
    mt == "q800"@ || mt == "mac99"@ || mt == "g3beige"@ || mt == "next-cube"@ || mt == "malta"@
}

/// `-icount shift=N`: 100 % = off; ≥ 70 % shift 1, ≥ 50 % shift 2, below shift 3.
pub open spec fn spec_icount_shift(clock_percent: u32) -> Option<u32> {
    if clock_percent >= 100 {
        None
    } else if clock_percent >= 70 {
        Some(1)
    } else if clock_percent >= 50 {
        Some(2)
    } else {
        Some(3)
    }
}

pub fn icount_shift(clock_percent: u32) -> (r: Option<u32>)
    ensures
        r == spec_icount_shift(clock_percent),
{
    if clock_percent >= 100 {
        None
    } else if clock_percent >= 70 {
        Some(1)
    } else if clock_percent >= 50 {
        Some(2)
    } else {
        Some(3)
    }
}

fn integrated_board(mt: &str) -> (r: bool)
    ensures
        r == spec_integrated_board(mt@),
{
    str_eq(mt, "q800") || str_eq(mt, "mac99") || str_eq(mt, "g3beige") || str_eq(mt, "next-cube") || str_eq(mt, "malta")
}

/// Appends one argument.
fn push_arg(a: &mut Vec<String>, s: String)
    ensures
        strs(final(a)@) == strs(old(a)@).push(s@),
{
    a.push(s);
    assert(strs(final(a)@) =~= strs(old(a)@).push(s@));
}

/// Appends one literal argument.
fn push_lit(a: &mut Vec<String>, s: &str)
    ensures
        strs(final(a)@) == strs(old(a)@).push(s@),
{
    push_arg(a, String::from_str(s));
}

/// Concatenation of two slices as a new string.
fn cat(x: &str, y: &str) -> (r: String)
    ensures
        r@ == x@ + y@,
{
    let mut s = String::from_str(x);
    push_str(&mut s, y);
    s
}

// ---------------------------------------------------------------------------
// Machine, CPU, memory
// ---------------------------------------------------------------------------

/// CPU model used when the machine asks for none, or for `host` without an accelerator.
pub open spec fn default_cpu(arch: Arch) -> Seq<char> {
    match arch {
        Arch::X86_64 | Arch::I386 => "max"@,
        Arch::Aarch64 => "cortex-a72"@,
        Arch::M68k => "m68040"@,
        Arch::Ppc => "g4"@,
        Arch::Riscv64 => "rv64"@,
        Arch::Mips => "24Kf"@,
        Arch::NoArch => Seq::<char>::empty(),
    }
}

/// Value of `-M`: board, `via=pmu` on mac99, and the accelerator (or `tcg`).
pub open spec fn machine_value(m: Machine, ctx: HostContext) -> Seq<char> {
    let base = if m.machine_type@ == "mac99"@ { m.machine_type@ + ",via=pmu"@ } else { m.machine_type@ };
    match ctx.accel {
        Some(acc) => base + ",accel="@ + acc@,
        None => base + ",accel=tcg"@,
    }
}

/// The CPU model passed with `-cpu` (empty: no `-cpu`).
pub open spec fn cpu_value(m: Machine, ctx: HostContext) -> Seq<char> {
    if m.cpu.model@.len() == 0 || (m.cpu.model@ == "host"@ && ctx.accel is None) {
        default_cpu(m.arch)
    } else {
        m.cpu.model@
    }
}

pub open spec fn at_least_one(x: u32) -> nat {
    if x == 0 { 1 } else { x as nat }
}

/// `-M` with its value.
pub open spec fn board_args(m: Machine, ctx: HostContext) -> Seq<Seq<char>> {
    seq!["-M"@, machine_value(m, ctx)]
}

/// `-cpu` with the model, when there is one.
pub open spec fn cpu_args(m: Machine, ctx: HostContext) -> Seq<Seq<char>> {
    let cpu = cpu_value(m, ctx);
    if cpu.len() > 0 { seq!["-cpu"@, cpu] } else { Seq::empty() }
}

/// `-smp` and `-m` (at least one core, at least one MiB).
pub open spec fn size_args(m: Machine) -> Seq<Seq<char>> {
    seq!["-smp"@, dec(at_least_one(m.cpu.cores)), "-m"@, dec(at_least_one(m.memory_mb)) + "M"@]
}

/// The `-icount` throttle: only without an accelerator and below full clock.
pub open spec fn icount_args(m: Machine, ctx: HostContext) -> Seq<Seq<char>> {
    if ctx.accel is None && spec_icount_shift(m.cpu.clock_percent) is Some {
        seq!["-icount"@, "shift="@ + dec(spec_icount_shift(m.cpu.clock_percent)->0 as nat) + ",align=off,sleep=on"@]
    } else {
        Seq::empty()
    }
}

fn default_cpu_of(arch: Arch) -> (r: String)
    ensures
        r@ == default_cpu(arch),
{
    match arch {
        Arch::X86_64 | Arch::I386 => String::from_str("max"),
        Arch::Aarch64 => String::from_str("cortex-a72"),
        Arch::M68k => String::from_str("m68040"),
        Arch::Ppc => String::from_str("g4"),
        Arch::Riscv64 => String::from_str("rv64"),
        Arch::Mips => String::from_str("24Kf"),
        Arch::NoArch => String::new(),
    }
}

fn push_board(a: &mut Vec<String>, m: &Machine, ctx: &HostContext)
    ensures
        strs(final(a)@) == strs(old(a)@) + board_args(*m, *ctx),
{
    let mut machine = m.machine_type.clone();
    if str_eq(m.machine_type.as_str(), "mac99") {
        push_str(&mut machine, ",via=pmu");
    }
    match &ctx.accel {
        Some(acc) => {
            push_str(&mut machine, ",accel=");
            push_str(&mut machine, acc.as_str());
        },
        None => {
            push_str(&mut machine, ",accel=tcg");
        },
    }
    push_lit(a, "-M");
    push_arg(a, machine);
    assert(strs(final(a)@) =~= strs(old(a)@) + board_args(*m, *ctx));
}

fn push_cpu(a: &mut Vec<String>, m: &Machine, ctx: &HostContext)
    ensures
        strs(final(a)@) == strs(old(a)@) + cpu_args(*m, *ctx),
{
    let model = m.cpu.model.as_str();
    let cpu = if model.unicode_len() == 0 || (str_eq(model, "host") && ctx.accel.is_none()) {
        default_cpu_of(m.arch)
    } else {
        m.cpu.model.clone()
    };
    if cpu.as_str().unicode_len() > 0 {
        push_lit(a, "-cpu");
        push_arg(a, cpu);
    }
    assert(strs(final(a)@) =~= strs(old(a)@) + cpu_args(*m, *ctx));
}

fn push_sizes(a: &mut Vec<String>, m: &Machine)
    ensures
        strs(final(a)@) == strs(old(a)@) + size_args(*m),
{
    push_lit(a, "-smp");
    let cores = if m.cpu.cores == 0 { 1 } else { m.cpu.cores };
    push_arg(a, dec_string(cores as u64));
    push_lit(a, "-m");
    let mem = if m.memory_mb == 0 { 1 } else { m.memory_mb };
    let mut mem_s = dec_string(mem as u64);
    push_str(&mut mem_s, "M");
    push_arg(a, mem_s);
    assert(strs(final(a)@) =~= strs(old(a)@) + size_args(*m));
}

fn push_icount(a: &mut Vec<String>, m: &Machine, ctx: &HostContext)
    ensures
        strs(final(a)@) == strs(old(a)@) + icount_args(*m, *ctx),
{
    if ctx.accel.is_none() {
        if let Some(shift) = icount_shift(m.cpu.clock_percent) {
            push_lit(a, "-icount");
            let mut v = String::from_str("shift=");
            push_dec(&mut v, shift as u64);
            push_str(&mut v, ",align=off,sleep=on");
            push_arg(a, v);
        }
    }
    assert(strs(final(a)@) =~= strs(old(a)@) + icount_args(*m, *ctx));
}


// ---------------------------------------------------------------------------
// Firmware, TPM
// ---------------------------------------------------------------------------

/// UEFI: the firmware code as a read-only pflash drive, then the NVRAM copy.
pub open spec fn firmware_args(m: Machine, ctx: HostContext) -> Seq<Seq<char>> {
    match m.firmware {
        Firmware::Bios => Seq::empty(),
        _ => seq!["-drive"@, "if=pflash,format=raw,readonly=on,file="@ + ctx.uefi_code->0@]
            + match ctx.uefi_vars {
                Some(v) => seq!["-drive"@, "if=pflash,format=raw,file="@ + v@],
                None => Seq::empty(),
            },
    }
}

/// TPM 2.0 through the swtpm socket, when wanted and available.
pub open spec fn tpm_args(m: Machine, ctx: HostContext) -> Seq<Seq<char>> {
    if m.tpm && ctx.tpm_socket is Some {
        seq![
            "-chardev"@, "socket,id=chrtpm,path="@ + ctx.tpm_socket->0@,
            "-tpmdev"@, "emulator,id=tpm0,chardev=chrtpm"@,
            "-device"@, if m.arch == Arch::Aarch64 { "tpm-tis-device,tpmdev=tpm0"@ } else { "tpm-tis,tpmdev=tpm0"@ },
        ]
    } else {
        Seq::empty()
    }
}

fn push_firmware(a: &mut Vec<String>, m: &Machine, ctx: &HostContext)
    requires
        m.firmware == Firmware::Bios || ctx.uefi_code is Some,
    ensures
        strs(final(a)@) == strs(old(a)@) + firmware_args(*m, *ctx),
{
    match m.firmware {
        Firmware::Bios => {},
        _ => {
            if let Some(code) = &ctx.uefi_code {
                push_lit(a, "-drive");
                push_arg(a, cat("if=pflash,format=raw,readonly=on,file=", code.as_str()));
            }
            if let Some(vars) = &ctx.uefi_vars {
                push_lit(a, "-drive");
                push_arg(a, cat("if=pflash,format=raw,file=", vars.as_str()));
            }
        },
    }
    assert(strs(final(a)@) =~= strs(old(a)@) + firmware_args(*m, *ctx));
}

fn push_tpm(a: &mut Vec<String>, m: &Machine, ctx: &HostContext)
    ensures
        strs(final(a)@) == strs(old(a)@) + tpm_args(*m, *ctx),
{
    if m.tpm {
        if let Some(sock) = &ctx.tpm_socket {
            push_lit(a, "-chardev");
            push_arg(a, cat("socket,id=chrtpm,path=", sock.as_str()));
            push_lit(a, "-tpmdev");
            push_lit(a, "emulator,id=tpm0,chardev=chrtpm");
            push_lit(a, "-device");
            if m.arch == Arch::Aarch64 {
                push_lit(a, "tpm-tis-device,tpmdev=tpm0");
            } else {
                push_lit(a, "tpm-tis,tpmdev=tpm0");
            }
        }
    }
    assert(strs(final(a)@) =~= strs(old(a)@) + tpm_args(*m, *ctx));
}

// ---------------------------------------------------------------------------
// Disks
// ---------------------------------------------------------------------------

/// The SCSI controller, when disks hang on SCSI of a board without its own.
pub open spec fn scsi_controller_args(m: Machine) -> Seq<Seq<char>> {
    if m.devices.storage_bus@ == "scsi"@ && !spec_integrated_board(m.machine_type@) {
        seq!["-device"@, "virtio-scsi-pci,id=scsi0"@]
    } else {
        Seq::empty()
    }
}

/// Arguments of disk number `i` on the given bus.
pub open spec fn disk_args(bus: Seq<char>, dir: Seq<char>, d: DiskRef, i: nat) -> Seq<Seq<char>> {
    let file = join_path(dir, d.path@);
    if bus == "virtio"@ {
        seq![
            "-drive"@, "file="@ + file + ",format="@ + d.format@ + ",if=none,id=disk"@ + dec(i) + ",cache=writeback,discard=unmap"@,
            "-device"@, "virtio-blk-pci,drive=disk"@ + dec(i) + ",bootindex="@ + dec(i + 1),
        ]
    } else if bus == "sata"@ {
        seq![
            "-drive"@, "file="@ + file + ",format="@ + d.format@ + ",if=none,id=disk"@ + dec(i),
            "-device"@, "ide-hd,drive=disk"@ + dec(i) + ",bus=ide."@ + dec(i) + ",bootindex="@ + dec(i + 1),
        ]
    } else if bus == "scsi"@ {
        seq!["-drive"@, "file="@ + file + ",format="@ + d.format@ + ",if=scsi,index="@ + dec(i) + ",media=disk"@]
    } else {
        seq!["-drive"@, "file="@ + file + ",format="@ + d.format@ + ",if=ide,index="@ + dec(i) + ",media=disk"@]
    }
}

/// Arguments of the first `n` disks.
pub open spec fn disks_args(bus: Seq<char>, dir: Seq<char>, disks: Seq<DiskRef>, n: nat) -> Seq<Seq<char>>
    decreases n,
{
    if n == 0 {
        Seq::empty()
    } else {
        disks_args(bus, dir, disks, (n - 1) as nat) + disk_args(bus, dir, disks[n - 1], (n - 1) as nat)
    }
}

fn push_scsi_controller(a: &mut Vec<String>, m: &Machine)
    ensures
        strs(final(a)@) == strs(old(a)@) + scsi_controller_args(*m),
{
    if str_eq(m.devices.storage_bus.as_str(), "scsi") && !integrated_board(m.machine_type.as_str()) {
        push_lit(a, "-device");
        push_lit(a, "virtio-scsi-pci,id=scsi0");
    }
    assert(strs(final(a)@) =~= strs(old(a)@) + scsi_controller_args(*m));
}

fn push_disk(a: &mut Vec<String>, bus: &str, dir: &str, d: &DiskRef, i: u64)
    requires
        i < u64::MAX,
    ensures
        strs(final(a)@) == strs(old(a)@) + disk_args(bus@, dir@, *d, i as nat),
{
    let file = resolve(dir, d.path.as_str());
    let mut drive = cat("file=", file.as_str());
    push_str(&mut drive, ",format=");
    push_str(&mut drive, d.format.as_str());
    if str_eq(bus, "virtio") {
        push_str(&mut drive, ",if=none,id=disk");
        push_dec(&mut drive, i);
        push_str(&mut drive, ",cache=writeback,discard=unmap");
        let mut dev = String::from_str("virtio-blk-pci,drive=disk");
        push_dec(&mut dev, i);
        push_str(&mut dev, ",bootindex=");
        push_dec(&mut dev, i + 1);
        push_lit(a, "-drive");
        push_arg(a, drive);
        push_lit(a, "-device");
        push_arg(a, dev);
    } else if str_eq(bus, "sata") {
        push_str(&mut drive, ",if=none,id=disk");
        push_dec(&mut drive, i);
        let mut dev = String::from_str("ide-hd,drive=disk");
        push_dec(&mut dev, i);
        push_str(&mut dev, ",bus=ide.");
        push_dec(&mut dev, i);
        push_str(&mut dev, ",bootindex=");
        push_dec(&mut dev, i + 1);
        push_lit(a, "-drive");
        push_arg(a, drive);
        push_lit(a, "-device");
        push_arg(a, dev);
    } else if str_eq(bus, "scsi") {
        push_str(&mut drive, ",if=scsi,index=");
        push_dec(&mut drive, i);
        push_str(&mut drive, ",media=disk");
        push_lit(a, "-drive");
        push_arg(a, drive);
    } else {
        push_str(&mut drive, ",if=ide,index=");
        push_dec(&mut drive, i);
        push_str(&mut drive, ",media=disk");
        push_lit(a, "-drive");
        push_arg(a, drive);
    }
    assert(strs(final(a)@) =~= strs(old(a)@) + disk_args(bus@, dir@, *d, i as nat));
}

fn push_disks(a: &mut Vec<String>, m: &Machine, ctx: &HostContext)
    ensures
        strs(final(a)@) == strs(old(a)@) + disks_args(m.devices.storage_bus@, ctx.machine_dir@, m.disks@, m.disks@.len()),
{
    let ghost start = strs(a@);
    let bus = m.devices.storage_bus.as_str();
    let dir = ctx.machine_dir.as_str();
    let mut i: usize = 0;
    while i < m.disks.len()
        invariant
            i <= m.disks@.len(),
            bus@ == m.devices.storage_bus@,
            dir@ == ctx.machine_dir@,
            strs(a@) == start + disks_args(bus@, dir@, m.disks@, i as nat),
        decreases m.disks@.len() - i,
    {
        push_disk(a, bus, dir, &m.disks[i], i as u64);
        i = i + 1;
        assert(strs(a@) =~= start + disks_args(bus@, dir@, m.disks@, i as nat));
    }
}


// ---------------------------------------------------------------------------
// Media
// ---------------------------------------------------------------------------

/// Interface of CD drives on a storage bus (`none`: attached with `-device ide-cd`).
pub open spec fn cd_interface(bus: Seq<char>) -> Seq<char> {
    if bus == "virtio"@ || bus == "sata"@ {
        "none"@
    } else if bus == "scsi"@ {
        "scsi"@
    } else {
        "ide"@
    }
}

/// Arguments of one medium, given the next free CD index; and the index after it.
pub open spec fn medium_args(bus: Seq<char>, dir: Seq<char>, med: MediaRef, cd: nat) -> (Seq<Seq<char>>, nat) {
    let file = join_path(dir, med.path@);
    match med.kind {
        MediaKind::Cdrom => {
            if bus == "virtio"@ || bus == "sata"@ {
                (seq![
                    "-drive"@, "file="@ + file + ",format=raw,if=none,id=cd"@ + dec(med.slot as nat) + ",media=cdrom,readonly=on"@,
                    "-device"@, "ide-cd,drive=cd"@ + dec(med.slot as nat) + ",bootindex="@ + dec((10 + med.slot) as nat),
                ], cd)
            } else {
                (seq!["-drive"@, "file="@ + file + ",format=raw,if="@ + cd_interface(bus) + ",index="@ + dec(cd) + ",media=cdrom,readonly=on"@], cd + 1)
            }
        },
        MediaKind::Floppy => (seq![
            "-drive"@, "file="@ + file + ",if=floppy,index="@ + (if med.slot == 0 { "0"@ } else { "1"@ }) + ",format=raw,readonly=on"@,
        ], cd),
        MediaKind::Rom => (seq!["-bios"@, file], cd),
        MediaKind::Physical => (seq![
            "-drive"@, "file="@ + file + ",format=raw,if="@ + (if bus == "virtio"@ { "ide"@ } else { bus }) + ",media=cdrom,readonly=on"@,
        ], cd),
    }
}

/// Arguments of the first `n` media, CDs numbered from `cd0`; and the next CD index.
pub open spec fn media_run(bus: Seq<char>, dir: Seq<char>, media: Seq<MediaRef>, n: nat, cd0: nat) -> (Seq<Seq<char>>, nat)
    decreases n,
{
    if n == 0 {
        (Seq::empty(), cd0)
    } else {
        let prev = media_run(bus, dir, media, (n - 1) as nat, cd0);
        let step = medium_args(bus, dir, media[n - 1], prev.1);
        (prev.0 + step.0, step.1)
    }
}

/// First CD index: behind the disks, at least 2 (IDE secondary master).
pub open spec fn first_cd_index(m: Machine) -> nat {
    if m.disks@.len() > 2 { m.disks@.len() } else { 2 }
}

/// All media arguments of the machine.
pub open spec fn media_args(m: Machine, ctx: HostContext) -> Seq<Seq<char>> {
    media_run(m.devices.storage_bus@, ctx.machine_dir@, m.media@, m.media@.len(), first_cd_index(m)).0
}

pub proof fn lemma_media_run_index(bus: Seq<char>, dir: Seq<char>, media: Seq<MediaRef>, n: nat, cd0: nat)
    ensures
        cd0 <= media_run(bus, dir, media, n, cd0).1 <= cd0 + n,
    decreases n,
{
    if n > 0 {
        lemma_media_run_index(bus, dir, media, (n - 1) as nat, cd0);
    }
}

fn push_medium(a: &mut Vec<String>, bus: &str, dir: &str, med: &MediaRef, cd: u64) -> (next: u64)
    requires
        cd < u64::MAX,
    ensures
        strs(final(a)@) == strs(old(a)@) + medium_args(bus@, dir@, *med, cd as nat).0,
        next as nat == medium_args(bus@, dir@, *med, cd as nat).1,
{
    let file = resolve(dir, med.path.as_str());
    let mut next = cd;
    match med.kind {
        MediaKind::Cdrom => {
            push_lit(a, "-drive");
            let mut d = cat("file=", file.as_str());
            if str_eq(bus, "virtio") || str_eq(bus, "sata") {
                push_str(&mut d, ",format=raw,if=none,id=cd");
                push_dec(&mut d, med.slot as u64);
                push_str(&mut d, ",media=cdrom,readonly=on");
                push_arg(a, d);
                push_lit(a, "-device");
                let mut dev = String::from_str("ide-cd,drive=cd");
                push_dec(&mut dev, med.slot as u64);
                push_str(&mut dev, ",bootindex=");
                push_dec(&mut dev, 10 + med.slot as u64);
                push_arg(a, dev);
            } else {
                push_str(&mut d, ",format=raw,if=");
                if str_eq(bus, "scsi") {
                    push_str(&mut d, "scsi");
                } else {
                    push_str(&mut d, "ide");
                }
                push_str(&mut d, ",index=");
                push_dec(&mut d, cd);
                push_str(&mut d, ",media=cdrom,readonly=on");
                push_arg(a, d);
                next = cd + 1;
            }
        },
        MediaKind::Floppy => {
            push_lit(a, "-drive");
            let mut d = cat("file=", file.as_str());
            push_str(&mut d, ",if=floppy,index=");
            push_str(&mut d, if med.slot == 0 { "0" } else { "1" });
            push_str(&mut d, ",format=raw,readonly=on");
            push_arg(a, d);
        },
        MediaKind::Rom => {
            push_lit(a, "-bios");
            push_arg(a, file);
        },
        MediaKind::Physical => {
            push_lit(a, "-drive");
            let mut d = cat("file=", file.as_str());
            push_str(&mut d, ",format=raw,if=");
            if str_eq(bus, "virtio") {
                push_str(&mut d, "ide");
            } else {
                push_str(&mut d, bus);
            }
            push_str(&mut d, ",media=cdrom,readonly=on");
            push_arg(a, d);
        },
    }
    assert(strs(final(a)@) =~= strs(old(a)@) + medium_args(bus@, dir@, *med, cd as nat).0);
    next
}

fn push_media(a: &mut Vec<String>, m: &Machine, ctx: &HostContext)
    requires
        m.disks@.len() + m.media@.len() + 2 < u64::MAX,
    ensures
        strs(final(a)@) == strs(old(a)@) + media_args(*m, *ctx),
{
    let ghost start = strs(a@);
    let bus = m.devices.storage_bus.as_str();
    let dir = ctx.machine_dir.as_str();
    let ghost cd0 = first_cd_index(*m);
    let mut cd: u64 = if m.disks.len() > 2 { m.disks.len() as u64 } else { 2 };
    let mut i: usize = 0;
    while i < m.media.len()
        invariant
            i <= m.media@.len(),
            bus@ == m.devices.storage_bus@,
            dir@ == ctx.machine_dir@,
            cd0 == first_cd_index(*m),
            cd0 <= usize::MAX,
            m.disks@.len() + m.media@.len() + 2 < u64::MAX,
            strs(a@) == start + media_run(bus@, dir@, m.media@, i as nat, cd0).0,
            cd as nat == media_run(bus@, dir@, m.media@, i as nat, cd0).1,
        decreases m.media@.len() - i,
    {
        proof {
            lemma_media_run_index(bus@, dir@, m.media@, i as nat, cd0);
        }
        cd = push_medium(a, bus, dir, &m.media[i], cd);
        i = i + 1;
        assert(strs(a@) =~= start + media_run(bus@, dir@, m.media@, i as nat, cd0).0);
    }
}

/// Whether some medium is of the given kind.
pub open spec fn has_kind(media: Seq<MediaRef>, kind: MediaKind) -> bool {
    exists|i: int| 0 <= i < media.len() && #[trigger] media[i].kind == kind
}

fn any_kind(media: &Vec<MediaRef>, kind: MediaKind) -> (r: bool)
    ensures
        r == has_kind(media@, kind),
{
    let mut i: usize = 0;
    while i < media.len()
        invariant
            i <= media@.len(),
            forall|j: int| 0 <= j < i ==> #[trigger] media@[j].kind != kind,
        decreases media@.len() - i,
    {
        if media[i].kind == kind {
            return true;
        }
        i = i + 1;
    }
    false
}

/// An empty floppy drive, so that the guest sees one (disks are inserted later); like
/// every floppy it is read-only, as a writable one keeps QEMU from saving snapshots.
pub open spec fn empty_floppy_args(m: Machine) -> Seq<Seq<char>> {
    if m.devices.floppy && !has_kind(m.media@, MediaKind::Floppy) && !spec_integrated_board(m.machine_type@) {
        seq!["-drive"@, "if=floppy,index=0,media=disk,format=raw,readonly=on,file.driver=null-co,file.read-zeroes=on,file.size=1474560"@]
    } else {
        Seq::empty()
    }
}

/// Boot order of classic boards: CD first when one is inserted.
pub open spec fn boot_args(m: Machine) -> Seq<Seq<char>> {
    let bus = m.devices.storage_bus@;
    if (bus == "ide"@ || bus == "scsi"@) && !spec_integrated_board(m.machine_type@) {
        seq!["-boot"@, if has_kind(m.media@, MediaKind::Cdrom) { "order=dc,menu=on"@ } else { "order=c,menu=on"@ }]
    } else {
        Seq::empty()
    }
}

fn push_floppy_and_boot(a: &mut Vec<String>, m: &Machine)
    ensures
        strs(final(a)@) == strs(old(a)@) + empty_floppy_args(*m) + boot_args(*m),
{
    let integrated = integrated_board(m.machine_type.as_str());
    if m.devices.floppy && !any_kind(&m.media, MediaKind::Floppy) && !integrated {
        push_lit(a, "-drive");
        push_lit(a, "if=floppy,index=0,media=disk,format=raw,readonly=on,file.driver=null-co,file.read-zeroes=on,file.size=1474560");
    }
    let bus = m.devices.storage_bus.as_str();
    if (str_eq(bus, "ide") || str_eq(bus, "scsi")) && !integrated {
        push_lit(a, "-boot");
        if any_kind(&m.media, MediaKind::Cdrom) {
            push_lit(a, "order=dc,menu=on");
        } else {
            push_lit(a, "order=c,menu=on");
        }
    }
    assert(strs(final(a)@) =~= strs(old(a)@) + empty_floppy_args(*m) + boot_args(*m));
}


// ---------------------------------------------------------------------------
// Graphics, input, sound
// ---------------------------------------------------------------------------

/// The graphics device asked for; an empty choice means standard VGA.
pub open spec fn graphics_choice(m: Machine) -> Seq<char> {
    if m.devices.graphics@.len() == 0 { "std"@ } else { m.devices.graphics@ }
}

/// A virtio graphics device gets its `-gl` variant when OpenGL is wanted.
pub open spec fn gl_device(m: Machine, g: Seq<char>) -> Seq<char> {
    if m.display.gl && !has_suffix(g, "-gl"@) && has_prefix(g, "virtio"@) { g + "-gl"@ } else { g }
}

/// Graphics arguments (none on boards with built-in graphics).
pub open spec fn graphics_args(m: Machine) -> Seq<Seq<char>> {
    let g = graphics_choice(m);
    if spec_integrated_board(m.machine_type@) {
        Seq::empty()
    } else if g == "std"@ || g == "VGA"@ {
        seq!["-vga"@, "std"@]
    } else if g == "cirrus-vga"@ {
        seq!["-vga"@, "cirrus"@]
    } else if g == "none"@ {
        seq!["-vga"@, "none"@]
    } else {
        seq!["-vga"@, "none"@, "-device"@, gl_device(m, g)]
    }
}

/// Input devices (PS/2 is built into the PC board).
pub open spec fn input_args(m: Machine) -> Seq<Seq<char>> {
    let inp = m.devices.input@;
    if spec_integrated_board(m.machine_type@) {
        Seq::empty()
    } else if inp == "usb"@ {
        seq!["-device"@, "qemu-xhci,id=xhci"@, "-device"@, "usb-tablet"@, "-device"@, "usb-kbd"@]
    } else if inp == "virtio"@ {
        seq!["-device"@, "virtio-keyboard-pci"@, "-device"@, "virtio-tablet-pci"@]
    } else {
        Seq::empty()
    }
}

/// `-device <dev>,audiodev=snd0` for the first `n` sound devices.
pub open spec fn sound_devices_args(devs: Seq<String>, n: nat) -> Seq<Seq<char>>
    decreases n,
{
    if n == 0 {
        Seq::empty()
    } else {
        sound_devices_args(devs, (n - 1) as nat) + seq!["-device"@, devs[n - 1]@ + ",audiodev=snd0"@]
    }
}

/// Sound: a host backend, plus the devices (built-in boards take only the backend).
pub open spec fn audio_args(m: Machine, ctx: HostContext) -> Seq<Seq<char>> {
    if m.devices.audio@.len() > 0 && ctx.audio_backend@ != "none"@ {
        seq!["-audiodev"@, ctx.audio_backend@ + ",id=snd0"@]
            + if spec_integrated_board(m.machine_type@) {
                Seq::empty()
            } else {
                sound_devices_args(m.devices.audio@, m.devices.audio@.len())
            }
    } else {
        Seq::empty()
    }
}

fn push_graphics(a: &mut Vec<String>, m: &Machine)
    ensures
        strs(final(a)@) == strs(old(a)@) + graphics_args(*m),
{
    if !integrated_board(m.machine_type.as_str()) {
        let g: &str = if m.devices.graphics.as_str().unicode_len() == 0 { "std" } else { m.devices.graphics.as_str() };
        if str_eq(g, "std") || str_eq(g, "VGA") {
            push_lit(a, "-vga");
            push_lit(a, "std");
        } else if str_eq(g, "cirrus-vga") {
            push_lit(a, "-vga");
            push_lit(a, "cirrus");
        } else if str_eq(g, "none") {
            push_lit(a, "-vga");
            push_lit(a, "none");
        } else {
            push_lit(a, "-vga");
            push_lit(a, "none");
            push_lit(a, "-device");
            let mut d = String::from_str(g);
            if m.display.gl && !ends_with(g, "-gl") && starts_with(g, "virtio") {
                push_str(&mut d, "-gl");
            }
            push_arg(a, d);
        }
    }
    assert(strs(final(a)@) =~= strs(old(a)@) + graphics_args(*m));
}

fn push_input(a: &mut Vec<String>, m: &Machine)
    ensures
        strs(final(a)@) == strs(old(a)@) + input_args(*m),
{
    if !integrated_board(m.machine_type.as_str()) {
        let inp = m.devices.input.as_str();
        if str_eq(inp, "usb") {
            push_lit(a, "-device");
            push_lit(a, "qemu-xhci,id=xhci");
            push_lit(a, "-device");
            push_lit(a, "usb-tablet");
            push_lit(a, "-device");
            push_lit(a, "usb-kbd");
        } else if str_eq(inp, "virtio") {
            push_lit(a, "-device");
            push_lit(a, "virtio-keyboard-pci");
            push_lit(a, "-device");
            push_lit(a, "virtio-tablet-pci");
        }
    }
    assert(strs(final(a)@) =~= strs(old(a)@) + input_args(*m));
}

fn push_audio(a: &mut Vec<String>, m: &Machine, ctx: &HostContext)
    ensures
        strs(final(a)@) == strs(old(a)@) + audio_args(*m, *ctx),
{
    let ghost start = strs(a@);
    if m.devices.audio.len() > 0 && !str_eq(ctx.audio_backend.as_str(), "none") {
        push_lit(a, "-audiodev");
        push_arg(a, cat(ctx.audio_backend.as_str(), ",id=snd0"));
        let ghost mid = strs(a@);
        assert(mid =~= start + seq!["-audiodev"@, ctx.audio_backend@ + ",id=snd0"@]);
        if !integrated_board(m.machine_type.as_str()) {
            let mut i: usize = 0;
            while i < m.devices.audio.len()
                invariant
                    i <= m.devices.audio@.len(),
                    strs(a@) == mid + sound_devices_args(m.devices.audio@, i as nat),
                decreases m.devices.audio@.len() - i,
            {
                push_lit(a, "-device");
                push_arg(a, cat(m.devices.audio[i].as_str(), ",audiodev=snd0"));
                i = i + 1;
                assert(strs(a@) =~= mid + sound_devices_args(m.devices.audio@, i as nat));
            }
        }
    }
    assert(strs(final(a)@) =~= strs(old(a)@) + audio_args(*m, *ctx));
}

// ---------------------------------------------------------------------------
// Network, shared folders
// ---------------------------------------------------------------------------

/// `,hostfwd=<proto>::<host>-:<guest>` for the first `n` port forwards.
pub open spec fn forwards_text(fw: Seq<PortForward>, n: nat) -> Seq<char>
    decreases n,
{
    if n == 0 {
        Seq::empty()
    } else {
        forwards_text(fw, (n - 1) as nat) + ",hostfwd="@ + fw[n - 1].proto@ + "::"@ + dec(fw[n - 1].host_port as nat)
            + "-:"@ + dec(fw[n - 1].guest_port as nat)
    }
}

/// The SLIRP netdev: restricted when isolated, port forwards, and an SMB export of the
/// first shared folder (SLIRP can export one).
pub open spec fn netdev_value(m: Machine) -> Seq<char> {
    "user,id=net0"@ + (if m.network.mode == NetworkMode::Isolated { ",restrict=on"@ } else { Seq::empty() })
        + forwards_text(m.network.forwards@, m.network.forwards@.len())
        + (if m.shared_folders@.len() > 0 { ",smb="@ + m.shared_folders@[0].host_path@ } else { Seq::empty() })
}

/// Network: none at all when off; else SLIRP with the board NIC or a NIC device.
pub open spec fn network_args(m: Machine) -> Seq<Seq<char>> {
    if m.network.mode == NetworkMode::Off {
        seq!["-nic"@, "none"@]
    } else {
        seq!["-netdev"@, netdev_value(m)] + if spec_integrated_board(m.machine_type@) {
            seq!["-nic"@, "user,model=none"@]
        } else {
            seq!["-device"@, (if m.devices.nic@.len() == 0 { "e1000"@ } else { m.devices.nic@ }) + ",netdev=net0"@]
        }
    }
}

fn push_network(a: &mut Vec<String>, m: &Machine)
    ensures
        strs(final(a)@) == strs(old(a)@) + network_args(*m),
{
    match m.network.mode {
        NetworkMode::Off => {
            push_lit(a, "-nic");
            push_lit(a, "none");
        },
        mode => {
            let mut net = String::from_str("user,id=net0");
            if mode == NetworkMode::Isolated {
                push_str(&mut net, ",restrict=on");
            }
            let ghost base = net@;
            let mut i: usize = 0;
            while i < m.network.forwards.len()
                invariant
                    i <= m.network.forwards@.len(),
                    net@ == base + forwards_text(m.network.forwards@, i as nat),
                decreases m.network.forwards@.len() - i,
            {
                let f = &m.network.forwards[i];
                push_str(&mut net, ",hostfwd=");
                push_str(&mut net, f.proto.as_str());
                push_str(&mut net, "::");
                push_dec(&mut net, f.host_port as u64);
                push_str(&mut net, "-:");
                push_dec(&mut net, f.guest_port as u64);
                i = i + 1;
                assert(net@ =~= base + forwards_text(m.network.forwards@, i as nat));
            }
            if m.shared_folders.len() > 0 {
                push_str(&mut net, ",smb=");
                push_str(&mut net, m.shared_folders[0].host_path.as_str());
            }
            assert(net@ =~= netdev_value(*m));
            push_lit(a, "-netdev");
            push_arg(a, net);
            if integrated_board(m.machine_type.as_str()) {
                push_lit(a, "-nic");
                push_lit(a, "user,model=none");
            } else {
                push_lit(a, "-device");
                let nic: &str = if m.devices.nic.as_str().unicode_len() == 0 { "e1000" } else { m.devices.nic.as_str() };
                push_arg(a, cat(nic, ",netdev=net0"));
            }
        },
    }
    assert(strs(final(a)@) =~= strs(old(a)@) + network_args(*m));
}

/// virtio-9p export of shared folder number `i`.
pub open spec fn share_args(m: Machine, s: SharedFolder, i: nat) -> Seq<Seq<char>> {
    let ro = s.read_only || m.isolation.read_only_shares;
    seq![
        "-fsdev"@, "local,id=fs"@ + dec(i) + ",path="@ + s.host_path@ + ",security_model=mapped-xattr"@
            + (if ro { ",readonly=on"@ } else { Seq::empty() }),
        "-device"@, "virtio-9p-pci,fsdev=fs"@ + dec(i) + ",mount_tag="@ + s.name@,
    ]
}

/// Exports of the first `n` shared folders.
pub open spec fn shares_run(m: Machine, n: nat) -> Seq<Seq<char>>
    decreases n,
{
    if n == 0 {
        Seq::empty()
    } else {
        shares_run(m, (n - 1) as nat) + share_args(m, m.shared_folders@[n - 1], (n - 1) as nat)
    }
}

/// Shared folders over virtio-9p (only with virtio storage).
pub open spec fn shares_args(m: Machine) -> Seq<Seq<char>> {
    if m.devices.storage_bus@ == "virtio"@ { shares_run(m, m.shared_folders@.len()) } else { Seq::empty() }
}

fn push_share(a: &mut Vec<String>, m: &Machine, s: &SharedFolder, i: u64)
    ensures
        strs(final(a)@) == strs(old(a)@) + share_args(*m, *s, i as nat),
{
    let ro = s.read_only || m.isolation.read_only_shares;
    push_lit(a, "-fsdev");
    let mut f = String::from_str("local,id=fs");
    push_dec(&mut f, i);
    push_str(&mut f, ",path=");
    push_str(&mut f, s.host_path.as_str());
    push_str(&mut f, ",security_model=mapped-xattr");
    if ro {
        push_str(&mut f, ",readonly=on");
    }
    push_arg(a, f);
    push_lit(a, "-device");
    let mut d = String::from_str("virtio-9p-pci,fsdev=fs");
    push_dec(&mut d, i);
    push_str(&mut d, ",mount_tag=");
    push_str(&mut d, s.name.as_str());
    push_arg(a, d);
    assert(strs(final(a)@) =~= strs(old(a)@) + share_args(*m, *s, i as nat));
}

fn push_shares(a: &mut Vec<String>, m: &Machine)
    ensures
        strs(final(a)@) == strs(old(a)@) + shares_args(*m),
{
    let ghost start = strs(a@);
    if str_eq(m.devices.storage_bus.as_str(), "virtio") {
        let mut i: usize = 0;
        while i < m.shared_folders.len()
            invariant
                i <= m.shared_folders@.len(),
                strs(a@) == start + shares_run(*m, i as nat),
            decreases m.shared_folders@.len() - i,
        {
            push_share(a, m, &m.shared_folders[i], i as u64);
            i = i + 1;
            assert(strs(a@) =~= start + shares_run(*m, i as nat));
        }
    }
    assert(strs(final(a)@) =~= strs(old(a)@) + shares_args(*m));
}

// ---------------------------------------------------------------------------
// Display, control, isolation
// ---------------------------------------------------------------------------

/// The host display backend, with OpenGL and fullscreen options.
pub open spec fn display_value(m: Machine, ctx: HostContext) -> Seq<char> {
    let b = ctx.display_backend@;
    b + (if m.display.gl && (b == "gtk"@ || b == "sdl"@ || b == "cocoa"@) { ",gl=on"@ } else { Seq::empty() })
        + (if m.display.fullscreen { ",full-screen=on"@ } else { Seq::empty() })
}

pub open spec fn display_args(m: Machine, ctx: HostContext) -> Seq<Seq<char>> {
    if m.display.kind@ == "headless"@ {
        seq!["-display"@, "none"@]
    } else if m.display.kind@ == "vnc"@ {
        seq!["-display"@, "none"@, "-vnc"@, "127.0.0.1:0"@]
    } else {
        seq!["-display"@, display_value(m, ctx)]
    }
}

/// Window title and, where the host supports it, process name; the QMP endpoint (TCP
/// or Unix socket).
pub open spec fn control_args(m: Machine, ctx: HostContext) -> Seq<Seq<char>> {
    seq![
        "-name"@, m.name@ + (if ctx.process_names { ",process=virtual-"@ + m.id@ } else { Seq::empty() }),
        "-qmp"@, (if has_prefix(ctx.qmp@, "tcp:"@) { ctx.qmp@ } else { "unix:"@ + ctx.qmp@ }) + ",server=on,wait=off"@,
    ]
}

/// Clock, throw-away mode, no user config, then the extra arguments verbatim.
pub open spec fn tail_args(m: Machine) -> Seq<Seq<char>> {
    seq!["-rtc"@, "base=localtime,clock=host"@]
        + (if m.isolation.throwaway { seq!["-snapshot"@] } else { Seq::empty() })
        + seq!["-no-user-config"@]
        + strs(m.extra_args@)
}

fn push_display(a: &mut Vec<String>, m: &Machine, ctx: &HostContext)
    ensures
        strs(final(a)@) == strs(old(a)@) + display_args(*m, *ctx),
{
    let kind = m.display.kind.as_str();
    if str_eq(kind, "headless") {
        push_lit(a, "-display");
        push_lit(a, "none");
    } else if str_eq(kind, "vnc") {
        push_lit(a, "-display");
        push_lit(a, "none");
        push_lit(a, "-vnc");
        push_lit(a, "127.0.0.1:0");
    } else {
        push_lit(a, "-display");
        let b = ctx.display_backend.as_str();
        let mut d = String::from_str(b);
        if m.display.gl && (str_eq(b, "gtk") || str_eq(b, "sdl") || str_eq(b, "cocoa")) {
            push_str(&mut d, ",gl=on");
        }
        if m.display.fullscreen {
            push_str(&mut d, ",full-screen=on");
        }
        push_arg(a, d);
    }
    assert(strs(final(a)@) =~= strs(old(a)@) + display_args(*m, *ctx));
}

fn push_control(a: &mut Vec<String>, m: &Machine, ctx: &HostContext)
    ensures
        strs(final(a)@) == strs(old(a)@) + control_args(*m, *ctx),
{
    push_lit(a, "-name");
    let mut n = String::from_str(m.name.as_str());
    if ctx.process_names {
        push_str(&mut n, ",process=virtual-");
        push_str(&mut n, m.id.as_str());
        assert(n@ =~= m.name@ + (",process=virtual-"@ + m.id@));
    } else {
        assert(n@ =~= m.name@ + Seq::<char>::empty());
    }
    push_arg(a, n);
    push_lit(a, "-qmp");
    let q = ctx.qmp.as_str();
    let mut v = if starts_with(q, "tcp:") { String::from_str(q) } else { cat("unix:", q) };
    push_str(&mut v, ",server=on,wait=off");
    push_arg(a, v);
    assert(strs(final(a)@) =~= strs(old(a)@) + control_args(*m, *ctx));
}

fn push_tail(a: &mut Vec<String>, m: &Machine)
    ensures
        strs(final(a)@) == strs(old(a)@) + tail_args(*m),
{
    let ghost start = strs(a@);
    push_lit(a, "-rtc");
    push_lit(a, "base=localtime,clock=host");
    if m.isolation.throwaway {
        push_lit(a, "-snapshot");
    }
    push_lit(a, "-no-user-config");
    let ghost mid = strs(a@);
    let mut i: usize = 0;
    while i < m.extra_args.len()
        invariant
            i <= m.extra_args@.len(),
            strs(a@) == mid + strs(m.extra_args@.subrange(0, i as int)),
        decreases m.extra_args@.len() - i,
    {
        push_arg(a, m.extra_args[i].clone());
        i = i + 1;
        assert(strs(a@) =~= mid + strs(m.extra_args@.subrange(0, i as int)));
    }
    assert(m.extra_args@.subrange(0, m.extra_args@.len() as int) =~= m.extra_args@);
    assert(strs(final(a)@) =~= strs(old(a)@) + tail_args(*m));
}


// ---------------------------------------------------------------------------
// The whole command line
// ---------------------------------------------------------------------------

/// The machine asks for UEFI but the host has no firmware for it.
pub open spec fn uefi_missing(m: Machine, ctx: HostContext) -> bool {
    m.firmware != Firmware::Bios && ctx.uefi_code is None
}

/// The QEMU arguments of a machine (without the binary), section by section.
pub open spec fn spec_qemu_argv(m: Machine, ctx: HostContext) -> Seq<Seq<char>> {
    board_args(m, ctx) + cpu_args(m, ctx) + size_args(m) + icount_args(m, ctx)
        + firmware_args(m, ctx) + tpm_args(m, ctx)
        + scsi_controller_args(m) + disks_args(m.devices.storage_bus@, ctx.machine_dir@, m.disks@, m.disks@.len())
        + media_args(m, ctx) + empty_floppy_args(m) + boot_args(m)
        + graphics_args(m) + input_args(m) + audio_args(m, ctx)
        + network_args(m) + shares_args(m)
        + display_args(m, ctx) + control_args(m, ctx) + tail_args(m)
}

/// Builds the argument list (without the binary itself).
pub fn qemu_argv(m: &Machine, ctx: &HostContext) -> (r: Result<Vec<String>, String>)
    requires
        m.disks@.len() + m.media@.len() + 2 < u64::MAX,
    ensures
        m.engine != Engine::Qemu ==> (r matches Err(e) && e@ == "Keine QEMU-Maschine"@),
        m.engine == Engine::Qemu && uefi_missing(*m, *ctx) ==> (r matches Err(e)
            && e@ == "UEFI-Firmware (OVMF/AAVMF) nicht gefunden — im QEMU-Paket enthalten?"@),
        m.engine == Engine::Qemu && !uefi_missing(*m, *ctx) ==> (r matches Ok(a) && strs(a@) == spec_qemu_argv(*m, *ctx)),
{
    if m.engine != Engine::Qemu {
        return Err(String::from_str("Keine QEMU-Maschine"));
    }
    if m.firmware != Firmware::Bios && ctx.uefi_code.is_none() {
        return Err(String::from_str("UEFI-Firmware (OVMF/AAVMF) nicht gefunden — im QEMU-Paket enthalten?"));
    }
    let mut a: Vec<String> = Vec::new();
    push_board(&mut a, m, ctx);
    push_cpu(&mut a, m, ctx);
    push_sizes(&mut a, m);
    push_icount(&mut a, m, ctx);
    push_firmware(&mut a, m, ctx);
    push_tpm(&mut a, m, ctx);
    push_scsi_controller(&mut a, m);
    push_disks(&mut a, m, ctx);
    push_media(&mut a, m, ctx);
    push_floppy_and_boot(&mut a, m);
    push_graphics(&mut a, m);
    push_input(&mut a, m);
    push_audio(&mut a, m, ctx);
    push_network(&mut a, m);
    push_shares(&mut a, m);
    push_display(&mut a, m, ctx);
    push_control(&mut a, m, ctx);
    push_tail(&mut a, m);
    assert(strs(a@) =~= spec_qemu_argv(*m, *ctx));
    Ok(a)
}

/// Command line of `qemu-img create` (at least one GiB).
pub fn qemu_img_create(path: &str, format: &str, size_gb: u32) -> (r: Vec<String>)
    ensures
        strs(r@) == seq!["create"@, "-f"@, format@, path@, dec(at_least_one(size_gb)) + "G"@],
{
    let mut a: Vec<String> = Vec::new();
    push_lit(&mut a, "create");
    push_lit(&mut a, "-f");
    push_lit(&mut a, format);
    push_lit(&mut a, path);
    let size = if size_gb == 0 { 1 } else { size_gb };
    let mut s = dec_string(size as u64);
    push_str(&mut s, "G");
    push_arg(&mut a, s);
    assert(strs(a@) =~= seq!["create"@, "-f"@, format@, path@, dec(at_least_one(size_gb)) + "G"@]);
    a
}

/// Each `'` written as `'\''`, for use inside single quotes.
pub open spec fn escape_quotes(s: Seq<char>) -> Seq<char>
    decreases s.len(),
{
    if s.len() == 0 {
        Seq::empty()
    } else {
        escape_quotes(s.drop_last()) + if s.last() == '\'' { seq!['\'', '\\', '\'', '\''] } else { seq![s.last()] }
    }
}

/// One argument as a shell would read it: single-quoted only where it holds a space or `"`.
pub open spec fn shell_word(s: Seq<char>) -> Seq<char> {
    if s.contains(' ') || s.contains('"') { seq!['\''] + escape_quotes(s) + seq!['\''] } else { s }
}

/// The binary followed by the first `n` arguments, each after a space.
pub open spec fn rendered(binary: Seq<char>, args: Seq<Seq<char>>, n: nat) -> Seq<char>
    decreases n,
{
    if n == 0 {
        binary
    } else {
        rendered(binary, args, (n - 1) as nat) + seq![' '] + shell_word(args[n - 1])
    }
}

fn quote_into(out: &mut String, s: &str)
    ensures
        final(out)@ == old(out)@ + seq!['\''] + escape_quotes(s@) + seq!['\''],
{
    out.push('\'');
    let ghost base = out@;
    let n = s.unicode_len();
    let mut i: usize = 0;
    while i < n
        invariant
            n == s@.len(),
            i <= n,
            out@ == base + escape_quotes(s@.subrange(0, i as int)),
        decreases n - i,
    {
        let c = s.get_char(i);
        if c == '\'' {
            out.push('\'');
            out.push('\\');
            out.push('\'');
            out.push('\'');
        } else {
            out.push(c);
        }
        assert(s@.subrange(0, i + 1).drop_last() =~= s@.subrange(0, i as int));
        i = i + 1;
        assert(out@ =~= base + escape_quotes(s@.subrange(0, i as int)));
    }
    assert(s@.subrange(0, n as int) =~= s@);
    out.push('\'');
    assert(final(out)@ =~= old(out)@ + seq!['\''] + escape_quotes(s@) + seq!['\'']);
}

/// Human-readable command line (shell quoting only where needed).
pub fn render(binary: &str, argv: &[String]) -> (r: String)
    ensures
        r@ == rendered(binary@, strs(argv@), argv@.len()),
{
    let mut out = String::from_str(binary);
    let mut i: usize = 0;
    while i < argv.len()
        invariant
            i <= argv@.len(),
            out@ == rendered(binary@, strs(argv@), i as nat),
        decreases argv@.len() - i,
    {
        let a = argv[i].as_str();
        out.push(' ');
        if contains_char(a, ' ') || contains_char(a, '"') {
            quote_into(&mut out, a);
        } else {
            push_str(&mut out, a);
        }
        i = i + 1;
        assert(out@ =~= rendered(binary@, strs(argv@), i as nat));
    }
    out
}

} // verus!
