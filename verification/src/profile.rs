//! Machine profiles — a profile describes a complete computer. The built-in
//! profiles come with the library; user profiles replace them by `id`.
use vstd::prelude::*;
use crate::model::{Engine, Arch, Cpu, Firmware, Devices, Network, NetworkMode, PortForward, Isolation, Display, Machine,
    LibretroConfig,
    clone_strings};
use crate::text::str_eq;
use crate::detect::views;

verus! {

#[derive(Debug, PartialEq, Eq)]
pub struct ProfileOs {
    /// Display name of the OS family, e.g. "Windows 9x".
    pub family: String,
    /// Versions that run on this profile.
    pub versions: Vec<String>,
    /// Installation hint (drivers, ROM, BIOS …).
    pub hint: String,
}

impl Default for ProfileOs {
    fn default() -> (r: Self)
        ensures
            r.family@ == Seq::<char>::empty(),
            r.versions@.len() == 0,
            r.hint@ == Seq::<char>::empty(),
    {
        ProfileOs { family: String::new(), versions: Vec::new(), hint: String::new() }
    }
}

#[derive(Debug, PartialEq, Eq)]
pub struct ProfileLibretro {
    pub core: String,
    pub fallback_core: Option<String>,
    pub bios: Vec<String>,
    /// File extensions of ROMs and disc images (without the dot).
    pub extensions: Vec<String>,
}

impl Default for ProfileLibretro {
    fn default() -> (r: Self)
        ensures
            r.core@ == Seq::<char>::empty(),
            r.fallback_core is None,
            r.bios@.len() == 0,
            r.extensions@.len() == 0,
    {
        ProfileLibretro { core: String::new(), fallback_core: None, bios: Vec::new(), extensions: Vec::new() }
    }
}

#[derive(Debug, PartialEq, Eq)]
pub struct Profile {
    pub id: String,
    pub name: String,
    /// Year of the machine it recreates (0 = current).
    pub epoch: u32,
    /// `modern` | `retro-pc` | `retro-mac` | `other-arch` | `console`
    pub category: String,
    pub os: ProfileOs,
    pub engine: Engine,
    pub arch: Arch,
    pub machine_type: String,
    pub cpu: Cpu,
    pub memory_mb: u32,
    pub firmware: Firmware,
    pub tpm: bool,
    pub devices: Devices,
    pub network: Network,
    pub isolation: Isolation,
    pub display: Display,
    /// `free` | `nested`
    pub tier: String,
    pub beta: bool,
    pub notes: String,
    /// Suggested system disk size (0 = no disk, e.g. consoles).
    pub default_disk_gb: u32,
    /// Firmware ROM needed (q800) — the user supplies the file.
    pub needs_rom: bool,
    pub libretro: Option<ProfileLibretro>,
}

/// The console part of a profile, as values.
pub struct ProfileLibretroView {
    pub core: Seq<char>,
    pub fallback_core: Option<Seq<char>>,
    pub bios: Seq<Seq<char>>,
    pub extensions: Seq<Seq<char>>,
}

/// A profile as values: every field, nested parts flattened.
pub struct ProfileView {
    pub id: Seq<char>,
    pub name: Seq<char>,
    pub epoch: u32,
    pub category: Seq<char>,
    pub os_family: Seq<char>,
    pub os_versions: Seq<Seq<char>>,
    pub os_hint: Seq<char>,
    pub engine: Engine,
    pub arch: Arch,
    pub machine_type: Seq<char>,
    pub cpu_model: Seq<char>,
    pub cores: u32,
    pub clock_percent: u32,
    pub memory_mb: u32,
    pub firmware: Firmware,
    pub tpm: bool,
    pub graphics: Seq<char>,
    pub audio: Seq<Seq<char>>,
    pub nic: Seq<char>,
    pub storage_bus: Seq<char>,
    pub floppy: bool,
    pub input: Seq<char>,
    pub network_mode: NetworkMode,
    /// Port forwards as (protocol, host port, guest port).
    pub forwards: Seq<(Seq<char>, u16, u16)>,
    pub proxy: bool,
    pub isolation: Isolation,
    pub display_kind: Seq<char>,
    pub gl: bool,
    pub hidpi: bool,
    pub fullscreen: bool,
    pub tier: Seq<char>,
    pub beta: bool,
    pub notes: Seq<char>,
    pub default_disk_gb: u32,
    pub needs_rom: bool,
    pub libretro: Option<ProfileLibretroView>,
}

impl View for Profile {
    type V = ProfileView;

    open spec fn view(&self) -> ProfileView {
        ProfileView {
            id: self.id@,
            name: self.name@,
            epoch: self.epoch,
            category: self.category@,
            os_family: self.os.family@,
            os_versions: views(self.os.versions@),
            os_hint: self.os.hint@,
            engine: self.engine,
            arch: self.arch,
            machine_type: self.machine_type@,
            cpu_model: self.cpu.model@,
            cores: self.cpu.cores,
            clock_percent: self.cpu.clock_percent,
            memory_mb: self.memory_mb,
            firmware: self.firmware,
            tpm: self.tpm,
            graphics: self.devices.graphics@,
            audio: views(self.devices.audio@),
            nic: self.devices.nic@,
            storage_bus: self.devices.storage_bus@,
            floppy: self.devices.floppy,
            input: self.devices.input@,
            network_mode: self.network.mode,
            forwards: self.network.forwards@.map_values(|f: PortForward| (f.proto@, f.host_port, f.guest_port)),
            proxy: self.network.proxy,
            isolation: self.isolation,
            display_kind: self.display.kind@,
            gl: self.display.gl,
            hidpi: self.display.hidpi,
            fullscreen: self.display.fullscreen,
            tier: self.tier@,
            beta: self.beta,
            notes: self.notes@,
            default_disk_gb: self.default_disk_gb,
            needs_rom: self.needs_rom,
            libretro: match self.libretro {
                Some(l) => Some(ProfileLibretroView {
                    core: l.core@,
                    fallback_core: match l.fallback_core {
                        Some(f) => Some(f@),
                        None => None,
                    },
                    bios: views(l.bios@),
                    extensions: views(l.extensions@),
                }),
                None => None,
            },
        }
    }
}

/// The console configuration a machine takes over from its profile (slot 0).
pub open spec fn libretro_from(l: Option<ProfileLibretro>, c: Option<LibretroConfig>) -> bool {
    match (l, c) {
        (None, None) => true,
        (Some(l), Some(c)) => c.core == l.core && c.fallback_core == l.fallback_core && c.bios@ == l.bios@
            && c.state_slot == 0,
        _ => false,
    }
}

fn clone_opt_string(o: &Option<String>) -> (r: Option<String>)
    ensures
        r == *o,
{
    match o {
        Some(s) => Some(s.clone()),
        None => None,
    }
}

impl Profile {
    /// New machine from the profile — ids, time stamps and disks are the caller's.
    pub fn instantiate(&self, id: &str, name: &str, now: &str) -> (m: Machine)
        ensures
            m.id@ == id@,
            m.name@ == name@,
            m.profile_id == self.id,
            m.category == self.category,
            m.engine == self.engine,
            m.arch == self.arch,
            m.machine_type == self.machine_type,
            m.cpu == self.cpu,
            m.memory_mb == self.memory_mb,
            m.firmware == self.firmware,
            m.tpm == self.tpm,
            m.disks@.len() == 0,
            m.media@.len() == 0,
            m.network.mode == self.network.mode,
            m.network.forwards@ == self.network.forwards@,
            m.network.proxy == self.network.proxy,
            m.display == self.display,
            m.devices.graphics == self.devices.graphics,
            m.devices.audio@ == self.devices.audio@,
            m.devices.nic == self.devices.nic,
            m.devices.storage_bus == self.devices.storage_bus,
            m.devices.floppy == self.devices.floppy,
            m.devices.input == self.devices.input,
            m.usb@.len() == 0,
            m.shared_folders@.len() == 0,
            m.isolation == self.isolation,
            libretro_from(self.libretro, m.libretro),
            m.boot@ == "auto"@,
            m.extra_args@.len() == 0,
            m.notes@ == Seq::<char>::empty(),
            m.created_at@ == now@,
            m.updated_at@ == now@,
    {
        let libretro = match &self.libretro {
            Some(l) => Some(LibretroConfig {
                core: l.core.clone(),
                fallback_core: clone_opt_string(&l.fallback_core),
                bios: clone_strings(&l.bios),
                state_slot: 0,
            }),
            None => None,
        };
        Machine {
            id: String::from_str(id),
            name: String::from_str(name),
            profile_id: self.id.clone(),
            category: self.category.clone(),
            engine: self.engine,
            arch: self.arch,
            machine_type: self.machine_type.clone(),
            cpu: self.cpu.clone(),
            memory_mb: self.memory_mb,
            firmware: self.firmware,
            tpm: self.tpm,
            disks: Vec::new(),
            media: Vec::new(),
            network: self.network.clone(),
            display: self.display.clone(),
            devices: self.devices.clone(),
            usb: Vec::new(),
            shared_folders: Vec::new(),
            isolation: self.isolation,
            libretro,
            boot: String::from_str("auto"),
            extra_args: Vec::new(),
            notes: String::new(),
            created_at: String::from_str(now),
            updated_at: String::from_str(now),
        }
    }
}

/// Index of the first profile from `i` on whose id is `id`.
pub open spec fn find_id(all: Seq<Profile>, id: Seq<char>, i: int) -> Option<int>
    decreases all.len() - i,
{
    if i < 0 || i >= all.len() {
        None
    } else if all[i].id@ == id {
        Some(i)
    } else {
        find_id(all, id, i + 1)
    }
}

/// A user profile laid over a list: it replaces the profile with its id, or joins the
/// end; one without an id is ignored.
pub open spec fn overlay(all: Seq<Profile>, p: Profile) -> Seq<Profile> {
    if p.id@.len() == 0 {
        all
    } else {
        match find_id(all, p.id@, 0) {
            Some(i) => all.update(i, p),
            None => all.push(p),
        }
    }
}

/// User profiles laid over a list one after the other.
pub open spec fn overlay_all(all: Seq<Profile>, users: Seq<Profile>) -> Seq<Profile>
    decreases users.len(),
{
    if users.len() == 0 {
        all
    } else {
        overlay_all(overlay(all, users[0]), users.drop_first())
    }
}

/// No two profiles share an id.
pub open spec fn ids_unique(all: Seq<Profile>) -> bool {
    forall|i: int, j: int| 0 <= i < j < all.len() ==> all[i].id@ != all[j].id@
}

/// Some profile of the list has the id.
pub open spec fn has_id(all: Seq<Profile>, id: Seq<char>) -> bool {
    exists|k: int| 0 <= k < all.len() && #[trigger] all[k].id@ == id
}

proof fn lemma_find_id(all: Seq<Profile>, id: Seq<char>, i: int)
    requires
        0 <= i,
    ensures
        match find_id(all, id, i) {
            Some(k) => i <= k < all.len() && all[k].id@ == id && forall|j: int| i <= j < k ==> all[j].id@ != id,
            None => forall|j: int| i <= j < all.len() ==> all[j].id@ != id,
        },
    decreases all.len() - i,
{
    if i < all.len() && all[i].id@ != id {
        lemma_find_id(all, id, i + 1);
    }
}

/// Laying a profile over a list keeps ids unique, puts the profile in (when it has an
/// id), and keeps every other profile whose id differs.
pub proof fn lemma_overlay(all: Seq<Profile>, p: Profile)
    requires
        ids_unique(all),
    ensures
        ids_unique(overlay(all, p)),
        p.id@.len() > 0 ==> overlay(all, p).contains(p),
        forall|x: Profile| all.contains(x) && x.id@ != p.id@ ==> overlay(all, p).contains(x),
        forall|y: Profile| overlay(all, p).contains(y) ==> (y == p && p.id@.len() > 0) || (all.contains(y) && (p.id@.len() > 0 ==> y.id@ != p.id@)),
        forall|id: Seq<char>| has_id(all, id) ==> has_id(overlay(all, p), id),
{
    lemma_find_id(all, p.id@, 0);
    let r = overlay(all, p);
    if p.id@.len() > 0 {
        match find_id(all, p.id@, 0) {
            Some(i) => {
                assert(r[i] == p);
                assert forall|x: Profile| all.contains(x) && x.id@ != p.id@ implies r.contains(x) by {
                    let k = choose|k: int| 0 <= k < all.len() && all[k] == x;
                    assert(k != i);
                    assert(r[k] == x);
                }
                assert forall|y: Profile| r.contains(y) implies (y == p && p.id@.len() > 0) || (all.contains(y) && y.id@ != p.id@) by {
                    let k = choose|k: int| 0 <= k < r.len() && r[k] == y;
                    if k != i {
                        assert(all[k] == y);
                        assert(all[k].id@ != all[i].id@);
                    }
                }
                assert forall|id: Seq<char>| has_id(all, id) implies has_id(r, id) by {
                    let k = choose|k: int| 0 <= k < all.len() && #[trigger] all[k].id@ == id;
                    assert(r[k].id@ == id);
                }
            },
            None => {
                assert(r[all.len() as int] == p);
                assert forall|x: Profile| all.contains(x) && x.id@ != p.id@ implies r.contains(x) by {
                    let k = choose|k: int| 0 <= k < all.len() && all[k] == x;
                    assert(r[k] == x);
                }
                assert forall|y: Profile| r.contains(y) implies (y == p && p.id@.len() > 0) || (all.contains(y) && y.id@ != p.id@) by {
                    let k = choose|k: int| 0 <= k < r.len() && r[k] == y;
                    if k < all.len() {
                        assert(all[k] == y);
                    }
                }
                assert forall|id: Seq<char>| has_id(all, id) implies has_id(r, id) by {
                    let k = choose|k: int| 0 <= k < all.len() && #[trigger] all[k].id@ == id;
                    assert(r[k].id@ == id);
                }
            },
        }
    }
}

/// Laying user profiles over a list with unique ids keeps the ids unique and loses no
/// id; every profile in the result is one of the user profiles or one of the list
/// whose id no user profile takes over.
pub proof fn lemma_overlay_all(all: Seq<Profile>, users: Seq<Profile>)
    requires
        ids_unique(all),
    ensures
        ids_unique(overlay_all(all, users)),
        forall|id: Seq<char>| has_id(all, id) ==> has_id(overlay_all(all, users), id),
        forall|y: Profile| overlay_all(all, users).contains(y) ==> users.contains(y)
            || (all.contains(y) && forall|k: int| 0 <= k < users.len() && (#[trigger] users[k]).id@.len() > 0 ==> users[k].id@ != y.id@),
    decreases users.len(),
{
    if users.len() > 0 {
        let p = users[0];
        let rest = users.drop_first();
        lemma_overlay(all, p);
        lemma_overlay_all(overlay(all, p), rest);
        let r = overlay_all(all, users);
        assert forall|y: Profile| r.contains(y) implies users.contains(y)
            || (all.contains(y) && forall|k: int| 0 <= k < users.len() && (#[trigger] users[k]).id@.len() > 0 ==> users[k].id@ != y.id@) by {
            if rest.contains(y) {
                let k = choose|k: int| 0 <= k < rest.len() && rest[k] == y;
                assert(users[k + 1] == y);
            } else {
                assert(overlay(all, p).contains(y));
                if y == p && p.id@.len() > 0 {
                    assert(users[0] == y);
                } else {
                    assert forall|k: int| 0 <= k < users.len() && (#[trigger] users[k]).id@.len() > 0 implies users[k].id@ != y.id@ by {
                        if k > 0 {
                            assert(users[k] == rest[k - 1]);
                        }
                    }
                }
            }
        }
    }
}

/// The last user profile with a given id is what the result holds for that id.
pub proof fn lemma_overlay_all_last(all: Seq<Profile>, users: Seq<Profile>, k: int)
    requires
        ids_unique(all),
        0 <= k < users.len(),
        users[k].id@.len() > 0,
        forall|j: int| k < j < users.len() ==> users[j].id@ != users[k].id@,
    ensures
        overlay_all(all, users).contains(users[k]),
    decreases users.len(),
{
    let p = users[0];
    let rest = users.drop_first();
    lemma_overlay(all, p);
    if k == 0 {
        lemma_overlay_all_keeps(overlay(all, p), rest, p);
    } else {
        assert(rest[k - 1] == users[k]);
        assert forall|j: int| k - 1 < j < rest.len() implies (#[trigger] rest[j]).id@ != rest[k - 1].id@ by {
            assert(rest[j] == users[j + 1]);
        }
        lemma_overlay_all_last(overlay(all, p), rest, k - 1);
    }
}

/// A profile whose id no later user profile takes stays in the result.
proof fn lemma_overlay_all_keeps(all: Seq<Profile>, users: Seq<Profile>, x: Profile)
    requires
        ids_unique(all),
        all.contains(x),
        forall|j: int| 0 <= j < users.len() ==> (#[trigger] users[j]).id@ != x.id@,
    ensures
        overlay_all(all, users).contains(x),
    decreases users.len(),
{
    if users.len() > 0 {
        let p = users[0];
        lemma_overlay(all, p);
        assert(p.id@ != x.id@);
        assert forall|j: int| 0 <= j < users.drop_first().len() implies (#[trigger] users.drop_first()[j]).id@ != x.id@ by {
            assert(users.drop_first()[j] == users[j + 1]);
        }
        lemma_overlay_all_keeps(overlay(all, p), users.drop_first(), x);
    }
}

/// Lays user profiles over a list of profiles: a user profile replaces the profile
/// with the same id, a new id joins the end, a profile without id is ignored.
pub fn merge_profiles(all: Vec<Profile>, user: Vec<Profile>) -> (r: Vec<Profile>)
    ensures
        r@ == overlay_all(all@, user@),
{
    let mut all = all;
    let mut user = user;
    let ghost goal = overlay_all(all@, user@);
    while user.len() > 0
        invariant
            overlay_all(all@, user@) == goal,
        decreases user@.len(),
    {
        let ghost before = all@;
        let ghost us = user@;
        let p = user.remove(0);
        assert(user@ =~= us.drop_first());
        if p.id.as_str().unicode_len() > 0 {
            let mut i: usize = 0;
            while i < all.len() && !str_eq(all[i].id.as_str(), p.id.as_str())
                invariant
                    all@ == before,
                    i <= all@.len(),
                    find_id(all@, p.id@, 0) == find_id(all@, p.id@, i as int),
                decreases all@.len() - i,
            {
                i = i + 1;
            }
            let found = i < all.len();
            if found {
                assert(find_id(before, p.id@, 0) == Some(i as int));
                all.remove(i);
                all.insert(i, p);
                assert(all@ =~= before.update(i as int, us[0]));
            } else {
                assert(find_id(before, p.id@, 0) is None);
                all.push(p);
            }
        }
    }
    all
}

} // verus!
