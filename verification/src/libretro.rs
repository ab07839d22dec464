//! Consoles through RetroArch + libretro cores: command line, per-machine
//! configuration, and the commands of the network command interface (UDP).
pub mod cmd;

use vstd::prelude::*;
use crate::model::{Machine, MediaKind, MediaRef, LibretroConfig};
use crate::paths::{join_path, resolve};
use crate::text::{push_str, push_dec, dec, dec_string, str_eq, is_unicode_whitespace};
use crate::detect::{views, ws_end, word_end, lemma_ws_end, lemma_word_end};
use crate::probe::answered;

verus! {

#[derive(Debug)]
pub struct LibretroContext {
    pub machine_dir: String,
    /// Folder with the cores (`<name>_libretro.<dylib|so|dll>`).
    pub cores_dir: String,
    /// System/BIOS folder.
    pub system_dir: String,
    /// UDP port for commands (unique per machine).
    pub cmd_port: u16,
    /// `dylib` | `so` | `dll`
    pub core_ext: String,
}

impl Default for LibretroContext {
    fn default() -> (r: Self)
        ensures
            r.machine_dir@ == Seq::<char>::empty(),
            r.cores_dir@ == Seq::<char>::empty(),
            r.system_dir@ == Seq::<char>::empty(),
            r.cmd_port == 0,
            r.core_ext@ == Seq::<char>::empty(),
    {
        LibretroContext {
            machine_dir: String::new(),
            cores_dir: String::new(),
            system_dir: String::new(),
            cmd_port: 0,
            core_ext: String::new(),
        }
    }
}

/// File name of a core on this platform.
pub open spec fn spec_core_filename(core: Seq<char>, ext: Seq<char>) -> Seq<char> {
    core + "_libretro."@ + ext
}

pub fn core_filename(core: &str, ext: &str) -> (r: String)
    ensures
        r@ == spec_core_filename(core@, ext@),
{
    let mut s = String::from_str(core);
    push_str(&mut s, "_libretro.");
    push_str(&mut s, ext);
    s
}

/// Message when neither the core nor its fallback is installed.
pub open spec fn core_missing_message(core: Seq<char>, cores_dir: Seq<char>) -> Seq<char> {
    "Core „"@ + core + "“ nicht gefunden in "@ + cores_dir
        + " — in RetroArch unter „Online-Updater → Core herunterladen“ laden oder den Cores-Ordner in den Einstellungen anpassen."@
}

/// What `resolve_core` may answer: the preferred core when it exists, else the fallback
/// when that exists, else the message naming the missing core.
pub open spec fn spec_resolve_core<F: Fn(&str) -> bool>(f: F, cfg: LibretroConfig, ctx: LibretroContext, r: Result<Seq<char>, Seq<char>>) -> bool {
    let primary = join_path(ctx.cores_dir@, spec_core_filename(cfg.core@, ctx.core_ext@));
    if answered(f, primary, true) && r == Ok::<Seq<char>, Seq<char>>(primary) {
        true
    } else {
        answered(f, primary, false) && match cfg.fallback_core {
            Some(fb) => {
                let p = join_path(ctx.cores_dir@, spec_core_filename(fb@, ctx.core_ext@));
                (answered(f, p, true) && r == Ok::<Seq<char>, Seq<char>>(p))
                    || (answered(f, p, false) && r == Err::<Seq<char>, Seq<char>>(core_missing_message(cfg.core@, ctx.cores_dir@)))
            },
            None => r == Err::<Seq<char>, Seq<char>>(core_missing_message(cfg.core@, ctx.cores_dir@)),
        }
    }
}

/// The text of a result of strings.
pub open spec fn res_view(r: Result<String, String>) -> Result<Seq<char>, Seq<char>> {
    match r {
        Ok(s) => Ok(s@),
        Err(e) => Err(e@),
    }
}

/// Core file in the cores folder: the preferred core first, else the fallback.
pub fn resolve_core<F: Fn(&str) -> bool>(cfg: &LibretroConfig, ctx: &LibretroContext, file_exists: F) -> (r: Result<String, String>)
    requires
        forall|x: &str| call_requires(file_exists, (x,)),
    ensures
        spec_resolve_core(file_exists, *cfg, *ctx, res_view(r)),
{
    let primary = resolve(ctx.cores_dir.as_str(), core_filename(cfg.core.as_str(), ctx.core_ext.as_str()).as_str());
    let there = file_exists(primary.as_str());
    assert(answered(file_exists, primary@, there));
    if there {
        return Ok(primary);
    }
    if let Some(fb) = &cfg.fallback_core {
        let p = resolve(ctx.cores_dir.as_str(), core_filename(fb.as_str(), ctx.core_ext.as_str()).as_str());
        let found = file_exists(p.as_str());
        assert(answered(file_exists, p@, found));
        if found {
            return Ok(p);
        }
    }
    let mut msg = String::from_str("Core „");
    push_str(&mut msg, cfg.core.as_str());
    push_str(&mut msg, "“ nicht gefunden in ");
    push_str(&mut msg, ctx.cores_dir.as_str());
    push_str(
        &mut msg,
        " — in RetroArch unter „Online-Updater → Core herunterladen“ laden oder den Cores-Ordner in den Einstellungen anpassen.",
    );
    Err(msg)
}

/// The entries of `items` whose answer is no, in order.
pub open spec fn kept_where_no(items: Seq<Seq<char>>, answers: Seq<bool>) -> Seq<Seq<char>>
    decreases items.len(),
{
    if items.len() == 0 || answers.len() == 0 {
        Seq::empty()
    } else {
        let rest = kept_where_no(items.drop_last(), answers.drop_last());
        if answers.last() { rest } else { rest.push(items.last()) }
    }
}

/// Missing BIOS files (relative to the system folder), in the order of the configuration.
pub fn missing_bios<F: Fn(&str) -> bool>(cfg: &LibretroConfig, ctx: &LibretroContext, file_exists: F) -> (r: Vec<String>)
    requires
        forall|x: &str| call_requires(file_exists, (x,)),
    ensures
        exists|answers: Seq<bool>|
            answers.len() == cfg.bios@.len()
                && (forall|i: int| 0 <= i < answers.len() ==> answered(file_exists, join_path(ctx.system_dir@, cfg.bios@[i]@), #[trigger] answers[i]))
                && views(r@) == kept_where_no(views(cfg.bios@), answers),
{
    let mut out: Vec<String> = Vec::new();
    let ghost mut answers: Seq<bool> = Seq::empty();
    let mut i: usize = 0;
    while i < cfg.bios.len()
        invariant
            i <= cfg.bios@.len(),
            forall|x: &str| call_requires(file_exists, (x,)),
            answers.len() == i,
            forall|j: int| 0 <= j < i ==> answered(file_exists, join_path(ctx.system_dir@, cfg.bios@[j]@), #[trigger] answers[j]),
            views(out@) == kept_where_no(views(cfg.bios@).subrange(0, i as int), answers),
        decreases cfg.bios@.len() - i,
    {
        let b = cfg.bios[i].as_str();
        let p = resolve(ctx.system_dir.as_str(), b);
        let there = file_exists(p.as_str());
        assert(answered(file_exists, p@, there));
        let ghost prev = answers;
        proof {
            answers = answers.push(there);
        }
        if !there {
            out.push(cfg.bios[i].clone());
        }
        let ghost items = views(cfg.bios@).subrange(0, i + 1);
        assert(items.drop_last() =~= views(cfg.bios@).subrange(0, i as int));
        assert(answers.drop_last() =~= prev);
        i = i + 1;
        assert(views(out@) =~= kept_where_no(views(cfg.bios@).subrange(0, i as int), answers));
    }
    assert(views(cfg.bios@).subrange(0, cfg.bios@.len() as int) =~= views(cfg.bios@));
    out
}


/// `key = "value"` and a line break.
pub open spec fn cfg_line(key: Seq<char>, value: Seq<char>) -> Seq<char> {
    key + " = \""@ + value + "\"\n"@
}

/// Fixed settings of every console machine: save states and SRAM flat in the machine
/// folder, no history, no automatic states, a single QUIT ends, offline.
pub open spec fn fixed_config() -> Seq<char> {
    "sort_savefiles_enable = \"false\"\n"@
        + "sort_savestates_enable = \"false\"\n"@
        + "sort_savefiles_by_content_enable = \"false\"\n"@
        + "sort_savestates_by_content_enable = \"false\"\n"@
        + "history_list_enable = \"false\"\n"@
        + "savestate_auto_index = \"false\"\n"@
        + "savestate_auto_save = \"false\"\n"@
        + "savestate_auto_load = \"false\"\n"@
        + "pause_nonactive = \"false\"\n"@
        + "quit_press_twice = \"false\"\n"@
        + "config_save_on_exit = \"false\"\n"@
        + "netplay_enable = \"false\"\n"@
        + "cheevos_enable = \"false\"\n"@
        + "core_updater_auto_backup = \"false\"\n"@
}

/// Configuration overlay of a machine (`--appendconfig`).
pub open spec fn spec_machine_config(m: Machine, ctx: LibretroContext) -> Seq<char> {
    cfg_line("savefile_directory"@, join_path(ctx.machine_dir@, "saves"@))
        + cfg_line("savestate_directory"@, join_path(ctx.machine_dir@, "states"@))
        + cfg_line("screenshot_directory"@, join_path(ctx.machine_dir@, "screenshots"@))
        + cfg_line("system_directory"@, ctx.system_dir@)
        + "network_cmd_enable = \"true\"\n"@
        + cfg_line("network_cmd_port"@, dec(ctx.cmd_port as nat))
        + cfg_line("video_fullscreen"@, if m.display.fullscreen { "true"@ } else { "false"@ })
        + fixed_config()
}

fn push_cfg_line(s: &mut String, key: &str, value: &str)
    ensures
        final(s)@ == old(s)@ + cfg_line(key@, value@),
{
    push_str(s, key);
    push_str(s, " = \"");
    push_str(s, value);
    push_str(s, "\"\n");
    assert(final(s)@ =~= old(s)@ + cfg_line(key@, value@));
}

pub fn machine_config(m: &Machine, ctx: &LibretroContext) -> (r: String)
    ensures
        r@ == spec_machine_config(*m, *ctx),
{
    let dir = ctx.machine_dir.as_str();
    let mut s = String::new();
    push_cfg_line(&mut s, "savefile_directory", resolve(dir, "saves").as_str());
    push_cfg_line(&mut s, "savestate_directory", resolve(dir, "states").as_str());
    push_cfg_line(&mut s, "screenshot_directory", resolve(dir, "screenshots").as_str());
    push_cfg_line(&mut s, "system_directory", ctx.system_dir.as_str());
    let ghost a = s@;
    push_str(&mut s, "network_cmd_enable = \"true\"\n");
    let ghost b = s@;
    push_cfg_line(&mut s, "network_cmd_port", dec_string(ctx.cmd_port as u64).as_str());
    push_cfg_line(&mut s, "video_fullscreen", if m.display.fullscreen { "true" } else { "false" });
    let ghost c = s@;
    push_str(&mut s, "sort_savefiles_enable = \"false\"\n");
    push_str(&mut s, "sort_savestates_enable = \"false\"\n");
    push_str(&mut s, "sort_savefiles_by_content_enable = \"false\"\n");
    push_str(&mut s, "sort_savestates_by_content_enable = \"false\"\n");
    push_str(&mut s, "history_list_enable = \"false\"\n");
    push_str(&mut s, "savestate_auto_index = \"false\"\n");
    push_str(&mut s, "savestate_auto_save = \"false\"\n");
    push_str(&mut s, "savestate_auto_load = \"false\"\n");
    push_str(&mut s, "pause_nonactive = \"false\"\n");
    push_str(&mut s, "quit_press_twice = \"false\"\n");
    push_str(&mut s, "config_save_on_exit = \"false\"\n");
    push_str(&mut s, "netplay_enable = \"false\"\n");
    push_str(&mut s, "cheevos_enable = \"false\"\n");
    push_str(&mut s, "core_updater_auto_backup = \"false\"\n");
    assert(s@ =~= c + fixed_config());
    assert(s@ =~= spec_machine_config(*m, *ctx));
    s
}

/// Index of the first ROM medium, if any.
pub open spec fn first_rom(media: Seq<MediaRef>) -> Option<int> {
    if exists|i: int| 0 <= i < media.len() && media[i].kind == MediaKind::Rom {
        Some(choose|i: int| 0 <= i < media.len() && media[i].kind == MediaKind::Rom
            && forall|j: int| 0 <= j < i ==> media[j].kind != MediaKind::Rom)
    } else {
        None
    }
}

/// `retroarch` arguments (without the binary): core, configuration overlay, verbose,
/// optional fullscreen, then the game.
pub open spec fn spec_retroarch_argv(m: Machine, ctx: LibretroContext, core_path: Seq<char>, config_path: Seq<char>, rom: MediaRef) -> Seq<Seq<char>> {
    seq!["-L"@, core_path, "--appendconfig"@, config_path, "--verbose"@]
        + (if m.display.fullscreen { seq!["--fullscreen"@] } else { Seq::empty() })
        + seq![join_path(ctx.machine_dir@, rom.path@)]
}

pub fn retroarch_argv(m: &Machine, ctx: &LibretroContext, core_path: &str, config_path: &str) -> (r: Result<Vec<String>, String>)
    ensures
        m.libretro is None ==> (r matches Err(e) && e@ == "Keine Konsolen-Maschine"@),
        m.libretro is Some && first_rom(m.media@) is None ==> (r matches Err(e)
            && e@ == "Kein Spiel eingelegt — ROM oder Disc-Abbild unter „Medien“ wählen."@),
        m.libretro is Some && first_rom(m.media@) is Some ==> (r matches Ok(a)
            && views(a@) == spec_retroarch_argv(*m, *ctx, core_path@, config_path@, m.media@[first_rom(m.media@)->0])),
{
    if m.libretro.is_none() {
        return Err(String::from_str("Keine Konsolen-Maschine"));
    }
    let mut k: usize = 0;
    while k < m.media.len() && m.media[k].kind != MediaKind::Rom
        invariant
            k <= m.media@.len(),
            forall|j: int| 0 <= j < k ==> m.media@[j].kind != MediaKind::Rom,
        decreases m.media@.len() - k,
    {
        k = k + 1;
    }
    if k == m.media.len() {
        return Err(String::from_str("Kein Spiel eingelegt — ROM oder Disc-Abbild unter „Medien“ wählen."));
    }
    proof {
        let c = choose|i: int| 0 <= i < m.media@.len() && m.media@[i].kind == MediaKind::Rom
            && forall|j: int| 0 <= j < i ==> m.media@[j].kind != MediaKind::Rom;
        assert(c == k as int) by {
            if c < k {} else if c > k { assert(m.media@[k as int].kind == MediaKind::Rom); }
        }
    }
    let rom_path = resolve(ctx.machine_dir.as_str(), m.media[k].path.as_str());
    let mut a: Vec<String> = Vec::new();
    a.push(String::from_str("-L"));
    a.push(String::from_str(core_path));
    a.push(String::from_str("--appendconfig"));
    a.push(String::from_str(config_path));
    a.push(String::from_str("--verbose"));
    if m.display.fullscreen {
        a.push(String::from_str("--fullscreen"));
    }
    a.push(rom_path);
    assert(views(a@) =~= spec_retroarch_argv(*m, *ctx, core_path@, config_path@, m.media@[k as int]));
    Ok(a)
}

/// The commands that switch from one save-state slot to another: as many steps as the
/// slots differ, up or down.
pub open spec fn slot_steps(current: u32, target: u32) -> Seq<Seq<char>> {
    if target >= current {
        Seq::new((target - current) as nat, |i: int| "STATE_SLOT_PLUS"@)
    } else {
        Seq::new((current - target) as nat, |i: int| "STATE_SLOT_MINUS"@)
    }
}

/// Switching save-state slots: RetroArch only knows +/−, so as many steps as the slots
/// differ, upwards or downwards.
pub fn slot_commands(current: u32, target: u32) -> (r: Vec<&'static str>)
    ensures
        r@.map_values(|s: &str| s@) == slot_steps(current, target),
        target >= current ==> r@.len() == target - current && forall|i: int| 0 <= i < r@.len() ==> (#[trigger] r@[i])@ == "STATE_SLOT_PLUS"@,
        target < current ==> r@.len() == current - target && forall|i: int| 0 <= i < r@.len() ==> (#[trigger] r@[i])@ == "STATE_SLOT_MINUS"@,
{
    let (n, c) = if target >= current { (target - current, cmd::STATE_SLOT_PLUS) } else { (current - target, cmd::STATE_SLOT_MINUS) };
    let mut v: Vec<&'static str> = Vec::new();
    let mut i: u32 = 0;
    while i < n
        invariant
            i <= n,
            v@.len() == i,
            forall|j: int| 0 <= j < v@.len() ==> #[trigger] v@[j] == c,
        decreases n - i,
    {
        v.push(c);
        i = i + 1;
    }
    assert(v@.map_values(|s: &str| s@) =~= slot_steps(current, target));
    v
}

/// File name of the save state of a slot (RetroArch: `.state`, `.state1`, `.state2` …).
pub open spec fn spec_state_filename(rom_stem: Seq<char>, slot: u32) -> Seq<char> {
    if slot == 0 { rom_stem + ".state"@ } else { rom_stem + ".state"@ + dec(slot as nat) }
}

pub fn state_filename(rom_stem: &str, slot: u32) -> (r: String)
    ensures
        r@ == spec_state_filename(rom_stem@, slot),
{
    let mut s = String::from_str(rom_stem);
    push_str(&mut s, ".state");
    if slot != 0 {
        push_dec(&mut s, slot as u64);
    }
    s
}

/// The answer to `GET_STATUS`: its first word must be `GET_STATUS`, its second word
/// gives `paused`, `running` or `contentless`.
pub open spec fn spec_parse_status(reply: Seq<char>) -> Option<Seq<char>> {
    let a0 = ws_end(reply, 0);
    let b0 = word_end(reply, a0);
    let a1 = ws_end(reply, b0);
    let b1 = word_end(reply, a1);
    let w1 = reply.subrange(a0 as int, b0 as int);
    let w2 = reply.subrange(a1 as int, b1 as int);
    if a0 >= reply.len() || w1 != "GET_STATUS"@ || a1 >= reply.len() {
        None
    } else if w2 == "PAUSED"@ {
        Some("paused"@)
    } else if w2 == "PLAYING"@ {
        Some("running"@)
    } else if w2 == "CONTENTLESS"@ {
        Some("contentless"@)
    } else {
        None
    }
}

fn skip_ws(s: &str, i: usize) -> (r: usize)
    requires
        i <= s@.len(),
    ensures
        r as nat == ws_end(s@, i as nat),
{
    proof {
        lemma_ws_end(s@, i as nat);
    }
    let n = s.unicode_len();
    let mut a = i;
    while a < n && is_unicode_whitespace(s.get_char(a))
        invariant
            n == s@.len(),
            i <= a <= n,
            ws_end(s@, i as nat) == ws_end(s@, a as nat),
        decreases n - a,
    {
        a = a + 1;
    }
    a
}

fn skip_word(s: &str, i: usize) -> (r: usize)
    requires
        i <= s@.len(),
    ensures
        r as nat == word_end(s@, i as nat),
{
    proof {
        lemma_word_end(s@, i as nat);
    }
    let n = s.unicode_len();
    let mut b = i;
    while b < n && !is_unicode_whitespace(s.get_char(b))
        invariant
            n == s@.len(),
            i <= b <= n,
            word_end(s@, i as nat) == word_end(s@, b as nat),
        decreases n - b,
    {
        b = b + 1;
    }
    b
}

pub fn parse_status(reply: &str) -> (r: Option<&'static str>)
    ensures
        r is Some == spec_parse_status(reply@) is Some,
        r matches Some(x) ==> spec_parse_status(reply@) == Some(x@),
{
    let n = reply.unicode_len();
    let a0 = skip_ws(reply, 0);
    proof { lemma_ws_end(reply@, 0); }
    let b0 = skip_word(reply, a0);
    proof { lemma_word_end(reply@, a0 as nat); }
    let a1 = skip_ws(reply, b0);
    proof { lemma_ws_end(reply@, b0 as nat); }
    let b1 = skip_word(reply, a1);
    proof { lemma_word_end(reply@, a1 as nat); }
    if a0 >= n || a1 >= n {
        return None;
    }
    let w1 = reply.substring_char(a0, b0);
    if !str_eq(w1, "GET_STATUS") {
        return None;
    }
    let w2 = reply.substring_char(a1, b1);
    if str_eq(w2, "PAUSED") {
        Some("paused")
    } else if str_eq(w2, "PLAYING") {
        Some("running")
    } else if str_eq(w2, "CONTENTLESS") {
        Some("contentless")
    } else {
        None
    }
}

} // verus!
