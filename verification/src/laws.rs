//! Properties that span the library's functions: how machines start isolated, what a
//! drive holds after a change, how save-state slots are reached, how logs stay bounded
//! and what folder names look like.
use vstd::prelude::*;
use crate::model::{Machine, MediaRef, MediaKind, NetworkMode, Snapshot, first_media_index};
use crate::argv::{HostContext, spec_qemu_argv, icount_args, network_args, tail_args, netdev_value, board_args,
    cpu_args, size_args, firmware_args, tpm_args, scsi_controller_args, disks_args, media_args, empty_floppy_args,
    boot_args, graphics_args, input_args, audio_args, shares_args, display_args, control_args, shares_run, share_args,
    medium_args};
use crate::builtin::{well_formed_profile, retro_category};
use crate::profile::Profile;
use crate::machines::{media_after_attach, other_drive, spec_slugify, slug_text, slug_raw, slug_char, strip_end, ascii_lower};
use crate::session::{without_snapshot, not_snapshot, snapshot_index, max_slot, spec_next_slot, LOG_LINES};
use crate::text::{has_infix, lower_text, ascii_to_lower, spec_parse_u32, dec};
use crate::libretro::slot_steps;
use crate::model::Engine;
use crate::stopping::{StopPhase, StopAction, stop_next, stop_phase_ok, steps_left, poll_limit};
use crate::argv::spec_integrated_board;
use crate::cue::{CueView, cue_step};
use crate::paths::{join_path, extension_of};
use crate::text::{spec_is_whitespace, all_digits, digits_value, digit_char, digit_value, upper_text, ascii_to_upper,
    all_ascii};
use crate::qmp::{JsonV, field, as_str, spec_job_state, job_from};
use crate::detect::major_of;
use crate::machines::spec_media_kind_for;

verus! {

/// A machine whose host offers an accelerator is not throttled: its command line has
/// no `-icount` section.
pub proof fn law_accelerated_machines_are_not_throttled(m: Machine, ctx: HostContext)
    requires
        ctx.accel is Some,
    ensures
        icount_args(m, ctx) == Seq::<Seq<char>>::empty(),
{
}

/// The sections of a QEMU command line that precede the network section.
pub open spec fn before_network(m: Machine, ctx: HostContext) -> Seq<Seq<char>> {
    board_args(m, ctx) + cpu_args(m, ctx) + size_args(m) + icount_args(m, ctx)
        + firmware_args(m, ctx) + tpm_args(m, ctx)
        + scsi_controller_args(m) + disks_args(m.devices.storage_bus@, ctx.machine_dir@, m.disks@, m.disks@.len())
        + media_args(m, ctx) + empty_floppy_args(m) + boot_args(m)
        + graphics_args(m) + input_args(m) + audio_args(m, ctx)
}

/// The sections of a QEMU command line that follow the network section.
pub open spec fn after_network(m: Machine, ctx: HostContext) -> Seq<Seq<char>> {
    shares_args(m) + display_args(m, ctx) + control_args(m, ctx) + tail_args(m)
}

proof fn lemma_argv_around_network(m: Machine, ctx: HostContext)
    ensures
        spec_qemu_argv(m, ctx) == before_network(m, ctx) + network_args(m) + after_network(m, ctx),
{
    assert(spec_qemu_argv(m, ctx) =~= before_network(m, ctx) + network_args(m) + after_network(m, ctx));
}

/// A machine without network gets `-nic none`: QEMU adds no network card of its own.
pub proof fn law_offline_machines_have_no_nic(m: Machine, ctx: HostContext)
    requires
        m.network.mode == NetworkMode::Off,
    ensures
        exists|i: int| 0 <= i && i + 1 < spec_qemu_argv(m, ctx).len()
            && #[trigger] spec_qemu_argv(m, ctx)[i] == "-nic"@ && spec_qemu_argv(m, ctx)[i + 1] == "none"@,
{
    lemma_argv_around_network(m, ctx);
    let i = before_network(m, ctx).len() as int;
    let a = spec_qemu_argv(m, ctx);
    assert(a[i] == network_args(m)[0]);
    assert(a[i + 1] == network_args(m)[1]);
}

/// An isolated network is SLIRP with `restrict=on`: the guest reaches nothing but the host.
pub proof fn law_isolated_network_is_restricted(m: Machine)
    requires
        m.network.mode == NetworkMode::Isolated,
    ensures
        network_args(m)[0] == "-netdev"@,
        has_infix(network_args(m)[1], ",restrict=on"@),
{
    let v = netdev_value(m);
    let k = "user,id=net0"@.len() as int;
    assert(v.subrange(k, k + ",restrict=on"@.len()) =~= ",restrict=on"@);
}

/// A throw-away machine runs on a snapshot: its command line holds `-snapshot`, so
/// nothing it writes stays on its disks.
pub proof fn law_throwaway_runs_on_snapshot(m: Machine, ctx: HostContext)
    requires
        m.isolation.throwaway,
    ensures
        spec_qemu_argv(m, ctx).contains("-snapshot"@),
{
    lemma_argv_around_network(m, ctx);
    let a = spec_qemu_argv(m, ctx);
    let i = ((before_network(m, ctx) + network_args(m)).len() + shares_args(m).len() + display_args(m, ctx).len()
        + control_args(m, ctx).len() + 2) as int;
    assert(tail_args(m)[2] == "-snapshot"@);
    assert(a[i] == "-snapshot"@);
}

proof fn lemma_shares_run(m: Machine, n: nat, k: int)
    requires
        n <= m.shared_folders@.len(),
        0 <= k < n,
    ensures
        shares_run(m, n).len() == 4 * n,
        shares_run(m, n)[4 * k] == "-fsdev"@,
        shares_run(m, n)[4 * k + 1] == share_args(m, m.shared_folders@[k], k as nat)[1],
    decreases n,
{
    let prev = shares_run(m, (n - 1) as nat);
    if k < n - 1 {
        lemma_shares_run(m, (n - 1) as nat, k);
    } else if n > 1 {
        lemma_shares_run(m, (n - 1) as nat, 0);
    }
    if n == 1 {
        assert(prev.len() == 0);
    }
    assert(shares_run(m, n) == prev + share_args(m, m.shared_folders@[n - 1], (n - 1) as nat));
}

/// Where folders are to be shared read-only (the isolation of retro machines), every
/// shared folder is exported with `readonly=on`, whatever its own setting.
pub proof fn law_isolated_shares_are_read_only(m: Machine, ctx: HostContext, k: int)
    requires
        m.isolation.read_only_shares,
        m.devices.storage_bus@ == "virtio"@,
        0 <= k < m.shared_folders@.len(),
    ensures
        exists|i: int| 0 <= i && i + 1 < spec_qemu_argv(m, ctx).len()
            && #[trigger] spec_qemu_argv(m, ctx)[i] == "-fsdev"@
            && spec_qemu_argv(m, ctx)[i + 1] == "local,id=fs"@ + dec(k as nat) + ",path="@
                + m.shared_folders@[k].host_path@ + ",security_model=mapped-xattr"@ + ",readonly=on"@,
{
    lemma_argv_around_network(m, ctx);
    let n = m.shared_folders@.len();
    lemma_shares_run(m, n, k);
    let a = spec_qemu_argv(m, ctx);
    let i = (before_network(m, ctx) + network_args(m)).len() + 4 * k;
    assert(shares_args(m) == shares_run(m, n));
    assert(a[i] == shares_args(m)[4 * k]);
    assert(a[i + 1] == shares_args(m)[4 * k + 1]);
}

/// `lit` ends `s`, and `lit` ends in `p`: then `p` occurs in `s`.
proof fn lemma_tail_infix(s: Seq<char>, lit: Seq<char>, p: Seq<char>)
    requires
        lit.len() <= s.len(),
        s.subrange(s.len() - lit.len(), s.len() as int) == lit,
        p.len() <= lit.len(),
        lit.subrange(lit.len() - p.len(), lit.len() as int) == p,
    ensures
        has_infix(s, p),
{
    let i = s.len() - p.len();
    assert(s.subrange(i, i + p.len()) =~= p) by {
        assert forall|j: int| 0 <= j < p.len() implies s.subrange(i, i + p.len())[j] == p[j] by {
            assert(s.subrange(s.len() - lit.len(), s.len() as int)[lit.len() - p.len() + j] == s[i + j]);
            assert(lit.subrange(lit.len() - p.len(), lit.len() as int)[j] == lit[lit.len() - p.len() + j]);
        }
    }
}

/// Removable media never keep QEMU from saving snapshots: every CD, floppy and
/// physical drive is attached read-only, and so is the empty floppy drive.
pub proof fn law_removable_media_are_read_only(bus: Seq<char>, dir: Seq<char>, med: MediaRef, cd: nat, m: Machine)
    requires
        med.kind != MediaKind::Rom,
    ensures
        medium_args(bus, dir, med, cd).0[0] == "-drive"@,
        has_infix(medium_args(bus, dir, med, cd).0[1], "readonly=on"@),
        empty_floppy_args(m).len() > 0 ==> empty_floppy_args(m)[0] == "-drive"@
            && has_infix(empty_floppy_args(m)[1], "readonly=on"@),
{
    let v = medium_args(bus, dir, med, cd).0[1];
    reveal_strlit("readonly=on");
    reveal_strlit(",format=raw,readonly=on");
    reveal_strlit(",media=cdrom,readonly=on");
    let lit = if med.kind == MediaKind::Floppy { ",format=raw,readonly=on"@ } else { ",media=cdrom,readonly=on"@ };
    assert(v.subrange(v.len() - lit.len(), v.len() as int) =~= lit);
    assert(lit.subrange(lit.len() - 11, lit.len() as int) =~= "readonly=on"@);
    lemma_tail_infix(v, lit, "readonly=on"@);
    if empty_floppy_args(m).len() > 0 {
        let e = empty_floppy_args(m)[1];
        reveal_strlit("if=floppy,index=0,media=disk,format=raw,readonly=on,file.driver=null-co,file.read-zeroes=on,file.size=1474560");
        assert(e.subrange(40, 40 + "readonly=on"@.len() as int) =~= "readonly=on"@);
    }
}

/// Retro machines and consoles start isolated: a machine made from a built-in retro
/// profile (which hands on its network and isolation) has no network card and shares
/// folders read-only.
pub proof fn law_retro_machines_start_offline(p: Profile, m: Machine, ctx: HostContext)
    requires
        well_formed_profile(p),
        retro_category(p.category@),
        m.network.mode == p.network.mode,
        m.isolation == p.isolation,
    ensures
        network_args(m) == seq!["-nic"@, "none"@],
        m.isolation.read_only_shares,
{
}

/// The slot reached from `current` by RetroArch slot commands: each plus one up, each
/// minus one down.
pub open spec fn slot_after(current: int, cmds: Seq<Seq<char>>) -> int
    decreases cmds.len(),
{
    if cmds.len() == 0 {
        current
    } else {
        slot_after(current, cmds.drop_last()) + (if cmds.last() == "STATE_SLOT_PLUS"@ { 1int } else if cmds.last() == "STATE_SLOT_MINUS"@ { -1int } else { 0int })
    }
}

proof fn lemma_slot_after_uniform(current: int, n: nat, up: bool)
    ensures
        slot_after(current, Seq::new(n, |i: int| if up { "STATE_SLOT_PLUS"@ } else { "STATE_SLOT_MINUS"@ }))
            == if up { current + n } else { current - n },
    decreases n,
{
    reveal_strlit("STATE_SLOT_PLUS");
    reveal_strlit("STATE_SLOT_MINUS");
    assert("STATE_SLOT_PLUS"@.len() == 15 && "STATE_SLOT_MINUS"@.len() == 16);
    let s = Seq::new(n, |i: int| if up { "STATE_SLOT_PLUS"@ } else { "STATE_SLOT_MINUS"@ });
    if n > 0 {
        lemma_slot_after_uniform(current, (n - 1) as nat, up);
        assert(s.drop_last() =~= Seq::new((n - 1) as nat, |i: int| if up { "STATE_SLOT_PLUS"@ } else { "STATE_SLOT_MINUS"@ }));
    }
}

/// Sending the slot commands from one slot reaches the target slot.
pub proof fn law_slot_commands_reach_target(current: u32, target: u32)
    ensures
        slot_after(current as int, slot_steps(current, target)) == target,
{
    if target >= current {
        lemma_slot_after_uniform(current as int, (target - current) as nat, true);
        assert(slot_steps(current, target) =~= Seq::new((target - current) as nat, |i: int| if true { "STATE_SLOT_PLUS"@ } else { "STATE_SLOT_MINUS"@ }));
    } else {
        lemma_slot_after_uniform(current as int, (current - target) as nat, false);
        assert(slot_steps(current, target) =~= Seq::new((current - target) as nat, |i: int| if false { "STATE_SLOT_PLUS"@ } else { "STATE_SLOT_MINUS"@ }));
    }
}

/// After a medium is put into a drive, the drive holds exactly that medium: looking the
/// drive up finds it, and no other medium is in that drive.
pub proof fn law_attached_medium_fills_its_drive(media: Seq<MediaRef>, medium: MediaRef)
    ensures
        ({
            let after = media_after_attach(media, medium);
            &&& first_media_index(after, medium.kind, medium.slot) == Some(after.len() - 1)
            &&& after[after.len() - 1] == medium
            &&& forall|i: int| 0 <= i < after.len() - 1 ==> !(after[i].kind == medium.kind && after[i].slot == medium.slot)
        }),
{
    let keep = other_drive(medium);
    let kept = media.filter(keep);
    let after = kept.push(medium);
    assert forall|i: int| 0 <= i < after.len() - 1 implies !(after[i].kind == medium.kind && after[i].slot == medium.slot) by {
        assert(after[i] == kept[i]);
        media.lemma_filter_pred(keep, i);
    }
    assert(after[after.len() - 1] == medium);
    let j = choose|i: int|
        0 <= i < after.len() && after[i].kind == medium.kind && after[i].slot == medium.slot
            && forall|k: int| 0 <= k < i ==> !(after[k].kind == medium.kind && after[k].slot == medium.slot);
    assert(j == after.len() - 1);
}

/// Media in other drives stay when a medium is put into a drive.
pub proof fn law_attach_keeps_other_drives(media: Seq<MediaRef>, medium: MediaRef, x: MediaRef)
    requires
        media.contains(x),
        !(x.kind == medium.kind && x.slot == medium.slot),
    ensures
        media_after_attach(media, medium).contains(x),
{
    let keep = other_drive(medium);
    let k = choose|k: int| 0 <= k < media.len() && media[k] == x;
    media.lemma_filter_contains(keep, k);
    let kept = media.filter(keep);
    let j = choose|j: int| 0 <= j < kept.len() && kept[j] == x;
    assert(media_after_attach(media, medium)[j] == x);
}

/// A removed snapshot is not found any more, and every other one stays.
pub proof fn law_removed_snapshot_is_gone(snaps: Seq<Snapshot>, id: Seq<char>)
    ensures
        snapshot_index(without_snapshot(snaps, id), id, 0) is None,
        forall|s: Snapshot| snaps.contains(s) && s.id@ != id ==> without_snapshot(snaps, id).contains(s),
{
    let keep = not_snapshot(id);
    let r = snaps.filter(keep);
    assert forall|i: int| 0 <= i < r.len() implies r[i].id@ != id by {
        snaps.lemma_filter_pred(keep, i);
    }
    lemma_no_index(r, id, 0);
    assert forall|s: Snapshot| snaps.contains(s) && s.id@ != id implies r.contains(s) by {
        let k = choose|k: int| 0 <= k < snaps.len() && snaps[k] == s;
        snaps.lemma_filter_contains(keep, k);
    }
}

proof fn lemma_no_index(snaps: Seq<Snapshot>, id: Seq<char>, i: int)
    requires
        0 <= i,
        forall|k: int| 0 <= k < snaps.len() ==> snaps[k].id@ != id,
    ensures
        snapshot_index(snaps, id, i) is None,
    decreases snaps.len() - i,
{
    if i < snaps.len() {
        lemma_no_index(snaps, id, i + 1);
    }
}

proof fn lemma_max_slot(snaps: Seq<Snapshot>)
    ensures
        forall|k: int| 0 <= k < snaps.len() && spec_parse_u32(#[trigger] snaps[k].tag@) is Some ==>
            (max_slot(snaps) matches Some(m) && spec_parse_u32(snaps[k].tag@)->0 <= m),
    decreases snaps.len(),
{
    if snaps.len() > 0 {
        lemma_max_slot(snaps.drop_last());
        assert forall|k: int| 0 <= k < snaps.len() && spec_parse_u32(#[trigger] snaps[k].tag@) is Some implies
            (max_slot(snaps) matches Some(m) && spec_parse_u32(snaps[k].tag@)->0 <= m) by {
            if k < snaps.len() - 1 {
                assert(snaps.drop_last()[k] == snaps[k]);
            }
        }
    }
}

/// A new save state goes into a slot no earlier state uses (unless the slots ran out at
/// `u32::MAX`): it lies above every numbered slot.
pub proof fn law_next_slot_is_unused(snaps: Seq<Snapshot>)
    requires
        max_slot(snaps) matches Some(m) ==> m < u32::MAX,
    ensures
        forall|k: int| 0 <= k < snaps.len() && spec_parse_u32(#[trigger] snaps[k].tag@) is Some ==>
            spec_parse_u32(snaps[k].tag@)->0 < spec_next_slot(snaps),
{
    lemma_max_slot(snaps);
}

/// A log that is within its bound stays within it when a line is added, and ends with
/// that line.
pub proof fn law_log_stays_bounded(log: Seq<String>, line: String)
    requires
        log.len() <= LOG_LINES,
    ensures
        ({
            let after = (if log.len() >= LOG_LINES { log.drop_first() } else { log }).push(line);
            after.len() <= LOG_LINES && after.last() == line
        }),
{
}

/// The characters a folder name is made of: small ASCII letters, digits and `-`.
pub open spec fn slug_chars(s: Seq<char>) -> bool {
    forall|i: int| 0 <= i < s.len() ==> ('a' <= #[trigger] s[i] && s[i] <= 'z') || ('0' <= s[i] && s[i] <= '9') || s[i] == '-'
}

/// No two dashes in a row and none at the start.
pub open spec fn dashes_single(s: Seq<char>) -> bool {
    &&& (s.len() > 0 ==> s[0] != '-')
    &&& forall|i: int| 0 <= i < s.len() - 1 ==> !(#[trigger] s[i] == '-' && s[i + 1] == '-')
}

proof fn lemma_slug_raw(s: Seq<char>)
    ensures
        slug_chars(slug_raw(s).0),
        dashes_single(slug_raw(s).0),
        slug_raw(s).1 <==> (slug_raw(s).0.len() == 0 || slug_raw(s).0.last() == '-'),
    decreases s.len(),
{
    if s.len() > 0 {
        lemma_slug_raw(s.drop_last());
        let (o, d) = slug_raw(s.drop_last());
        let c = s.last();
        match slug_char(c) {
            Some(ch) => {
                assert(('a' <= ch && ch <= 'z') || ('0' <= ch && ch <= '9')) by {
                    if 'A' <= c && c <= 'Z' {
                        assert(65 <= (c as u8) <= 90);
                        let v = ((c as u8) + 32) as u8;
                        assert(97 <= v <= 122);
                        assert(ascii_lower(c) == v as char);
                        assert('a' <= ascii_lower(c) && ascii_lower(c) <= 'z');
                    }
                }
                let o2 = o.push(ch);
                assert forall|i: int| 0 <= i < o2.len() - 1 implies !(#[trigger] o2[i] == '-' && o2[i + 1] == '-') by {
                    if i < o.len() - 1 {
                        assert(o2[i] == o[i] && o2[i + 1] == o[i + 1]);
                    }
                }
            },
            None => {
                if !d {
                    let o2 = o.push('-');
                    assert forall|i: int| 0 <= i < o2.len() - 1 implies !(#[trigger] o2[i] == '-' && o2[i + 1] == '-') by {
                        if i < o.len() - 1 {
                            assert(o2[i] == o[i] && o2[i + 1] == o[i + 1]);
                        }
                    }
                }
            },
        }
    }
}

proof fn lemma_strip_end(s: Seq<char>, c: char)
    ensures
        strip_end(s, c).len() <= s.len(),
        strip_end(s, c) == s.subrange(0, strip_end(s, c).len() as int),
        strip_end(s, c).len() > 0 ==> strip_end(s, c).last() != c,
    decreases s.len(),
{
    if s.len() > 0 && s.last() == c {
        lemma_strip_end(s.drop_last(), c);
        assert(s.drop_last().subrange(0, strip_end(s, c).len() as int) =~= s.subrange(0, strip_end(s, c).len() as int));
    } else {
        assert(s.subrange(0, s.len() as int) =~= s);
    }
}

/// A folder name made from a machine name is never empty, consists of small ASCII
/// letters, digits and single dashes, and neither starts nor ends with a dash.
pub proof fn law_slug_shape(name: Seq<char>)
    ensures
        spec_slugify(name).len() > 0,
        slug_chars(spec_slugify(name)),
        dashes_single(spec_slugify(name)),
        spec_slugify(name).last() != '-',
{
    let raw = slug_raw(lower_text(name)).0;
    lemma_slug_raw(lower_text(name));
    lemma_strip_end(raw, '-');
    let t = strip_end(raw, '-');
    if t.len() == 0 {
        reveal_strlit("maschine");
        assert("maschine"@ =~= seq!['m', 'a', 's', 'c', 'h', 'i', 'n', 'e']);
    } else {
        assert forall|i: int| 0 <= i < t.len() implies ('a' <= #[trigger] t[i] && t[i] <= 'z') || ('0' <= t[i] && t[i] <= '9') || t[i] == '-' by {
            assert(t[i] == raw[i]);
        }
        assert forall|i: int| 0 <= i < t.len() - 1 implies !(#[trigger] t[i] == '-' && t[i + 1] == '-') by {
            assert(t[i] == raw[i] && t[i + 1] == raw[i + 1]);
        }
        assert(t[0] == raw[0]);
    }
}

/// A slug is its own folder name: after lower-casing (which leaves it as it is) the
/// mapping keeps every letter, digit and single dash, and nothing is stripped.
proof fn lemma_slug_text_fixed(t: Seq<char>)
    requires
        t.len() > 0,
        slug_chars(t),
        dashes_single(t),
        t.last() != '-',
    ensures
        slug_text(t) == t,
{
    lemma_slug_raw_of_slug(t);
    assert(slug_raw(t).0 =~= t);
}

proof fn lemma_slug_raw_of_slug(t: Seq<char>)
    requires
        slug_chars(t),
        dashes_single(t),
    ensures
        slug_raw(t) == (t, t.len() == 0 || t.last() == '-'),
    decreases t.len(),
{
    if t.len() > 0 {
        let q = t.drop_last();
        assert forall|i: int| 0 <= i < q.len() implies ('a' <= #[trigger] q[i] && q[i] <= 'z') || ('0' <= q[i] && q[i] <= '9') || q[i] == '-' by {
            assert(q[i] == t[i]);
        }
        assert forall|i: int| 0 <= i < q.len() - 1 implies !(#[trigger] q[i] == '-' && q[i + 1] == '-') by {
            assert(q[i] == t[i] && q[i + 1] == t[i + 1]);
        }
        if q.len() > 0 {
            assert(q[0] == t[0]);
        }
        lemma_slug_raw_of_slug(q);
        let c = t.last();
        assert(('a' <= t[t.len() - 1] && t[t.len() - 1] <= 'z') || ('0' <= t[t.len() - 1] && t[t.len() - 1] <= '9') || t[t.len() - 1] == '-');
        if c == '-' {
            assert(q.len() > 0);
            assert(!(t[t.len() - 2] == '-' && t[t.len() - 1] == '-'));
            assert(q.last() == t[t.len() - 2]);
        }
        assert(q.push(c) =~= t);
    }
}

/// Making a folder name of a folder name changes nothing.
pub proof fn law_slug_idempotent(name: Seq<char>)
    ensures
        spec_slugify(spec_slugify(name)) == spec_slugify(name),
{
    law_slug_shape(name);
    let t = spec_slugify(name);
    assert forall|i: int| 0 <= i < t.len() implies (#[trigger] t[i] as u32) < 128 by {
        assert(('a' <= t[i] && t[i] <= 'z') || ('0' <= t[i] && t[i] <= '9') || t[i] == '-');
    }
    assert(t.map_values(|c: char| ascii_to_lower(c)) =~= t) by {
        assert forall|i: int| 0 <= i < t.len() implies ascii_to_lower(t[i]) == t[i] by {
            assert(('a' <= t[i] && t[i] <= 'z') || ('0' <= t[i] && t[i] <= '9') || t[i] == '-');
        }
    }
    assert(lower_text(t) == t);
    lemma_slug_text_fixed(t);
}

proof fn lemma_slug_raw_all_dashes(s: Seq<char>)
    requires
        forall|i: int| 0 <= i < s.len() ==> slug_char(#[trigger] s[i]) is None,
    ensures
        forall|i: int| 0 <= i < slug_raw(s).0.len() ==> #[trigger] slug_raw(s).0[i] == '-',
    decreases s.len(),
{
    if s.len() > 0 {
        let q = s.drop_last();
        assert forall|i: int| 0 <= i < q.len() implies slug_char(#[trigger] q[i]) is None by {
            assert(q[i] == s[i]);
        }
        lemma_slug_raw_all_dashes(q);
        assert(slug_char(s[s.len() - 1]) is None);
        assert(s.last() == s[s.len() - 1]);
        let (o, d) = slug_raw(q);
        assert(slug_raw(s) == (if !d { (o.push('-'), true) } else { (o, d) }));
        assert forall|i: int| 0 <= i < slug_raw(s).0.len() implies #[trigger] slug_raw(s).0[i] == '-' by {
            if i < o.len() {
                assert(o[i] == '-');
            }
        }
    }
}

/// A name with nothing that maps to a letter or digit once lower-cased (no ASCII letter
/// or digit, no ä ö ü ß) gets the folder name `maschine`.
pub proof fn law_slug_fallback(name: Seq<char>)
    ensures
        (forall|i: int| 0 <= i < lower_text(name).len() ==> slug_char(#[trigger] lower_text(name)[i]) is None)
            ==> spec_slugify(name) == "maschine"@,
{
    let s = lower_text(name);
    if forall|i: int| 0 <= i < s.len() ==> slug_char(#[trigger] s[i]) is None {
        lemma_slug_raw_all_dashes(s);
        lemma_slug_raw(s);
        let raw = slug_raw(s).0;
        if raw.len() > 0 {
            assert(raw[0] == '-');
        }
    }
}

/// Every stop ends: each step from a phase that is not done leads to a valid phase with
/// fewer steps left, so a stop takes at most `2 * poll_limit + 7` steps.
pub proof fn law_stop_always_ends(engine: Engine, phase: StopPhase, outcome: bool)
    requires
        stop_phase_ok(engine, phase),
        phase != StopPhase::Done,
    ensures
        stop_phase_ok(engine, stop_next(engine, phase, outcome).0),
        steps_left(engine, stop_next(engine, phase, outcome).0) < steps_left(engine, phase),
{
}

/// A forced stop asks nothing and waits for nothing: QEMU gets `quit`, 300 ms, the
/// kill; RetroArch is killed at once; whatever the actions report.
pub proof fn law_forced_stop_kills(engine: Engine, o1: bool, o2: bool, o3: bool)
    ensures
        ({
            let (p1, a1) = stop_next(engine, StopPhase::Start { force: true }, o1);
            let (p2, a2) = stop_next(engine, p1, o2);
            let (p3, a3) = stop_next(engine, p2, o3);
            match engine {
                Engine::Qemu => a1 == StopAction::SendQuit && a2 == StopAction::Sleep(300) && a3 == StopAction::Kill
                    && stop_next(engine, p3, o1) == (StopPhase::Done, StopAction::Finish),
                Engine::Libretro => a1 == StopAction::Kill && (p2, a2) == (StopPhase::Done, StopAction::Finish),
            }
        }),
{
}

/// A gentle request that could not be delivered ends in the kill.
pub proof fn law_undelivered_request_kills(engine: Engine)
    ensures
        stop_next(engine, StopPhase::Requested, false) == (StopPhase::Killing, StopAction::Kill),
{
}

/// A process seen to have ended is not killed: the stop is done.
pub proof fn law_ended_process_is_not_killed(engine: Engine, n: u32)
    ensures
        stop_next(engine, StopPhase::Polling(n), true) == (StopPhase::Done, StopAction::Finish),
{
}

/// The actions of `k` steps of a stop whose request is delivered and whose process
/// never ends on its own.
pub open spec fn run_silent(engine: Engine, phase: StopPhase, k: nat) -> Seq<StopAction>
    decreases k,
{
    if k == 0 {
        Seq::empty()
    } else {
        let (next, a) = stop_next(engine, phase, phase == StopPhase::Requested);
        seq![a] + run_silent(engine, next, (k - 1) as nat)
    }
}

/// `k` rounds of a quarter-second sleep followed by a poll.
pub open spec fn rounds(k: nat) -> Seq<StopAction>
    decreases k,
{
    if k == 0 { Seq::empty() } else { seq![StopAction::Sleep(250), StopAction::Poll] + rounds((k - 1) as nat) }
}

/// The gentle request of an engine.
pub open spec fn stop_request(engine: Engine) -> StopAction {
    match engine {
        Engine::Qemu => StopAction::SendPowerdown,
        Engine::Libretro => StopAction::SendRetroQuit,
    }
}

/// What follows the last poll that still saw the process running.
pub open spec fn stop_escalation(engine: Engine) -> Seq<StopAction> {
    match engine {
        Engine::Qemu => seq![StopAction::SendQuit, StopAction::Sleep(500), StopAction::Kill, StopAction::Finish],
        Engine::Libretro => seq![StopAction::Kill, StopAction::Finish],
    }
}

proof fn lemma_polls(engine: Engine, n: u32, t: nat)
    requires
        n < poll_limit(engine),
    ensures
        run_silent(engine, StopPhase::Waiting(n), (2 * (poll_limit(engine) - n) - 1 + t) as nat)
            == seq![StopAction::Poll] + rounds((poll_limit(engine) - 1 - n) as nat)
                + run_silent(engine, StopPhase::Polling((poll_limit(engine) - 1) as u32), t),
    decreases poll_limit(engine) - n,
{
    let l = poll_limit(engine);
    let k = (2 * (l - n) - 1 + t) as nat;
    assert(run_silent(engine, StopPhase::Waiting(n), k)
        == seq![StopAction::Poll] + run_silent(engine, StopPhase::Polling(n), (k - 1) as nat));
    if n + 1 < l {
        lemma_polls(engine, (n + 1) as u32, t);
        assert(run_silent(engine, StopPhase::Polling(n), (k - 1) as nat)
            == seq![StopAction::Sleep(250)] + run_silent(engine, StopPhase::Waiting((n + 1) as u32), (k - 2) as nat));
        assert(rounds((l - 1 - n) as nat) == seq![StopAction::Sleep(250), StopAction::Poll] + rounds((l - 2 - n) as nat));
        assert(seq![StopAction::Poll] + rounds((l - 1 - n) as nat) + run_silent(engine, StopPhase::Polling((l - 1) as u32), t)
            =~= seq![StopAction::Poll] + (seq![StopAction::Sleep(250)] + (seq![StopAction::Poll] + rounds((l - 2 - n) as nat)
                + run_silent(engine, StopPhase::Polling((l - 1) as u32), t))));
    } else {
        assert(rounds(0) =~= Seq::<StopAction>::empty());
        assert(seq![StopAction::Poll] + rounds(0) =~= seq![StopAction::Poll]);
    }
}

/// A gentle stop of a process that never ends on its own: the request, then
/// `poll_limit` rounds of a quarter-second sleep and a poll (ten seconds for QEMU, five
/// for RetroArch), then for QEMU `quit`, half a second and the kill, for RetroArch the
/// kill at once.
pub proof fn law_gentle_stop_escalates(engine: Engine)
    ensures
        run_silent(engine, StopPhase::Start { force: false },
            (2 * poll_limit(engine) + 1 + stop_escalation(engine).len()) as nat)
            == seq![stop_request(engine)] + rounds(poll_limit(engine) as nat) + stop_escalation(engine),
{
    let l = poll_limit(engine);
    let e = stop_escalation(engine).len();
    let total = (2 * l + 1 + e) as nat;
    lemma_polls(engine, 0, e);
    assert(run_silent(engine, StopPhase::Start { force: false }, total)
        == seq![stop_request(engine)] + run_silent(engine, StopPhase::Requested, (total - 1) as nat));
    assert(run_silent(engine, StopPhase::Requested, (total - 1) as nat)
        == seq![StopAction::Sleep(250)] + run_silent(engine, StopPhase::Waiting(0), (total - 2) as nat));
    assert(rounds(l as nat) == seq![StopAction::Sleep(250), StopAction::Poll] + rounds((l - 1) as nat));
    let last = StopPhase::Polling((l - 1) as u32);
    match engine {
        Engine::Qemu => {
            assert(run_silent(engine, last, 4) =~= stop_escalation(engine)) by {
                reveal_with_fuel(run_silent, 5);
            }
        },
        Engine::Libretro => {
            assert(run_silent(engine, last, 2) =~= stop_escalation(engine)) by {
                reveal_with_fuel(run_silent, 3);
            }
        },
    }
    assert(seq![stop_request(engine)] + (seq![StopAction::Sleep(250)] + (seq![StopAction::Poll] + rounds((l - 1) as nat)
        + run_silent(engine, last, e as nat)))
        =~= seq![stop_request(engine)] + rounds(l as nat) + stop_escalation(engine));
}

/// On a classic board (IDE or SCSI disks, not a board with everything built in) the
/// machine boots from CD first when a CD is inserted, so an installer starts; else from
/// the hard disk.
pub proof fn law_classic_boards_boot_an_inserted_cd(m: Machine, ctx: HostContext)
    requires
        m.devices.storage_bus@ == "ide"@ || m.devices.storage_bus@ == "scsi"@,
        !spec_integrated_board(m.machine_type@),
    ensures
        (exists|k: int| 0 <= k < m.media@.len() && m.media@[k].kind == MediaKind::Cdrom) ==> exists|i: int|
            0 <= i && i + 1 < spec_qemu_argv(m, ctx).len() && #[trigger] spec_qemu_argv(m, ctx)[i] == "-boot"@
                && spec_qemu_argv(m, ctx)[i + 1] == "order=dc,menu=on"@,
        (forall|k: int| 0 <= k < m.media@.len() ==> m.media@[k].kind != MediaKind::Cdrom) ==> exists|i: int|
            0 <= i && i + 1 < spec_qemu_argv(m, ctx).len() && #[trigger] spec_qemu_argv(m, ctx)[i] == "-boot"@
                && spec_qemu_argv(m, ctx)[i + 1] == "order=c,menu=on"@,
{
    let a = spec_qemu_argv(m, ctx);
    let pre = board_args(m, ctx) + cpu_args(m, ctx) + size_args(m) + icount_args(m, ctx)
        + firmware_args(m, ctx) + tpm_args(m, ctx)
        + scsi_controller_args(m) + disks_args(m.devices.storage_bus@, ctx.machine_dir@, m.disks@, m.disks@.len())
        + media_args(m, ctx) + empty_floppy_args(m);
    let rest = graphics_args(m) + input_args(m) + audio_args(m, ctx)
        + network_args(m) + shares_args(m)
        + display_args(m, ctx) + control_args(m, ctx) + tail_args(m);
    assert(a =~= pre + boot_args(m) + rest);
    let i = pre.len() as int;
    assert(a[i] == boot_args(m)[0]);
    assert(a[i + 1] == boot_args(m)[1]);
    if exists|k: int| 0 <= k < m.media@.len() && m.media@[k].kind == MediaKind::Cdrom {
        let k = choose|k: int| 0 <= k < m.media@.len() && m.media@[k].kind == MediaKind::Cdrom;
        assert(m.media@[k].kind == MediaKind::Cdrom);
    }
}

/// `c` first occurs in `s` at `k`.
proof fn lemma_first_index_is(s: Seq<char>, c: char, k: int)
    requires
        0 <= k < s.len(),
        s[k] == c,
        forall|j: int| 0 <= j < k ==> s[j] != c,
    ensures
        crate::text::first_index_of(s, c) == Some(k),
    decreases k,
{
    if k > 0 {
        let t = s.drop_first();
        assert forall|j: int| 0 <= j < k - 1 implies t[j] != c by {
            assert(t[j] == s[j + 1]);
        }
        lemma_first_index_is(t, c, k - 1);
    }
}

/// `c` last occurs in `s` at `k`.
proof fn lemma_last_index_is(s: Seq<char>, c: char, k: int)
    requires
        0 <= k < s.len(),
        s[k] == c,
        forall|j: int| k < j < s.len() ==> s[j] != c,
    ensures
        crate::text::last_index_of(s, c) == Some(k),
    decreases s.len(),
{
    if k < s.len() - 1 {
        let t = s.drop_last();
        assert forall|j: int| k < j < t.len() implies t[j] != c by {
            assert(t[j] == s[j]);
        }
        lemma_last_index_is(t, c, k);
    }
}

/// A text that starts and ends with something other than whitespace is its own trim.
proof fn lemma_trim_same(s: Seq<char>)
    requires
        s.len() > 0,
        !spec_is_whitespace(s[0]),
        !spec_is_whitespace(s.last()),
    ensures
        crate::text::trim(s) == s,
{
}

/// A `FILE` line of a cue sheet: the keyword, a quoted file name, a space and the file type.
pub open spec fn quoted_file_line(name: Seq<char>, file_type: Seq<char>) -> Seq<char> {
    "FILE \""@ + name + "\" "@ + file_type
}

/// The first `FILE` line of a cue sheet names the data file: the sheet's folder joined
/// with the whole quoted name, spaces inside the quotes included, quotes removed.
pub proof fn law_cue_file_keeps_the_quoted_name(st: CueView, name: Seq<char>, file_type: Seq<char>, dir: Seq<char>)
    requires
        st.file is None,
        forall|i: int| 0 <= i < name.len() ==> name[i] != '"',
        file_type.len() > 0,
        forall|i: int| 0 <= i < file_type.len() ==> !spec_is_whitespace(#[trigger] file_type[i]),
    ensures
        cue_step(st, quoted_file_line(name, file_type), dir) == Ok::<CueView, Seq<char>>(
            CueView { file: Some(join_path(dir, name)), ..st }),
{
    reveal_strlit("FILE \"");
    reveal_strlit("\" ");
    reveal_strlit("FILE");
    let line = quoted_file_line(name, file_type);
    let q = name.len() as int;
    assert(line.len() == 6 + q + 2 + file_type.len());
    assert(line[0] == 'F');
    assert(line.last() == file_type.last());
    assert(!spec_is_whitespace(file_type[file_type.len() - 1]));
    lemma_trim_same(line);
    let l = crate::text::trim(line);
    assert(l == line);
    lemma_first_index_is(line, ' ', 4);
    let key = line.subrange(0, 4);
    assert(key =~= "FILE"@);
    assert(all_ascii(key));
    assert(key.map_values(|c: char| ascii_to_upper(c)) =~= key);
    assert(upper_text(key) == "FILE"@);
    let r0 = line.subrange(5, line.len() as int);
    assert(r0 =~= seq!['"'] + name + seq!['"', ' '] + file_type);
    assert(r0[0] == '"');
    assert(r0.last() == file_type.last());
    lemma_trim_same(r0);
    let rest = crate::text::trim(r0);
    assert(rest == r0);
    let sp = q + 2;
    assert(rest[sp] == ' ');
    assert forall|j: int| sp < j < rest.len() implies rest[j] != ' ' by {
        assert(rest[j] == file_type[j - sp - 1]);
        assert(!spec_is_whitespace(file_type[j - sp - 1]));
    }
    lemma_last_index_is(rest, ' ', sp);
    let n = rest.subrange(0, sp);
    assert(n =~= seq!['"'] + name + seq!['"']);
    lemma_trim_same(n);
    let inner = n.drop_first();
    assert(inner =~= name + seq!['"']);
    assert(crate::cue::strip_char(name, '"') == name);
    assert(crate::cue::strip_char(n, '"') == crate::cue::strip_char(inner, '"'));
    if name.len() > 0 {
        assert(inner[0] == name[0]);
        assert(inner.drop_last() =~= name);
        assert(crate::cue::strip_char(inner, '"') == crate::cue::strip_char(name, '"'));
    } else {
        assert(inner.drop_first() =~= name);
        assert(crate::cue::strip_char(inner, '"') == crate::cue::strip_char(name, '"'));
    }
    assert(crate::cue::strip_char(n, '"') == name);
    assert(crate::cue::file_arg(rest) == name);
}

/// Decimal notation is a run of digits with the number's value.
proof fn lemma_dec_digits(n: nat)
    ensures
        dec(n).len() > 0,
        all_digits(dec(n)),
        digits_value(dec(n)) == n,
    decreases n,
{
    if n >= 10 {
        lemma_dec_digits(n / 10);
        let d = dec(n);
        assert(d.drop_last() =~= dec(n / 10));
        assert(d.last() == digit_char(n % 10));
        assert(digit_value(digit_char(n % 10)) == n % 10);
        assert(digits_value(d) == digits_value(dec(n / 10)) * 10 + digit_value(d.last()));
        assert(n == (n / 10) * 10 + n % 10);
        assert forall|i: int| 0 <= i < d.len() implies crate::text::spec_is_digit(#[trigger] d[i]) by {
            if i < d.len() - 1 {
                assert(d[i] == dec(n / 10)[i]);
            }
        }
    } else {
        assert(digit_value(digit_char(n)) == n);
        assert(dec(n).drop_last() =~= Seq::<char>::empty());
        assert(digits_value(dec(n)) == digits_value(Seq::<char>::empty()) * 10 + digit_value(dec(n).last()));
    }
}

/// Job-based snapshots need QEMU 6: a version `<n>.<rest>` (or just `<n>`) supports
/// them exactly when the major number `n` is at least 6.
pub proof fn law_snapshot_jobs_follow_the_major_version(n: nat, rest: Seq<char>)
    requires
        n <= u32::MAX,
        rest.len() == 0 || rest[0] == '.',
    ensures
        (major_of(dec(n) + rest) >= 6) == (n >= 6),
{
    lemma_dec_digits(n);
    let d = dec(n);
    let v = d + rest;
    assert forall|j: int| 0 <= j < d.len() implies v[j] != '.' by {
        assert(v[j] == d[j]);
        assert(crate::text::spec_is_digit(d[j]));
    }
    assert(d[0] != '+') by {
        assert(crate::text::spec_is_digit(d[0]));
    }
    assert(crate::text::spec_parse_u32(d) == Some(n as u32));
    if v.contains('.') {
        let c = choose|c: int| 0 <= c < v.len() && v[c] == '.' && forall|j: int| 0 <= j < c ==> v[j] != '.';
        assert(rest.len() > 0);
        assert(v[d.len() as int] == '.');
        assert(c == d.len()) by {
            if c > d.len() {
                assert(v[d.len() as int] != '.');
            }
        }
        assert(v.subrange(0, c) =~= d);
    } else {
        assert(rest.len() == 0) by {
            if rest.len() > 0 {
                assert(v[d.len() as int] == '.');
            }
        }
        assert(v =~= d);
    }
}

/// `items[k]` is the first job with the id `id`.
proof fn lemma_first_job(items: Seq<JsonV>, id: Seq<char>, k: int, i: int)
    requires
        0 <= i <= k < items.len(),
        as_str(field(items[k], "id"@)) == Some(id),
        forall|j: int| 0 <= j < k ==> as_str(field(#[trigger] items[j], "id"@)) != Some(id),
    ensures
        job_from(items, id, i) == Some(items[k]),
    decreases k - i,
{
    if i < k {
        lemma_first_job(items, id, k, i + 1);
    }
}

/// A job's failure is reported: for the first job in a `query-jobs` answer whose id
/// matches, its `error` text (when it has one) is the error given, and none when it has
/// none; its `status` text is the state.
pub proof fn law_job_error_is_reported(items: Seq<JsonV>, id: Seq<char>, k: int)
    requires
        0 <= k < items.len(),
        as_str(field(items[k], "id"@)) == Some(id),
        forall|j: int| 0 <= j < k ==> as_str(field(#[trigger] items[j], "id"@)) != Some(id),
    ensures
        spec_job_state(JsonV::Array(items), id) matches Some((st, err))
            && err == as_str(field(items[k], "error"@))
            && (as_str(field(items[k], "status"@)) matches Some(s) ==> st == s),
{
    lemma_first_job(items, id, k, 0);
}

/// Floppy images go into the floppy drive of a QEMU machine: a path whose extension,
/// in small letters, is `img`, `ima`, `dsk`, `vfd` or `flp`.
pub proof fn law_floppy_images_go_to_the_floppy_drive(path: Seq<char>, e: Seq<char>)
    requires
        extension_of(path) == Some(e),
        lower_text(e) == "img"@ || lower_text(e) == "ima"@ || lower_text(e) == "dsk"@ || lower_text(e) == "vfd"@
            || lower_text(e) == "flp"@,
    ensures
        spec_media_kind_for(path, Engine::Qemu) == MediaKind::Floppy,
{
}

} // verus!
