//! CD images turned into ISO images (2048-byte sectors). QEMU reads ISO and raw
//! 2048-byte images only; Nero NRG, BIN/CUE, Alcohol MDF/MDS, CloneCD CCD/IMG and
//! raw 2352-byte images are reduced to their data track here. The functions work on
//! bytes and text that the caller has read; each step states what it makes of them.
use vstd::prelude::*;
use vstd::slice::slice_subrange;
use crate::text::{lower_text, to_lower, str_eq, push_str};
use crate::paths::{extension_of, file_stem_of, with_extension_of, extension, file_stem, with_extension};

verus! {

/// Bytes per sector of an ISO image.
pub const ISO_SECTOR: u64 = 2048;

// ---------------------------------------------------------------------------
// Big-endian numbers
// ---------------------------------------------------------------------------

/// The big-endian value of a byte sequence.
pub open spec fn be_value(s: Seq<u8>) -> nat
    decreases s.len(),
{
    if s.len() == 0 {
        0
    } else {
        be_value(s.drop_last()) * 256 + s.last() as nat
    }
}

/// 256 to the power `n`.
pub open spec fn pow256(n: nat) -> nat
    decreases n,
{
    if n == 0 {
        1
    } else {
        pow256((n - 1) as nat) * 256
    }
}

proof fn lemma_pow256_mono(i: nat, j: nat)
    requires
        i <= j,
    ensures
        pow256(i) <= pow256(j),
    decreases j - i,
{
    if i < j {
        lemma_pow256_mono(i, (j - 1) as nat);
    }
}

proof fn lemma_pow256_values()
    ensures
        pow256(2) == 0x1_0000,
        pow256(4) == 0x1_0000_0000,
        pow256(8) == 0x1_0000_0000_0000_0000,
{
    reveal_with_fuel(pow256, 9);
}

/// A big-endian number of `s.len()` bytes is below 256 to that power.
pub proof fn lemma_be_bound(s: Seq<u8>)
    ensures
        be_value(s) < pow256(s.len()),
    decreases s.len(),
{
    if s.len() > 0 {
        lemma_be_bound(s.drop_last());
    }
}

/// The `n` bytes from `at` read as a big-endian number.
fn be_at(b: &[u8], at: usize, n: usize) -> (r: u64)
    requires
        n <= 8,
        at + n <= b@.len(),
    ensures
        r as nat == be_value(b@.subrange(at as int, at + n)),
{
    proof {
        lemma_pow256_values();
        lemma_pow256_mono(n as nat, 8);
    }
    let mut v: u64 = 0;
    let mut i: usize = 0;
    let len = b.len();
    assert(b@.subrange(at as int, at as int) =~= Seq::<u8>::empty());
    while i < n
        invariant
            i <= n,
            n <= 8,
            len == b@.len(),
            at + n <= len,
            pow256(n as nat) <= 0x1_0000_0000_0000_0000,
            v as nat == be_value(b@.subrange(at as int, at + i)),
            (v as nat) < pow256(i as nat),
        decreases n - i,
    {
        proof {
            lemma_pow256_mono((i + 1) as nat, n as nat);
            assert(b@.subrange(at as int, at + i + 1).drop_last() =~= b@.subrange(at as int, at + i));
        }
        v = v * 256 + b[at + i] as u64;
        i = i + 1;
    }
    v
}

/// Two bytes, big-endian.
fn be16(b: &[u8]) -> (r: u16)
    requires
        b@.len() >= 2,
    ensures
        r as nat == be_value(b@.subrange(0, 2)),
{
    let v = be_at(b, 0, 2);
    proof {
        lemma_be_bound(b@.subrange(0, 2));
        lemma_pow256_values();
    }
    v as u16
}

/// Four bytes, big-endian.
fn be32(b: &[u8]) -> (r: u32)
    requires
        b@.len() >= 4,
    ensures
        r as nat == be_value(b@.subrange(0, 4)),
{
    let v = be_at(b, 0, 4);
    proof {
        lemma_be_bound(b@.subrange(0, 4));
        lemma_pow256_values();
    }
    v as u32
}

/// Eight bytes, big-endian.
fn be64(b: &[u8]) -> (r: u64)
    requires
        b@.len() >= 8,
    ensures
        r as nat == be_value(b@.subrange(0, 8)),
{
    be_at(b, 0, 8)
}

// ---------------------------------------------------------------------------
// Sector format
// ---------------------------------------------------------------------------

/// The twelve bytes that open every raw CD sector: 00, ten times FF, 00.
pub open spec fn sync_byte(k: int) -> u8 {
    if k == 0 || k == 11 { 0 } else { 0xFF }
}

/// The sync pattern stands at `at`.
pub open spec fn sync_at(h: Seq<u8>, at: int) -> bool {
    &&& 0 <= at
    &&& at + 12 <= h.len()
    &&& forall|k: int| 0 <= k < 12 ==> #[trigger] h[at + k] == sync_byte(k)
}

/// The ISO 9660 identifier `CD001` stands at `at`.
pub open spec fn cd001_at(h: Seq<u8>, at: int) -> bool {
    &&& 0 <= at
    &&& at + 5 <= h.len()
    &&& h[at] == 0x43 && h[at + 1] == 0x44 && h[at + 2] == 0x30 && h[at + 3] == 0x30 && h[at + 4] == 0x31
}

/// Where the identifier of a Mode 2 / 2336 image lies: sector 16 (16 · 2336 bytes in),
/// after the eight-byte subheader and the descriptor type byte.
pub open spec fn mode2_identifier() -> int {
    37385int
}

/// Sector format from the first bytes of an image: (sector size, offset of the data in
/// a sector). Raw sectors are told by the sync pattern and their mode byte (a second
/// sync after 2448 bytes, and none after 2352, marks subchannel data); a plain ISO by
/// its volume descriptor in sector 16; a Mode 2 / 2336 image by the descriptor after
/// the subheader.
pub open spec fn spec_sniff_layout(h: Seq<u8>) -> Option<(u32, u32)> {
    if h.len() >= 16 && sync_at(h, 0) {
        if h[15] == 1 || h[15] == 2 {
            let size: u32 = if sync_at(h, 2448) && !sync_at(h, 2352) { 2448 } else { 2352 };
            Some((size, if h[15] == 1 { 16u32 } else { 24u32 }))
        } else {
            None
        }
    } else if cd001_at(h, 0x8001) {
        Some((2048, 0))
    } else if cd001_at(h, mode2_identifier()) {
        Some((2336, 8))
    } else {
        None
    }
}

/// A sector format a conversion can copy: a known sector size, and the 2048 data
/// bytes inside each sector.
pub open spec fn format_ok(sector_size: u32, data_offset: u32) -> bool {
    &&& valid_sector_size(sector_size)
    &&& data_offset + 2048 <= sector_size
}

/// The sector sizes of CD images.
pub open spec fn valid_sector_size(s: u32) -> bool {
    s == 2048 || s == 2336 || s == 2352 || s == 2448
}

/// Every sniffed sector format can be copied.
pub proof fn lemma_sniff_format_ok(h: Seq<u8>)
    ensures
        spec_sniff_layout(h) matches Some((s, off)) ==> format_ok(s, off),
{
}

fn is_sync_at(h: &[u8], at: usize) -> (r: bool)
    ensures
        r == sync_at(h@, at as int),
{
    if at > h.len() || h.len() - at < 12 {
        return false;
    }
    let mut k: usize = 0;
    let len = h.len();
    while k < 12
        invariant
            k <= 12,
            len == h@.len(),
            at + 12 <= len,
            forall|j: int| 0 <= j < k ==> #[trigger] h@[at + j] == sync_byte(j),
        decreases 12 - k,
    {
        let want: u8 = if k == 0 || k == 11 { 0 } else { 0xFF };
        if h[at + k] != want {
            assert(h@[at + k as int] != sync_byte(k as int));
            return false;
        }
        k = k + 1;
    }
    true
}

fn is_cd001_at(h: &[u8], at: usize) -> (r: bool)
    ensures
        r == cd001_at(h@, at as int),
{
    if at > h.len() || h.len() - at < 5 {
        return false;
    }
    h[at] == 0x43 && h[at + 1] == 0x44 && h[at + 2] == 0x30 && h[at + 3] == 0x30 && h[at + 4] == 0x31
}

/// Sector format from the first bytes of an image: (sector size, data offset).
pub fn sniff_layout(head: &[u8]) -> (r: Option<(u32, u32)>)
    ensures
        r == spec_sniff_layout(head@),
{
    if head.len() >= 16 && is_sync_at(head, 0) {
        let mode = head[15];
        if mode == 1 || mode == 2 {
            let size: u32 = if is_sync_at(head, 2448) && !is_sync_at(head, 2352) { 2448 } else { 2352 };
            return Some((size, if mode == 1 { 16 } else { 24 }));
        }
        return None;
    }
    if is_cd001_at(head, 0x8001) {
        return Some((2048, 0));
    }
    if is_cd001_at(head, 16 * 2336 + 8 + 1) {
        return Some((2336, 8));
    }
    None
}

// ---------------------------------------------------------------------------
// Nero NRG
// ---------------------------------------------------------------------------

/// Four ASCII letters as bytes.
pub open spec fn four(a: char, b: char, c: char, d: char) -> Seq<u8> {
    seq![a as u8, b as u8, c as u8, d as u8]
}

/// The four bytes at `at` are `tag`.
pub open spec fn tag_at(s: Seq<u8>, at: int, tag: Seq<u8>) -> bool {
    0 <= at && at + 4 <= s.len() && s.subrange(at, at + 4) == tag
}

fn has_tag(s: &[u8], at: usize, a: u8, b: u8, c: u8, d: u8) -> (r: bool)
    ensures
        r == tag_at(s@, at as int, seq![a, b, c, d]),
{
    if at > s.len() || s.len() - at < 4 {
        return false;
    }
    let r = s[at] == a && s[at + 1] == b && s[at + 2] == c && s[at + 3] == d;
    assert(r == (s@.subrange(at as int, at + 4) =~= seq![a, b, c, d]));
    r
}

/// The footer of an NRG image (its last twelve bytes): where the chunk list starts,
/// and whether the image is of version 2 (`NER5` and a 64-bit offset) rather than
/// version 1 (`NERO` and a 32-bit offset).
pub open spec fn spec_nrg_footer(t: Seq<u8>) -> Option<(u64, bool)> {
    if t.len() < 12 {
        None
    } else if tag_at(t, 0, four('N', 'E', 'R', '5')) {
        Some((be_value(t.subrange(4, 12)) as u64, true))
    } else if tag_at(t, 4, four('N', 'E', 'R', 'O')) {
        Some((be_value(t.subrange(8, 12)) as u64, false))
    } else {
        None
    }
}

/// Reads the footer of an NRG image: (offset of the chunk list, version 2?).
pub fn nrg_footer(tail12: &[u8]) -> (r: Option<(u64, bool)>)
    ensures
        r == spec_nrg_footer(tail12@),
{
    if tail12.len() < 12 {
        return None;
    }
    if has_tag(tail12, 0, 0x4E, 0x45, 0x52, 0x35) {
        let v = be64(slice_subrange(tail12, 4, 12));
        assert(tail12@.subrange(4, 12).subrange(0, 8) =~= tail12@.subrange(4, 12));
        return Some((v, true));
    }
    if has_tag(tail12, 4, 0x4E, 0x45, 0x52, 0x4F) {
        let v = be32(slice_subrange(tail12, 8, 12));
        assert(tail12@.subrange(8, 12).subrange(0, 4) =~= tail12@.subrange(8, 12));
        return Some((v as u64, false));
    }
    None
}

/// Sector size from a Nero track mode (for track entries without an explicit size).
pub open spec fn spec_nrg_mode_sector_size(mode: u32) -> Option<u32> {
    if mode == 0x00 || mode == 0x02 {
        Some(2048)
    } else if mode == 0x03 {
        Some(2336)
    } else if mode == 0x05 || mode == 0x06 || mode == 0x07 {
        Some(2352)
    } else if mode == 0x0F || mode == 0x10 || mode == 0x11 {
        Some(2448)
    } else {
        None
    }
}

fn nrg_mode_sector_size(mode: u32) -> (r: Option<u32>)
    ensures
        r == spec_nrg_mode_sector_size(mode),
{
    if mode == 0x00 || mode == 0x02 {
        Some(2048)
    } else if mode == 0x03 {
        Some(2336)
    } else if mode == 0x05 || mode == 0x06 || mode == 0x07 {
        Some(2352)
    } else if mode == 0x0F || mode == 0x10 || mode == 0x11 {
        Some(2448)
    } else {
        None
    }
}

/// Audio track modes.
pub open spec fn spec_is_audio_mode(mode: u32) -> bool {
    mode == 0x07 || mode == 0x10
}

fn is_audio_mode(mode: u32) -> (r: bool)
    ensures
        r == spec_is_audio_mode(mode),
{
    mode == 0x07 || mode == 0x10
}

/// A track found in the chunk list: (sector size, mode, first byte, byte after the end).
pub type Track = (u32, u32, u64, u64);

/// Length of a disc-at-once track entry.
pub open spec fn dao_entry_len(v2: bool) -> int {
    if v2 { 42 } else { 30 }
}

/// Where the track entries of a disc-at-once payload begin: the first of the header
/// lengths 22, 20, 24, 18 after which the rest is a whole number of entries.
pub open spec fn dao_header(len: int, entry: int) -> Option<int> {
    if len > 22 && (len - 22) % entry == 0 {
        Some(22)
    } else if len > 20 && (len - 20) % entry == 0 {
        Some(20)
    } else if len > 24 && (len - 24) % entry == 0 {
        Some(24)
    } else if len > 18 && (len - 18) % entry == 0 {
        Some(18)
    } else {
        None
    }
}

/// The disc-at-once entry at `off`: sector size (bytes 12–13), mode (byte 14), start
/// and end (32-bit at 22 and 26 in version 1, 64-bit at 26 and 34 in version 2).
pub open spec fn dao_entry_at(p: Seq<u8>, off: int, v2: bool) -> Track {
    let e = p.subrange(off, off + dao_entry_len(v2));
    (
        be_value(e.subrange(12, 14)) as u32,
        e[14] as u32,
        if v2 { be_value(e.subrange(26, 34)) as u64 } else { be_value(e.subrange(22, 26)) as u64 },
        if v2 { be_value(e.subrange(34, 42)) as u64 } else { be_value(e.subrange(26, 30)) as u64 },
    )
}

/// A disc-at-once entry that holds data: no audio, a known sector size, not empty.
pub open spec fn dao_usable(t: Track) -> bool {
    &&& !spec_is_audio_mode(t.1)
    &&& (t.0 == 2048 || t.0 == 2336 || t.0 == 2352 || t.0 == 2448)
    &&& t.3 > t.2
}

/// The first usable disc-at-once entry from `off` on.
pub open spec fn dao_scan(p: Seq<u8>, off: int, v2: bool) -> Option<Track>
    decreases p.len() - off,
{
    if 0 <= off && off + dao_entry_len(v2) <= p.len() {
        let t = dao_entry_at(p, off, v2);
        if dao_usable(t) { Some(t) } else { dao_scan(p, off + dao_entry_len(v2), v2) }
    } else {
        None
    }
}

/// First data track of a disc-at-once payload (`DAOX` / `DAOI`).
pub open spec fn spec_nrg_dao_track(p: Seq<u8>, v2: bool) -> Option<Track> {
    match dao_header(p.len() as int, dao_entry_len(v2)) {
        Some(h) => dao_scan(p, h, v2),
        None => None,
    }
}

fn dao_entry(p: &[u8], off: usize, v2: bool) -> (t: Track)
    requires
        off + dao_entry_len(v2) <= p@.len(),
    ensures
        t == dao_entry_at(p@, off as int, v2),
{
    let n: usize = if v2 { 42 } else { 30 };
    let len = p.len();
    let e = slice_subrange(p, off, off + n);
    let ghost es = p@.subrange(off as int, off + dao_entry_len(v2));
    assert(e@ =~= es);
    let size = be16(slice_subrange(e, 12, 14));
    assert(es.subrange(12, 14).subrange(0, 2) =~= es.subrange(12, 14));
    let mode = e[14] as u32;
    if v2 {
        let a = be64(slice_subrange(e, 26, 34));
        let b = be64(slice_subrange(e, 34, 42));
        assert(es.subrange(26, 34).subrange(0, 8) =~= es.subrange(26, 34));
        assert(es.subrange(34, 42).subrange(0, 8) =~= es.subrange(34, 42));
        (size as u32, mode, a, b)
    } else {
        let a = be32(slice_subrange(e, 22, 26));
        let b = be32(slice_subrange(e, 26, 30));
        assert(es.subrange(22, 26).subrange(0, 4) =~= es.subrange(22, 26));
        assert(es.subrange(26, 30).subrange(0, 4) =~= es.subrange(26, 30));
        (size as u32, mode, a as u64, b as u64)
    }
}

/// First data track of a disc-at-once payload.
fn nrg_dao_track(payload: &[u8], v2: bool) -> (r: Option<Track>)
    ensures
        r == spec_nrg_dao_track(payload@, v2),
{
    let entry: usize = if v2 { 42 } else { 30 };
    let len = payload.len();
    let header: usize = if len > 22 && (len - 22) % entry == 0 {
        22
    } else if len > 20 && (len - 20) % entry == 0 {
        20
    } else if len > 24 && (len - 24) % entry == 0 {
        24
    } else if len > 18 && (len - 18) % entry == 0 {
        18
    } else {
        return None;
    };
    let mut off = header;
    while off <= len && entry <= len - off
        invariant
            len == payload@.len(),
            entry as int == dao_entry_len(v2),
            dao_scan(payload@, off as int, v2) == spec_nrg_dao_track(payload@, v2),
        decreases len - off,
    {
        let t = dao_entry(payload, off, v2);
        if !is_audio_mode(t.1) && (t.0 == 2048 || t.0 == 2336 || t.0 == 2352 || t.0 == 2448) && t.3 > t.2 {
            return Some(t);
        }
        off = off + entry;
    }
    None
}

/// Length of a track-at-once entry.
pub open spec fn etn_entry_len(v2: bool) -> int {
    if v2 { 32 } else { 20 }
}

/// The track-at-once entry at `off`: (start, size, mode), 64-bit start and size in
/// version 2, 32-bit in version 1.
pub open spec fn etn_entry_at(p: Seq<u8>, off: int, v2: bool) -> (u64, u64, u32) {
    let e = p.subrange(off, off + etn_entry_len(v2));
    if v2 {
        (be_value(e.subrange(0, 8)) as u64, be_value(e.subrange(8, 16)) as u64, be_value(e.subrange(16, 20)) as u32)
    } else {
        (be_value(e.subrange(0, 4)) as u64, be_value(e.subrange(4, 8)) as u64, be_value(e.subrange(8, 12)) as u32)
    }
}

/// `a + b`, or `u64::MAX` where the sum does not fit.
pub open spec fn sat_add(a: u64, b: u64) -> u64 {
    if a + b > u64::MAX { u64::MAX } else { (a + b) as u64 }
}

/// The first data entry from `off` on gives the track; its sector size comes from its
/// mode, and a mode without one ends the search.
pub open spec fn etn_scan(p: Seq<u8>, off: int, v2: bool) -> Option<Track>
    decreases p.len() - off,
{
    if 0 <= off && off + etn_entry_len(v2) <= p.len() {
        let (start, size, mode) = etn_entry_at(p, off, v2);
        if !spec_is_audio_mode(mode) && size > 0 {
            match spec_nrg_mode_sector_size(mode) {
                Some(s) => Some((s, mode, start, sat_add(start, size))),
                None => None,
            }
        } else {
            etn_scan(p, off + etn_entry_len(v2), v2)
        }
    } else {
        None
    }
}

/// First data track of a track-at-once payload (`ETN2` / `ETNF`).
pub open spec fn spec_nrg_etn_track(p: Seq<u8>, v2: bool) -> Option<Track> {
    etn_scan(p, 0, v2)
}

fn etn_entry(p: &[u8], off: usize, v2: bool) -> (t: (u64, u64, u32))
    requires
        off + etn_entry_len(v2) <= p@.len(),
    ensures
        t == etn_entry_at(p@, off as int, v2),
{
    let n: usize = if v2 { 32 } else { 20 };
    let len = p.len();
    let e = slice_subrange(p, off, off + n);
    let ghost es = p@.subrange(off as int, off + etn_entry_len(v2));
    assert(e@ =~= es);
    if v2 {
        let a = be64(slice_subrange(e, 0, 8));
        let b = be64(slice_subrange(e, 8, 16));
        let m = be32(slice_subrange(e, 16, 20));
        assert(es.subrange(0, 8).subrange(0, 8) =~= es.subrange(0, 8));
        assert(es.subrange(8, 16).subrange(0, 8) =~= es.subrange(8, 16));
        assert(es.subrange(16, 20).subrange(0, 4) =~= es.subrange(16, 20));
        (a, b, m)
    } else {
        let a = be32(slice_subrange(e, 0, 4));
        let b = be32(slice_subrange(e, 4, 8));
        let m = be32(slice_subrange(e, 8, 12));
        assert(es.subrange(0, 4).subrange(0, 4) =~= es.subrange(0, 4));
        assert(es.subrange(4, 8).subrange(0, 4) =~= es.subrange(4, 8));
        assert(es.subrange(8, 12).subrange(0, 4) =~= es.subrange(8, 12));
        (a as u64, b as u64, m)
    }
}

/// First data track of a track-at-once payload.
fn nrg_etn_track(payload: &[u8], v2: bool) -> (r: Option<Track>)
    ensures
        r == spec_nrg_etn_track(payload@, v2),
{
    let entry: usize = if v2 { 32 } else { 20 };
    let len = payload.len();
    let mut off: usize = 0;
    while off <= len && entry <= len - off
        invariant
            len == payload@.len(),
            entry as int == etn_entry_len(v2),
            etn_scan(payload@, off as int, v2) == spec_nrg_etn_track(payload@, v2),
        decreases len - off,
    {
        let (start, size, mode) = etn_entry(payload, off, v2);
        if !is_audio_mode(mode) && size > 0 {
            let s = match nrg_mode_sector_size(mode) {
                Some(s) => s,
                None => return None,
            };
            let end = start.saturating_add(size);
            return Some((s, mode, start, end));
        }
        off = off + entry;
    }
    None
}

/// The size field of the chunk header at `pos`.
pub open spec fn chunk_size(list: Seq<u8>, pos: int) -> nat {
    be_value(list.subrange(pos + 4, pos + 8))
}

/// The largest chunk payload that is read (16 MiB).
pub open spec fn max_chunk() -> nat {
    16 * 1024 * 1024
}

/// Walks the chunk list from `pos`: each chunk is a four-letter id, a 32-bit size and
/// the payload. The walk ends at `END!` or where no header fits any more; a chunk that
/// runs past the end or exceeds 16 MiB makes the list corrupt (`Err`). The first
/// disc-at-once track and the first track-at-once track are kept.
pub open spec fn chunk_walk(list: Seq<u8>, pos: int, track: Option<Track>, etn: Option<Track>)
    -> Result<(Option<Track>, Option<Track>), ()>
    decreases list.len() - pos,
{
    if pos < 0 || pos + 8 > list.len() {
        Ok((track, etn))
    } else if tag_at(list, pos, four('E', 'N', 'D', '!')) {
        Ok((track, etn))
    } else if pos + 8 + chunk_size(list, pos) > list.len() || chunk_size(list, pos) > max_chunk() {
        Err(())
    } else {
        let p = list.subrange(pos + 8, pos + 8 + chunk_size(list, pos));
        let t2 = if track is Some {
            track
        } else if tag_at(list, pos, four('D', 'A', 'O', 'X')) {
            spec_nrg_dao_track(p, true)
        } else if tag_at(list, pos, four('D', 'A', 'O', 'I')) {
            spec_nrg_dao_track(p, false)
        } else {
            None
        };
        let e2 = if etn is Some {
            etn
        } else if tag_at(list, pos, four('E', 'T', 'N', '2')) {
            spec_nrg_etn_track(p, true)
        } else if tag_at(list, pos, four('E', 'T', 'N', 'F')) {
            spec_nrg_etn_track(p, false)
        } else {
            None
        };
        chunk_walk(list, pos + 8 + chunk_size(list, pos), t2, e2)
    }
}

/// The data track named by a chunk list (disc-at-once info before track-at-once), or
/// `Err` for a corrupt list.
pub open spec fn spec_nrg_chunk_track(list: Seq<u8>) -> Result<Option<Track>, ()> {
    match chunk_walk(list, 0, None, None) {
        Ok((t, e)) => Ok(if t is Some { t } else { e }),
        Err(()) => Err(()),
    }
}

proof fn lemma_dao_scan_valid(p: Seq<u8>, off: int, v2: bool)
    ensures
        dao_scan(p, off, v2) matches Some(t) ==> valid_sector_size(t.0),
    decreases p.len() - off,
{
    if 0 <= off && off + dao_entry_len(v2) <= p.len() && !dao_usable(dao_entry_at(p, off, v2)) {
        lemma_dao_scan_valid(p, off + dao_entry_len(v2), v2);
    }
}

proof fn lemma_etn_scan_valid(p: Seq<u8>, off: int, v2: bool)
    ensures
        etn_scan(p, off, v2) matches Some(t) ==> valid_sector_size(t.0),
    decreases p.len() - off,
{
    if 0 <= off && off + etn_entry_len(v2) <= p.len() {
        let (start, size, mode) = etn_entry_at(p, off, v2);
        if !(!spec_is_audio_mode(mode) && size > 0) {
            lemma_etn_scan_valid(p, off + etn_entry_len(v2), v2);
        }
    }
}

/// Every track a chunk list names has a CD sector size.
pub proof fn lemma_chunk_walk_valid(list: Seq<u8>, pos: int, track: Option<Track>, etn: Option<Track>)
    requires
        track matches Some(t) ==> valid_sector_size(t.0),
        etn matches Some(t) ==> valid_sector_size(t.0),
    ensures
        chunk_walk(list, pos, track, etn) matches Ok((t, e)) ==> (t matches Some(x) ==> valid_sector_size(x.0))
            && (e matches Some(x) ==> valid_sector_size(x.0)),
    decreases list.len() - pos,
{
    if !(pos < 0 || pos + 8 > list.len()) && !tag_at(list, pos, four('E', 'N', 'D', '!'))
        && !(pos + 8 + chunk_size(list, pos) > list.len() || chunk_size(list, pos) > max_chunk()) {
        let p = list.subrange(pos + 8, pos + 8 + chunk_size(list, pos));
        lemma_dao_scan_valid(p, 22, true);
        lemma_dao_scan_valid(p, 20, true);
        lemma_dao_scan_valid(p, 24, true);
        lemma_dao_scan_valid(p, 18, true);
        lemma_dao_scan_valid(p, 22, false);
        lemma_dao_scan_valid(p, 20, false);
        lemma_dao_scan_valid(p, 24, false);
        lemma_dao_scan_valid(p, 18, false);
        lemma_etn_scan_valid(p, 0, true);
        lemma_etn_scan_valid(p, 0, false);
        let t2 = if track is Some {
            track
        } else if tag_at(list, pos, four('D', 'A', 'O', 'X')) {
            spec_nrg_dao_track(p, true)
        } else if tag_at(list, pos, four('D', 'A', 'O', 'I')) {
            spec_nrg_dao_track(p, false)
        } else {
            None
        };
        let e2 = if etn is Some {
            etn
        } else if tag_at(list, pos, four('E', 'T', 'N', '2')) {
            spec_nrg_etn_track(p, true)
        } else if tag_at(list, pos, four('E', 'T', 'N', 'F')) {
            spec_nrg_etn_track(p, false)
        } else {
            None
        };
        lemma_chunk_walk_valid(list, pos + 8 + chunk_size(list, pos), t2, e2);
    }
}

/// Error text for a corrupt chunk list.
pub open spec fn corrupt_chunks_text() -> Seq<char> {
    "NRG: beschädigte Chunk-Liste"@
}

/// Walks the chunk list of an NRG image (the bytes from the chunk-list offset to the
/// end of the file) and returns its first data track.
pub fn nrg_chunk_track(list: &[u8]) -> (r: Result<Option<Track>, String>)
    ensures
        match r {
            Ok(t) => spec_nrg_chunk_track(list@) == Ok::<Option<Track>, ()>(t),
            Err(e) => spec_nrg_chunk_track(list@) is Err && e@ == corrupt_chunks_text(),
        },
        r matches Ok(Some(t)) ==> valid_sector_size(t.0),
{
    proof {
        lemma_chunk_walk_valid(list@, 0, None, None);
    }
    let len = list.len();
    let mut pos: usize = 0;
    let mut track: Option<Track> = None;
    let mut etn: Option<Track> = None;
    loop
        invariant
            len == list@.len(),
            pos <= len,
            chunk_walk(list@, pos as int, track, etn) == chunk_walk(list@, 0, None, None),
        ensures
            chunk_walk(list@, 0, None, None) == Ok::<(Option<Track>, Option<Track>), ()>((track, etn)),
        decreases len - pos,
    {
        if len - pos < 8 {
            break;
        }
        if has_tag(list, pos, 0x45, 0x4E, 0x44, 0x21) {
            break;
        }
        let size = be32(slice_subrange(list, pos + 4, pos + 8));
        assert(list@.subrange(pos + 4, pos + 8).subrange(0, 4) =~= list@.subrange(pos + 4, pos + 8));
        let room = len - pos - 8;
        if size as u64 > room as u64 || size > 16 * 1024 * 1024 {
            let e = String::from_str("NRG: beschädigte Chunk-Liste");
            return Err(e);
        }
        let sz = size as usize;
        let payload = slice_subrange(list, pos + 8, pos + 8 + sz);
        if track.is_none() {
            if has_tag(list, pos, 0x44, 0x41, 0x4F, 0x58) {
                track = nrg_dao_track(payload, true);
            } else if has_tag(list, pos, 0x44, 0x41, 0x4F, 0x49) {
                track = nrg_dao_track(payload, false);
            }
        }
        if etn.is_none() {
            if has_tag(list, pos, 0x45, 0x54, 0x4E, 0x32) {
                etn = nrg_etn_track(payload, true);
            } else if has_tag(list, pos, 0x45, 0x54, 0x4E, 0x46) {
                etn = nrg_etn_track(payload, false);
            }
        }
        pos = pos + 8 + sz;
    }
    Ok(if track.is_some() { track } else { etn })
}

/// Where the 2048 data bytes of each sector lie in a source image.
#[derive(Debug, Clone, Copy, PartialEq, Eq, Structural)]
pub struct Layout {
    /// 2048, 2336, 2352 or 2448.
    pub sector_size: u32,
    /// Offset of the data in a sector (0, 8, 16 or 24).
    pub data_offset: u32,
    /// Byte offset of the first sector of the data track.
    pub start: u64,
    /// Byte offset after the last sector.
    pub end: u64,
}

impl Layout {
    /// Whole sectors between start and end.
    pub open spec fn sector_count(self) -> int {
        (if self.end > self.start { self.end - self.start } else { 0int }) / (self.sector_size as int)
    }

    /// Whole sectors between start and end.
    pub fn sectors(&self) -> (r: u64)
        requires
            self.sector_size > 0,
        ensures
            r as int == self.sector_count(),
    {
        self.end.saturating_sub(self.start) / self.sector_size as u64
    }
}

/// The result of analysing an image: which file holds the sectors and whether it must
/// be converted.
#[derive(Debug, Clone, PartialEq, Eq)]
pub struct Analysis {
    /// `iso`, `nrg`, `cue`, `mdf`, `ccd` or `raw`.
    pub kind: &'static str,
    /// The file with the sector data (for CUE, MDS and CCD the companion file).
    pub data_file: String,
    /// `None`: usable as an ISO as it is.
    pub layout: Option<Layout>,
}

/// What a conversion wrote.
#[derive(Debug, Clone, PartialEq, Eq)]
pub struct Report {
    pub kind: &'static str,
    pub sectors: u64,
    pub layout: Layout,
}

/// The chunk list of an NRG image: its offset and version from the footer (the last
/// twelve bytes), with the errors for a short file, a missing Nero tag and an offset
/// outside the file.
pub open spec fn spec_nrg_locate(len: u64, tail: Seq<u8>) -> Result<(u64, bool), Seq<char>> {
    if len < 12 {
        Err("NRG: Datei zu kurz"@)
    } else {
        match spec_nrg_footer(tail) {
            None => Err("NRG: Nero-Kennung (NERO/NER5) fehlt"@),
            Some((at, v2)) => if at >= len {
                Err("NRG: Chunk-Liste liegt außerhalb der Datei"@)
            } else {
                Ok((at, v2))
            },
        }
    }
}

/// Finds the chunk list of an NRG image of `len` bytes whose last twelve bytes are `tail`.
pub fn nrg_locate(len: u64, tail: &[u8]) -> (r: Result<(u64, bool), String>)
    ensures
        match r {
            Ok(x) => spec_nrg_locate(len, tail@) == Ok::<(u64, bool), Seq<char>>(x),
            Err(e) => spec_nrg_locate(len, tail@) == Err::<(u64, bool), Seq<char>>(e@),
        },
{
    if len < 12 {
        return Err(String::from_str("NRG: Datei zu kurz"));
    }
    match nrg_footer(tail) {
        None => Err(String::from_str("NRG: Nero-Kennung (NERO/NER5) fehlt")),
        Some((at, v2)) => if at >= len {
            Err(String::from_str("NRG: Chunk-Liste liegt außerhalb der Datei"))
        } else {
            Ok((at, v2))
        },
    }
}

/// The bounds of a found track: it ends no later than the chunk list, and must be
/// non-empty and inside the file.
pub open spec fn spec_nrg_track_bounds(t: Track, chunks_at: u64, len: u64) -> Option<(u32, u64, u64)> {
    let end = if t.3 < chunks_at { t.3 } else { chunks_at };
    if t.2 >= end || end > len { None } else { Some((t.0, t.2, end)) }
}

/// Bounds of the data track of an NRG image: (sector size, start, end).
pub fn nrg_track_bounds(t: Track, chunks_at: u64, len: u64) -> (r: Result<(u32, u64, u64), String>)
    ensures
        match r {
            Ok(b) => spec_nrg_track_bounds(t, chunks_at, len) == Some(b),
            Err(e) => spec_nrg_track_bounds(t, chunks_at, len) is None && e@ == "NRG: Spurgrenzen unplausibel"@,
        },
{
    let end = if t.3 < chunks_at { t.3 } else { chunks_at };
    if t.2 >= end || end > len {
        return Err(String::from_str("NRG: Spurgrenzen unplausibel"));
    }
    Ok((t.0, t.2, end))
}

/// Whether the data offset of an NRG track must be read from its first sector (the
/// sector sizes 2048 and 2336 fix it).
pub fn nrg_needs_first_sector(sector_size: u32) -> (r: bool)
    ensures
        r == (sector_size != 2048 && sector_size != 2336),
{
    sector_size != 2048 && sector_size != 2336
}

/// The data offset of an NRG track: 0 for 2048-byte sectors, 8 for 2336, otherwise
/// what the sync header of the first sector (`first`) tells.
pub open spec fn spec_nrg_data_offset(sector_size: u32, first: Seq<u8>) -> Option<u32> {
    if sector_size == 2048 {
        Some(0)
    } else if sector_size == 2336 {
        Some(8)
    } else {
        match spec_sniff_layout(first) {
            Some((_, off)) => Some(off),
            None => None,
        }
    }
}

/// The analysis of an NRG image whose data track was found in its chunk list.
pub fn nrg_track_analysis(path: &str, bounds: (u32, u64, u64), first: &[u8]) -> (r: Result<Analysis, String>)
    ensures
        match spec_nrg_data_offset(bounds.0, first@) {
            Some(off) => r matches Ok(a) && a.kind@ == "nrg"@ && a.data_file@ == path@
                && a.layout == Some(Layout { sector_size: bounds.0, data_offset: off, start: bounds.1, end: bounds.2 }),
            None => r matches Err(e) && e@ == "NRG: rohe Sektoren ohne Sync-Muster"@,
        },
        valid_sector_size(bounds.0) ==> (r matches Ok(a) ==> a.layout matches Some(l) && layout_ok(l)),
{
    proof {
        lemma_sniff_format_ok(first@);
    }
    let (sector_size, start, end) = bounds;
    let data_offset: u32 = if sector_size == 2048 {
        0
    } else if sector_size == 2336 {
        8
    } else {
        match sniff_layout(first) {
            Some((_, off)) => off,
            None => return Err(String::from_str("NRG: rohe Sektoren ohne Sync-Muster")),
        }
    };
    proof {
        reveal_strlit("nrg");
    }
    Ok(Analysis { kind: "nrg", data_file: String::from_str(path), layout: Some(Layout { sector_size, data_offset, start, end }) })
}

/// The analysis of an NRG image without a readable track chunk: the sector format is
/// sniffed from its first bytes (`head`), the data runs up to the chunk list in whole sectors.
pub fn nrg_sniffed_analysis(path: &str, head: &[u8], chunks_at: u64) -> (r: Result<Analysis, String>)
    ensures
        match spec_sniff_layout(head@) {
            Some((s, off)) => r matches Ok(a) && a.kind@ == "nrg"@ && a.data_file@ == path@
                && a.layout == Some(Layout { sector_size: s, data_offset: off, start: 0, end: down_to_sector(chunks_at, s) }),
            None => r matches Err(e) && e@ == "NRG: keine Spurinfo (DAO/ETN) und Sektorformat nicht erkennbar"@,
        },
        r matches Ok(a) ==> a.layout matches Some(l) && layout_ok(l),
{
    proof {
        lemma_sniff_format_ok(head@);
    }
    match sniff_layout(head) {
        Some((s, off)) => {
            assert(chunks_at % (s as u64) <= chunks_at) by (nonlinear_arith)
                requires
                    s > 0,
            ;
            let end = chunks_at - chunks_at % s as u64;
            proof {
                reveal_strlit("nrg");
            }
            Ok(Analysis { kind: "nrg", data_file: String::from_str(path), layout: Some(Layout { sector_size: s, data_offset: off, start: 0, end }) })
        },
        None => Err(String::from_str("NRG: keine Spurinfo (DAO/ETN) und Sektorformat nicht erkennbar")),
    }
}

/// `x` rounded down to a whole number of sectors of `s` bytes.
pub open spec fn down_to_sector(x: u64, s: u32) -> u64 {
    (x - x % (s as u64)) as u64
}

/// Text of the error for an image whose sector format is not recognised.
pub open spec fn unrecognised_text(path: Seq<char>) -> Seq<char> {
    path + ": Sektorformat nicht erkannt — kein ISO 9660 und keine rohen 2352/2336-Byte-Sektoren"@
}

/// The analysis of an image read raw: a plain ISO needs no conversion; raw sectors run
/// from the start to the last whole sector of the file (`len` bytes).
pub open spec fn raw_analysis_ok(a: Analysis, path: Seq<char>, kind: Seq<char>, head: Seq<u8>, len: u64) -> bool {
    match spec_sniff_layout(head) {
        Some((s, off)) => if s == 2048 && off == 0 {
            a.kind@ == "iso"@ && a.data_file@ == path && a.layout is None
        } else {
            a.kind@ == kind && a.data_file@ == path
                && a.layout == Some(Layout { sector_size: s, data_offset: off, start: 0, end: down_to_sector(len, s) })
        },
        None => false,
    }
}

/// Analyses an image from its first bytes (`head`) and its length.
pub fn raw_analysis(path: &str, kind: &'static str, head: &[u8], len: u64) -> (r: Result<Analysis, String>)
    ensures
        match r {
            Ok(a) => raw_analysis_ok(a, path@, kind@, head@, len),
            Err(e) => spec_sniff_layout(head@) is None && e@ == unrecognised_text(path@),
        },
        spec_sniff_layout(head@) is Some ==> r is Ok,
        r matches Ok(a) ==> (a.layout matches Some(l) ==> layout_ok(l)),
{
    proof {
        lemma_sniff_format_ok(head@);
    }
    match sniff_layout(head) {
        Some((s, off)) => {
            if s == 2048 && off == 0 {
                proof {
                    reveal_strlit("iso");
                }
                Ok(Analysis { kind: "iso", data_file: String::from_str(path), layout: None })
            } else {
                assert(len % (s as u64) <= len) by (nonlinear_arith)
                    requires
                        s > 0,
                ;
                let end = len - len % s as u64;
                Ok(Analysis { kind, data_file: String::from_str(path), layout: Some(Layout { sector_size: s, data_offset: off, start: 0, end }) })
            }
        },
        None => {
            let mut e = String::from_str(path);
            e.append(": Sektorformat nicht erkannt — kein ISO 9660 und keine rohen 2352/2336-Byte-Sektoren");
            Err(e)
        },
    }
}

/// The analysis of an image given by its descriptor (MDS, CCD): the companion data file
/// analysed raw, under the descriptor's kind.
pub fn companion_analysis(data_file: &str, kind: &'static str, head: &[u8], len: u64) -> (r: Result<Analysis, String>)
    ensures
        match r {
            Ok(a) => a.kind@ == kind@ && a.data_file@ == data_file@
                && (match spec_sniff_layout(head@) {
                    Some((s, off)) => if s == 2048 && off == 0 {
                        a.layout is None
                    } else {
                        a.layout == Some(Layout { sector_size: s, data_offset: off, start: 0, end: down_to_sector(len, s) })
                    },
                    None => false,
                }),
            Err(e) => spec_sniff_layout(head@) is None && e@ == unrecognised_text(data_file@),
        },
        spec_sniff_layout(head@) is Some ==> r is Ok,
        r matches Ok(a) ==> (a.layout matches Some(l) ==> layout_ok(l)),
{
    match raw_analysis(data_file, kind, head, len) {
        Ok(a) => Ok(Analysis { kind, data_file: a.data_file, layout: a.layout }),
        Err(e) => Err(e),
    }
}

// ---------------------------------------------------------------------------
// Which reader an image needs
// ---------------------------------------------------------------------------

/// How many leading bytes the sector format is sniffed from: sixteen raw sectors, one
/// sector with subchannel data and some slack.
pub const HEAD_BYTES: u64 = 40144;

/// The extension of a path in lower case (empty without one).
pub open spec fn lower_ext_of(p: Seq<char>) -> Seq<char> {
    match extension_of(p) {
        Some(e) => lower_text(e),
        None => Seq::empty(),
    }
}

/// The extension of a path in lower case (empty without one).
pub fn ext(path: &str) -> (r: String)
    ensures
        r@ == lower_ext_of(path@),
{
    match extension(path) {
        Some(e) => to_lower(e.as_str()),
        None => String::new(),
    }
}

/// Extensions that count as CD images and are offered for the CD drive.
pub fn cd_extensions() -> (r: Vec<&'static str>)
    ensures
        r@ == seq!["iso", "nrg", "bin", "cue", "mdf", "mds", "ccd", "img", "cdr", "toast", "dmg"],
{
    vec!["iso", "nrg", "bin", "cue", "mdf", "mds", "ccd", "img", "cdr", "toast", "dmg"]
}

/// The name of the converted image in the machine folder: `<stem>.iso` (`image.iso`
/// for a path without a last component).
pub open spec fn spec_iso_name_for(src: Seq<char>) -> Seq<char> {
    (match file_stem_of(src) {
        Some(s) => s,
        None => "image"@,
    }) + ".iso"@
}

/// The name of the converted image in the machine folder.
pub fn iso_name_for(src: &str) -> (r: String)
    ensures
        r@ == spec_iso_name_for(src@),
{
    let mut out = match file_stem(src) {
        Some(s) => s,
        None => String::from_str("image"),
    };
    out.append(".iso");
    out
}

/// What an image is read as, by its extension.
pub enum Source {
    /// A cue sheet naming its data file.
    Cue,
    /// A descriptor (MDS, CCD) beside its data file.
    Companion { data_file: String, kind: &'static str },
    /// A Nero image.
    Nrg,
    /// Anything else: sniffed raw.
    Raw,
}

/// `cue` reads a cue sheet; `mds` the MDF beside it, `ccd` the IMG beside it; `nrg` a
/// Nero image; everything else is sniffed raw.
pub open spec fn source_ok(path: Seq<char>, s: Source) -> bool {
    let e = lower_ext_of(path);
    if e == "cue"@ {
        s is Cue
    } else if e == "mds"@ {
        s matches Source::Companion { data_file, kind } && data_file@ == with_extension_of(path, "mdf"@) && kind@ == "mdf"@
    } else if e == "ccd"@ {
        s matches Source::Companion { data_file, kind } && data_file@ == with_extension_of(path, "img"@) && kind@ == "ccd"@
    } else if e == "nrg"@ {
        s is Nrg
    } else {
        s is Raw
    }
}

/// How an image is to be read, by its extension.
pub fn source_of(path: &str) -> (s: Source)
    ensures
        source_ok(path@, s),
{
    let e = ext(path);
    if str_eq(e.as_str(), "cue") {
        Source::Cue
    } else if str_eq(e.as_str(), "mds") {
        proof {
            reveal_strlit("mdf");
        }
        Source::Companion { data_file: with_extension(path, "mdf"), kind: "mdf" }
    } else if str_eq(e.as_str(), "ccd") {
        proof {
            reveal_strlit("ccd");
        }
        Source::Companion { data_file: with_extension(path, "img"), kind: "ccd" }
    } else if str_eq(e.as_str(), "nrg") {
        Source::Nrg
    } else {
        Source::Raw
    }
}

/// The error for a descriptor whose data file is missing.
pub fn companion_missing(data_file: &str, path: &str) -> (r: String)
    ensures
        r@ == "Begleitdatei "@ + data_file@ + " fehlt neben "@ + path@,
{
    let mut e = String::from_str("Begleitdatei ");
    push_str(&mut e, data_file);
    e.append(" fehlt neben ");
    push_str(&mut e, path);
    e
}

// ---------------------------------------------------------------------------
// Conversion
// ---------------------------------------------------------------------------

/// A layout that a conversion can copy: a known sector size, and the 2048 data bytes
/// inside each sector.
pub open spec fn layout_ok(l: Layout) -> bool {
    format_ok(l.sector_size, l.data_offset)
}

/// The layout to convert by: an image without one is an ISO already.
pub fn conversion_layout(a: &Analysis) -> (r: Result<Layout, String>)
    ensures
        match a.layout {
            Some(l) => r == Ok::<Layout, String>(l),
            None => r matches Err(e) && e@ == "Abbild ist bereits ein ISO — keine Wandlung nötig"@,
        },
{
    match a.layout {
        Some(l) => Ok(l),
        None => Err(String::from_str("Abbild ist bereits ein ISO — keine Wandlung nötig")),
    }
}

/// The 2048 data bytes of one source sector.
pub fn iso_sector(sector: &[u8], data_offset: u32) -> (r: &[u8])
    requires
        data_offset + 2048 <= sector@.len(),
    ensures
        r@ == sector@.subrange(data_offset as int, data_offset + 2048),
{
    let len = sector.len();
    let off = data_offset as usize;
    slice_subrange(sector, off, off + 2048)
}

/// What a conversion that wrote `written` sectors reports; none written is an error.
pub fn conversion_report(a: &Analysis, layout: Layout, written: u64) -> (r: Result<Report, String>)
    ensures
        written > 0 ==> r == Ok::<Report, String>(Report { kind: a.kind, sectors: written, layout }),
        written == 0 ==> (r matches Err(e) && e@ == "Abbild enthält keine vollständigen Sektoren"@),
{
    if written == 0 {
        return Err(String::from_str("Abbild enthält keine vollständigen Sektoren"));
    }
    Ok(Report { kind: a.kind, sectors: written, layout })
}

} // verus!
