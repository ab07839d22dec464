use virtual_core::cue::{cue_analysis, cue_mode, cue_sheet, msf_frames};
use virtual_core::image::{
    cd_extensions, companion_analysis, companion_missing, conversion_layout, conversion_report, ext, iso_name_for,
    iso_sector, nrg_chunk_track, nrg_footer, nrg_locate, nrg_needs_first_sector, nrg_sniffed_analysis,
    nrg_track_analysis, nrg_track_bounds, raw_analysis, sniff_layout, source_of, Analysis, Layout, Source, HEAD_BYTES,
};

const SYNC: [u8; 12] = [0x00, 0xFF, 0xFF, 0xFF, 0xFF, 0xFF, 0xFF, 0xFF, 0xFF, 0xFF, 0xFF, 0x00];

/// 20 ISO sectors with the volume descriptor in sector 16 and recognisable content.
fn iso_data() -> Vec<u8> {
    let mut d = vec![0u8; 20 * 2048];
    for (i, chunk) in d.chunks_mut(2048).enumerate() {
        chunk[0] = i as u8;
        chunk[2047] = 0xEE;
    }
    d[16 * 2048] = 1;
    d[16 * 2048 + 1..16 * 2048 + 6].copy_from_slice(b"CD001");
    d
}

fn raw_sectors(data: &[u8], mode: u8) -> Vec<u8> {
    let mut out = Vec::new();
    for chunk in data.chunks(2048) {
        out.extend_from_slice(&SYNC);
        out.extend_from_slice(&[0, 2, 0, mode]);
        if mode == 2 {
            out.extend_from_slice(&[0, 0, 8, 0, 0, 0, 8, 0]);
        }
        out.extend_from_slice(chunk);
        out.resize(out.len() + if mode == 2 { 280 } else { 288 }, 0);
    }
    out
}

fn nrg_v2_dao(raw: &[u8], sector_size: u16, mode: u8, pregap_sectors: u64) -> Vec<u8> {
    let mut f = vec![0u8; (pregap_sectors * sector_size as u64) as usize];
    let start = f.len() as u64;
    f.extend_from_slice(raw);
    let end = f.len() as u64;
    let chunks_at = f.len() as u64;
    let mut payload = vec![0u8; 22];
    payload[4..17].copy_from_slice(b"1234567890123");
    payload[20] = 1;
    payload[21] = 1;
    let mut e = vec![0u8; 42];
    e[12..14].copy_from_slice(&sector_size.to_be_bytes());
    e[14] = mode;
    e[18..26].copy_from_slice(&0u64.to_be_bytes());
    e[26..34].copy_from_slice(&start.to_be_bytes());
    e[34..42].copy_from_slice(&end.to_be_bytes());
    payload.extend_from_slice(&e);
    f.extend_from_slice(b"DAOX");
    f.extend_from_slice(&(payload.len() as u32).to_be_bytes());
    f.extend_from_slice(&payload);
    f.extend_from_slice(b"END!");
    f.extend_from_slice(&0u32.to_be_bytes());
    f.extend_from_slice(b"NER5");
    f.extend_from_slice(&chunks_at.to_be_bytes());
    f
}

fn nrg_v1_etnf(data: &[u8], mode: u32) -> Vec<u8> {
    let mut f = data.to_vec();
    let chunks_at = f.len() as u32;
    let mut payload = Vec::new();
    payload.extend_from_slice(&0u32.to_be_bytes());
    payload.extend_from_slice(&(data.len() as u32).to_be_bytes());
    payload.extend_from_slice(&mode.to_be_bytes());
    payload.extend_from_slice(&0u32.to_be_bytes());
    payload.extend_from_slice(&0u32.to_be_bytes());
    f.extend_from_slice(b"ETNF");
    f.extend_from_slice(&(payload.len() as u32).to_be_bytes());
    f.extend_from_slice(&payload);
    f.extend_from_slice(b"END!");
    f.extend_from_slice(&0u32.to_be_bytes());
    f.extend_from_slice(&0u32.to_be_bytes());
    f.extend_from_slice(b"NERO");
    f.extend_from_slice(&chunks_at.to_be_bytes());
    f
}

fn head(f: &[u8]) -> &[u8] {
    &f[..f.len().min(HEAD_BYTES as usize)]
}

/// An NRG image analysed step by step, as the app reads it.
fn nrg(path: &str, f: &[u8]) -> Result<Analysis, String> {
    let len = f.len() as u64;
    let tail: &[u8] = if f.len() >= 12 { &f[f.len() - 12..] } else { &[] };
    let (chunks_at, _) = nrg_locate(len, tail)?;
    match nrg_chunk_track(&f[chunks_at as usize..])? {
        Some(t) => {
            let b = nrg_track_bounds(t, chunks_at, len)?;
            let first: &[u8] = if nrg_needs_first_sector(b.0) { &f[b.1 as usize..b.1 as usize + 16] } else { &[] };
            nrg_track_analysis(path, b, first)
        }
        None => nrg_sniffed_analysis(path, head(f), chunks_at),
    }
}

/// The sectors of a layout copied out, as the app converts them.
fn convert(src: &[u8], l: Layout) -> Vec<u8> {
    let mut out = Vec::new();
    let size = l.sector_size as usize;
    for i in 0..l.sectors() as usize {
        let at = l.start as usize + i * size;
        if at + size > src.len() {
            break;
        }
        out.extend_from_slice(iso_sector(&src[at..at + size], l.data_offset));
    }
    out
}

#[test]
fn plain_iso_needs_no_conversion() {
    let d = iso_data();
    let a = raw_analysis("/x/plain.iso", "raw", head(&d), d.len() as u64).unwrap();
    assert_eq!(a.kind, "iso");
    assert!(a.layout.is_none());
    assert!(conversion_layout(&a).unwrap_err().contains("bereits ein ISO"));
}

#[test]
fn nrg_v2_dao_mode1_with_pregap() {
    let data = iso_data();
    let f = nrg_v2_dao(&raw_sectors(&data, 1), 2352, 0x05, 150);
    let a = nrg("/d/disc.nrg", &f).unwrap();
    assert_eq!(a.kind, "nrg");
    let l = a.layout.unwrap();
    assert_eq!((l.sector_size, l.data_offset, l.start), (2352, 16, 150 * 2352));
    assert_eq!(l.sectors(), 20);
    assert_eq!(iso_name_for("/d/disc.nrg"), "disc.iso");
    let out = convert(&f, l);
    let r = conversion_report(&a, l, (out.len() / 2048) as u64).unwrap();
    assert_eq!(r.sectors, 20);
    assert_eq!(out, data);
}

#[test]
fn nrg_v2_dao_mode2_form1() {
    let data = iso_data();
    let f = nrg_v2_dao(&raw_sectors(&data, 2), 2352, 0x06, 0);
    let a = nrg("/d/m2.nrg", &f).unwrap();
    let l = a.layout.unwrap();
    assert_eq!(l.data_offset, 24);
    assert_eq!(convert(&f, l), data);
}

#[test]
fn nrg_v1_etnf_plain_sectors() {
    let data = iso_data();
    let f = nrg_v1_etnf(&data, 0x00);
    let a = nrg("/d/tao.nrg", &f).unwrap();
    let l = a.layout.unwrap();
    assert_eq!((l.sector_size, l.data_offset, l.start, l.end), (2048, 0, 0, data.len() as u64));
    assert_eq!(convert(&f, l), data);
}

#[test]
fn bin_cue_mode1_2352() {
    let data = iso_data();
    let bin = raw_sectors(&data, 1);
    let sheet = cue_sheet("FILE \"game.bin\" BINARY\n  TRACK 01 MODE1/2352\n    INDEX 01 00:00:00\n", "/d/game.cue").unwrap();
    assert_eq!(sheet.file.as_deref(), Some("/d/game.bin"));
    let a = cue_analysis(&sheet, true, bin.len() as u64).unwrap();
    assert_eq!(a.kind, "cue");
    assert!(a.data_file.ends_with("game.bin"));
    let l = a.layout.unwrap();
    assert_eq!(l.sectors(), 20);
    assert_eq!(convert(&bin, l), data);
    assert!(cue_sheet("FILE \"game.bin\" BINARY\n  TRACK 01 AUDIO\n    INDEX 01 00:00:00\n", "/d/game.cue").is_err());
}

#[test]
fn raw_bin_and_mdf_by_sniffing() {
    let data = iso_data();
    let bin = raw_sectors(&data, 2);
    let a = raw_analysis("/d/loose.bin", "raw", head(&bin), bin.len() as u64).unwrap();
    assert_eq!(a.kind, "raw");
    assert_eq!(a.layout.unwrap().data_offset, 24);
    let mdf = raw_sectors(&data, 1);
    match source_of("/d/alc.mds") {
        Source::Companion { data_file, kind } => {
            assert_eq!(data_file, "/d/alc.mdf");
            let a = companion_analysis(&data_file, kind, head(&mdf), mdf.len() as u64).unwrap();
            assert_eq!(a.kind, "mdf");
            assert!(a.data_file.ends_with("alc.mdf"));
            assert_eq!(convert(&mdf, a.layout.unwrap()), data);
        }
        _ => panic!("MDS liest die MDF daneben"),
    }
}

#[test]
fn garbage_is_rejected() {
    let noise = vec![0x5Au8; 100_000];
    assert!(raw_analysis("/d/noise.img", "raw", head(&noise), noise.len() as u64).is_err());
    assert!(nrg("/d/noise.nrg", &noise).unwrap_err().contains("Nero-Kennung"));
}

#[test]
fn sources_by_extension() {
    assert!(matches!(source_of("/a/B.CUE"), Source::Cue));
    assert!(matches!(source_of("/a/b.nrg"), Source::Nrg));
    assert!(matches!(source_of("/a/b.iso"), Source::Raw));
    match source_of("/a/disc.ccd") {
        Source::Companion { data_file, kind } => {
            assert_eq!(data_file, "/a/disc.img");
            assert_eq!(kind, "ccd");
        }
        _ => panic!(),
    }
    assert_eq!(ext("/a/b.TaR.Gz"), "gz");
    assert_eq!(ext("/a/.profile"), "");
    assert_eq!(companion_missing("/a/x.mdf", "/a/x.mds"), "Begleitdatei /a/x.mdf fehlt neben /a/x.mds");
    assert_eq!(cd_extensions().len(), 11);
    assert_eq!(iso_name_for("/"), "image.iso");
}

#[test]
fn sniffing_sector_formats() {
    let data = iso_data();
    assert_eq!(sniff_layout(&data), Some((2048, 0)));
    assert_eq!(sniff_layout(&raw_sectors(&data, 1)), Some((2352, 16)));
    let mut m2 = vec![0u8; 16 * 2336 + 8 + 1 + 5];
    m2[16 * 2336 + 9..16 * 2336 + 14].copy_from_slice(b"CD001");
    assert_eq!(sniff_layout(&m2), Some((2336, 8)));
    let mut bad_mode = raw_sectors(&data, 1);
    bad_mode[15] = 3;
    assert_eq!(sniff_layout(&bad_mode), None);
    assert_eq!(sniff_layout(&[]), None);
}

#[test]
fn nrg_footers_and_errors() {
    let mut t = b"NER5".to_vec();
    t.extend_from_slice(&300u64.to_be_bytes());
    assert_eq!(nrg_footer(&t), Some((300, true)));
    let mut t1 = vec![0u8; 4];
    t1.extend_from_slice(b"NERO");
    t1.extend_from_slice(&77u32.to_be_bytes());
    assert_eq!(nrg_footer(&t1), Some((77, false)));
    assert_eq!(nrg_footer(&[0u8; 5]), None);
    assert_eq!(nrg_locate(8, &[]).unwrap_err(), "NRG: Datei zu kurz");
    assert_eq!(nrg_locate(50, &t).unwrap_err(), "NRG: Chunk-Liste liegt außerhalb der Datei");
    let mut broken = b"DAOX".to_vec();
    broken.extend_from_slice(&1000u32.to_be_bytes());
    assert_eq!(nrg_chunk_track(&broken).unwrap_err(), "NRG: beschädigte Chunk-Liste");
    assert_eq!(nrg_chunk_track(b"END!\0\0\0\0").unwrap(), None);
    assert!(nrg_track_bounds((2048, 0, 100, 50), 1000, 1000).is_err());
    assert_eq!(nrg_track_bounds((2048, 0, 0, 5000), 4096, 5000).unwrap(), (2048, 0, 4096));
    assert_eq!(nrg_track_analysis("/x.nrg", (2352, 0, 16), &[0u8; 16]).unwrap_err(), "NRG: rohe Sektoren ohne Sync-Muster");
}

#[test]
fn cue_times_and_modes() {
    assert_eq!(msf_frames("01:02:03"), Some(4500 + 150 + 3));
    assert_eq!(msf_frames(" 00 : 00 : 10 :9"), Some(10));
    assert_eq!(msf_frames("1:2"), None);
    assert_eq!(msf_frames("a:0:0"), None);
    assert_eq!(cue_mode("mode2/2336"), Ok((2336, 8)));
    assert_eq!(cue_mode("CDI/2352"), Ok((2352, 24)));
    assert_eq!(cue_mode("MODE1/2048"), Ok((2048, 0)));
    assert_eq!(cue_mode("audio").unwrap_err(), "erste Spur ist eine Audiospur — kein Datenabbild");
    assert_eq!(cue_mode("mode9"), Err("CUE: Spurmodus „MODE9“ nicht unterstützt".to_string()));
}

#[test]
fn cue_second_track_ends_the_first() {
    let text = "REM x\r\nFILE \"/abs/d.bin\" BINARY\r\nTRACK 01 MODE1/2048\r\nINDEX 00 00:00:00\r\nINDEX 01 00:00:02\r\nTRACK 02 AUDIO\r\nINDEX 00 00:10:00\r\nINDEX 01 00:12:00\r\n";
    let sheet = cue_sheet(text, "relative.cue").unwrap();
    assert_eq!(sheet.file.as_deref(), Some("/abs/d.bin"));
    assert_eq!(sheet.index1, Some(2));
    assert_eq!(sheet.next_start, Some(750));
    let a = cue_analysis(&sheet, true, 10_000_000).unwrap();
    let l = a.layout.unwrap();
    assert_eq!((l.start, l.end), (2 * 2048, 750 * 2048));
    assert_eq!(cue_analysis(&sheet, false, 0).unwrap_err(), "CUE: Datendatei /abs/d.bin fehlt");
    let none = cue_sheet("TRACK 01 MODE1/2048\n", "x.cue").unwrap();
    assert_eq!(cue_analysis(&none, true, 1).unwrap_err(), "CUE: keine FILE-Zeile");
    let no_track = cue_sheet("FILE a.bin BINARY\n", "/d/x.cue").unwrap();
    assert_eq!(no_track.file.as_deref(), Some("/d/a.bin"));
    assert_eq!(cue_analysis(&no_track, true, 1).unwrap_err(), "CUE: keine TRACK-Zeile");
}

#[test]
fn cue_keywords_in_any_case() {
    let text = "file \"g.bin\" binary\ntrack 01 mode2/2352\nindex 01 00:02:00\n";
    let sheet = cue_sheet(text, "/games/g.cue").unwrap();
    assert_eq!(sheet.file.as_deref(), Some("/games/g.bin"));
    assert_eq!(sheet.mode, Some((2352, 24)));
    assert_eq!(sheet.index1, Some(150));
}

#[test]
fn msf_times() {
    assert_eq!(msf_frames("01:02:03"), Some(4500 + 150 + 3));
    assert_eq!(msf_frames(" 00 : 00 : 74 "), Some(74));
    assert_eq!(msf_frames("00:00"), None);
    assert_eq!(msf_frames("00:xx:00"), None);
    assert_eq!(msf_frames("00:00:01:99"), Some(1));
}
