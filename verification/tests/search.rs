use chrono::TimeZone;
use std::collections::{BTreeMap, BTreeSet};
use wx_cli::attachment::{exact_media_names, AttachmentKind};
use wx_cli::calendar::{months_around, search_order, three_month_candidates};
use wx_cli::digest::{hex_text, md5_hex};
use wx_cli::media_search::{
    find_dat_file, find_media_file, months_to_search, pick_best_in_img_dir, search_from, DirEntry,
    EntryKind, MediaSearch, SearchAnswer, SearchQuestion,
};
use wx_cli::ordering::{largest_size, sort_names};
use wx_cli::paths::{attach_root_for, PathParts};

/// A disk that lies in memory. Paths are names with slashes between them.
struct MemDisk {
    dirs: BTreeSet<String>,
    files: BTreeMap<String, u64>,
}

fn shown(path: &PathParts) -> String {
    path.parts
        .iter()
        .map(|p| String::from_utf8_lossy(p).into_owned())
        .collect::<Vec<_>>()
        .join("/")
}

fn place(path: &str) -> PathParts {
    PathParts {
        parts: path
            .split('/')
            .filter(|p| !p.is_empty())
            .map(|p| p.as_bytes().to_vec())
            .collect(),
    }
}

impl MemDisk {
    fn with(files: &[(&str, u64)]) -> MemDisk {
        let mut disk = MemDisk {
            dirs: BTreeSet::new(),
            files: BTreeMap::new(),
        };
        disk.dirs.insert(String::new());
        for (path, size) in files {
            let names: Vec<&str> = path.split('/').collect();
            for n in 1..names.len() {
                disk.dirs.insert(names[..n].join("/"));
            }
            disk.files.insert(path.to_string(), *size);
        }
        disk
    }

    fn entries(&self, dir: &str) -> Option<Vec<DirEntry>> {
        if !self.dirs.contains(dir) {
            return None;
        }
        let child = |path: &String| -> Option<Vec<u8>> {
            let rest = if dir.is_empty() {
                path.as_str()
            } else {
                path.strip_prefix(dir)?.strip_prefix('/')?
            };
            if rest.is_empty() || rest.contains('/') {
                return None;
            }
            Some(rest.as_bytes().to_vec())
        };
        let mut entries = Vec::new();
        for path in &self.dirs {
            if let Some(name) = child(path) {
                entries.push(DirEntry {
                    name,
                    kind: EntryKind::Dir,
                });
            }
        }
        for path in self.files.keys() {
            if let Some(name) = child(path) {
                entries.push(DirEntry {
                    name,
                    kind: EntryKind::File,
                });
            }
        }
        Some(entries)
    }

    fn find(&self, search: MediaSearch) -> Option<String> {
        let mut search = search;
        loop {
            let answer = match search.question() {
                SearchQuestion::IsDir(path) => {
                    SearchAnswer::Yes(self.dirs.contains(&shown(&path)))
                }
                SearchQuestion::IsFile(path) => {
                    SearchAnswer::Yes(self.files.contains_key(&shown(&path)))
                }
                SearchQuestion::Entries(path) => {
                    SearchAnswer::Entries(self.entries(&shown(&path)))
                }
                SearchQuestion::Sizes(paths) => SearchAnswer::Sizes(
                    paths
                        .iter()
                        .map(|p| self.files.get(&shown(p)).copied().unwrap_or(0))
                        .collect(),
                ),
                SearchQuestion::Nothing(found) => return found.map(|p| shown(&p)),
            };
            search = search.answer(answer);
        }
    }
}

fn file_name(path: &str) -> &str {
    path.rsplit('/').next().unwrap()
}

#[test]
fn three_month_candidates_includes_prev_curr_next() {
    // 2025-08-15 (mid-month) → 2025-07, 2025-08, 2025-09
    let ts = chrono::Local
        .with_ymd_and_hms(2025, 8, 15, 12, 0, 0)
        .unwrap()
        .timestamp();
    let v = three_month_candidates(ts);
    assert!(v.contains(&"2025-07".to_string()));
    assert!(v.contains(&"2025-08".to_string()));
    assert!(v.contains(&"2025-09".to_string()));
    assert_eq!(v.len(), 3);
}

fn local_noon(year: i32, month: u32, day: u32) -> i64 {
    chrono::Local
        .with_ymd_and_hms(year, month, day, 12, 0, 0)
        .unwrap()
        .timestamp()
}

#[test]
fn a_short_neighbour_is_not_skipped() {
    assert_eq!(
        three_month_candidates(local_noon(2025, 1, 31)),
        vec!["2024-12", "2025-01", "2025-02"]
    );
    assert_eq!(
        three_month_candidates(local_noon(2025, 3, 1)),
        vec!["2025-02", "2025-03", "2025-04"]
    );
}

#[test]
fn months_of_moments_without_a_date() {
    assert!(three_month_candidates(i64::MAX).is_empty());
    assert!(three_month_candidates(i64::MIN).is_empty());
    assert!(three_month_candidates(8_210_266_876_800).is_empty());
    assert!(three_month_candidates(-8_334_601_228_801).is_empty());
    assert_eq!(three_month_candidates(8_210_266_876_799).len(), 3);
    assert_eq!(three_month_candidates(-8_334_601_228_800).len(), 3);
    assert!(months_to_search(i64::MAX, AttachmentKind::Image).is_empty());
}

#[test]
fn names_of_months_and_their_order() {
    assert_eq!(months_around(5, 1), vec!["0004-12", "0005-01", "0005-02"]);
    assert_eq!(months_around(-3, 12), vec!["-003-11", "-003-12", "-002-01"]);
    assert_eq!(
        months_around(i32::MAX, 12),
        vec!["2147483647-11", "2147483647-12", "2147483648-01"]
    );
    assert_eq!(
        search_order(months_around(2025, 8)),
        vec!["2025-08", "2025-07", "2025-09"]
    );
    assert_eq!(
        months_to_search(local_noon(2025, 8, 15), AttachmentKind::Image),
        vec!["2025-08", "2025-07", "2025-09"]
    );
    for kind in [
        AttachmentKind::Voice,
        AttachmentKind::Video,
        AttachmentKind::File,
    ] {
        assert_eq!(
            months_to_search(local_noon(2025, 8, 15), kind),
            vec!["2025-07", "2025-08", "2025-09"]
        );
    }
    assert!(months_to_search(i64::MIN, AttachmentKind::Voice).is_empty());
}

#[test]
fn months_over_the_end_of_a_year() {
    let ts = chrono::Local
        .with_ymd_and_hms(2024, 1, 15, 12, 0, 0)
        .unwrap()
        .timestamp();
    assert_eq!(
        three_month_candidates(ts),
        vec!["2023-12", "2024-01", "2024-02"]
    );
}

#[test]
fn pick_best_prefers_full_then_h_then_t() {
    let md5 = "abcd1234";
    let thumb = format!("Img/{}_t.dat", md5);
    let hd = format!("Img/{}_h.dat", md5);
    let full = format!("Img/{}.dat", md5);
    let pick = |disk: &MemDisk| disk.find(pick_best_in_img_dir(place("Img"), md5.to_string()));
    let disk = MemDisk::with(&[(&thumb, 5), (&hd, 2)]);
    assert_eq!(
        file_name(&pick(&disk).unwrap()),
        format!("{}_h.dat", md5).as_str()
    );
    let disk = MemDisk::with(&[(&thumb, 5), (&hd, 2), (&full, 4)]);
    assert_eq!(
        file_name(&pick(&disk).unwrap()),
        format!("{}.dat", md5).as_str()
    );
    let disk = MemDisk::with(&[(&thumb, 5)]);
    assert_eq!(pick(&disk), Some(thumb));
    let disk = MemDisk::with(&[("Img/abcd1234_x.dat", 5)]);
    assert_eq!(pick(&disk), None);
    assert_eq!(pick(&MemDisk::with(&[])), None);
}

#[test]
fn find_media_file_finds_voice_by_month_voice_dir() {
    let chat = "room@chatroom";
    let chat_hash = format!("{:x}", md5::compute(chat.as_bytes()));
    let ts = chrono::Local
        .with_ymd_and_hms(2026, 6, 9, 12, 0, 0)
        .unwrap()
        .timestamp();
    let md5 = "00112233445566778899aabbccddeeff";
    let path = format!("{}/2026-06/Voice/{}.aud", chat_hash, md5);
    let disk = MemDisk::with(&[(&path, 5)]);
    let found = disk
        .find(find_media_file(
            chat,
            md5.to_string(),
            ts,
            AttachmentKind::Voice,
        ))
        .unwrap();
    assert_eq!(file_name(&found), format!("{}.aud", md5).as_str());
    assert_eq!(found, path);
}

#[test]
fn find_media_file_voice_recurses_when_layout_unknown() {
    let chat = "room@chatroom";
    let ts = chrono::Local
        .with_ymd_and_hms(2026, 6, 9, 12, 0, 0)
        .unwrap()
        .timestamp();
    let md5 = "abcdefabcdefabcdefabcdefabcdefab";
    let path = format!("somehash/2026-06/NotVoice/{}.silk", md5);
    let disk = MemDisk::with(&[(&path, 5)]);
    let found = disk
        .find(find_media_file(
            chat,
            md5.to_string(),
            ts,
            AttachmentKind::Voice,
        ))
        .unwrap();
    assert_eq!(file_name(&found), format!("{}.silk", md5).as_str());
    let picture = find_media_file(chat, md5.to_string(), ts, AttachmentKind::Image);
    assert_eq!(disk.find(picture), None);
}

#[test]
fn the_tree_gives_the_largest_fitting_file() {
    let disk = MemDisk::with(&[
        ("a/abc1.silk", 3),
        ("a/b/abc2", 9),
        ("c/abc3.wav", 9),
        ("c/xabc", 50),
    ]);
    let search = search_from(
        "none".to_string(),
        Vec::new(),
        "abc".to_string(),
        AttachmentKind::Voice,
    );
    // The last directory is visited first.
    assert_eq!(disk.find(search), Some("c/abc3.wav".to_string()));
}

#[test]
fn images_are_found_in_any_month_and_nearby_months_first() {
    let chat = "room@chatroom";
    let dir = md5_hex(chat);
    let ts = chrono::Local
        .with_ymd_and_hms(2026, 6, 9, 12, 0, 0)
        .unwrap()
        .timestamp();
    let far = format!("{}/2020-01/Img/abc.dat", dir);
    let disk = MemDisk::with(&[(&far, 5)]);
    assert_eq!(
        disk.find(find_dat_file(chat, "abc".to_string(), ts)),
        Some(far.clone())
    );
    let near = format!("{}/2026-07/Img/abc_t.dat", dir);
    let disk = MemDisk::with(&[(&far, 5), (&near, 1)]);
    assert_eq!(
        disk.find(find_dat_file(chat, "abc".to_string(), ts)),
        Some(near)
    );
}

#[test]
fn the_months_of_other_kinds_are_tried_as_they_follow() {
    let chat = "room@chatroom";
    let dir = md5_hex(chat);
    let ts = local_noon(2026, 6, 9);
    for (kind, name) in [
        (AttachmentKind::Voice, "Voice/abc.silk"),
        (AttachmentKind::Video, "Video/abc.mp4"),
        (AttachmentKind::File, "abc"),
    ] {
        let before = format!("{}/2026-05/{}", dir, name);
        let own = format!("{}/2026-06/{}", dir, name);
        let behind = format!("{}/2026-07/{}", dir, name);
        let disk = MemDisk::with(&[(&behind, 9), (&own, 5), (&before, 1)]);
        assert_eq!(
            disk.find(find_media_file(chat, "abc".to_string(), ts, kind)),
            Some(before)
        );
        let disk = MemDisk::with(&[(&behind, 9), (&own, 5)]);
        assert_eq!(
            disk.find(find_media_file(chat, "abc".to_string(), ts, kind)),
            Some(own)
        );
    }
}

#[test]
fn the_full_image_of_the_own_month_wins() {
    let chat = "room@chatroom";
    let dir = md5_hex(chat);
    let ts = local_noon(2026, 6, 9);
    let own = format!("{}/2026-06/Img/abc.dat", dir);
    let before = format!("{}/2026-05/Img/abc_t.dat", dir);
    let disk = MemDisk::with(&[(&own, 5), (&before, 1)]);
    assert_eq!(
        disk.find(find_dat_file(chat, "abc".to_string(), ts)),
        Some(own.clone())
    );
    let full_before = format!("{}/2026-05/Img/abc.dat", dir);
    let disk = MemDisk::with(&[(&own, 5), (&full_before, 1)]);
    assert_eq!(
        disk.find(find_dat_file(chat, "abc".to_string(), ts)),
        Some(own)
    );
    let own_thumb = format!("{}/2026-06/Img/abc_t.dat", dir);
    let behind = format!("{}/2026-07/Img/abc_h.dat", dir);
    let disk = MemDisk::with(&[(&own_thumb, 5), (&behind, 1)]);
    assert_eq!(
        disk.find(find_dat_file(chat, "abc".to_string(), ts)),
        Some(behind.clone())
    );
    let disk = MemDisk::with(&[(&own_thumb, 5), (&behind, 1), (&full_before, 1)]);
    assert_eq!(
        disk.find(find_dat_file(chat, "abc".to_string(), ts)),
        Some(full_before)
    );
    let old = format!("{}/2019-01/Img/abc_t.dat", dir);
    let older = format!("{}/2020-01/Img/abc_h.dat", dir);
    let disk = MemDisk::with(&[(&old, 5), (&older, 1)]);
    assert_eq!(
        disk.find(find_dat_file(chat, "abc".to_string(), ts)),
        Some(older)
    );
}

#[test]
fn months_are_tried_in_the_order_of_their_names() {
    let search = |kind: AttachmentKind| {
        search_from("c".to_string(), Vec::new(), "abc".to_string(), kind)
    };
    let disk = MemDisk::with(&[("c/2021-05/Video/abc.mov", 1), ("c/2020-12/Video/abc.mp4", 1)]);
    assert_eq!(
        disk.find(search(AttachmentKind::Video)),
        Some("c/2020-12/Video/abc.mp4".to_string())
    );
    let disk = MemDisk::with(&[("c/2021-05/abc.pdf", 4), ("c/2021-05/abc.doc", 6)]);
    assert_eq!(
        disk.find(search(AttachmentKind::File)),
        Some("c/2021-05/abc.doc".to_string())
    );
}

#[test]
fn names_that_are_no_text_never_fit() {
    let search = search_from(
        "c".to_string(),
        Vec::new(),
        "abc".to_string(),
        AttachmentKind::File,
    );
    let search = search
        .answer(SearchAnswer::Yes(true))
        .answer(SearchAnswer::Entries(Some(vec![DirEntry {
            name: b"2020-01".to_vec(),
            kind: EntryKind::Dir,
        }])))
        .answer(SearchAnswer::Yes(true))
        .answer(SearchAnswer::Yes(false))
        .answer(SearchAnswer::Entries(Some(vec![DirEntry {
            name: b"abc\xff".to_vec(),
            kind: EntryKind::File,
        }])));
    assert!(matches!(search.question(), SearchQuestion::Nothing(None)));
}

#[test]
fn an_unreadable_chat_directory_ends_the_search() {
    let search = search_from(
        "c".to_string(),
        Vec::new(),
        "abc".to_string(),
        AttachmentKind::Voice,
    );
    let search = search
        .answer(SearchAnswer::Yes(true))
        .answer(SearchAnswer::Entries(None));
    assert!(matches!(search.question(), SearchQuestion::Nothing(None)));
}

#[test]
fn media_names_and_kinds() {
    assert_eq!(
        exact_media_names("d", AttachmentKind::Image),
        vec!["d.dat", "d_h.dat", "d_t.dat"]
    );
    assert_eq!(
        exact_media_names("d", AttachmentKind::Voice),
        vec!["d", "d.aud", "d.amr", "d.silk", "d.wav", "d.m4a", "d.mp3", "d.dat"]
    );
    assert_eq!(
        exact_media_names("d", AttachmentKind::Video),
        vec!["d.mp4", "d.mov", "d.m4v", "d.dat"]
    );
    assert_eq!(exact_media_names("d", AttachmentKind::File), vec!["d"]);
    assert_eq!(AttachmentKind::Voice.as_str(), "voice");
    assert_eq!(AttachmentKind::Image.message_type(), 3);
    assert_eq!(AttachmentKind::Voice.message_type(), 34);
    assert_eq!(AttachmentKind::Video.message_type(), 43);
    assert_eq!(AttachmentKind::File.message_type(), 49);
}

#[test]
fn digests_roots_and_orders() {
    assert_eq!(md5_hex(""), "d41d8cd98f00b204e9800998ecf8427e");
    assert_eq!(md5_hex("abc"), "900150983cd24fb0d6963f7d28e17f72");
    assert_eq!(hex_text(&[0x00, 0x9f, 0xff]), "009fff");
    assert_eq!(shown(&attach_root_for(&place("u/wxid"))), "u/wxid/msg/attach");
    let sorted = sort_names(vec![b"b".to_vec(), b"ab".to_vec(), b"a".to_vec()]);
    assert_eq!(sorted, vec![b"a".to_vec(), b"ab".to_vec(), b"b".to_vec()]);
    assert_eq!(largest_size(&vec![3, 9, 9, 1]), Some(1));
    assert_eq!(largest_size(&Vec::new()), None);
}
