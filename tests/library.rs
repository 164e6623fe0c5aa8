use std::io::Write;

use liviewrrr::archive::{is_safe_entry_name, names_directory, plan_extraction};
use liviewrrr::images::{is_image_entry, is_supported_extension, select_images};
use liviewrrr::paths::join_path;
use liviewrrr::siblings::{resolve_sibling_parent, select_siblings, sibling_parent, siblings_among};
use liviewrrr::{
    ArchiveHandler, ArchiveManager, CommandError, DirEntryInfo, ExtractStep, ExtractionRegistry,
    FileEntry, RawEntry, TempFolder,
};

fn file(dir: &str, name: &str, ext: Option<&str>) -> FileEntry {
    FileEntry {
        path: format!("{}/{}", dir, name),
        is_file: true,
        extension: ext.map(|e| e.to_string()),
    }
}

fn subdir(dir: &str, name: &str) -> FileEntry {
    FileEntry { path: format!("{}/{}", dir, name), is_file: false, extension: None }
}

fn dir_entry(parent: &str, name: &str, is_dir: bool) -> DirEntryInfo {
    DirEntryInfo { path: format!("{}/{}", parent, name), name: name.to_string(), is_dir }
}

fn zip_bytes(entries: &[(&str, Option<&[u8]>)]) -> Vec<u8> {
    let mut w = zip::ZipWriter::new(std::io::Cursor::new(Vec::new()));
    for (name, data) in entries {
        match data {
            None => w.add_directory(*name, zip::write::SimpleFileOptions::default()).unwrap(),
            Some(bytes) => {
                w.start_file(*name, zip::write::SimpleFileOptions::default()).unwrap();
                w.write_all(bytes).unwrap();
            }
        }
    }
    w.finish().unwrap().into_inner()
}

#[test]
fn test_list_images_in_folder_success() {
    let dir = "/tmp/test_list_images_success".to_string();
    let entries = vec![
        file(&dir, "image1.jpg", Some("jpg")),
        file(&dir, "image2.PNG", Some("PNG")),
        file(&dir, "document.txt", Some("txt")),
    ];
    let images = select_images(&entries);
    assert_eq!(images.len(), 2);
    assert!(images.iter().any(|p| p.ends_with("image1.jpg")));
    assert!(images.iter().any(|p| p.ends_with("image2.PNG")));
}

#[test]
fn test_get_sibling_folders_success() {
    let base = "/tmp/test_siblings_success".to_string();
    let entries = vec![dir_entry(&base, "A", true), dir_entry(&base, "B", true), dir_entry(&base, "C", true)];
    let current_path = format!("{}/B", base);
    let mut result = select_siblings(&current_path, &entries);
    result.sort();
    let mut expected = vec![format!("{}/A", base), format!("{}/C", base)];
    expected.sort();
    assert_eq!(result, expected);
}

#[test]
fn test_get_sibling_folders_not_found() {
    let result = resolve_sibling_parent(&"non_existent_path_for_siblings".to_string(), false);
    assert!(matches!(result, Err(CommandError::PathNotFound(_))));
}

#[test]
fn test_extract_to_temp() {
    let bytes = zip_bytes(&[("test.png", Some(b"\x89PNG-bytes"))]);
    let steps = ArchiveManager::plan_archive(bytes).unwrap();
    assert_eq!(steps.len(), 1);
}

#[test]
fn test_get_first_image() {
    let entries = vec![
        subdir("x", "pages"),
        file("x", "notes.txt", Some("txt")),
        file("x", "001.png", Some("png")),
        file("x", "002.jpg", Some("jpg")),
    ];
    let image_path = ArchiveManager::get_first_image(&entries);
    assert!(image_path.is_some());
    assert_eq!(image_path.unwrap(), "x/001.png");
}

#[test]
fn first_image_absent() {
    let entries = vec![file("x", "a.txt", Some("txt")), file("x", "README", None), subdir("x", "d.png")];
    assert_eq!(ArchiveManager::get_first_image(&entries), None);
}

#[test]
fn shallow_listing_ignores_case_and_non_images() {
    let entries = vec![
        file("d", "a.jpg", Some("jpg")),
        file("d", "b.PNG", Some("PNG")),
        file("d", "c.txt", Some("txt")),
    ];
    assert_eq!(select_images(&entries), vec!["d/a.jpg".to_string(), "d/b.PNG".to_string()]);
}

#[test]
fn recursive_listing_at_depth_two() {
    let entries = vec![
        file("root/x/y", "a.jpg", Some("jpg")),
        file("root/x/y", "b.PNG", Some("PNG")),
        file("root/x/y", "c.txt", Some("txt")),
        subdir("root", "x"),
        subdir("root/x", "y"),
    ];
    assert_eq!(
        select_images(&entries),
        vec!["root/x/y/a.jpg".to_string(), "root/x/y/b.PNG".to_string()]
    );
}

#[test]
fn listing_skips_directories_and_missing_extensions() {
    let entries = vec![
        subdir("d", "folder.png"),
        file("d", "noext", None),
        file("d", "anim.GiF", Some("GiF")),
        file("d", "photo.JPEG", Some("JPEG")),
        file("d", "pic.WebP", Some("WebP")),
        file("d", "pic.bmp", Some("bmp")),
    ];
    assert_eq!(
        select_images(&entries),
        vec!["d/anim.GiF".to_string(), "d/photo.JPEG".to_string(), "d/pic.WebP".to_string()]
    );
    assert!(select_images(&Vec::new()).is_empty());
}

#[test]
fn supported_extension_expects_lowercase() {
    for e in ["png", "jpg", "jpeg", "gif", "webp"] {
        assert!(is_supported_extension(e));
    }
    assert!(!is_supported_extension("PNG"));
    assert!(!is_supported_extension("jpegx"));
    assert!(!is_supported_extension(""));
    assert!(!is_supported_extension("txt"));
}

#[test]
fn image_entry_lowercases_extension() {
    assert!(is_image_entry(&file("d", "X.PNG", Some("PNG"))));
    assert!(is_image_entry(&file("d", "X.Jpg", Some("Jpg"))));
    assert!(!is_image_entry(&subdir("d", "X.png")));
}

#[test]
fn siblings_of_root_have_no_parent() {
    let result = resolve_sibling_parent(&"/".to_string(), true);
    assert_eq!(result, Err(CommandError::NoParent));
}

#[test]
fn sibling_parent_of_existing_path() {
    assert_eq!(resolve_sibling_parent(&"/base/B".to_string(), true), Ok("/base".to_string()));
    assert_eq!(
        sibling_parent(&"p".to_string(), false, Some("q".to_string())),
        Err(CommandError::PathNotFound("p".to_string()))
    );
    assert_eq!(sibling_parent(&"p".to_string(), true, None), Err(CommandError::NoParent));
    assert_eq!(sibling_parent(&"p".to_string(), true, Some("q".to_string())), Ok("q".to_string()));
}

#[test]
fn siblings_keep_only_other_directories() {
    let entries = vec![
        dir_entry("base", "A", true),
        dir_entry("base", "B", true),
        dir_entry("base", "notes.txt", false),
        dir_entry("base", "C", true),
    ];
    let result = select_siblings(&"base/B".to_string(), &entries);
    assert_eq!(result, vec!["base/A".to_string(), "base/C".to_string()]);
    assert!(!result.contains(&"base/B".to_string()));
    let all = siblings_among(&None, &"elsewhere".to_string(), &entries);
    assert_eq!(all, vec!["base/A".to_string(), "base/B".to_string(), "base/C".to_string()]);
    let by_path = siblings_among(&None, &"base/C".to_string(), &entries);
    assert_eq!(by_path, vec!["base/A".to_string(), "base/B".to_string()]);
}

#[test]
fn entry_name_safety() {
    assert!(is_safe_entry_name("dir/x.png"));
    assert!(is_safe_entry_name("a/../b.png"));
    assert!(is_safe_entry_name("./a/./b"));
    assert!(is_safe_entry_name("dir/"));
    assert!(is_safe_entry_name("...png"));
    assert!(!is_safe_entry_name("../evil.png"));
    assert!(!is_safe_entry_name("a/../../b"));
    assert!(!is_safe_entry_name("/etc/passwd"));
    assert!(!is_safe_entry_name("a\\..\\..\\b"));
    assert!(!is_safe_entry_name(".."));
}

#[test]
fn directory_names() {
    assert!(names_directory("dir/"));
    assert!(names_directory("dir\\"));
    assert!(!names_directory("dir/x.png"));
    assert!(!names_directory(""));
}

#[test]
fn plan_rejects_escaping_entry() {
    let entries = vec![
        RawEntry { name: "ok.png".to_string(), data: vec![1] },
        RawEntry { name: "../evil.png".to_string(), data: vec![2] },
        RawEntry { name: "/abs.png".to_string(), data: vec![3] },
    ];
    assert_eq!(plan_extraction(&entries).unwrap_err(), CommandError::UnsafeEntry("../evil.png".to_string()));
}

#[test]
fn plan_keeps_entries_in_order() {
    let entries = vec![
        RawEntry { name: "dir/".to_string(), data: vec![] },
        RawEntry { name: "dir/x.png".to_string(), data: vec![1, 2, 3] },
    ];
    let steps = plan_extraction(&entries).unwrap();
    assert_eq!(steps.len(), 2);
    assert!(matches!(&steps[0], ExtractStep::CreateDir { dir } if dir == "dir/"));
    assert!(matches!(&steps[1], ExtractStep::WriteFile { file, data } if file == "dir/x.png" && data == &vec![1, 2, 3]));
}

#[test]
fn extract_container_with_two_images() {
    let x: &[u8] = b"first image bytes";
    let y: &[u8] = b"second image bytes, longer";
    let bytes = zip_bytes(&[("dir/x.png", Some(x)), ("dir/y.png", Some(y))]);
    let steps = ArchiveManager::plan_archive(bytes).unwrap();
    assert_eq!(steps.len(), 2);
    assert!(matches!(&steps[0], ExtractStep::WriteFile { file, data } if file == "dir/x.png" && data.as_slice() == x));
    assert!(matches!(&steps[1], ExtractStep::WriteFile { file, data } if file == "dir/y.png" && data.as_slice() == y));
}

#[test]
fn extraction_round_trip_names_and_content() {
    let files: Vec<(String, Vec<u8>)> =
        (0..5).map(|i| (format!("p/{}.jpg", i), vec![i as u8; 10 * i + 1])).collect();
    let list: Vec<(&str, Option<&[u8]>)> =
        files.iter().map(|(n, d)| (n.as_str(), Some(d.as_slice()))).collect();
    let steps = ArchiveManager::plan_archive(zip_bytes(&list)).unwrap();
    let mut written: Vec<(String, Vec<u8>)> = steps
        .into_iter()
        .map(|s| match s {
            ExtractStep::WriteFile { file, data } => (file, data),
            ExtractStep::CreateDir { dir } => panic!("unexpected directory {}", dir),
        })
        .collect();
    written.sort();
    let mut expected = files.clone();
    expected.sort();
    assert_eq!(written, expected);
}

#[test]
fn extract_directory_entry() {
    let bytes = zip_bytes(&[("dir/", None), ("dir/a.gif", Some(b"g"))]);
    let steps = ArchiveManager::plan_archive(bytes).unwrap();
    assert!(matches!(&steps[0], ExtractStep::CreateDir { dir } if dir == "dir/"));
    assert!(matches!(&steps[1], ExtractStep::WriteFile { file, .. } if file == "dir/a.gif"));
}

#[test]
fn archive_with_escaping_entry_is_refused() {
    let bytes = zip_bytes(&[("fine.png", Some(b"a")), ("../outside.png", Some(b"b"))]);
    assert_eq!(
        ArchiveManager::plan_archive(bytes).unwrap_err(),
        CommandError::UnsafeEntry("../outside.png".to_string())
    );
}

#[test]
fn corrupt_archive_is_a_format_error() {
    let result = ArchiveManager::plan_archive(b"not a zip at all".to_vec());
    assert!(matches!(result, Err(CommandError::ArchiveFormat(_))));
    assert!(matches!(ArchiveManager::plan_archive(Vec::new()), Err(CommandError::ArchiveFormat(_))));
}

#[test]
fn join_path_puts_one_separator() {
    assert_eq!(join_path("/cache", "abc"), "/cache/abc");
    assert_eq!(join_path("", "x"), "/x");
}

#[test]
fn allocated_paths_are_distinct_and_under_base() {
    let base = "/tmp/area";
    let mut seen: Vec<String> = Vec::new();
    for _ in 0..16 {
        let p = TempFolder::allocate_path(base);
        assert!(p.starts_with("/tmp/area/"));
        let id = &p[base.len() + 1..];
        assert_eq!(id.len(), 36);
        assert!(id.chars().all(|c| c == '-' || c.is_ascii_digit() || ('a'..='f').contains(&c)));
        assert!(!seen.contains(&p));
        seen.push(p);
    }
}

#[test]
fn registry_keeps_insertion_order() {
    let mut r = ExtractionRegistry::new();
    assert!(r.list().is_empty());
    r.record("/t/one".to_string());
    r.record("/t/two".to_string());
    r.record("/t/one".to_string());
    assert_eq!(r.list(), vec!["/t/one".to_string(), "/t/two".to_string(), "/t/one".to_string()]);
}

#[test]
fn handler_destination_and_records() {
    let mut h = ArchiveHandler::new("/tmp/root".to_string());
    assert_eq!(h.root_path(), "/tmp/root");
    let d1 = h.destination_for(&"/comics/vol1.zip".to_string()).unwrap();
    assert!(d1.starts_with("/tmp/root/vol1-"));
    assert_eq!(d1.len(), "/tmp/root/vol1-".len() + 36);
    assert!(matches!(h.destination_for(&"/".to_string()), Err(CommandError::Io(_))));
    let bytes = zip_bytes(&[("p1.png", Some(b"1"))]);
    let (dest, steps) = h.prepare_extraction(&"/comics/vol2.cbz".to_string(), bytes).unwrap();
    assert!(dest.starts_with("/tmp/root/vol2-"));
    assert_eq!(steps.len(), 1);
    assert!(h.get_extracted_dirs().is_empty());
    h.record_extraction(dest.clone());
    assert_eq!(h.get_extracted_dirs(), vec![dest]);
}

#[test]
fn same_stem_archives_get_separate_destinations() {
    let h = ArchiveHandler::new("/tmp/root".to_string());
    let a = zip_bytes(&[("dir/x.png", Some(b"x"))]);
    let b = zip_bytes(&[("dir/y.png", Some(b"y"))]);
    let (d1, _) = h.prepare_extraction(&"/c/vol.zip".to_string(), a.clone()).unwrap();
    let (d2, _) = h.prepare_extraction(&"/d/vol.cbz".to_string(), b).unwrap();
    let (d3, _) = h.prepare_extraction(&"/c/vol.zip".to_string(), a).unwrap();
    assert_ne!(d1, d2);
    assert_ne!(d1, d3);
    assert_ne!(d2, d3);
    for d in [&d1, &d2, &d3] {
        assert!(d.starts_with("/tmp/root/vol-"));
    }
    assert!(!d1.starts_with(&format!("{}/", d2)) && !d2.starts_with(&format!("{}/", d1)));
}

#[test]
fn prepare_extraction_errors() {
    let h = ArchiveHandler::new("/tmp/root".to_string());
    let bad = h.prepare_extraction(&"/c/vol.zip".to_string(), b"garbage".to_vec());
    assert!(matches!(bad, Err(CommandError::ArchiveFormat(_))));
    let escaping = zip_bytes(&[("../x.png", Some(b"x"))]);
    let refused = h.prepare_extraction(&"/c/vol.zip".to_string(), escaping);
    assert!(matches!(refused, Err(CommandError::UnsafeEntry(n)) if n == "../x.png"));
}

#[test]
fn names_with_drive_prefix_or_nul_are_refused() {
    assert!(!is_safe_entry_name("C:/x.png"));
    assert!(!is_safe_entry_name("C:x.png"));
    assert!(!is_safe_entry_name("a/b:stream"));
    assert!(!is_safe_entry_name("a\0b.png"));
    assert!(is_safe_entry_name("a/b.png"));
}

#[test]
fn portable_hardening_refuses_names_harmless_on_unix() {
    // `:` and `\` are refused on every platform, since on Windows they
    // select a drive or separate components.
    assert!(!is_safe_entry_name("a:b.png"));
    assert!(!is_safe_entry_name("x\\..\\..\\y"));
    assert!(is_safe_entry_name("x\\..\\y"));
    let entries = vec![RawEntry { name: "a:b.png".to_string(), data: vec![7] }];
    assert_eq!(plan_extraction(&entries).unwrap_err(), CommandError::UnsafeEntry("a:b.png".to_string()));
}
