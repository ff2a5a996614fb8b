use firaw_ssh::keys::PathStyle;
use firaw_ssh::listing::{
    listing_order, local_entry, local_home, remote_entry, requested_local_folder,
    requested_remote_folder, sort_local_entries, sort_remote_entries, text_less,
};

#[test]
fn remote_entries_from_attributes() {
    let e = remote_entry(PathStyle::Unix, "/srv/www", Some(4096), Some(1700), Some(0o040755));
    assert_eq!((e.name.as_str(), e.path.as_str(), e.is_directory, e.size, e.modified, e.permissions), ("www", "/srv/www", true, 4096, 1700, 0o040755));
    let f = remote_entry(PathStyle::Windows, "dir\\file.txt", None, None, None);
    assert_eq!((f.name.as_str(), f.path.as_str(), f.is_directory, f.size, f.modified, f.permissions), ("file.txt", "dir/file.txt", false, 0, 0, 0));
    let g = remote_entry(PathStyle::Unix, "dir\\file.txt", None, None, None);
    assert_eq!((g.name.as_str(), g.path.as_str()), ("dir\\file.txt", "dir/file.txt"));
    let h = remote_entry(PathStyle::Unix, "/", None, None, None);
    assert_eq!(h.name, "");
}

#[test]
fn folders_first_then_names_without_case() {
    let entries = vec![
        remote_entry(PathStyle::Unix, "/x/beta.txt", Some(1), None, Some(0o100644)),
        remote_entry(PathStyle::Unix, "/x/Alpha.txt", Some(2), None, Some(0o100644)),
        remote_entry(PathStyle::Unix, "/x/zeta", None, None, Some(0o040755)),
        remote_entry(PathStyle::Unix, "/x/Docs", None, None, Some(0o040755)),
        remote_entry(PathStyle::Unix, "/y/alpha.txt", Some(3), None, Some(0o100644)),
    ];
    let sorted = sort_remote_entries(&entries);
    let paths: Vec<&str> = sorted.iter().map(|e| e.path.as_str()).collect();
    assert_eq!(paths, vec!["/x/Docs", "/x/zeta", "/x/Alpha.txt", "/y/alpha.txt", "/x/beta.txt"]);
}

#[test]
fn local_entries_sort_the_same_way() {
    let entries = vec![
        local_entry("b", "C:\\b", false, 1, Some(10)),
        local_entry("A", "\\\\?\\C:\\A", true, 0, None),
        local_entry("a", "C:\\a", false, 1, Some(10)),
    ];
    assert_eq!(entries[1].path, "C:\\A");
    assert_eq!(entries[1].modified, 0);
    let sorted = sort_local_entries(&entries);
    let names: Vec<&str> = sorted.iter().map(|e| e.name.as_str()).collect();
    assert_eq!(names, vec!["A", "a", "b"]);
}

#[test]
fn order_of_names() {
    let a: Vec<char> = "abc".chars().collect();
    let b: Vec<char> = "abd".chars().collect();
    let p: Vec<char> = "ab".chars().collect();
    assert!(text_less(&a, &b));
    assert!(!text_less(&b, &a));
    assert!(text_less(&p, &a));
    assert!(!text_less(&a, &a));
    assert_eq!(listing_order(&vec![false, true], &vec!["b".to_string(), "a".to_string()]), vec![1, 0]);
    assert_eq!(listing_order(&vec![false, false, false], &vec!["É".to_string(), "e".to_string(), "E".to_string()]), vec![1, 2, 0]);
}

#[test]
fn requested_folders() {
    assert_eq!(requested_remote_folder("  "), ".");
    assert_eq!(requested_remote_folder(" /srv "), "/srv");
    assert_eq!(requested_local_folder("", Some("C:\\Users\\ana".into())), "C:\\Users\\ana");
    assert_eq!(requested_local_folder("", None), "C:\\");
    assert_eq!(requested_local_folder(" D:\\x ", None), "D:\\x");
    assert_eq!(local_home(None, Some("/home/ana".into())), "/home/ana");
    assert_eq!(local_home(Some("C:\\Users\\ana".into()), Some("/home/ana".into())), "C:\\Users\\ana");
    assert_eq!(local_home(None, None), ".");
}
