use std::path::Path;
use trypanophobe::paths::{compare_paths, file_name_bytes, file_name_of, is_prompt_file, sort_paths};

fn strings(v: &[&str]) -> Vec<String> {
    v.iter().map(|s| s.to_string()).collect()
}

#[test]
fn prompt_files_by_extension() {
    assert!(is_prompt_file("a.prompt"));
    assert!(is_prompt_file("/tmp/x/sub/b.PROMPT"));
    assert!(is_prompt_file("dir/..prompt"));
    assert!(!is_prompt_file(".prompt"));
    assert!(!is_prompt_file("dir/.prompt"));
    assert!(!is_prompt_file("a.prompt.txt"));
    assert!(!is_prompt_file("prompt"));
    assert!(!is_prompt_file("a.prompt/.."));
    assert!(!is_prompt_file(""));
}

#[test]
fn file_names_are_last_named_components() {
    assert_eq!(file_name_of("/tmp/a.prompt").as_deref(), Some("a.prompt"));
    assert_eq!(file_name_of("dir/sub/"), Some("sub".to_string()));
    assert_eq!(file_name_of("dir/./"), Some("dir".to_string()));
    assert_eq!(file_name_of("dir/.."), None);
    assert_eq!(file_name_of("/"), None);
    assert_eq!(file_name_of(""), None);
    assert_eq!(file_name_of("."), None);
}

#[test]
fn sort_orders_by_components() {
    let sorted = sort_paths(&strings(&["d/b.prompt", "d/a-c.prompt", "d/a/z.prompt", "d/a.prompt"]));
    assert_eq!(sorted, strings(&["d/a/z.prompt", "d/a-c.prompt", "d/a.prompt", "d/b.prompt"]));
}

#[test]
fn sort_keeps_every_path() {
    let input = strings(&["z", "a", "m/x", "m", "a"]);
    let sorted = sort_paths(&input);
    assert_eq!(sorted, strings(&["a", "a", "m", "m/x", "z"]));
    assert!(sort_paths(&vec![]).is_empty());
}

#[test]
fn path_order_matches_std() {
    let samples = ["a", "a/b", "a-c", "/a", "./a", "a/../b", "a//b", "a/./b", "b", "..", "A"];
    for x in samples.iter() {
        for y in samples.iter() {
            let ours = compare_paths(x, y);
            let theirs = match Path::new(x).cmp(Path::new(y)) {
                std::cmp::Ordering::Less => -1,
                std::cmp::Ordering::Equal => 0,
                std::cmp::Ordering::Greater => 1,
            };
            assert_eq!(ours, theirs, "{} vs {}", x, y);
        }
    }
}

#[test]
fn level_paths_keep_their_order() {
    let input = strings(&["b", "a//x", "a", "a/x/", "./a", "a/x"]);
    let sorted = sort_paths(&input);
    assert_eq!(sorted, strings(&["./a", "a", "a//x", "a/x/", "a/x", "b"]));
    let mut std_sorted: Vec<std::path::PathBuf> = input.iter().map(std::path::PathBuf::from).collect();
    std_sorted.sort();
    let std_strings: Vec<String> = std_sorted.iter().map(|p| p.to_str().unwrap().to_string()).collect();
    assert_eq!(sorted, std_strings);
}

#[test]
fn file_names_match_std() {
    let samples = [
        "", "/", ".", "..", "a", "a/", "a//", "a/.", "a/./", "a/..", "./a", "/a/b.prompt", "a/b/./.",
        "a/./b", "..a", "a..", "x/.../", "//", "/./", "a/.prompt", "dir/sub//",
    ];
    for x in samples.iter() {
        let theirs = Path::new(x).file_name().map(|n| n.to_str().unwrap().to_string());
        assert_eq!(file_name_of(x), theirs, "{:?}", x);
        let bytes = file_name_bytes(&x.as_bytes().to_vec()).map(|n| String::from_utf8(n).unwrap());
        assert_eq!(bytes, theirs, "{:?}", x);
    }
}
