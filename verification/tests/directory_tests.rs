use shellai::directory::{scan_directory, FsTree};

fn file(name: &str) -> FsTree {
    FsTree::File { name: name.to_string() }
}

fn dir(name: &str, children: Vec<FsTree>) -> FsTree {
    FsTree::Dir { name: name.to_string(), children }
}

#[test]
fn test_scan_directory() {
    // The same structure the original exercised on a temporary directory.
    let root = dir(
        "root",
        vec![
            dir("subdir1", vec![dir("nested", vec![file("file3.txt")]), file("file2.txt")]),
            dir("subdir2", vec![]),
            file("file1.txt"),
            file(".hidden_file"),
            dir(".hidden_dir", vec![]),
        ],
    );

    let result = scan_directory(&root, 2, 0);

    assert!(result.contains("📁 subdir1/"));
    assert!(result.contains("📁 subdir2/"));
    assert!(result.contains("📄 file1.txt"));
    assert!(result.contains("📁 nested/"));
    assert!(result.contains("📄 file2.txt"));

    assert!(!result.contains(".hidden_file"));
    assert!(!result.contains(".hidden_dir"));

    let limited_result = scan_directory(&root, 0, 0);
    assert!(limited_result.contains("📁 subdir1/"));
    assert!(limited_result.contains("..."));
    assert!(!limited_result.contains("📄 file2.txt"));
}

#[test]
fn scan_output_is_exact_and_sorted() {
    // Unsorted children: directories must come first, each partition sorted.
    let root = dir(
        "root",
        vec![file("b.txt"), dir("z", vec![]), file("a.txt"), dir("y", vec![])],
    );
    let result = scan_directory(&root, 2, 0);
    assert_eq!(result, "📁 y/\n📁 z/\n📄 a.txt\n📄 b.txt\n");
}

#[test]
fn scan_depth_zero_shows_children_only() {
    // At max_depth 0 the subdirectory line is followed by the literal
    // placeholder and no grandchild appears.
    let root = dir(
        "root",
        vec![dir("sub", vec![file("grandchild.txt")]), file("a.txt")],
    );
    let result = scan_directory(&root, 0, 0);
    assert_eq!(result, "📁 sub/\n...📄 a.txt\n");
    assert!(!result.contains("grandchild.txt"));
}

#[test]
fn scan_skips_hidden_at_every_depth() {
    let root = dir(
        "root",
        vec![
            dir("visible", vec![file(".deep_hidden"), dir(".deep_hidden_dir", vec![]), file("kept.txt")]),
            file(".top_hidden"),
        ],
    );
    let result = scan_directory(&root, 3, 0);
    assert!(!result.contains("hidden"));
    assert!(result.contains("📄 kept.txt"));
}

#[test]
fn scan_past_depth_limit_is_placeholder() {
    let root = dir("root", vec![file("a.txt")]);
    assert_eq!(scan_directory(&root, 1, 2), "...");
    let leaf = file("a.txt");
    assert_eq!(scan_directory(&leaf, 1, 0), "");
}

#[test]
fn scan_empty_directory_is_empty() {
    let root = dir("root", vec![]);
    assert_eq!(scan_directory(&root, 2, 0), "");
}
