use quiverfs::is_hidden;
use quiverfs::discover_data_files;
use quiverfs::FsNode;

fn file(name: &str) -> FsNode {
    FsNode::File { name: name.to_string() }
}

fn dir(name: &str, children: Vec<FsNode>) -> FsNode {
    FsNode::Dir { name: name.to_string(), children }
}

#[test]
fn test_is_hidden() {
    assert!(is_hidden(".hidden"));
    assert!(is_hidden(".hidden.arrow"));
    assert!(!is_hidden("visible.arrow"));
}

#[test]
fn test_discover_data_files() {
    let root = dir(
        "root",
        vec![
            file("a.arrow"),
            file("b.feather"),
            file("c.parquet"),
            dir("subdir", vec![file("d.arrow"), file(".hidden2.feather")]),
            file(".hidden.arrow"),
            file(".tmp.parquet"),
            dir(".venv", vec![file("e.arrow")]),
            dir(".hidden_dir", vec![file("f.feather")]),
            dir(".cache", vec![file("data.parquet")]),
        ],
    );

    let found = discover_data_files(&root);

    // Only visible files in visible directories are found.
    for path in &["a.arrow", "b.feather", "c.parquet", "subdir/d.arrow"] {
        assert!(
            found.iter().any(|p| p == path),
            "Missing {}",
            path
        );
    }

    // Hidden files, and files inside hidden directories, are not.
    for name in &[
        ".hidden.arrow",
        ".hidden2.feather",
        ".tmp.parquet",
        "e.arrow",
        "f.feather",
        "data.parquet",
    ] {
        assert!(
            !found.iter().any(|p| p.ends_with(name)),
            "Should not find hidden or nested file: {name}"
        );
    }
}

#[test]
fn test_discover_order_and_paths() {
    let root = dir(
        "src",
        vec![
            dir("inner", vec![file("x.parquet"), file("notes.md")]),
            file("y.arrow"),
        ],
    );
    assert_eq!(
        discover_data_files(&root),
        vec!["inner/x.parquet".to_string(), "y.arrow".to_string()]
    );
}

#[test]
fn test_discover_extensions_match_exactly() {
    // Discovery compares extensions exactly, so an uppercase
    // extension is not collected.
    let root = dir("root", vec![file("UPPER.ARROW"), file("lower.arrow")]);
    assert_eq!(discover_data_files(&root), vec!["lower.arrow".to_string()]);
}

#[test]
fn test_discover_non_directory_root() {
    let root = file("alone.parquet");
    assert!(discover_data_files(&root).is_empty());
}

#[test]
fn test_discover_visible_directory_with_data_name() {
    // A directory whose own name looks like a data file is descended
    // into, not collected.
    let root = dir(
        "root",
        vec![dir("tables.arrow", vec![file("inner.parquet")])],
    );
    assert_eq!(
        discover_data_files(&root),
        vec!["tables.arrow/inner.parquet".to_string()]
    );
}
