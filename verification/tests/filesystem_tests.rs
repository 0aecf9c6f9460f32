use quiverfs::FileKind;
use quiverfs::FsError;
use quiverfs::QuiverFS;
use quiverfs::TTL_SECONDS;

fn names(v: &[&str]) -> Vec<String> {
    v.iter().map(|s| s.to_string()).collect()
}

fn listing_names(fs: &QuiverFS, offset: i64) -> Vec<String> {
    fs.readdir(1, offset)
        .expect("root must be enumerable")
        .into_iter()
        .map(|d| d.name)
        .collect()
}

#[test]
fn scenario_mixed_directory() {
    let fs = QuiverFS::new(names(&[
        "orders.parquet",
        "events.arrow",
        "readme.txt",
        ".secrets.parquet",
    ]));

    let orders = fs.lookup(1, "orders").expect("orders must resolve");
    assert_eq!(orders.ino, 2);
    let events = fs.lookup(1, "events").expect("events must resolve");
    assert_eq!(events.ino, 3);
    assert_eq!(fs.lookup(1, "readme"), Err(FsError::NotFound));
    assert_eq!(fs.lookup(1, ".secrets"), Err(FsError::NotFound));

    assert_eq!(
        listing_names(&fs, 0),
        vec![".", "..", "orders", "events"]
    );
}

#[test]
fn scenario_empty_directory() {
    let fs = QuiverFS::new(Vec::new());
    assert_eq!(listing_names(&fs, 0), vec![".", ".."]);
}

#[test]
fn scenario_degraded_mount_serves_empty_namespace() {
    // An unreadable or nonexistent source directory yields no child
    // names, not a failure: the mount still serves its root.
    let fs = QuiverFS::new(Vec::new());
    let root = fs.getattr(1).expect("root always has attributes");
    assert_eq!(root.kind, FileKind::Directory);
    assert_eq!(fs.lookup(1, "anything"), Err(FsError::NotFound));
    assert_eq!(fs.getattr(2), Err(FsError::NotFound));
}

#[test]
fn test_root_attribute_record() {
    let fs = QuiverFS::new(names(&["orders.parquet"]));
    let a = fs.getattr(1).expect("root always has attributes");
    assert_eq!(a.ino, 1);
    assert_eq!(a.size, 0);
    assert_eq!(a.blocks, 0);
    assert_eq!(a.atime, 0);
    assert_eq!(a.mtime, 0);
    assert_eq!(a.ctime, 0);
    assert_eq!(a.crtime, 0);
    assert_eq!(a.kind, FileKind::Directory);
    assert_eq!(a.perm, 0o755);
    assert_eq!(a.nlink, 2);
    assert_eq!(a.uid, 501);
    assert_eq!(a.gid, 20);
    assert_eq!(a.rdev, 0);
    assert_eq!(a.flags, 0);
    assert_eq!(a.blksize, 512);
    assert_eq!(TTL_SECONDS, 1);
}

#[test]
fn test_entry_attribute_record() {
    let fs = QuiverFS::new(names(&["orders.parquet", "events.arrow"]));
    let a = fs.getattr(3).expect("entry 3 exists");
    assert_eq!(a.ino, 3);
    assert_eq!(a.size, 0);
    assert_eq!(a.kind, FileKind::Directory);
    assert_eq!(a.perm, 0o755);
    assert_eq!(a.nlink, 2);
}

#[test]
fn test_unknown_identifier_not_found() {
    let fs = QuiverFS::new(names(&["orders.parquet"]));
    assert_eq!(fs.getattr(0), Err(FsError::NotFound));
    assert_eq!(fs.getattr(3), Err(FsError::NotFound));
    assert_eq!(fs.getattr(99), Err(FsError::NotFound));
    assert_eq!(fs.readdir(2, 0).err(), Some(FsError::NotFound));
}

#[test]
fn test_lookup_under_nonroot_parent_not_found() {
    let fs = QuiverFS::new(names(&["orders.parquet"]));
    assert_eq!(fs.lookup(2, "orders"), Err(FsError::NotFound));
    assert_eq!(fs.lookup(0, "orders"), Err(FsError::NotFound));
    assert_eq!(fs.lookup(42, "anything"), Err(FsError::NotFound));
}

#[test]
fn test_repeated_requests_identical() {
    let fs = QuiverFS::new(names(&["orders.parquet", "events.arrow"]));
    assert_eq!(fs.getattr(2), fs.getattr(2));
    assert_eq!(fs.getattr(7), fs.getattr(7));
    assert_eq!(fs.lookup(1, "events"), fs.lookup(1, "events"));
    assert_eq!(fs.lookup(1, "gone"), fs.lookup(1, "gone"));
    let first = listing_names(&fs, 0);
    let second = listing_names(&fs, 0);
    assert_eq!(first, second);
}

#[test]
fn test_readdir_chunked_enumeration() {
    let fs = QuiverFS::new(names(&["orders.parquet", "events.arrow", "trades.feather"]));
    let full = listing_names(&fs, 0);
    assert_eq!(full, vec![".", "..", "orders", "events", "trades"]);

    // Consume one item per call, resuming at the cursor each item
    // carries; the concatenation must reproduce the full listing.
    let mut collected: Vec<String> = Vec::new();
    let mut offset: i64 = 0;
    loop {
        let chunk = fs.readdir(1, offset).expect("root must be enumerable");
        match chunk.into_iter().next() {
            None => break,
            Some(item) => {
                offset = item.next_offset;
                collected.push(item.name);
            }
        }
    }
    assert_eq!(collected, full);

    // A cursor at or past the end yields the empty remainder.
    assert_eq!(fs.readdir(1, 5).expect("still enumerable").len(), 0);
    assert_eq!(fs.readdir(1, 99).expect("still enumerable").len(), 0);
    assert_eq!(fs.readdir(1, -3).expect("still enumerable").len(), 0);

    // Identifiers accompany the names in namespace order.
    let items = fs.readdir(1, 0).expect("root must be enumerable");
    let inos: Vec<u64> = items.iter().map(|d| d.ino).collect();
    assert_eq!(inos, vec![1, 1, 2, 3, 4]);
    for d in &items {
        assert_eq!(d.kind, FileKind::Directory);
    }
}

#[test]
fn test_duplicate_display_names() {
    // Two source files whose base names collide after extension
    // stripping are both listed, but lookup reaches only the first.
    let fs = QuiverFS::new(names(&["orders.arrow", "orders.parquet"]));
    assert_eq!(listing_names(&fs, 0), vec![".", "..", "orders", "orders"]);
    let hit = fs.lookup(1, "orders").expect("orders must resolve");
    assert_eq!(hit.ino, 2);
    assert!(fs.getattr(3).is_ok());
}

#[test]
fn test_case_insensitive_extensions() {
    let fs = QuiverFS::new(names(&["DATA.PARQUET", "weird.ArRoW", "plume.Feather"]));
    assert_eq!(
        listing_names(&fs, 0),
        vec![".", "..", "DATA", "weird", "plume"]
    );
    assert_eq!(fs.lookup(1, "DATA").expect("DATA must resolve").ino, 2);
    assert_eq!(fs.lookup(1, "data"), Err(FsError::NotFound));
}

#[test]
fn test_name_edge_cases() {
    let fs = QuiverFS::new(names(&[
        "noext",
        "trailing.",
        ".hidden.parquet",
        "a.b.parquet",
        "x.parquet.txt",
    ]));
    // Only `a.b.parquet` qualifies: no extension, an empty extension,
    // a hidden name and a non-data extension are all skipped, and the
    // stem keeps every dot but the last.
    assert_eq!(listing_names(&fs, 0), vec![".", "..", "a.b"]);
    assert_eq!(fs.lookup(1, "a.b").expect("a.b must resolve").ino, 2);
}

#[test]
fn test_get_entry_by_name() {
    let fs = QuiverFS::new(names(&["orders.parquet", "events.arrow"]));
    assert_eq!(fs.get_entry_by_name("events"), Some((3, "events")));
    assert_eq!(fs.get_entry_by_name("orders"), Some((2, "orders")));
    assert_eq!(fs.get_entry_by_name("missing"), None);
    assert_eq!(fs.get_entry_by_name("orders.parquet"), None);
}
