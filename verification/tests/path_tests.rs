use std::path::{Path, PathBuf};

use ethproofs_client::path::{file_stem, join_path};

#[test]
fn join_matches_std() {
    for (base, name) in [
        ("upload_inputs", "1.bin"),
        ("upload_inputs/", "1.bin"),
        ("", "1.bin"),
        ("a", "/abs/2.bin"),
        ("a", ""),
        ("a/b", "c/d"),
    ] {
        let expected = PathBuf::from(base).join(name);
        assert_eq!(join_path(base, name), expected.to_str().unwrap(), "{:?} {:?}", base, name);
    }
}

#[test]
fn file_stem_matches_std() {
    for p in [
        "a/b.bin", "b.bin", "foo.tar.gz", ".bashrc", "foo.", "a..b", "dir/", "dir/.", "dir/..",
        "..", ".", "/", "", "./x.y", "x/./", "a/b//", "/c.d", "...", "a/.b.c",
    ] {
        let expected = Path::new(p).file_stem().map(|s| s.to_str().unwrap().to_string());
        assert_eq!(file_stem(p), expected, "path {:?}", p);
    }
}
