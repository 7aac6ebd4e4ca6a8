use jotainchat::fsutil::{
    align_resume_offset, candidate_name, candidate_path, default_save_dir, partial_path,
    path_extension, path_file_name, safe_basename, CHUNK,
};

#[test]
fn basename_strips_traversal() {
    assert_eq!(safe_basename("../../etc/passwd").unwrap(), "passwd");
    assert_eq!(safe_basename("photo.png").unwrap(), "photo.png");
    assert!(safe_basename("..").is_err());
    assert!(safe_basename("").is_err());
}

#[test]
fn align_resume_offset_edges() {
    assert_eq!(align_resume_offset(0), 0);
    assert_eq!(align_resume_offset(CHUNK - 1), 0);
    assert_eq!(align_resume_offset(CHUNK), CHUNK);
    assert_eq!(align_resume_offset(CHUNK + 1), CHUNK);
    assert_eq!(align_resume_offset(CHUNK * 3 + 100), CHUNK * 3);
}

#[test]
fn basename_error_texts_and_edge_paths() {
    assert_eq!(safe_basename("   "), Err("empty file name".to_string()));
    assert_eq!(safe_basename("/"), Err("invalid file name".to_string()));
    assert_eq!(safe_basename("a/.."), Err("invalid file name".to_string()));
    assert_eq!(safe_basename("dir/ . "), Err("invalid file name".to_string()));
    assert_eq!(safe_basename("a\\b"), Err("invalid file name characters".to_string()));
    assert_eq!(safe_basename("x\0y"), Err("invalid file name characters".to_string()));
    assert_eq!(safe_basename("docs/report.pdf/").unwrap(), "report.pdf");
    assert_eq!(safe_basename("docs/./").unwrap(), "docs");
    // A sanitized name passes unchanged.
    let b = safe_basename(" ../x/ my file.txt ").unwrap();
    assert_eq!(b, "my file.txt");
    assert_eq!(safe_basename(&b).unwrap(), b);
}

#[test]
fn candidate_names_number_before_extension() {
    assert_eq!(candidate_name("movie.mp4", 0), "movie.mp4");
    assert_eq!(candidate_name("movie.mp4", 1), "movie (1).mp4");
    assert_eq!(candidate_name("archive.tar.gz", 12), "archive.tar (12).gz");
    assert_eq!(candidate_name("README", 2), "README (2)");
    assert_eq!(candidate_name(".bashrc", 3), ".bashrc (3)");
    assert_eq!(candidate_name("a.", 1), "a (1).");
    assert_eq!(candidate_path("/dl", "x.bin", 1), "/dl/x (1).bin");
}

#[test]
fn partial_and_default_dirs() {
    assert_eq!(partial_path("/dl/x.bin"), "/dl/x.bin.partial");
    assert_eq!(
        default_save_dir(Some("/Users/u".into())).unwrap(),
        "/Users/u/Downloads/jotainchatttttttt"
    );
    assert_eq!(
        default_save_dir(None),
        Err("home directory not set (HOME / USERPROFILE)".to_string())
    );
    assert_eq!(path_file_name("/a/b/c.txt").as_deref(), Some("c.txt"));
    assert_eq!(path_file_name("/"), None);
    assert_eq!(path_extension("/a/b/c.TXT").as_deref(), Some("TXT"));
    assert_eq!(path_extension("/a/.hidden"), None);
}

#[test]
fn aligned_offset_is_a_chunk_multiple_within_a_chunk() {
    for len in [1u64, CHUNK * 2 - 1, CHUNK * 7, u64::MAX] {
        let a = align_resume_offset(len);
        assert!(a <= len);
        assert_eq!(a % CHUNK, 0);
        assert!(len - a < CHUNK);
        assert_eq!(align_resume_offset(a), a);
    }
}

#[test]
fn candidate_names_never_repeat() {
    for name in ["photo.jpg", "photo (1).jpg", "notes", "..", "dir/x.tar.gz"] {
        let names: Vec<String> = (0..30).map(|i| candidate_name(name, i)).collect();
        for a in 0..names.len() {
            for b in (a + 1)..names.len() {
                assert_ne!(names[a], names[b]);
            }
        }
    }
}
