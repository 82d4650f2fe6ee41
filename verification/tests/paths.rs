use hermit_core::paths::{
    join_path, path_extension, path_file_name, path_file_stem, path_parent, replace_extension,
};

/// Every path is read as `std::path::Path` reads it.
#[test]
fn paths_come_apart_as_std_does_it() {
    let paths = [
        "", "/", ".", "..", "./", "a", "a/", "/a", "/a/", "a/b", "a//b", "a/./b", "a/b/.", "a/..",
        "./a", "././a", "/.", "/..", ".hidden", "a/.hidden", "a.b.c", "a.", ".a.b", "a/b.tar.gz/",
        "//a//b//", "a/b/../c.d", "x.y/.",
    ];
    for p in paths {
        let std = std::path::Path::new(p);
        assert_eq!(
            path_file_name(p),
            std.file_name().map(|s| s.to_str().unwrap().to_owned()),
            "file name of {p:?}"
        );
        assert_eq!(
            path_file_stem(p),
            std.file_stem().map(|s| s.to_str().unwrap().to_owned()),
            "stem of {p:?}"
        );
        assert_eq!(
            path_extension(p),
            std.extension().map(|s| s.to_str().unwrap().to_owned()),
            "extension of {p:?}"
        );
        assert_eq!(
            path_parent(p),
            std.parent().map(|s| s.to_str().unwrap().to_owned()),
            "parent of {p:?}"
        );
        for ext in ["lrc", "json.tmp", ""] {
            assert_eq!(
                replace_extension(p, ext),
                std.with_extension(ext).to_str().unwrap(),
                "{p:?} with extension {ext:?}"
            );
        }
    }
}

#[test]
fn leaves_are_joined_as_std_does_it() {
    for base in ["", "/", "a", "a/", "/a/b", "."] {
        for leaf in ["x", "x/y", "/x", "", "."] {
            assert_eq!(
                join_path(base, leaf),
                std::path::Path::new(base).join(leaf).to_str().unwrap(),
                "{base:?} and {leaf:?}"
            );
        }
    }
}

#[test]
fn a_replaced_extension_is_read_again() {
    let p = replace_extension("/music/song.flac", "lrc");
    assert_eq!(p, "/music/song.lrc");
    assert_eq!(path_extension(&p).as_deref(), Some("lrc"));
    assert_eq!(path_file_stem(&p).as_deref(), Some("song"));
    assert_eq!(path_parent(&p).as_deref(), Some("/music"));
}

#[test]
fn a_safe_name_stays_in_its_folder() {
    let p = join_path("/srv/attachments", "font.ttf");
    assert_eq!(path_file_name(&p).as_deref(), Some("font.ttf"));
    assert_eq!(path_parent(&p).as_deref(), Some("/srv/attachments"));
}
