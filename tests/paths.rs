use gamdam::{FilePath, FilePathError};

#[test]
fn normalizes_paths() {
    for (path, displayed) in [
        ("foo", "foo"),
        ("foo/bar", "foo/bar"),
        ("foo/.", "foo"),
        ("./foo", "foo"),
        ("foo/./bar", "foo/bar"),
        ("foo/", "foo"),
        ("foo//bar", "foo/bar"),
        ("a/.../b", "a/.../b"),
        ("é/ü", "é/ü"),
    ] {
        assert_eq!(FilePath::try_from(path).unwrap().to_string(), displayed, "{path}");
        assert_eq!(FilePath::parse(path).unwrap().as_str(), displayed);
    }
}

#[test]
fn rejects_paths() {
    for (path, err) in [
        ("", FilePathError::Empty),
        (".", FilePathError::Empty),
        ("././/", FilePathError::Empty),
        ("..", FilePathError::NotNormalized),
        ("/", FilePathError::NotRelative),
        ("/foo", FilePathError::NotRelative),
        ("/..", FilePathError::NotRelative),
        ("foo/..", FilePathError::NotNormalized),
        ("../foo", FilePathError::NotNormalized),
        ("foo/../bar", FilePathError::NotNormalized),
        ("foo/bar/..", FilePathError::NotNormalized),
    ] {
        assert_eq!(FilePath::try_from(path), Err(err), "{path}");
    }
}

#[test]
fn path_error_messages() {
    assert_eq!(FilePathError::Empty.message(), "Path contains no pathnames");
    assert_eq!(FilePathError::NotNormalized.message(), "Path is not normalized");
    assert_eq!(FilePathError::NotRelative.message(), "Path is not relative");
    assert_eq!(FilePathError::Undecodable.message(), "Path is not Unicode");
}

#[test]
fn same_as_compares_text() {
    let a = FilePath::parse("x//y").unwrap();
    let b = FilePath::parse("x/y").unwrap();
    assert!(a.same_as(&b));
    assert!(!a.same_as(&FilePath::parse("x").unwrap()));
    assert_eq!(a.duplicate(), b);
}
