use ferro_code::git::parse_status;
use ferro_code::repository::github_https_remote;

#[test]
fn nul_status_preserves_unicode_spaces_newlines_and_rename_sources() {
    let changes = parse_status(
        "?? café file.txt\0R  new -> name\0old name\0 M line\nbreak.txt\0".as_bytes(),
    );
    assert_eq!(changes.len(), 3);
    assert_eq!(changes[0].path, "café file.txt");
    assert_eq!(changes[1].path, "new -> name");
    assert_eq!(changes[1].original_path.as_deref(), Some("old name"));
    assert_eq!(changes[2].path, "line\nbreak.txt");
}
#[test]
fn github_remote_urls_are_normalized_to_https() {
    for remote in [
        "git@github.com:owner/repo.git",
        "ssh://git@github.com/owner/repo.git",
        "ssh://github.com/owner/repo.git",
        "http://github.com/owner/repo.git",
        "https://github.com/owner/repo.git",
    ] {
        assert_eq!(
            github_https_remote(remote).as_deref(),
            Some("https://github.com/owner/repo.git")
        );
    }
    assert_eq!(github_https_remote("git@example.com:owner/repo.git"), None);
    assert_eq!(github_https_remote("https://github.com/owner"), None);
}
