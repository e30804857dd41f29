use sha1::Digest;
use installer_probe::release_notes::{truncate_with_lines, ReleaseNotes};

#[test]
fn issue() {
    let value = "- Issue https://github.com/owner/repo/issues/123";
    assert_eq!(
        ReleaseNotes::format(value, "owner", "repo"),
        ReleaseNotes::try_new(String::from("- Issue #123")).ok()
    )
}

#[test]
fn issue_comment() {
    let value = "- Issue https://github.com/owner/repo/issues/123#issuecomment-1234567890";
    assert_eq!(
        ReleaseNotes::format(value, "owner", "repo"),
        ReleaseNotes::try_new(String::from("- Issue #123 (comment)")).ok()
    )
}

#[test]
fn pull_request() {
    let value = "- Pull request https://github.com/owner/repo/pull/123";
    assert_eq!(
        ReleaseNotes::format(value, "owner", "repo"),
        ReleaseNotes::try_new(String::from("- Pull request #123")).ok()
    )
}

#[test]
fn pull_request_comment() {
    let value = "- Pull request https://github.com/owner/repo/pull/123#issuecomment-1234567890";
    assert_eq!(
        ReleaseNotes::format(value, "owner", "repo"),
        ReleaseNotes::try_new(String::from("- Pull request #123 (comment)")).ok()
    )
}

#[test]
fn different_repo_issue() {
    let value = "- Issue https://github.com/different/repo/issues/123";
    assert_eq!(
        ReleaseNotes::format(value, "owner", "repo"),
        ReleaseNotes::try_new(String::from("- Issue different/repo#123")).ok()
    )
}

#[test]
fn different_repo_issue_comment() {
    let value = "- Issue https://github.com/different/repo/issues/123#issuecomment-1234567890";
    assert_eq!(
        ReleaseNotes::format(value, "owner", "repo"),
        ReleaseNotes::try_new(String::from("- Issue different/repo#123 (comment)")).ok()
    )
}

#[test]
fn multiple_issues() {
    let value = "- Issue https://github.com/owner/repo/issues/123 and https://github.com/owner/repo/issues/321";
    assert_eq!(
        ReleaseNotes::format(value, "owner", "repo"),
        ReleaseNotes::try_new(String::from("- Issue #123 and #321")).ok()
    )
}

#[test]
fn no_urls() {
    let value = "- No issue link";
    assert_eq!(
        ReleaseNotes::format(value, "owner", "repo"),
        ReleaseNotes::try_new(String::from(value)).ok()
    )
}

#[test]
fn full_changelog_url() {
    let value = "Full Changelog: https://github.com/owner/repo/compare/v1.0.0...v1.1.0";
    assert_eq!(
        ReleaseNotes::format(value, "owner", "repo"),
        ReleaseNotes::try_new(String::from(value)).ok()
    )
}

#[test]
fn release_url() {
    let value = "Previous release: https://github.com/owner/repo/releases/tag/1.2.3";
    assert_eq!(
        ReleaseNotes::format(value, "owner", "repo"),
        ReleaseNotes::try_new(String::from(value)).ok()
    )
}

#[test]
fn commit_url() {
    let mut random_hash = base16ct::lower::encode_string(&sha1::Sha1::digest(rand::random::<
        [u8; 1 << 4],
    >()));
    let commit_url = format!("https://github.com/owner/repo/commit/{random_hash}");
    random_hash.truncate(7);
    assert_eq!(
        ReleaseNotes::format(&commit_url, "owner", "repo"),
        ReleaseNotes::try_new(random_hash).ok()
    )
}

#[test]
fn header_syntax_removed() {
    let value = "# Header 1\n## Header 2\n### Header 3\n";
    let expected = "Header 1\nHeader 2\nHeader 3\n";
    assert_eq!(
        ReleaseNotes::format(value, "owner", "repo"),
        ReleaseNotes::try_new(String::from(expected)).ok()
    )
}

#[test]
fn strikethrough_removed() {
    assert_eq!(
        ReleaseNotes::format("~~Strikethrough text~~", "owner", "repo"),
        ReleaseNotes::try_new(String::from("Strikethrough text")).ok()
    )
}

#[test]
fn bold_removed() {
    assert_eq!(
        ReleaseNotes::format("**Bold text**", "owner", "repo"),
        ReleaseNotes::try_new(String::from("Bold text")).ok()
    )
}

#[test]
fn inline_html() {
    let value = "```\n<html>\n```\n";
    assert_eq!(
        ReleaseNotes::format(value, "owner", "repo"),
        ReleaseNotes::try_new(String::from("<html>")).ok()
    )
}

#[test]
fn test_asterisk_bullet_points() {
    let value = "* Bullet point 1\n* Bullet point 2\n";
    let expected = "- Bullet point 1\n- Bullet point 2\n";
    assert_eq!(
        ReleaseNotes::format(value, "owner", "repo"),
        ReleaseNotes::try_new(String::from(expected)).ok()
    )
}

#[test]
fn test_ordered_list() {
    let value = "1. Item number 1\n    1. Item number 1.1\n    2. Item number 1.2\n        1. Item number 1.2.1\n        2. Item number 1.2.2\n        3. Item number 1.2.3\n2. Item number 2\n    1. Item number 2.1\n    2. Item number 2.2\n";
    assert_eq!(
        ReleaseNotes::format(value, "owner", "repo"),
        ReleaseNotes::try_new(String::from(value)).ok()
    )
}

#[test]
fn test_nested_list_items() {
    let value = "- Bullet point 1\n    - 2nd level nested bullet point 1\n    - 2nd level nested bullet point 2\n        - 3rd level nested bullet point 1\n        - 3rd level nested bullet point 2\n            - 4th level nested bullet point 1\n            - 4th level nested bullet point 2\n- Bullet point 2\n";
    assert_eq!(
        ReleaseNotes::format(value, "owner", "repo"),
        ReleaseNotes::try_new(String::from(value)).ok()
    )
}

#[test]
fn test_sha1_removed() {
    let random_hash =
        base16ct::lower::encode_string(&sha1::Sha1::digest(rand::random::<[u8; 1 << 4]>()));
    let value = format!("- {random_hash} Bullet point 1 {random_hash}");
    assert_eq!(
        ReleaseNotes::format(&value, "owner", "repo"),
        ReleaseNotes::try_new(String::from("- Bullet point 1")).ok()
    )
}

#[test]
fn test_truncate_to_lines() {
    const CHAR_LIMIT: usize = 100;

    let mut buffer = String::new();
    let mut line_count = 0;
    while buffer.chars().count() <= CHAR_LIMIT {
        line_count += 1;
        buffer.push_str(&format!("Line {line_count}\n"));
    }
    let formatted = truncate_with_lines::<CHAR_LIMIT>(&buffer);
    let formatted_char_count = formatted.chars().count();
    assert!(formatted_char_count < buffer.chars().count());
    assert_eq!(formatted.trim().chars().count(), formatted_char_count);
}

#[test]
fn empty_notes_are_rejected() {
    assert!(ReleaseNotes::try_new(String::new()).is_err());
    assert!(ReleaseNotes::try_new(String::from("   \n  \t ")).is_err());
    assert!(ReleaseNotes::format("", "owner", "repo").is_none());
    let kept = ReleaseNotes::try_new(String::from("  kept  ")).expect("non-empty");
    assert_eq!(kept.as_str(), "kept");
}
