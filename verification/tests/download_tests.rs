use althemer::downloader::{
    reply_kind, reply_result, ApiReply, ErrorResponse, ReplyKind, downloaded_theme_names, filter_toml_files, get_filename, needs_download, parse_github_url,
    raw_url, resolve_repo, tree_url, DownloadFile, DownloadOptions, DownloadTarget, TreeItem,
    DEFAULT_BRANCH, DEFAULT_REPO,
};
use althemer::error::AppError;

fn item(path: &str) -> TreeItem {
    TreeItem { path: path.to_string() }
}

#[test]
fn test_parse_https_url() {
    let url = "https://github.com/alacritty/alacritty-theme";
    let info = parse_github_url(url).unwrap();
    assert_eq!(info.owner, "alacritty");
    assert_eq!(info.repo, "alacritty-theme");
}

#[test]
fn test_parse_ssh_url() {
    let url = "git@github.com:user/my-repo.git";
    let info = parse_github_url(url).unwrap();
    assert_eq!(info.owner, "user");
    assert_eq!(info.repo, "my-repo");
}

#[test]
fn test_parse_shorthand() {
    let url = "owner/repo";
    let info = parse_github_url(url).unwrap();
    assert_eq!(info.owner, "owner");
    assert_eq!(info.repo, "repo");
}

#[test]
fn test_resolve_repo_with_url() {
    let result = resolve_repo(Some("https://github.com/catppuccin/alacritty")).unwrap();
    assert_eq!(result.0, "catppuccin");
    assert_eq!(result.1, "alacritty");
}

#[test]
fn test_resolve_repo_default() {
    let result = resolve_repo(None).unwrap();
    assert_eq!(result.0, "alacritty");
    assert_eq!(result.1, "alacritty-theme");
}

#[test]
fn web_addresses_with_git_suffix_or_trailing_slash() {
    let info = parse_github_url("http://github.com/o/r.git").unwrap();
    assert_eq!((info.owner.as_str(), info.repo.as_str()), ("o", "r"));
    let info = parse_github_url("https://github.com/o/r/").unwrap();
    assert_eq!((info.owner.as_str(), info.repo.as_str()), ("o", "r"));
    let info = parse_github_url("https://github.com/o/.git").unwrap();
    assert_eq!(info.repo, ".git");
    assert!(parse_github_url("https://github.com/o/r/extra").is_none());
    assert!(parse_github_url("https://github.com//r").is_none());
}

#[test]
fn ssh_addresses_keep_inner_slashes() {
    let info = parse_github_url("git@github.com:me/a/b.git").unwrap();
    assert_eq!((info.owner.as_str(), info.repo.as_str()), ("me", "a/b"));
    assert!(parse_github_url("git@github.com:me/").is_none());
}

#[test]
fn other_text_is_refused() {
    assert!(parse_github_url("github.com/x").is_none());
    assert!(parse_github_url("a/b/c").is_none());
    assert!(parse_github_url("plain").is_none());
    let info = parse_github_url("/repo").unwrap();
    assert_eq!((info.owner.as_str(), info.repo.as_str()), ("", "repo"));
}

#[test]
fn resolve_repo_splits_at_a_single_slash_or_refuses() {
    let r = resolve_repo(Some("github.com/x")).unwrap();
    assert_eq!((r.0.as_str(), r.1.as_str()), ("github.com", "x"));
    let e = resolve_repo(Some("a/b/c")).unwrap_err();
    assert_eq!(e, AppError::InvalidRepoUrl("a/b/c".to_string()));
    assert_eq!(DEFAULT_REPO, "alacritty/alacritty-theme");
    assert_eq!(DEFAULT_BRANCH, "master");
}

#[test]
fn urls_of_the_tree_and_of_files() {
    assert_eq!(
        tree_url("o", "r", "main"),
        "https://api.github.com/repos/o/r/git/trees/main?recursive=1"
    );
    assert_eq!(
        raw_url("o", "r", "main", "themes/x.toml"),
        "https://raw.githubusercontent.com/o/r/main/themes/x.toml"
    );
}

#[test]
fn only_toml_entries_are_kept_in_order() {
    let tree = vec![item("README.md"), item("themes/a.toml"), item("b.toml"), item("toml")];
    let files = filter_toml_files(&tree);
    let paths: Vec<&str> = files.iter().map(|f| f.path.as_str()).collect();
    assert_eq!(paths, vec!["themes/a.toml", "b.toml"]);
}

#[test]
fn file_names_of_repository_paths() {
    assert_eq!(get_filename("themes/dracula.toml"), "dracula.toml");
    assert_eq!(get_filename("nord.toml"), "nord.toml");
    assert_eq!(get_filename(""), "theme.toml");
    assert_eq!(get_filename("/"), "theme.toml");
}

#[test]
fn a_download_plan_lists_the_theme_files() {
    let options = DownloadOptions { repo: Some("me/themes".to_string()), branch: None, force: false };
    let target = DownloadTarget::from_options(&options).unwrap();
    assert_eq!(target.branch, "master");
    assert_eq!(
        target.tree_url(),
        "https://api.github.com/repos/me/themes/git/trees/master?recursive=1"
    );
    let plan = target.plan(&vec![item("x/a.toml"), item("x/b.txt")]).unwrap();
    assert_eq!(plan.len(), 1);
    assert_eq!(plan[0].path, "x/a.toml");
    assert_eq!(plan[0].url, "https://raw.githubusercontent.com/me/themes/master/x/a.toml");
    assert_eq!(plan[0].destination("/home/u/themes"), "/home/u/themes/a.toml");
}

#[test]
fn a_tree_without_themes_is_an_error() {
    let options = DownloadOptions {
        repo: None,
        branch: Some("dev".to_string()),
        force: true,
    };
    let target = DownloadTarget::from_options(&options).unwrap();
    let e = target.plan(&vec![item("README.md")]).unwrap_err();
    assert_eq!(
        e,
        AppError::Download("No TOML files found in alacritty/alacritty-theme on branch 'dev'".to_string())
    );
}

#[test]
fn a_bad_repository_option_is_refused() {
    let options = DownloadOptions { repo: Some("nope".to_string()), branch: None, force: false };
    assert_eq!(
        DownloadTarget::from_options(&options).unwrap_err(),
        AppError::InvalidRepoUrl("nope".to_string())
    );
}

#[test]
fn existing_files_are_skipped_unless_forced() {
    assert!(needs_download(false, false));
    assert!(needs_download(false, true));
    assert!(needs_download(true, true));
    assert!(!needs_download(true, false));
}

#[test]
fn a_download_reports_the_stored_theme_names() {
    let names = downloaded_theme_names(&vec![
        "/t/dracula.toml".to_string(),
        "/t/nord.toml".to_string(),
    ])
    .unwrap();
    assert_eq!(names, vec!["dracula".to_string(), "nord".to_string()]);
    assert_eq!(
        downloaded_theme_names(&vec![]).unwrap_err(),
        AppError::Download("No themes were downloaded (try using --force to override)".to_string())
    );
}

#[test]
fn download_file_destination_uses_the_file_name() {
    let f = DownloadFile { path: "a/b/c.toml".to_string(), url: String::new() };
    assert_eq!(f.destination("/d"), "/d/c.toml");
}

#[test]
fn api_replies_are_read_or_reported() {
    assert_eq!(reply_result(ApiReply::Body(Ok(7u32))).unwrap(), 7);
    assert_eq!(
        reply_result::<u32>(ApiReply::NotJson("eof".to_string())).unwrap_err(),
        AppError::GitHubApi("Failed to parse JSON: eof".to_string())
    );
    assert_eq!(
        reply_result::<u32>(ApiReply::ErrorBody(Ok(ErrorResponse { message: "Not Found".to_string() })))
            .unwrap_err(),
        AppError::GitHubApi("Not Found".to_string())
    );
    assert_eq!(
        reply_result::<u32>(ApiReply::ErrorBody(Err("bad".to_string()))).unwrap_err(),
        AppError::JsonParse("bad".to_string())
    );
    assert_eq!(
        reply_result::<u32>(ApiReply::Body(Err("missing field".to_string()))).unwrap_err(),
        AppError::GitHubApi("Failed to deserialize: missing field".to_string())
    );
}

#[test]
fn replies_are_told_apart() {
    assert_eq!(reply_kind("{\"message\": \"Not Found\"}"), ReplyKind::ErrorBody);
    assert_eq!(reply_kind("{\"tree\": []}"), ReplyKind::Body);
    assert_eq!(reply_kind("[1, 2]"), ReplyKind::Body);
    assert!(matches!(reply_kind("nope"), ReplyKind::NotJson(m) if !m.is_empty()));
}
