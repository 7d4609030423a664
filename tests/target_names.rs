use lazyvim::resolve_target_name;
use lazyvim::target::{find_last_slash, strip_git_marker};
use lazyvim::NeovimPlugin;

fn name(url: &str) -> Option<String> {
    resolve_target_name(url)
}

#[test]
fn name_strips_git_suffix() {
    assert_eq!(name("https://example.com/owner/plugin-x.git"), Some("plugin-x".to_string()));
}

#[test]
fn name_without_suffix_is_last_segment() {
    assert_eq!(name("https://example.com/owner/plugin-x"), Some("plugin-x".to_string()));
}

#[test]
fn name_keeps_other_dots() {
    assert_eq!(name("https://x/a/foo.bar.git"), Some("foo.bar".to_string()));
}

#[test]
fn name_removes_every_marker() {
    assert_eq!(name("https://x/a/a.gitb.git"), Some("ab".to_string()));
    assert_eq!(name("https://x/a/.git.git"), Some(String::new()));
}

#[test]
fn name_scans_left_to_right_once() {
    // Removing the marker may leave a new one made of its neighbours.
    assert_eq!(name("https://x/a/..gitgit"), Some(".git".to_string()));
}

#[test]
fn name_only_looks_after_last_slash() {
    assert_eq!(name("https://x/repo.git/sub"), Some("sub".to_string()));
}

#[test]
fn name_of_url_without_slash_is_none() {
    assert_eq!(name("plugin.git"), None);
    assert_eq!(name(""), None);
}

#[test]
fn name_of_url_ending_in_slash_is_empty() {
    assert_eq!(name("https://x/a/"), Some(String::new()));
}

#[test]
fn name_of_non_ascii_segment() {
    assert_eq!(name("https://x/ä/插件.git"), Some("插件".to_string()));
}

#[test]
fn last_slash_positions() {
    assert_eq!(find_last_slash("a/b/c"), Some(3));
    assert_eq!(find_last_slash("/"), Some(0));
    assert_eq!(find_last_slash("abc"), None);
    assert_eq!(find_last_slash("ä/b"), Some(1));
}

#[test]
fn strip_marker_values() {
    assert_eq!(strip_git_marker("nvim-lspconfig.git"), "nvim-lspconfig");
    assert_eq!(strip_git_marker("plain"), "plain");
    assert_eq!(strip_git_marker(".gi"), ".gi");
    assert_eq!(strip_git_marker(""), "");
}

#[test]
fn plugin_name_of_unit() {
    let p = NeovimPlugin::new("https://github.com/neovim/nvim-lspconfig.git", "/tmp/p");
    assert_eq!(p.plugin_name(), Some("nvim-lspconfig".to_string()));
    assert_eq!(p.git_url(), "https://github.com/neovim/nvim-lspconfig.git");
    assert_eq!(p.install_path(), "/tmp/p");
}
