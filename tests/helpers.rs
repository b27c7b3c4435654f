use openwork::http::{http_method, HttpMethod};
use openwork::maintenance::{opencode_cache_candidates, parse_reset_mode, qr_outcome, ResetMode};
use openwork::platform::Platform;
use openwork::server::{build_openwork_args, DEFAULT_OPENWORK_PORT};
use openwork::skills::{import_summary, parse_github_tree_url, parse_repo_source, validate_skill_name};
use openwork::templates::{merge_plugins, required_plugins, sanitize_template_id, template_file_path};
use openwork::discovery::PathProbe;
use openwork::xdg::{candidate_xdg_config_dirs, candidate_xdg_data_dirs, maybe_infer_xdg_home};

#[test]
fn server_arguments_in_order() {
    let args = build_openwork_args("127.0.0.1", DEFAULT_OPENWORK_PORT, "/w", "tok", "htok");
    assert_eq!(
        args,
        vec![
            "--host", "127.0.0.1", "--port", "8787", "--token", "tok", "--host-token", "htok", "--workspace", "/w",
            "--cors", "http://localhost:5173", "--cors", "tauri://localhost", "--cors", "http://tauri.localhost",
        ]
    );
    assert_eq!(build_openwork_args("h", 0, "w", "t", "u")[3], "0");
    assert_eq!(build_openwork_args("h", 65535, "w", "t", "u")[3], "65535");
}

#[test]
fn xdg_directories_per_platform() {
    assert_eq!(candidate_xdg_data_dirs(Platform::Linux, Some("/h")), vec!["/h/.local/share", "/h/.config"]);
    assert_eq!(
        candidate_xdg_data_dirs(Platform::MacOs, Some("/h")),
        vec!["/h/.local/share", "/h/.config", "/h/Library/Application Support"]
    );
    assert_eq!(candidate_xdg_config_dirs(Platform::Linux, Some("/h")), vec!["/h/.config"]);
    assert!(candidate_xdg_data_dirs(Platform::Linux, None).is_empty());
    assert!(candidate_xdg_config_dirs(Platform::MacOs, None).is_empty());
}

#[test]
fn xdg_home_inferred_only_when_unset() {
    let bases = vec!["/h/.local/share".to_string(), "/h/.config".to_string()];
    let probes = vec![PathProbe { path: "/h/.config/opencode/auth.json".to_string(), is_file: true, resolved: None }];
    assert_eq!(
        maybe_infer_xdg_home(Platform::Linux, None, &bases, "opencode/auth.json", &probes),
        Some("/h/.config".to_string())
    );
    assert_eq!(maybe_infer_xdg_home(Platform::Linux, Some("  "), &bases, "opencode/auth.json", &probes), Some("/h/.config".to_string()));
    assert_eq!(maybe_infer_xdg_home(Platform::Linux, Some("/set"), &bases, "opencode/auth.json", &probes), None);
    assert_eq!(maybe_infer_xdg_home(Platform::Linux, None, &bases, "other", &probes), None);
}

#[test]
fn skill_names_must_be_kebab_case() {
    assert_eq!(validate_skill_name("  my-skill2  "), Ok("my-skill2".to_string()));
    assert_eq!(validate_skill_name("   "), Err("skill name is required".to_string()));
    assert_eq!(validate_skill_name("My-Skill"), Err("skill name must be kebab-case".to_string()));
    assert_eq!(validate_skill_name("-lead"), Err("skill name must be kebab-case".to_string()));
    assert_eq!(validate_skill_name("trail-"), Err("skill name must be kebab-case".to_string()));
    assert_eq!(validate_skill_name("dou--ble"), Err("skill name must be kebab-case".to_string()));
}

#[test]
fn github_tree_urls_are_read() {
    let s = parse_github_tree_url("https://github.com/acme/tools/tree/main/skills/extra").unwrap();
    assert_eq!(s.repo_url, "https://github.com/acme/tools.git");
    assert_eq!(s.branch, Some("main".to_string()));
    assert_eq!(s.subdir, Some("skills/extra".to_string()));
    let b = parse_github_tree_url("https://github.com/acme/tools/blob/dev").unwrap();
    assert_eq!(b.branch, Some("dev".to_string()));
    assert_eq!(b.subdir, None);
    assert!(parse_github_tree_url("https://github.com/acme/tools").is_none());
    assert!(parse_github_tree_url("https://github.com/acme/tools/pulls/1").is_none());
    assert!(parse_github_tree_url("https://gitlab.com/acme/tools/tree/main").is_none());
}

#[test]
fn repo_sources_are_trimmed() {
    let s = parse_repo_source("  https://github.com/acme/tools/tree/main/x//  ");
    assert_eq!(s.repo_url, "https://github.com/acme/tools.git");
    assert_eq!(s.subdir, Some("x".to_string()));
    let plain = parse_repo_source(" git@host:acme/tools.git/ ");
    assert_eq!(plain.repo_url, "git@host:acme/tools.git");
    assert_eq!(plain.branch, None);
    assert_eq!(plain.subdir, None);
}

#[test]
fn import_summaries() {
    assert_eq!(import_summary(0, 2), "No new skills imported (2 already installed).");
    assert_eq!(import_summary(3, 1), "Imported 3 skill(s); skipped 1 existing.");
    assert_eq!(import_summary(12, 0), "Imported 12 skill(s).");
}

#[test]
fn plugins_are_merged_without_duplicates() {
    let merged = merge_plugins(vec!["a".to_string(), "b".to_string()], &["b", "c", "c"]);
    assert_eq!(merged, vec!["a", "b", "c"]);
    assert_eq!(merge_plugins(Vec::new(), &[]), Vec::<String>::new());
    assert_eq!(required_plugins("starter"), vec!["opencode-scheduler"]);
    assert_eq!(required_plugins("automation"), vec!["opencode-scheduler"]);
    assert!(required_plugins("blank").is_empty());
}

#[test]
fn template_ids_are_sanitized() {
    assert_eq!(sanitize_template_id("  tmpl_a-1  "), Some("tmpl_a-1".to_string()));
    assert_eq!(sanitize_template_id("a b/c.d"), Some("abcd".to_string()));
    assert_eq!(sanitize_template_id("   "), None);
    assert_eq!(sanitize_template_id("../"), None);
    assert_eq!(
        template_file_path(Platform::Linux, "/w", " x/y "),
        Some("/w/.openwork/templates/xy.json".to_string())
    );
    assert_eq!(template_file_path(Platform::Linux, "/w", "//"), None);
}

#[test]
fn cache_candidates_are_listed_once() {
    let c = opencode_cache_candidates(Platform::Linux, Some(" /h/.cache "), Some("/h"), None, None);
    assert_eq!(c, vec!["/h/.cache/opencode"]);
    let w = opencode_cache_candidates(Platform::Windows, None, Some("C:\\u"), Some("C:\\L"), Some("  "));
    assert_eq!(w, vec!["C:\\u\\.cache\\opencode", "C:\\L\\opencode"]);
    let m = opencode_cache_candidates(Platform::MacOs, Some(""), Some("/h"), None, None);
    assert_eq!(m, vec!["/h/.cache/opencode", "/h/Library/Caches/opencode"]);
}

#[test]
fn reset_modes() {
    assert_eq!(parse_reset_mode(" all "), Ok(ResetMode::All));
    assert_eq!(parse_reset_mode("onboarding"), Ok(ResetMode::Onboarding));
    assert_eq!(parse_reset_mode("everything"), Err("mode must be 'onboarding' or 'all'".to_string()));
}

#[test]
fn qr_replies() {
    assert_eq!(qr_outcome(Some("code".to_string()), None), Ok("code".to_string()));
    assert_eq!(qr_outcome(Some("code".to_string()), Some("bad".to_string())), Err("bad".to_string()));
    assert_eq!(qr_outcome(None, None), Err("No QR code returned".to_string()));
}

#[test]
fn http_methods_compare_in_upper_case() {
    assert_eq!(http_method("get"), Ok(HttpMethod::Get));
    assert_eq!(http_method("Post"), Ok(HttpMethod::Post));
    assert_eq!(http_method("PUT"), Ok(HttpMethod::Put));
    assert_eq!(http_method("delete"), Ok(HttpMethod::Delete));
    assert_eq!(http_method("patch"), Err("Unsupported HTTP method: patch".to_string()));
}
