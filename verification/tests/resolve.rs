use save_scan::backup::Game;
use save_scan::config::Config;
use save_scan::resolver::ResolveError;
use save_scan::resolver::ResolverCtx;
use save_scan::resolver::ResolverEnv;
use save_scan::resolver::resolve_path;
use save_scan::resolver::resolve_template;

fn create_test_config() -> Config {
    let mut config = Config::default();
    config.backup_path = String::from("/test/backup");
    config
}

fn ctx_with(
    home: Option<&str>,
    user: &str,
    win_app_data: Option<&str>,
    xdg: Option<&str>,
) -> ResolverCtx {
    let mut ctx = ResolverCtx::empty();
    ctx.home = home.map(String::from);
    ctx.os_user_name = String::from(user);
    ctx.win_app_data = win_app_data.map(String::from);
    ctx.xdg_data = xdg.map(String::from);
    ctx.xdg_config = xdg.map(String::from);
    ctx
}

#[test]
fn test_resolve_path_without_variables() {
    let config = create_test_config();
    let ctx = ResolverCtx::empty();
    let path = "/simple/path/without/variables";

    let result = resolve_path(path, None, &config, &ctx).unwrap();
    assert_eq!(result, String::from(path));
}

#[test]
fn test_resolve_home_variable() {
    let config = create_test_config();
    let ctx = ctx_with(Some("/home/user"), "user", None, None);
    let path = "<home>/Documents/saves";

    let result = resolve_path(path, None, &config, &ctx);
    assert!(result.is_ok());
    assert_eq!(result.unwrap(), "/home/user/Documents/saves");
}

#[test]
fn test_resolve_os_username_variable() {
    let config = create_test_config();
    let ctx = ctx_with(None, "user", None, None);
    let path = "/Users/<osUserName>/Documents";

    let result = resolve_path(path, None, &config, &ctx);
    assert!(result.is_ok());
    assert_eq!(result.unwrap(), "/Users/user/Documents");
}

#[test]
fn test_error_on_unknown_variable() {
    let config = create_test_config();
    let ctx = ResolverCtx::empty();
    let path = "<unknown>/saves";

    let result = resolve_path(path, None, &config, &ctx);
    assert!(matches!(result, Err(ResolveError::UnknownVariable(_))));
}

#[test]
fn test_resolve_root_game_base_variables() {
    let config = create_test_config();
    let ctx = ResolverCtx::empty();
    let game = Game {
        name: String::from("Test:Game"),
        save_paths: vec![],
        game_paths: vec![],
    };

    let r = resolve_path("<root>/saves", Some(&game), &config, &ctx).unwrap();
    assert!(r.starts_with(&config.backup_path));

    let g = resolve_path("/games/<game>", Some(&game), &config, &ctx).unwrap();
    assert!(g.contains("Test_Game"));

    let b = resolve_path("<base>/slot1", Some(&game), &config, &ctx).unwrap();
    assert!(b.contains(&config.backup_path) && b.contains("Test_Game"));
}

#[test]
fn test_resolve_linux_variables() {
    let config = create_test_config();
    let ctx = ctx_with(Some("/home/user"), "user", None, Some("/home/user/.local/share"));

    let paths = vec!["<xdgData>/saves", "<xdgConfig>/saves"];
    for path in paths {
        let result = resolve_path(path, None, &config, &ctx);
        assert!(result.is_ok(), "Failed to resolve path: {}", path);
    }
}

#[test]
fn unknown_token_keeps_its_brackets() {
    let config = create_test_config();
    let ctx = ResolverCtx::empty();
    match resolve_path("<unknown>/x", None, &config, &ctx) {
        Err(ResolveError::UnknownVariable(tok)) => assert_eq!(tok, "<unknown>"),
        other => panic!("expected UnknownVariable, got {:?}", other),
    }
}

#[test]
fn game_token_without_game_is_unimplemented() {
    // Scenario: a template containing <game> with no game supplied.
    let config = create_test_config();
    let ctx = ResolverCtx::empty();
    match resolve_path("saves/<game>", None, &config, &ctx) {
        Err(ResolveError::UnimplementedVar(tok)) => assert_eq!(tok, "<game>"),
        other => panic!("expected UnimplementedVar, got {:?}", other),
    }
}

#[test]
fn missing_special_folder_is_dir_not_found() {
    let config = create_test_config();
    let ctx = ResolverCtx::empty();
    match resolve_path("<winAppData>/x", None, &config, &ctx) {
        Err(ResolveError::DirNotFound(what)) => assert_eq!(what, "APPDATA"),
        other => panic!("expected DirNotFound, got {:?}", other),
    }
}

#[test]
fn missing_env_var_is_dir_not_found() {
    let config = create_test_config();
    let ctx = ResolverCtx::empty();
    match resolve_path("%FOO%/x", None, &config, &ctx) {
        Err(ResolveError::DirNotFound(what)) => assert_eq!(what, "ENV:FOO"),
        other => panic!("expected DirNotFound, got {:?}", other),
    }
}

#[test]
fn percent_env_vars_expand() {
    let config = create_test_config();
    let mut ctx = ResolverCtx::empty();
    ctx.env_vars = vec![(String::from("APPDATA"), String::from("C:/Users/x/AppData/Roaming"))];
    let r = resolve_path("%APPDATA%/StardewValley", None, &config, &ctx).unwrap();
    assert_eq!(r, "C:/Users/x/AppData/Roaming/StardewValley");
}

#[test]
fn resolve_template_applies_extra_variables() {
    let config = create_test_config();
    let ctx = ResolverCtx::empty();
    let env = ResolverEnv {
        variables: vec![(String::from("documents"), String::from("/home/user/Documents"))],
    };
    let r = resolve_template("<documents>/My Games", &env, &config, &ctx).unwrap();
    assert_eq!(r, "/home/user/Documents/My Games");
}

#[test]
fn resolved_appdata_template_is_concrete() {
    // Scenario: "<winAppData>/StardewValley/Saves" with the roaming folder
    // at "C:/Users/x/AppData/Roaming".
    let config = create_test_config();
    let ctx = ctx_with(None, "x", Some("C:/Users/x/AppData/Roaming"), None);
    let r = resolve_path("<winAppData>/StardewValley/Saves", None, &config, &ctx).unwrap();
    assert_eq!(r, "C:/Users/x/AppData/Roaming/StardewValley/Saves");
}

#[test]
fn sanitize_component_strips_and_defaults() {
    assert_eq!(save_scan::backup::sanitize_windows_path_component("Test:Game"), "Test_Game");
    assert_eq!(save_scan::backup::sanitize_windows_path_component("name. "), "name");
    assert_eq!(save_scan::backup::sanitize_windows_path_component("  "), "Game");
    assert_eq!(save_scan::backup::sanitize_windows_path_component("a?b*c"), "a_b_c");
}

#[test]
fn sanitize_filename_replaces_only() {
    assert_eq!(save_scan::resolver::sanitize_filename("a/b\\c"), "a_b_c");
    assert_eq!(save_scan::resolver::sanitize_filename("name. "), "name. ");
}

#[test]
fn join_backup_dir_uses_sanitized_name() {
    let config = create_test_config();
    assert_eq!(save_scan::backup::join_backup_dir(&config, "Test:Game"), "/test/backup/Test_Game");
}
