use save_scan::backup::SaveUnitType;
use save_scan::config::Config;
use save_scan::config::QuickActionsSettings;
use save_scan::enrich::alias_fuzzy_score;
use save_scan::enrich::name_fuzzy_score;
use save_scan::jsontree::JsonNode;
use save_scan::jsontree::extract_install_entries;
use save_scan::jsontree::parse_manifest_fields;
use save_scan::matcher::DirListing;
use save_scan::matcher::ResolvedRule;
use save_scan::matcher::dir_matches_game;
use save_scan::matcher::game_matches_token;
use save_scan::matcher::is_plausible_save_dir;
use save_scan::matcher::pick_install_save_dir;
use save_scan::matcher::resolve_save_rules;
use save_scan::matcher::score_match;
use save_scan::progress::ProgressThrottle;
use save_scan::query::pcgw_search;
use save_scan::quick::QuickActionType;
use save_scan::quick::maybe_show_notification;
use save_scan::quick::maybe_show_success_notification;
use save_scan::resolver::ResolverCtx;
use save_scan::resolver::ResolverEnv;
use save_scan::score::Score;
use save_scan::synth::generate_save_units;
use save_scan::types::GameInfo;
use save_scan::types::PcgwQueryOptions;
use save_scan::types::SaveMatchResult;
use save_scan::types::SavePathRule;
use save_scan::types::ScanProgressEvent;
use save_scan::updater::MigrationAction;
use save_scan::updater::Version;
use save_scan::updater::current_version;
use save_scan::updater::migration_action;
use save_scan::updater::min_supported_version;
use save_scan::updater::parse_version;
use save_scan::updater::upgrade_config;

fn game(name: &str, aliases: Vec<&str>, rules: Vec<SavePathRule>) -> GameInfo {
    GameInfo {
        name: String::from(name),
        aliases: aliases.into_iter().map(String::from).collect(),
        pcgw_id: None,
        install_rules: vec![],
        save_rules: rules,
    }
}

fn rule(id: &str, template: &str, conf: (u64, u64)) -> SavePathRule {
    SavePathRule {
        id: String::from(id),
        description: None,
        path_template: String::from(template),
        requires: None,
        platforms: vec![String::from("windows")],
        confidence: Score { num: conf.0, den: conf.1 },
    }
}

#[test]
fn nonexistent_path_scores_exactly_half() {
    let item = ResolvedRule {
        rule_id: String::from("r1"),
        path: String::from("/saves"),
        confidence: Score { num: 95, den: 100 },
    };
    let hit = score_match(&item, true);
    assert!(hit.confidence.value_eq(&Score { num: 95, den: 100 }));
    let miss = score_match(&item, false);
    assert!(miss.confidence.value_eq(&Score { num: 95, den: 200 }));
    assert_eq!(miss.confidence.num, 95);
    assert_eq!(miss.confidence.den, 200);
}

#[test]
fn stardew_rule_resolves_to_appdata_saves() {
    // Scenario: the enriched Stardew Valley rule resolves under the
    // roaming folder "C:/Users/x/AppData/Roaming".
    let g = game(
        "Stardew Valley",
        vec!["SV"],
        vec![rule("save-stardew-default", "<winAppData>/StardewValley/Saves", (95, 100))],
    );
    let mut ctx = ResolverCtx::empty();
    ctx.win_app_data = Some(String::from("C:/Users/x/AppData/Roaming"));
    let env = ResolverEnv { variables: vec![] };
    let config = Config::default();
    let resolved = resolve_save_rules(&g, &env, &config, &ctx);
    assert_eq!(resolved.len(), 1);
    assert_eq!(resolved[0].path, "C:/Users/x/AppData/Roaming/StardewValley/Saves");
    assert_eq!(resolved[0].rule_id, "save-stardew-default");
}

#[test]
fn fuzzy_score_increases_with_ratio() {
    let a = name_fuzzy_score(2, 10);
    let b = name_fuzzy_score(5, 10);
    let c = name_fuzzy_score(10, 10);
    assert!(a.lt(&b));
    assert!(b.lt(&c));
    assert!(c.value_eq(&Score { num: 1, den: 1 }));
    let d = alias_fuzzy_score(1, 4);
    let e = alias_fuzzy_score(3, 4);
    assert!(d.lt(&e));
}

#[test]
fn exact_name_query_is_first_with_score_one() {
    let index = vec![
        game("Stardew Valley", vec!["SV"], vec![rule("r", "<home>/s", (95, 100))]),
        game("Stardew Valley Expanded", vec![], vec![rule("r2", "<home>/s2", (90, 100))]),
    ];
    let options = PcgwQueryOptions { fuzzy: true, platform: None, limit: None };
    let r = pcgw_search(&index, "Stardew Valley", &options);
    assert!(r.len() >= 2);
    assert!(r[0].score.value_eq(&Score { num: 1, den: 1 }));
    assert_eq!(r[0].matched_by, "name");
    assert_eq!(r[0].info.name, "Stardew Valley");
}

#[test]
fn alias_query_with_fuzzy_disabled_scores_095() {
    // Scenario: querying "sv" with fuzzy disabled hits the alias.
    let index = vec![
        game("Example Game", vec!["EG"], vec![]),
        game("Stardew Valley", vec!["SV"], vec![]),
    ];
    let options = PcgwQueryOptions { fuzzy: false, platform: None, limit: None };
    let r = pcgw_search(&index, "sv", &options);
    assert_eq!(r.len(), 1);
    assert_eq!(r[0].matched_by, "alias");
    assert!(r[0].score.value_eq(&Score { num: 95, den: 100 }));
    assert_eq!(r[0].info.name, "Stardew Valley");
}

#[test]
fn platform_filter_excludes_unrelated_entries() {
    let mut linux_rule = rule("r", "<home>/s", (90, 100));
    linux_rule.platforms = vec![String::from("linux")];
    let index = vec![
        game("Alpha", vec![], vec![rule("r", "<home>/a", (90, 100))]),
        game("Alpha Two", vec![], vec![linux_rule]),
    ];
    let options =
        PcgwQueryOptions { fuzzy: true, platform: Some(String::from("windows")), limit: None };
    let r = pcgw_search(&index, "alpha", &options);
    assert_eq!(r.len(), 1);
    assert_eq!(r[0].info.name, "Alpha");
}

#[test]
fn query_respects_limit() {
    let index = vec![
        game("Alpha One", vec![], vec![]),
        game("Alpha Two", vec![], vec![]),
        game("Alpha Three", vec![], vec![]),
    ];
    let options = PcgwQueryOptions { fuzzy: true, platform: None, limit: Some(2) };
    let r = pcgw_search(&index, "alpha", &options);
    assert_eq!(r.len(), 2);
}

#[test]
fn save_units_unique_per_path() {
    let m1 = SaveMatchResult {
        rule_id: String::from("a"),
        resolved_path: String::from("/saves"),
        exists: true,
        confidence: Score { num: 1, den: 2 },
    };
    let m2 = SaveMatchResult {
        rule_id: String::from("b"),
        resolved_path: String::from("/saves"),
        exists: true,
        confidence: Score { num: 9, den: 10 },
    };
    let m3 = SaveMatchResult {
        rule_id: String::from("c"),
        resolved_path: String::from("/other"),
        exists: false,
        confidence: Score { num: 9, den: 10 },
    };
    let matches = vec![m1, m2, m3];
    let plausible = vec![false, true, false];
    let is_file = vec![false, false, false];
    let device = String::from("device-1");
    let units = generate_save_units(&matches, &plausible, &is_file, &device);
    assert_eq!(units.len(), 1);
    assert!(matches!(units[0].unit_type, SaveUnitType::Folder));
    let p = units[0].get_path_for_device(&device).expect("mapping for current device");
    assert_eq!(p, "/saves");
    assert!(units[0].get_path_for_device(&String::from("device-2")).is_none());
}

#[test]
fn plausible_listing_recognized() {
    let l = DirListing {
        files: vec![String::from("slot1.SAV")],
        dirs: vec![],
    };
    assert!(is_plausible_save_dir(&l));
    let l2 = DirListing {
        files: vec![String::from("readme.txt")],
        dirs: vec![String::from("SaveGames")],
    };
    assert!(is_plausible_save_dir(&l2));
    let l3 = DirListing { files: vec![String::from("readme.txt")], dirs: vec![] };
    assert!(!is_plausible_save_dir(&l3));
}

#[test]
fn install_relative_heuristic_recognizes_game() {
    let g = game("Black Myth: Wukong", vec![], vec![]);
    assert!(game_matches_token(&g, "blackmythwukong"));
    assert!(!game_matches_token(&g, "stardewvalley"));
    let picked = pick_install_save_dir(
        &String::from("/install/b1/Saved/SaveGames"),
        &vec![
            (String::from("/install/b1/Saved/SaveGames/none"), vec![String::from("a.txt")]),
            (String::from("/install/b1/Saved/SaveGames/77"), vec![String::from("save.sav")]),
        ],
    );
    assert_eq!(picked, "/install/b1/Saved/SaveGames/77");
}

#[test]
fn common_roots_name_matching() {
    let g = game("Detroit: Become Human", vec![], vec![]);
    assert!(dir_matches_game("Detroit Become Human", &g));
    // Either containment direction matches: a shorter directory name
    // contained in the game token also counts.
    assert!(dir_matches_game("DetroitBecome", &g));
    let short = game("abc", vec![], vec![]);
    assert!(dir_matches_game("ab", &short));
    assert!(!dir_matches_game("Factorio", &g));
}

#[test]
fn rule_failure_drops_only_that_rule() {
    let g = game(
        "Two Rules",
        vec![],
        vec![
            rule("bad", "<unknownToken>/saves", (90, 100)),
            rule("good", "/plain/saves", (80, 100)),
        ],
    );
    let ctx = ResolverCtx::empty();
    let env = ResolverEnv { variables: vec![] };
    let config = Config::default();
    let resolved = resolve_save_rules(&g, &env, &config, &ctx);
    assert_eq!(resolved.len(), 1);
    assert_eq!(resolved[0].rule_id, "good");
    assert_eq!(resolved[0].path, "/plain/saves");
}

#[test]
fn install_relative_heuristic_emits_match() {
    let table = save_scan::matcher::install_relative_subpaths();
    assert_eq!(table.len(), 1);
    assert_eq!(table[0].0, "blackmythwukong");
    assert_eq!(table[0].1, "b1/Saved/SaveGames");

    let g = game("Black Myth: Wukong", vec![], vec![]);
    let base = String::from("/install/b1/Saved/SaveGames");
    let subs = vec![
        (String::from("/install/b1/Saved/SaveGames/none"), vec![String::from("a.txt")]),
        (String::from("/install/b1/Saved/SaveGames/77"), vec![String::from("save.sav")]),
    ];
    let m = save_scan::matcher::install_relative_match(&g, &base, true, &subs)
        .expect("recognized game with existing base");
    assert_eq!(m.rule_id, "bmw-install-savegames");
    assert_eq!(m.resolved_path, "/install/b1/Saved/SaveGames/77");
    assert!(m.exists);
    assert!(m.confidence.value_eq(&Score { num: 99, den: 100 }));

    let other = game("Stardew Valley", vec![], vec![]);
    assert!(save_scan::matcher::install_relative_match(&other, &base, true, &subs).is_none());
    assert!(save_scan::matcher::install_relative_match(&g, &base, false, &subs).is_none());
}

#[test]
fn common_root_candidate_decides() {
    let g = game("Stardew Valley", vec![], vec![]);
    let plausible_own = DirListing {
        files: vec![String::from("slot1.sav")],
        dirs: vec![],
    };
    let bare_own = DirListing { files: vec![String::from("readme.txt")], dirs: vec![] };
    let subs = vec![
        (
            String::from("/docs/StardewValley/SaveGames"),
            DirListing { files: vec![], dirs: vec![] },
        ),
        (
            String::from("/docs/StardewValley/SaveData"),
            DirListing { files: vec![String::from("a.dat")], dirs: vec![] },
        ),
    ];
    // The directory itself looks like saves: the sentinel index.
    assert_eq!(
        save_scan::matcher::common_root_candidate("StardewValley", &g, &plausible_own, &subs),
        Some(2)
    );
    // Otherwise the first plausible conventional subfolder.
    assert_eq!(
        save_scan::matcher::common_root_candidate("StardewValley", &g, &bare_own, &subs),
        Some(1)
    );
    // A non-matching name yields nothing.
    assert_eq!(
        save_scan::matcher::common_root_candidate("Factorio", &g, &plausible_own, &subs),
        None
    );
    let m = save_scan::matcher::common_roots_match(String::from("/docs/StardewValley/SaveData"));
    assert_eq!(m.rule_id, "common-roots-name-match");
    assert!(m.exists);
    assert!(m.confidence.value_eq(&Score { num: 90, den: 100 }));
}

#[test]
fn progress_throttle_rules() {
    let mut t = ProgressThrottle::new(250);
    let e1 = ScanProgressEvent {
        step: String::from("detect"),
        current: 1,
        total: 4,
        message: None,
    };
    assert!(t.should_emit(&e1, 1000));
    // Exact duplicate: suppressed, whatever the clock says.
    assert!(!t.should_emit(&e1, 2000));
    // Same stage, different content, within the window: suppressed.
    let e2 = ScanProgressEvent {
        step: String::from("detect"),
        current: 2,
        total: 4,
        message: None,
    };
    assert!(!t.should_emit(&e2, 1100));
    // Same stage, different content, after the window: emitted.
    assert!(t.should_emit(&e2, 1300));
    // Stage change: emitted at once.
    let e3 = ScanProgressEvent {
        step: String::from("match"),
        current: 3,
        total: 4,
        message: Some(String::from("matching")),
    };
    assert!(t.should_emit(&e3, 1301));
}

#[test]
fn quick_action_describes_and_notifies() {
    assert_eq!(QuickActionType::Timer.generate_describe(), "Auto Backup (Timer)");
    assert_eq!(QuickActionType::Tray.generate_describe(), "Quick Backup (Tray)");
    assert_eq!(QuickActionType::Hotkey.generate_describe(), "Quick Backup (Hotkey)");

    let mut settings = QuickActionsSettings::default();
    settings.enable_notification = true;
    let shown = maybe_show_notification(&settings, String::from("t"), String::from("b"));
    assert_eq!(shown, Some((String::from("t"), String::from("b"))));
    settings.enable_notification = false;
    assert!(maybe_show_notification(&settings, String::from("t"), String::from("b")).is_none());
    settings.enable_notification = true;
    assert!(
        maybe_show_success_notification(&settings, false, String::from("t"), String::from("b"))
            .is_none()
    );
}

#[test]
fn version_parse_and_migration_decisions() {
    let v = parse_version("1.4.0").expect("parse");
    assert_eq!(v, Version { major: 1, minor: 4, patch: 0, pre: false });
    assert!(parse_version("not a version").is_none());
    let pre = parse_version("1.4.0-beta.1").expect("parse pre");
    assert!(pre.pre);

    let cur = current_version();
    let min = min_supported_version();
    assert_eq!(
        migration_action(&Version { major: 9, minor: 0, patch: 0, pre: false }, &cur, &min),
        MigrationAction::TooNew
    );
    assert_eq!(
        migration_action(&Version { major: 0, minor: 9, patch: 0, pre: false }, &cur, &min),
        MigrationAction::TooOld
    );
    assert_eq!(migration_action(&cur, &cur, &min), MigrationAction::UpToDate);
    assert_eq!(
        migration_action(&Version { major: 1, minor: 4, patch: 0, pre: false }, &cur, &min),
        MigrationAction::Migrate
    );
}

#[test]
fn upgrade_maps_paths_to_current_device() {
    let old = save_scan::updater::Config {
        version: String::from("1.4.0"),
        backup_path: String::from("./save_data"),
        games: vec![save_scan::updater::Game {
            name: String::from("G"),
            save_paths: vec![save_scan::updater::SaveUnit1_4_0 {
                unit_type: SaveUnitType::Folder,
                path: String::from("/saves/g"),
                delete_before_apply: true,
            }],
            game_path: Some(String::from("/games/g")),
        }],
        settings: save_scan::config::Settings::default(),
        favorites: vec![],
        quick_action: QuickActionsSettings::default(),
    };
    let device = save_scan::config::Device {
        id: String::from("dev-1"),
        name: String::from("host"),
    };
    let new = upgrade_config(old, &device);
    assert_eq!(new.version, "1.5.0");
    assert_eq!(new.games.len(), 1);
    assert_eq!(new.games[0].save_paths.len(), 1);
    assert_eq!(
        new.games[0].save_paths[0].paths,
        vec![(String::from("dev-1"), String::from("/saves/g"))]
    );
    assert!(new.games[0].save_paths[0].delete_before_apply);
    assert_eq!(new.games[0].game_paths, vec![(String::from("dev-1"), String::from("/games/g"))]);
    assert_eq!(new.devices.len(), 1);
    assert_eq!(new.devices[0].1.name, "host");
}

#[test]
fn manifest_fields_extracted() {
    let doc = JsonNode::Obj(vec![
        (String::from("DisplayName"), JsonNode::Str(String::from("My Epic Game"))),
        (String::from("AppName"), JsonNode::Str(String::from("MyEpicGame"))),
        (String::from("InstallLocation"), JsonNode::Str(String::from("/games/epic"))),
    ]);
    let (name, install) = parse_manifest_fields(&doc).expect("fields");
    assert_eq!(name, "My Epic Game");
    assert_eq!(install, "/games/epic");
    assert!(parse_manifest_fields(&JsonNode::Other).is_none());
}

#[test]
fn arbitrary_document_walked_for_entries() {
    let doc = JsonNode::Obj(vec![(
        String::from("installed"),
        JsonNode::Arr(vec![
            JsonNode::Obj(vec![
                (String::from("displayName"), JsonNode::Str(String::from("My EA Game"))),
                (String::from("installLocation"), JsonNode::Str(String::from("/games/ea"))),
            ]),
            JsonNode::Obj(vec![(String::from("other"), JsonNode::Other)]),
        ]),
    )]);
    let entries = extract_install_entries(&doc);
    assert_eq!(entries, vec![(String::from("My EA Game"), String::from("/games/ea"))]);
}

#[test]
fn backend_sanitize_scrubs_credentials() {
    let b = save_scan::cloud::Backend::WebDAV {
        endpoint: String::from("https://dav.example"),
        username: String::from("user"),
        password: String::from("secret"),
    };
    match b.sanitize() {
        save_scan::cloud::Backend::WebDAV { endpoint, username, password } => {
            assert_eq!(endpoint, "https://dav.example");
            assert_eq!(username, "*username*");
            assert_eq!(password, "*password*");
        },
        _ => panic!("variant changed"),
    }
}
