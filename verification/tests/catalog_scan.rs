use save_scan::catalog::find_by_name;
use save_scan::catalog::import_catalog_from_rows;
use save_scan::catalog::normalize_path_template;
use save_scan::catalog::split_aliases;
use save_scan::enrich::enrich_with_pcgw;
use save_scan::scan::DirEntry;
use save_scan::scan::candidates_from_dirs;
use save_scan::scan::dedup_detected;
use save_scan::scan::parse_libraryfolders_vdf;
use save_scan::score::Score;
use save_scan::types::Catalog;
use save_scan::types::DetectedGame;
use save_scan::types::DetectionSource;
use save_scan::types::GameInfo;
use save_scan::types::SavePathRule;

fn game(name: &str, aliases: Vec<&str>, pcgw: Option<&str>, rules: Vec<SavePathRule>) -> GameInfo {
    GameInfo {
        name: String::from(name),
        aliases: aliases.into_iter().map(String::from).collect(),
        pcgw_id: pcgw.map(String::from),
        install_rules: vec![],
        save_rules: rules,
    }
}

fn rule(id: &str, desc: &str, template: &str, conf: (u64, u64)) -> SavePathRule {
    SavePathRule {
        id: String::from(id),
        description: Some(String::from(desc)),
        path_template: String::from(template),
        requires: None,
        platforms: vec![String::from("windows")],
        confidence: Score { num: conf.0, den: conf.1 },
    }
}

#[test]
fn parse_pcgw_index_and_query() {
    let idx = Catalog {
        version: String::from("1.0.0"),
        entries: vec![
            game("Example Game", vec!["EG"], Some("example-game"), vec![]),
            game("Stardew Valley", vec!["SV"], Some("stardew-valley"), vec![]),
        ],
    };
    assert_eq!(idx.version, "1.0.0");
    assert_eq!(idx.entries.len(), 2);

    let g = find_by_name(&idx.entries, "sv").expect("find by alias");
    assert_eq!(g.name, "Stardew Valley");
    assert_eq!(g.pcgw_id.as_deref(), Some("stardew-valley"));
}

#[test]
fn enrich_with_pcgw_injects_rules() {
    let detected = vec![DetectedGame {
        info: game("Stardew Valley", vec!["SV"], None, vec![]),
        install_path: None,
        source: DetectionSource::CommonDir,
    }];

    let index = vec![game(
        "Stardew Valley",
        vec!["SV"],
        Some("stardew-valley"),
        vec![rule(
            "save-stardew-default",
            "AppData saves",
            "<winAppData>/StardewValley/Saves",
            (95, 100),
        )],
    )];

    let merged = enrich_with_pcgw(&detected, &index);
    assert_eq!(merged.len(), 1);
    let info = &merged[0].info;
    assert_eq!(info.pcgw_id.as_deref(), Some("stardew-valley"));
    assert_eq!(info.save_rules.len(), 1);
    assert_eq!(info.save_rules[0].path_template, "<winAppData>/StardewValley/Saves");
}

#[test]
fn enrich_with_pcgw_fuzzy_normalize() {
    let detected = vec![DetectedGame {
        info: game("BlackMythWukong", vec![], None, vec![]),
        install_path: None,
        source: DetectionSource::CommonDir,
    }];

    let index = vec![game(
        "Black Myth: Wukong",
        vec!["Black Myth Wukong"],
        Some("black-myth-wukong"),
        vec![rule(
            "save-bmw-default",
            "AppData saves",
            "<winAppData>/BlackMythWukong/Saved/SaveGames",
            (90, 100),
        )],
    )];

    let merged = enrich_with_pcgw(&detected, &index);
    assert_eq!(merged.len(), 1);
    let info = &merged[0].info;
    assert_eq!(info.pcgw_id.as_deref(), Some("black-myth-wukong"));
    assert_eq!(info.save_rules.len(), 1);
    assert!(info.save_rules[0].path_template.contains("BlackMythWukong"));
}

#[test]
fn test_parse_libraryfolders_vdf() {
    let sample = r#"
    "libraryfolders"
    {
        "TimeNextStatsReport"    "12345"
        "contentstatsid" "-1234567890"
        "1"
        {
            "path"    "D:\\SteamLibrary"
            "label"   "Secondary"
            "mounted"   "1"
        }
        "2"
        {
            "path"    "E:\\Games\\SteamLib"
            "mounted"   "1"
        }
    }
    "#;
    let paths = parse_libraryfolders_vdf(sample);
    println!("paths = {:?}", paths);
    assert!(paths.contains(&"D:\\SteamLibrary".to_string()));
    assert!(paths.contains(&"E:\\Games\\SteamLib".to_string()));
}

#[test]
fn aggregation_collapses_equivalent_paths() {
    // Scenario: install paths "C:\Games\X" and "C:/Games/X/" collapse.
    let entries = vec![
        DirEntry { name: String::from("X"), path: String::from("C:\\Games\\X") },
        DirEntry { name: String::from("X"), path: String::from("C:/Games/X/") },
    ];
    let candidates = candidates_from_dirs(&entries, DetectionSource::CommonDir);
    assert_eq!(candidates.len(), 2);
    let deduped = dedup_detected(&candidates);
    assert_eq!(deduped.len(), 1);
    assert_eq!(deduped[0].install_path.as_deref(), Some("C:\\Games\\X"));
}

#[test]
fn dedup_keeps_distinct_paths_and_keys_nameless_by_source() {
    let mut items = candidates_from_dirs(
        &vec![
            DirEntry { name: String::from("A"), path: String::from("C:/a") },
            DirEntry { name: String::from("B"), path: String::from("C:/b") },
        ],
        DetectionSource::Steam,
    );
    items.push(DetectedGame {
        info: game("A", vec![], None, vec![]),
        install_path: None,
        source: DetectionSource::Manual,
    });
    let out = dedup_detected(&items);
    assert_eq!(out.len(), 3);
}

#[test]
fn split_aliases_trims_and_drops_empty() {
    let r = split_aliases("a, b|c,, ");
    assert_eq!(r, vec![String::from("a"), String::from("b"), String::from("c")]);
}

#[test]
fn normalize_path_template_rewrites_placeholders() {
    assert_eq!(
        normalize_path_template("C:/Users/%USERNAME%/AppData/Roaming/Foo"),
        "<winAppData>/Foo"
    );
    assert_eq!(normalize_path_template("%APPDATA%/Foo"), "%APPDATA%/Foo");
    assert_eq!(
        normalize_path_template("C:/Users/%USERNAME%/Documents/My Games"),
        "<home>/Documents/My Games"
    );
    assert_eq!(normalize_path_template("  /plain/path  "), "/plain/path");
}

#[test]
fn import_builds_entries_from_rows() {
    let cols = vec![
        String::from("id"),
        String::from("name"),
        String::from("aliases"),
        String::from("zh_cn"),
        String::from("save_path"),
    ];
    let rows = vec![
        vec![
            Some(String::from("1")),
            Some(String::from("Stardew Valley")),
            Some(String::from("SV|Stardew")),
            Some(String::from("星露谷物语")),
            Some(String::from("C:/Users/%USERNAME%/AppData/Roaming/StardewValley/Saves")),
        ],
        vec![Some(String::from("2")), Some(String::from("  ")), None, None, None],
    ];
    let games = import_catalog_from_rows("games", &cols, &rows).expect("name column");
    assert_eq!(games.len(), 1);
    let g = &games[0];
    assert_eq!(g.name, "Stardew Valley");
    assert_eq!(
        g.aliases,
        vec![String::from("SV"), String::from("Stardew"), String::from("星露谷物语")]
    );
    assert_eq!(g.save_rules.len(), 1);
    assert_eq!(g.save_rules[0].id, "Stardew_Valley-save_path");
    assert_eq!(g.save_rules[0].path_template, "<winAppData>/StardewValley/Saves");
    assert_eq!(g.save_rules[0].platforms, vec![String::from("windows")]);
    assert!(g.save_rules[0].confidence.value_eq(&Score { num: 6, den: 10 }));
}

#[test]
fn import_without_name_column_yields_nothing() {
    let cols = vec![String::from("id"), String::from("path")];
    let rows: Vec<Vec<Option<String>>> = vec![];
    assert!(import_catalog_from_rows("t", &cols, &rows).is_none());
}

#[test]
fn detect_installed_games_respects_options() {
    let steam = candidates_from_dirs(
        &vec![DirEntry { name: String::from("A"), path: String::from("C:/steam/A") }],
        DetectionSource::Steam,
    );
    let epic = candidates_from_dirs(
        &vec![DirEntry { name: String::from("B"), path: String::from("C:/epic/B") }],
        DetectionSource::Epic,
    );
    let none: Vec<DetectedGame> = vec![];
    let options = save_scan::types::ScanOptions {
        platform: String::from("windows"),
        search_steam: true,
        search_epic: false,
        search_origin: false,
        search_registry: false,
        search_common_dirs: false,
        search_processes: false,
    };
    let r = save_scan::scan::detect_installed_games(&options, &steam, &epic, &none, &none);
    assert_eq!(r.len(), 1);
    assert_eq!(r[0].source, DetectionSource::Steam);
}

#[test]
fn catalog_meta_reports_version_and_count() {
    let c = Catalog {
        version: String::from("db-import"),
        entries: vec![game("A", vec![], None, vec![])],
    };
    let meta = save_scan::catalog::catalog_meta(&c);
    assert_eq!(meta.version.as_deref(), Some("db-import"));
    assert_eq!(meta.count, 1);
}
