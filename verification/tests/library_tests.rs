use cdk_drive_updater::app_logging::{
    build_ascii_row, build_ascii_table, build_separator, cdk_info_entries, cdk_info_table_string,
    clean_table_cell, compute_widths, log_adaptiva_remote_version, log_app_mode,
    log_osd_catalog, log_startup_summary, log_target_comparisons, TargetComparisonRow,
};
use cdk_drive_updater::catalog::{
    adaptiva_version_from_text, merge_adaptiva_catalog_entry, version_state_as_str,
    SoftwareEntry, VersionState,
};
use cdk_drive_updater::cdk_info::{
    format_reg_value, key_value_label, path_check_status, registry_check_status,
    registry_string_value, shell_command_value, CdkInfo, PathCheckStatus, RegValueKind,
    RegistryCheckStatus,
};
use cdk_drive_updater::install::{
    classify_taskkill, install_outcome, msiexec_exit_code_description, split_install_args,
    TaskkillOutcome,
};
use cdk_drive_updater::targets::{
    app_mode_as_str, process_target, resolve_target_install_args, target_softwares, AppMode,
    InstallRequest,
};
use cdk_drive_updater::utils::{
    build_timestamp, capitalize_first, env_path_or_else, is_missing_value, non_empty_env_var,
    safe_filename_token, to_safe_filename,
};
use cdk_drive_updater::version::{compare_versions, Order};

fn strings(v: &[&str]) -> Vec<String> {
    v.iter().map(|s| s.to_string()).collect()
}

fn sample_info() -> CdkInfo {
    CdkInfo {
        adp_check: RegistryCheckStatus::Found,
        webstart_url_check: RegistryCheckStatus::PathExists,
        webstart_shell_var: "PathMissing".to_string(),
        unify_drive_enabler_check: RegistryCheckStatus::PathMissing,
        adaptiva_check: RegistryCheckStatus::Found,
        adaptiva_cdk_key_values: None,
        adaptiva_cdk_key_wow_values: Some(Vec::new()),
        adaptiva_server_host_name: "Not Found".to_string(),
        adaptiva_server_host_name_wow: "host.example".to_string(),
        adaptiva_server_locator_name: "Not Found".to_string(),
        adaptiva_server_locator_name_wow: "Not Found".to_string(),
        adaptiva_setup_guid: "Not Found".to_string(),
        adaptiva_client_data_manager_guid: "Not Found".to_string(),
        adaptiva_setup_guid_wow: "Not Found".to_string(),
        adaptiva_client_data_manager_guid_wow: "Not Found".to_string(),
        sia_check: PathCheckStatus::Found,
        sia_xml_check: PathCheckStatus::Missing,
        sia_fix_check: PathCheckStatus::Error("denied".to_string()),
        webstart_version: "7.4.2.10".to_string(),
        webstart_add_remove_version: "NotFound".to_string(),
        cdk_3rd_party_assemblies_version: "NotFound".to_string(),
        adaptiva_installed_version: "5.1".to_string(),
        bluezone_version: "6.2.1.10".to_string(),
    }
}

fn entry(description: &str, version: &str, link: &str) -> SoftwareEntry {
    SoftwareEntry {
        category: "Core".to_string(),
        description: description.to_string(),
        version_number: version.to_string(),
        file_version: version.to_string(),
        silent_install_arguments: "/osd".to_string(),
        download_link: link.to_string(),
    }
}

#[test]
fn ascii_table_renders_padded_rows_and_separators() {
    let table = build_ascii_table(
        "T",
        &strings(&["A", "Bb"]),
        &vec![strings(&["x", "yyy"])],
    );
    assert_eq!(
        table,
        "T\n\n+---+-----+\n| A | Bb  |\n+---+-----+\n| x | yyy |\n+---+-----+\n\n"
    );
}

#[test]
fn ascii_table_rows_align_with_separators() {
    let rows = vec![
        strings(&["short", "a much longer cell"]),
        strings(&["x", "y", "extra column"]),
        strings(&["line\nbreak"]),
    ];
    let table = build_ascii_table("Title", &strings(&["H1", "H2"]), &rows);
    let lines: Vec<&str> = table.lines().collect();
    let width = lines[2].chars().count();
    for line in &lines[2..] {
        if !line.is_empty() {
            assert_eq!(line.chars().count(), width, "line: {line}");
        }
    }
    assert!(table.ends_with("\n\n"));
}

#[test]
fn widths_rows_and_separators_follow_cells() {
    let widths = compute_widths(&strings(&["ab"]), &vec![strings(&["abcd", "z"])]);
    assert_eq!(widths, vec![4, 1]);
    assert_eq!(build_separator(&widths), "+------+---+");
    assert_eq!(build_ascii_row(&strings(&["ab"]), &widths), "| ab   |   |");
    assert_eq!(clean_table_cell("a\r\nb"), "a  b");
}

#[test]
fn cdk_info_entries_expand_registry_keys() {
    let mut info = sample_info();
    let entries = cdk_info_entries(&info);
    assert_eq!(entries.len(), 23);
    assert_eq!(entries[0], ("ADP (wsvc 4.5)".to_string(), "Found".to_string()));
    assert_eq!(
        entries[5],
        ("Adaptiva CDK Key (Native)".to_string(), "Not Found".to_string())
    );
    assert_eq!(
        entries[6],
        (
            "Adaptiva CDK Key (WOW6432Node)".to_string(),
            "(key exists, no values)".to_string()
        )
    );
    assert_eq!(entries[17], ("SIA Fix Script".to_string(), "Error: denied".to_string()));
    assert_eq!(entries[22], ("BlueZone Version".to_string(), "6.2.1.10".to_string()));

    info.adaptiva_cdk_key_values = Some(vec![
        ("setup.status".to_string(), "1".to_string()),
        ("Sub\\name".to_string(), "x".to_string()),
    ]);
    let entries = cdk_info_entries(&info);
    assert_eq!(entries.len(), 24);
    assert_eq!(
        entries[5],
        ("Adaptiva CDK Key (Native) - setup.status".to_string(), "1".to_string())
    );
    let table = cdk_info_table_string(&info);
    assert!(table.starts_with("CDK Installation Info\n\n+"));
    assert!(table.contains("| Adaptiva CDK Key (Native) - Sub\\name"));
}

#[test]
fn report_tables_carry_their_titles() {
    let startup = log_startup_summary("log.txt", "query", "https://osd", "dl", "vars");
    assert!(startup.starts_with("Runtime Summary\n\n"));
    assert!(startup.contains("| App           | CDK Drive updater |"));

    let remote = log_adaptiva_remote_version("https://v", &None);
    assert!(remote.contains("(not found/empty)"));

    let catalog = vec![entry("CDK Init", "1.7.0.0", "https://x/a.msi")];
    let tables = log_osd_catalog(&catalog);
    assert_eq!(tables.len(), 3);
    assert!(tables[0].starts_with("OSD Catalog Core"));
    assert!(tables[2].contains("| Total Entries | 1     |"));

    let rows = vec![TargetComparisonRow {
        target: "BlueZone".to_string(),
        osd_description: "CDK Terminal Emulator".to_string(),
        installed_version: "6.2".to_string(),
        osd_version: "6.3".to_string(),
        state: "Older (Web is newer)".to_string(),
        action: "Would download and update".to_string(),
        download_link: "https://x".to_string(),
        install_args: "/silent".to_string(),
        note: String::new(),
    }];
    let tables = log_target_comparisons(&rows);
    assert_eq!(tables.len(), 2);
    assert!(tables[0].starts_with("Installed vs OSD Summary"));
    assert!(tables[1].contains("/silent"));
}

#[test]
fn app_mode_banner_uppercases_the_mode() {
    let lines = log_app_mode("query");
    assert_eq!(
        lines,
        vec![
            "\n".to_string(),
            "========================================".to_string(),
            "  Application Mode: QUERY".to_string(),
            "========================================".to_string(),
        ]
    );
}

#[test]
fn registry_values_are_formatted_by_type() {
    assert_eq!(
        format_reg_value(RegValueKind::Sz, &vec![0x48, 0, 0x69, 0, 0, 0, 0x41, 0]),
        "Hi"
    );
    assert_eq!(format_reg_value(RegValueKind::Dword, &vec![1, 2, 0, 0]), "513");
    assert_eq!(format_reg_value(RegValueKind::Dword, &vec![1, 2]), "(invalid DWORD)");
    assert_eq!(
        format_reg_value(RegValueKind::Qword, &vec![0xff; 8]),
        "18446744073709551615"
    );
    assert_eq!(format_reg_value(RegValueKind::Qword, &vec![0; 7]), "(invalid QWORD)");
    assert_eq!(
        format_reg_value(RegValueKind::MultiSz, &vec![0x61, 0, 0, 0, 0x62, 0, 0, 0, 0, 0]),
        "a | b"
    );
    assert_eq!(format_reg_value(RegValueKind::Other, &vec![0x0a, 0xff]), "0A FF");
    assert_eq!(
        format_reg_value(RegValueKind::ExpandSz, &vec![0x3d, 0xd8, 0x00, 0xde]),
        "\u{1F600}"
    );
}

#[test]
fn registry_checks_map_observations_to_statuses() {
    assert_eq!(
        registry_check_status(false, &strings(&["version"]), "version"),
        RegistryCheckStatus::PathMissing
    );
    assert_eq!(
        registry_check_status(true, &strings(&["Other", "VERSION"]), "version"),
        RegistryCheckStatus::Found
    );
    assert_eq!(
        registry_check_status(true, &strings(&["Other"]), "version"),
        RegistryCheckStatus::PathExists
    );
    assert_eq!(shell_command_value(false, None), "PathMissing");
    assert_eq!(shell_command_value(true, Some(String::new())), "PathExists");
    assert_eq!(shell_command_value(true, None), "PathExists");
    assert_eq!(shell_command_value(true, Some("cmd %1".to_string())), "cmd %1");
    assert_eq!(registry_string_value(None), "Not Found");
    assert_eq!(key_value_label("", ""), "(Default)");
    assert_eq!(key_value_label("Sub", "Name"), "Sub\\Name");
    assert_eq!(path_check_status(Ok(true)).as_string(), "Found");
    assert_eq!(path_check_status(Ok(false)).as_string(), "Missing");
    assert_eq!(path_check_status(Err("boom".to_string())).as_string(), "Error: boom");
}

#[test]
fn install_args_split_on_unquoted_spaces() {
    assert_eq!(
        split_install_args(r#"ALLUSERS=1 /quiet "INSTALLDIR=C:\Program Files\X" /norestart"#),
        strings(&["ALLUSERS=1", "/quiet", "INSTALLDIR=C:\\Program Files\\X", "/norestart"])
    );
    assert_eq!(split_install_args("  a   b "), strings(&["a", "b"]));
    assert_eq!(split_install_args("/quiet\t/norestart"), strings(&["/quiet", "/norestart"]));
    assert_eq!(split_install_args("a\r\n\"b\tc\" d"), strings(&["a", "b\tc", "d"]));
    assert!(split_install_args("").is_empty());
    assert_eq!(split_install_args("\"\""), Vec::<String>::new());
}

#[test]
fn install_outcomes_describe_exit_codes() {
    assert_eq!(install_outcome(true, Some(0)), "Installed (exit code: 0)");
    assert_eq!(
        install_outcome(false, Some(3010)),
        "Installed - reboot required (exit code: 3010)"
    );
    assert_eq!(
        install_outcome(false, Some(1603)),
        "Install failed (exit code: 1603 — fatal error during installation)"
    );
    assert!(install_outcome(false, None).starts_with("Install failed (exit code: -1 — see "));
    assert_eq!(
        msiexec_exit_code_description(1618),
        "another installation is already in progress"
    );
    assert_eq!(classify_taskkill(true, Some(0)), TaskkillOutcome::Killed);
    assert_eq!(classify_taskkill(false, Some(128)), TaskkillOutcome::NotRunning);
    assert_eq!(classify_taskkill(false, Some(1)), TaskkillOutcome::Failed);
}

#[test]
fn filename_tokens_and_text_helpers() {
    assert_eq!(safe_filename_token("ADP (wsvc 4.5)"), "adp_wsvc_4.5");
    assert_eq!(
        to_safe_filename("WebStart Version (Executable)"),
        "webstart_version_executable"
    );
    assert_eq!(safe_filename_token("__a  //  b__"), "a_b");
    assert_eq!(capitalize_first("install"), "Install");
    assert_eq!(capitalize_first(""), "");
    assert!(is_missing_value("  notfound "));
    assert!(is_missing_value("Not Found"));
    assert!(is_missing_value(""));
    assert!(!is_missing_value("1.0"));
    assert_eq!(env_path_or_else(Some("  C:\\x  ".to_string()), "d".to_string()), "C:\\x");
    assert_eq!(env_path_or_else(Some("   ".to_string()), "d".to_string()), "d");
    assert_eq!(env_path_or_else(None, "d".to_string()), "d");
    assert_eq!(non_empty_env_var(Some(" v ".to_string())), Some("v".to_string()));
}

#[test]
fn timestamps_use_a_twelve_hour_clock() {
    assert_eq!(build_timestamp(2026, 4, 21, 9, 5), "2026-04-21--9-05-am");
    assert_eq!(build_timestamp(2026, 4, 21, 0, 0), "2026-04-21--12-00-am");
    assert_eq!(build_timestamp(2026, 4, 21, 12, 30), "2026-04-21--12-30-pm");
    assert_eq!(build_timestamp(2026, 12, 1, 13, 7), "2026-12-01--1-07-pm");
    assert_eq!(build_timestamp(987, 1, 2, 23, 59), "0987-01-02--11-59-pm");
}

#[test]
fn run_mode_follows_the_first_recognised_flag() {
    assert_eq!(AppMode::from_args(&strings(&["--UPDATE"])), AppMode::Update);
    assert_eq!(AppMode::from_args(&strings(&["/query", "/update"])), AppMode::Query);
    assert_eq!(AppMode::from_args(&strings(&["foo", "-update"])), AppMode::Update);
    assert_eq!(AppMode::from_args(&[]), AppMode::Query);
    assert_eq!(AppMode::from_args(&strings(&["/-update"])), AppMode::Update);
    assert_eq!(AppMode::from_args(&strings(&["-/update"])), AppMode::Query);
    assert_eq!(app_mode_as_str(&AppMode::Update), "update");
}

#[test]
fn version_ordering_uses_version_semantics() {
    assert_eq!(compare_versions("1.10", "1.9"), Order::Greater);
    assert_eq!(compare_versions("1.2.3", "1.2.3"), Order::Equal);
    assert_eq!(compare_versions("6.2.1.10", "6.2.1.23"), Order::Less);
    assert_eq!(version_state_as_str(&VersionState::NeedsUpdate), "Older (Web is newer)");
}

#[test]
fn adaptiva_version_is_merged_into_the_catalog() {
    assert_eq!(adaptiva_version_from_text("  5.1.2 \n"), Some("5.1.2".to_string()));
    assert_eq!(adaptiva_version_from_text(" \n "), None);

    let mut catalog = vec![entry("CDK Init", "1.7", "")];
    merge_adaptiva_catalog_entry(&mut catalog, "5.2".to_string());
    assert_eq!(catalog.len(), 2);
    assert_eq!(catalog[1].category, "Adaptiva");
    assert_eq!(catalog[1].description, "CDK Software Install Agent ( Adaptiva )");
    assert_eq!(catalog[1].version_number, "5.2");

    merge_adaptiva_catalog_entry(&mut catalog, "5.3".to_string());
    assert_eq!(catalog.len(), 2);
    assert_eq!(catalog[1].version_number, "5.3");
    assert_eq!(catalog[1].file_version, "5.3");
}

#[test]
fn targets_are_planned_per_mode() {
    let targets = target_softwares();
    let info = sample_info();
    let catalog = vec![
        entry("CDK Terminal Emulator", "6.2.1.23", "https://x/bz.exe"),
        entry("CDK Drive WebStart", "7.4.2.10", "https://x/ws.msi"),
        entry("CDK Software Install Agent ( Adaptiva )", "5.2", "https://x/index.php"),
    ];
    let env: Vec<(String, String)> = Vec::new();

    // BlueZone: installed 6.2.1.10, catalog 6.2.1.23.
    let plan = process_target(&catalog, &AppMode::Query, &targets[2], &info, &env);
    assert_eq!(plan.row.state, "Older (Web is newer)");
    assert_eq!(plan.row.action, "Would download and update");
    assert_eq!(plan.row.install_args, "/silent");
    assert!(plan.request.is_none());

    let plan = process_target(&catalog, &AppMode::Update, &targets[2], &info, &env);
    assert_eq!(plan.row.action, "");
    match plan.request {
        Some(InstallRequest::Standard { url, args }) => {
            assert_eq!(url, "https://x/bz.exe");
            assert_eq!(args, "/silent");
        }
        other => panic!("unexpected request: {other:?}"),
    }

    // WebStart: executable version equals the catalog.
    let plan = process_target(&catalog, &AppMode::Query, &targets[3], &info, &env);
    assert_eq!(plan.row.state, "Same");
    assert_eq!(plan.row.action, "No update required");
    assert_eq!(plan.row.install_args, "/quiet /norestart");

    // Adaptiva: installed and older, but never reinstalled.
    let plan = process_target(&catalog, &AppMode::Update, &targets[1], &info, &env);
    assert_eq!(plan.row.action, "Install skipped: already installed");
    assert!(plan.request.is_none());

    // 3rd Party Managed Assemblies: not installed, not on the page.
    let plan = process_target(&catalog, &AppMode::Update, &targets[0], &info, &env);
    assert_eq!(plan.row.installed_version, "Not installed");
    assert_eq!(plan.row.state, "Missing");
    assert_eq!(plan.row.action, "Unavailable");
}

#[test]
fn install_args_honour_environment_overrides() {
    let targets = target_softwares();
    let env = vec![
        ("CDK_WEBSTART_INSTALL_ARGS".to_string(), "  /qn ".to_string()),
        ("ADAPTIVA_HOST".to_string(), "h.example".to_string()),
    ];
    assert_eq!(resolve_target_install_args(&targets[3], &env), "  /qn ");
    let blank = vec![("CDK_WEBSTART_INSTALL_ARGS".to_string(), "  ".to_string())];
    assert_eq!(resolve_target_install_args(&targets[3], &blank), "/quiet /norestart");
    assert_eq!(resolve_target_install_args(&targets[2], &blank), "/silent");
    let pre = vec![("CDK_ADAPTIVA_PREADAPTIVA_ARGS".to_string(), " X=1 ".to_string())];
    assert!(resolve_target_install_args(&targets[1], &pre).starts_with("preadaptiva.msi:  X=1  | "));
    assert_eq!(resolve_target_install_args(&targets[0], &env), "");
    assert_eq!(
        resolve_target_install_args(&targets[1], &env),
        "preadaptiva.msi: CNUMBER=C000000 HOST=h.example | AdaptivaClientSetup.exe: -installorupgrade -servername h.example -cloudrelay -serverguid 00000000-0000-0000-0000-000000000000"
    );
}
