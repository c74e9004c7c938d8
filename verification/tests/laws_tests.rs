use cdk_drive_updater::app_logging::{cdk_info_entries, cdk_info_variable_files, TargetComparisonRow};
use cdk_drive_updater::catalog::{merge_adaptiva_catalog_entry, SoftwareEntry};
use cdk_drive_updater::cdk_info::{CdkInfo, PathCheckStatus, RegistryCheckStatus};
use cdk_drive_updater::installed::extract_version_from_name;
use cdk_drive_updater::targets::{log_post_run_summary, process_target, target_softwares, AppMode};
use cdk_drive_updater::utils::safe_filename_token;
use cdk_drive_updater::version::{version_order_from_outcome, Order};

fn catalog_entry(description: &str, version: &str, link: &str) -> SoftwareEntry {
    SoftwareEntry {
        category: "Core".to_string(),
        description: description.to_string(),
        version_number: version.to_string(),
        file_version: String::new(),
        silent_install_arguments: String::new(),
        download_link: link.to_string(),
    }
}

fn snapshot(adaptiva: &str, bluezone: &str) -> CdkInfo {
    CdkInfo {
        adp_check: RegistryCheckStatus::PathMissing,
        webstart_url_check: RegistryCheckStatus::Found,
        webstart_shell_var: "\"C:\\ws.exe\" %1".to_string(),
        unify_drive_enabler_check: RegistryCheckStatus::PathExists,
        adaptiva_check: RegistryCheckStatus::PathMissing,
        adaptiva_cdk_key_values: Some(vec![("Sub\\Name".to_string(), "7".to_string())]),
        adaptiva_cdk_key_wow_values: None,
        adaptiva_server_host_name: "Not Found".to_string(),
        adaptiva_server_host_name_wow: "Not Found".to_string(),
        adaptiva_server_locator_name: "Not Found".to_string(),
        adaptiva_server_locator_name_wow: "Not Found".to_string(),
        adaptiva_setup_guid: "Not Found".to_string(),
        adaptiva_client_data_manager_guid: "Not Found".to_string(),
        adaptiva_setup_guid_wow: "Not Found".to_string(),
        adaptiva_client_data_manager_guid_wow: "Not Found".to_string(),
        sia_check: PathCheckStatus::Missing,
        sia_xml_check: PathCheckStatus::Missing,
        sia_fix_check: PathCheckStatus::Missing,
        webstart_version: "NotFound".to_string(),
        webstart_add_remove_version: "NotFound".to_string(),
        cdk_3rd_party_assemblies_version: "NotFound".to_string(),
        adaptiva_installed_version: adaptiva.to_string(),
        bluezone_version: bluezone.to_string(),
    }
}

fn entry_fields(e: &SoftwareEntry) -> [String; 6] {
    [
        e.category.clone(),
        e.description.clone(),
        e.version_number.clone(),
        e.file_version.clone(),
        e.silent_install_arguments.clone(),
        e.download_link.clone(),
    ]
}

#[test]
fn merging_the_same_adaptiva_version_twice_changes_nothing() {
    let adaptiva = "CDK Software Install Agent ( Adaptiva )";
    for with_adaptiva in [false, true] {
        let start = || {
            let mut c = vec![catalog_entry("CDK Init", "1.7", "")];
            if with_adaptiva {
                c.insert(0, catalog_entry(adaptiva, "5.0", "https://x/index.php"));
            }
            c
        };
        let mut once = start();
        merge_adaptiva_catalog_entry(&mut once, "5.4".to_string());
        let mut twice = start();
        merge_adaptiva_catalog_entry(&mut twice, "5.4".to_string());
        merge_adaptiva_catalog_entry(&mut twice, "5.4".to_string());
        assert_eq!(once.len(), 2);
        assert_eq!(once.len(), twice.len());
        for (a, b) in once.iter().zip(twice.iter()) {
            assert_eq!(entry_fields(a), entry_fields(b));
        }
        let merged = once.iter().find(|e| e.description == adaptiva).expect("adaptiva entry");
        assert_eq!(merged.version_number, "5.4");
        assert_eq!(merged.file_version, "5.4");
    }
}

#[test]
fn an_up_to_date_or_installed_adaptiva_target_is_never_installed() {
    let targets = target_softwares();
    let env: Vec<(String, String)> = Vec::new();
    let catalog = vec![
        catalog_entry("CDK Terminal Emulator", "6.2.1.23", "https://x/bz.exe"),
        catalog_entry("CDK Software Install Agent ( Adaptiva )", "9.9", "https://x/index.php"),
    ];
    // BlueZone newer than the catalog: nothing to do, even in update mode.
    let plan = process_target(&catalog, &AppMode::Update, &targets[2], &snapshot("5.1", "6.3"), &env);
    assert_eq!(plan.row.state, "Newer (Installed is newer)");
    assert_eq!(plan.row.action, "No update required");
    assert!(plan.request.is_none());
    // Adaptiva installed and older than the catalog: still not reinstalled.
    let plan = process_target(&catalog, &AppMode::Update, &targets[1], &snapshot("5.1", "6.3"), &env);
    assert!(plan.request.is_none());
    // Adaptiva missing: installed from the catalog's link.
    let plan = process_target(&catalog, &AppMode::Update, &targets[1], &snapshot("NotFound", "6.3"), &env);
    assert!(plan.request.is_some());
    // Missing BlueZone with no download link cannot be installed.
    let no_link = vec![catalog_entry("CDK Terminal Emulator", "6.2.1.23", "")];
    let plan = process_target(&no_link, &AppMode::Update, &targets[2], &snapshot("5.1", "NotFound"), &env);
    assert_eq!(plan.row.action, "Cannot install: no download link");
    assert!(plan.request.is_none());
}

fn row(target: &str, action: &str) -> TargetComparisonRow {
    TargetComparisonRow {
        target: target.to_string(),
        osd_description: String::new(),
        installed_version: String::new(),
        osd_version: String::new(),
        state: String::new(),
        action: action.to_string(),
        download_link: String::new(),
        install_args: String::new(),
        note: String::new(),
    }
}

#[test]
fn post_run_summary_reports_and_points_to_variables() {
    let rows = vec![
        row("BlueZone", "Installed (exit code: 0)"),
        row("CDK Drive WebStart", "Install failed (exit code: 1603 — fatal error during installation)"),
        row("Adaptiva", "No update required"),
    ];
    let lines = log_post_run_summary(&AppMode::Update, &rows, "C:\\vars");
    assert_eq!(
        lines,
        vec![
            "Post-Run Summary".to_string(),
            "Install actions attempted:".to_string(),
            "  - BlueZone: SUCCESS (Installed (exit code: 0))".to_string(),
            "  - CDK Drive WebStart: FAILED (Install failed (exit code: 1603 — fatal error during installation))"
                .to_string(),
            "Variables directory: C:\\vars".to_string(),
            "Full CDK Installation Info table: C:\\vars\\summary.txt".to_string(),
        ]
    );
    let query_rows = vec![row("BlueZone", "Would download and update"), row("Adaptiva", "No update required")];
    let lines = log_post_run_summary(&AppMode::Query, &query_rows, "D:\\v");
    assert_eq!(lines[0], "Post-Run Summary");
    assert_eq!(lines[1], "1 package(s) need installing or updating:");
    assert_eq!(lines[2], "  - BlueZone: Would download and update");
    assert_eq!(lines[3], "Run again with /update to install them.");
    assert_eq!(lines[lines.len() - 2], "Variables directory: D:\\v");
    assert_eq!(lines[lines.len() - 1], "Full CDK Installation Info table: D:\\v\\summary.txt");
    let lines = log_post_run_summary(&AppMode::Query, &vec![row("Adaptiva", "No update required")], "E:");
    assert_eq!(lines[1], "All tracked packages are up to date; nothing needs installing.");
}

#[test]
fn variable_files_follow_the_info_table_rows() {
    let info = snapshot("5.1", "6.3");
    let entries = cdk_info_entries(&info);
    let files = cdk_info_variable_files(&info);
    assert_eq!(files.len(), entries.len());
    for ((name, contents), (check, result)) in files.iter().zip(entries.iter()) {
        assert_eq!(name, &format!("{}.txt", safe_filename_token(check)));
        assert_eq!(contents, result);
    }
    assert!(files
        .iter()
        .any(|(name, contents)| name == "adaptiva_cdk_key_native_-_sub_name.txt" && contents == "7"));
}

#[test]
fn extracted_versions_and_tokens_have_their_shape() {
    assert_eq!(extract_version_from_name("Pkg v-3.4.."), Some("3.4".to_string()));
    assert_eq!(extract_version_from_name("Pkg V-1."), Some("1".to_string()));
    assert_eq!(extract_version_from_name("Pkg V-."), Some(String::new()));
    assert_eq!(safe_filename_token("(Default) Value"), "default_value");
    assert_eq!(safe_filename_token("  ABC  "), "abc");
    assert_eq!(safe_filename_token("()"), "");
}

#[test]
fn unparsed_versions_fall_back_to_trimmed_text_order() {
    assert_eq!(version_order_from_outcome(None, " 1.10 ", "1.9"), Order::Less);
    assert_eq!(version_order_from_outcome(None, "abc", " abc\t"), Order::Equal);
    assert_eq!(version_order_from_outcome(None, "b", "a"), Order::Greater);
    assert_eq!(version_order_from_outcome(Some(Order::Greater), "1.9", "1.10"), Order::Greater);
}
