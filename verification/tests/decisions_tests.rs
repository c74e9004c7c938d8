use cdk_drive_updater::app_logging::{build_ascii_row, build_ascii_table, build_separator, compute_widths};
use cdk_drive_updater::install::{
    adaptiva_next_step, download_step, runs_through_msiexec, wait_after_webstart_kill,
    DownloadAction, DownloadEvent,
    TaskkillOutcome, MAX_DOWNLOAD_ATTEMPTS,
};
use cdk_drive_updater::catalog::{catalog_from_nodes, SoftwareEntry};
use cdk_drive_updater::cdk_info::{CdkInfo, PathCheckStatus, RegistryCheckStatus};
use cdk_drive_updater::html::{HtmlNode, HtmlNodeKind};
use cdk_drive_updater::installed::{prefer_first, program_files_root_candidates, InstalledProduct};
use cdk_drive_updater::targets::{
    perform_or_describe_install, process_target, target_softwares, verification_pass_needed,
    AppMode, Detector, InstallRequest, InstallerKind,
};
use cdk_drive_updater::utils::safe_filename_token;

fn texts(v: &[&str]) -> Vec<String> {
    v.iter().map(|s| s.to_string()).collect()
}

#[test]
fn target_table_lists_the_four_packages() {
    let t = target_softwares();
    assert_eq!(t.len(), 4);
    let names: Vec<&str> = t.iter().map(|x| x.installed_name).collect();
    assert_eq!(names, vec!["CDK Drive 3rd Party Managed Assemblies 96.x", "Adaptiva", "BlueZone", "CDK Drive WebStart"]);
    assert_eq!(t[1].osd_description, "CDK Software Install Agent ( Adaptiva )");
    assert_eq!(t[2].osd_description, "CDK Terminal Emulator");
    assert_eq!(t[2].detector, Detector::BlueZone);
    match t[2].installer {
        InstallerKind::Standard { args_env_var, default_args } => {
            assert_eq!(args_env_var, "CDK_BLUEZONE_INSTALL_ARGS");
            assert_eq!(default_args, "/silent");
        }
        _ => panic!("BlueZone uses the standard installer"),
    }
    match t[3].installer {
        InstallerKind::Standard { default_args, .. } => assert_eq!(default_args, "/quiet /norestart"),
        _ => panic!("WebStart uses the standard installer"),
    }
    match t[1].installer {
        InstallerKind::Adaptiva { preadaptiva_override_env_var, client_override_env_var } => {
            assert_eq!(preadaptiva_override_env_var, "CDK_ADAPTIVA_PREADAPTIVA_ARGS");
            assert_eq!(client_override_env_var, "CDK_ADAPTIVA_CLIENT_ARGS");
        }
        _ => panic!("Adaptiva uses its own installer"),
    }
}

#[test]
fn downloads_are_saved_retried_or_given_up() {
    let ok = DownloadEvent::Response { status: 200, content_length: Some(5) };
    let unknown_len = DownloadEvent::Response { status: 204, content_length: None };
    let empty = DownloadEvent::Response { status: 200, content_length: Some(0) };
    let not_found = DownloadEvent::Response { status: 404, content_length: Some(10) };
    assert_eq!(download_step(1, &ok), DownloadAction::Save);
    assert_eq!(download_step(MAX_DOWNLOAD_ATTEMPTS, &unknown_len), DownloadAction::Save);
    assert_eq!(download_step(1, &empty), DownloadAction::Retry);
    assert_eq!(download_step(9, &not_found), DownloadAction::Retry);
    assert_eq!(download_step(10, &not_found), DownloadAction::GiveUp);
    assert_eq!(download_step(3, &DownloadEvent::Failed), DownloadAction::Retry);
    assert_eq!(download_step(10, &DownloadEvent::Failed), DownloadAction::GiveUp);
}

#[test]
fn install_sequencing_decisions() {
    assert!(adaptiva_next_step(true, Some(0)));
    assert!(adaptiva_next_step(false, Some(3010)));
    assert!(!adaptiva_next_step(false, Some(1603)));
    assert!(!adaptiva_next_step(false, None));
    assert_eq!(wait_after_webstart_kill(TaskkillOutcome::Killed), 20);
    assert_eq!(wait_after_webstart_kill(TaskkillOutcome::NotRunning), 0);
    assert_eq!(wait_after_webstart_kill(TaskkillOutcome::Failed), 0);
}

#[test]
fn program_files_roots_trim_and_append_fallbacks() {
    let roots = program_files_root_candidates(&vec![
        Some("  D:\\Apps ".to_string()),
        None,
        Some("   ".to_string()),
    ]);
    assert_eq!(roots, texts(&["D:\\Apps", "C:\\Program Files", "C:\\Program Files (x86)"]));
}

#[test]
fn adaptiva_request_downloads_the_package() {
    let t = target_softwares();
    let link = "https://servdemo.cdk.com/apps/autoTools/cds/osd/express/CDK_ADAPTIVA_EXP_INS/index.php";
    let d = perform_or_describe_install(&t[1], &AppMode::Update, link, &Vec::new(), "install");
    match d.request {
        Some(InstallRequest::Adaptiva { package_url, preadaptiva_args, .. }) => {
            assert_eq!(
                package_url,
                "https://servdemo.cdk.com/apps/autoTools/cds/osd/express/CDK_ADAPTIVA_EXP_INS/download.php"
            );
            assert_eq!(preadaptiva_args, "CNUMBER=C000000 HOST=C000000-example.drive.example.com");
        }
        other => panic!("unexpected request: {other:?}"),
    }
}

#[test]
fn mode_flags_round_trip() {
    for (mode, name) in [(AppMode::Query, "query"), (AppMode::Update, "update")] {
        for prefix in ["/", "-", "--"] {
            let flag = format!("{}{}", prefix, name);
            assert_eq!(AppMode::from_args(&[flag.clone()]), mode);
            assert_eq!(AppMode::from_args(&[flag.to_uppercase()]), mode);
        }
    }
}

#[test]
fn file_name_tokens_are_stable() {
    for label in ["ADP (wsvc 4.5)", "__x__y__", "A-b.C  D", "Ünïcode Käse"] {
        let t = safe_filename_token(label);
        assert_eq!(safe_filename_token(&t), t);
        assert!(!t.contains("__"));
        assert!(!t.starts_with('_') && !t.ends_with('_'));
    }
}

#[test]
fn table_lines_follow_the_layout() {
    let headers = texts(&["Name", "V"]);
    let rows = vec![texts(&["a", "1.0"]), texts(&["bb\nc"])];
    let table = build_ascii_table("Title", &headers, &rows);
    assert!(table.ends_with("\n\n"));
    let body = &table[..table.len() - 2];
    let lines: Vec<&str> = body.split('\n').collect();
    let w = compute_widths(&headers, &rows);
    let sep = build_separator(&w);
    assert_eq!(lines.len(), 5 + 2 * rows.len());
    assert_eq!(lines[0], "Title");
    assert_eq!(lines[1], "");
    assert_eq!(lines[2], sep);
    assert_eq!(lines[3], build_ascii_row(&headers, &w));
    assert_eq!(lines[4], sep);
    for (k, row) in rows.iter().enumerate() {
        assert_eq!(lines[5 + 2 * k], build_ascii_row(row, &w));
        assert_eq!(lines[6 + 2 * k], sep);
        assert_eq!(lines[5 + 2 * k].chars().count(), sep.chars().count());
    }
    let wide = build_ascii_row(&texts(&["x", "y", "ignored"]), &vec![3, 2]);
    assert_eq!(wide, "| x   | y  |");
    assert_eq!(build_ascii_row(&Vec::new(), &vec![1]), "|   |");
}

fn element(depth: usize, created: usize, name: &str, class: Option<&str>) -> HtmlNode {
    HtmlNode {
        depth,
        created,
        kind: HtmlNodeKind::Element {
            name: name.to_string(),
            class_attr: class.map(|c| c.to_string()),
            href: None,
        },
    }
}

fn text(depth: usize, created: usize, t: &str) -> HtmlNode {
    HtmlNode { depth, created, kind: HtmlNodeKind::Text { text: t.to_string() } }
}

fn section(first: usize, heading: &str, row: &str) -> Vec<HtmlNode> {
    vec![
        element(1, first, "div", Some("category")),
        text(2, first + 1, heading),
        element(1, first + 2, "table", None),
        element(2, first + 3, "tr", None),
        element(3, first + 4, "th", None),
        text(4, first + 5, "Description"),
        element(2, first + 6, "tr", None),
        element(3, first + 7, "td", None),
        text(4, first + 8, row),
    ]
}

#[test]
fn catalog_sections_follow_the_parser_creation_order() {
    let mut nodes = vec![HtmlNode { depth: 0, created: 0, kind: HtmlNodeKind::Other }];
    nodes.extend(section(20, "B", "b1"));
    nodes.extend(section(1, "C", "c1"));
    let entries = catalog_from_nodes(&nodes, "https://x/osd.php");
    let got: Vec<(String, String)> =
        entries.iter().map(|e| (e.category.clone(), e.description.clone())).collect();
    assert_eq!(got, vec![("C".to_string(), "c1".to_string()), ("B".to_string(), "b1".to_string())]);
}

#[test]
fn small_decisions_of_the_run() {
    assert!(runs_through_msiexec("CDK Drive WebStart.MSI"));
    assert!(runs_through_msiexec("a.msi"));
    assert!(!runs_through_msiexec(".msi"));
    assert!(!runs_through_msiexec("setup.exe"));
    assert!(!runs_through_msiexec("x.msix"));
    let exe = Some(InstalledProduct::new("exe", "5.2"));
    let reg = Some(InstalledProduct::new("Adaptiva", "5.1"));
    assert_eq!(prefer_first(exe, Some(InstalledProduct::new("Adaptiva", "5.1"))).map(|p| p.version), Some("5.2".to_string()));
    assert_eq!(prefer_first(None, reg).map(|p| p.version), Some("5.1".to_string()));
    assert!(prefer_first(None, None).is_none());
    let t = target_softwares();
    let env: Vec<(String, String)> = Vec::new();
    let catalog = vec![SoftwareEntry {
        category: "Terminal".to_string(),
        description: "CDK Terminal Emulator".to_string(),
        version_number: "6.2".to_string(),
        file_version: String::new(),
        silent_install_arguments: String::new(),
        download_link: "https://x/bz.exe".to_string(),
    }];
    let update_plans = vec![process_target(&catalog, &AppMode::Update, &t[2], &blank_info(), &env)];
    assert!(update_plans[0].request.is_some());
    assert!(verification_pass_needed(&AppMode::Update, &update_plans));
    let query_plans = vec![process_target(&catalog, &AppMode::Query, &t[2], &blank_info(), &env)];
    assert!(!verification_pass_needed(&AppMode::Query, &query_plans));
    let nothing = vec![process_target(&Vec::new(), &AppMode::Update, &t[2], &blank_info(), &env)];
    assert!(!verification_pass_needed(&AppMode::Update, &nothing));
}

fn blank_info() -> CdkInfo {
    let nf = || "Not Found".to_string();
    CdkInfo {
        adp_check: RegistryCheckStatus::PathMissing,
        webstart_url_check: RegistryCheckStatus::PathMissing,
        webstart_shell_var: "PathMissing".to_string(),
        unify_drive_enabler_check: RegistryCheckStatus::PathMissing,
        adaptiva_check: RegistryCheckStatus::PathMissing,
        adaptiva_cdk_key_values: None,
        adaptiva_cdk_key_wow_values: None,
        adaptiva_server_host_name: nf(),
        adaptiva_server_host_name_wow: nf(),
        adaptiva_server_locator_name: nf(),
        adaptiva_server_locator_name_wow: nf(),
        adaptiva_setup_guid: nf(),
        adaptiva_client_data_manager_guid: nf(),
        adaptiva_setup_guid_wow: nf(),
        adaptiva_client_data_manager_guid_wow: nf(),
        sia_check: PathCheckStatus::Missing,
        sia_xml_check: PathCheckStatus::Missing,
        sia_fix_check: PathCheckStatus::Missing,
        webstart_version: "NotFound".to_string(),
        webstart_add_remove_version: "NotFound".to_string(),
        cdk_3rd_party_assemblies_version: "NotFound".to_string(),
        adaptiva_installed_version: "NotFound".to_string(),
        bluezone_version: "NotFound".to_string(),
    }
}
