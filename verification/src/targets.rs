//! The run mode, the tracked software, and what to report and do for each
//! tracked target given the catalog, the CDK snapshot and the environment.
use vstd::prelude::*;
use crate::app_logging::TargetComparisonRow;
use crate::catalog::{
    compare_software_version, first_described, get_software_by_description, preferred_version_of,
    state_of, version_state_as_str, version_state_text, SoftwareEntry, VersionState,
};
use crate::cdk_info::CdkInfo;
use crate::installed::{
    detect_adaptiva, detect_bluezone, detect_cdk_drive_3rd_party_managed_assemblies_96x,
    get_webstart_installed_version_from_cdk_info, product_opt_view, reported, InstalledProduct,
};
use crate::text::{strip_leading, strip_leading_exec, concat2, lower_chars, lower_seq, push_str, str_chars, string_from_chars, to_string, trim, trim_chars};
use crate::version::version_order;
use crate::install::{adaptiva_zip_download_url, replace_all};

verus! {

// ---------------------------------------------------------------------------
// Run mode
// ---------------------------------------------------------------------------

/// Whether the run only reports (`Query`) or also installs (`Update`).
#[derive(Debug, Clone, Copy, PartialEq, Eq, Structural)]
pub enum AppMode {
    Query,
    Update,
}

/// An argument with leading `/` then leading `-` removed, lowercased.
pub open spec fn normalized_arg(a: Seq<char>) -> Seq<char> {
    lower_seq(strip_leading(strip_leading(a, '/'), '-'))
}

/// A text with its ASCII lowercase letters capitalised.
pub open spec fn ascii_upper_text(s: Seq<char>) -> Seq<char> {
    s.map_values(|c: char| crate::app_logging::ascii_upper(c))
}

/// A mode flag written as `/`, `-` or `--` followed by the mode's name, in
/// lower or upper case.
pub open spec fn mode_flag(m: AppMode, prefix: Seq<char>, upper: bool) -> Seq<char> {
    if upper {
        ascii_upper_text(prefix + app_mode_text(m))
    } else {
        prefix + app_mode_text(m)
    }
}

/// The mode named by the first recognised argument at or after `k`.
pub open spec fn mode_from(args: Seq<String>, k: int) -> AppMode
    decreases args.len() - k,
{
    if k < 0 || k >= args.len() {
        AppMode::Query
    } else if normalized_arg(args[k]@) == "update"@ {
        AppMode::Update
    } else if normalized_arg(args[k]@) == "query"@ {
        AppMode::Query
    } else {
        mode_from(args, k + 1)
    }
}

impl AppMode {
    /// Parses the run mode from the command-line arguments: any casing of
    /// `/query`, `--query`, `-query`, `/update`, `--update` or `-update`; the
    /// first recognised one decides, and query is the default.
    pub fn from_args(args: &[String]) -> (r: AppMode)
        ensures
            r == mode_from(args@, 0),
    {
        let update = str_chars("update");
        let query = str_chars("query");
        let mut k: usize = 0;
        while k < args.len()
            invariant
                k <= args.len(),
                update@ == "update"@,
                query@ == "query"@,
                mode_from(args@, 0) == mode_from(args@, k as int),
            decreases args.len() - k,
        {
            let n = lower_chars(
                &strip_leading_exec(&strip_leading_exec(&str_chars(args[k].as_str()), '/'), '-'),
            );
            if crate::text::chars_eq(&n, &update) {
                return AppMode::Update;
            }
            if crate::text::chars_eq(&n, &query) {
                return AppMode::Query;
            }
            k += 1;
        }
        AppMode::Query
    }
}

pub open spec fn app_mode_text(mode: AppMode) -> Seq<char> {
    match mode {
        AppMode::Query => "query"@,
        AppMode::Update => "update"@,
    }
}

/// The mode as it appears in logs.
pub fn app_mode_as_str(mode: &AppMode) -> (r: &'static str)
    ensures
        r@ == app_mode_text(*mode),
{
    match mode {
        AppMode::Query => "query",
        AppMode::Update => "update",
    }
}

/// A mode flag (`/`, `-` or `--` and the mode's name, in lower or upper
/// case) given as the only argument selects that mode.
pub proof fn law_mode_flag_round_trip(m: AppMode, prefix: Seq<char>, upper: bool, args: Seq<String>)
    requires
        prefix == "/"@ || prefix == "-"@ || prefix == "--"@,
        args.len() == 1,
        args[0]@ == mode_flag(m, prefix, upper),
    ensures
        mode_from(args, 0) == m,
{
    reveal_strlit("/");
    reveal_strlit("-");
    reveal_strlit("--");
    reveal_strlit("update");
    reveal_strlit("query");
    reveal_with_fuel(strip_leading, 4);
    let w = args[0]@;
    let name = app_mode_text(m);
    let base = strip_leading(strip_leading(w, '/'), '-');
    assert(base =~= if upper { ascii_upper_text(name) } else { name }) by {
        if prefix == "/"@ {
            assert(w.drop_first() =~= base);
        } else if prefix == "-"@ {
            assert(w.drop_first() =~= base);
        } else {
            assert(w.drop_first().drop_first() =~= base);
        }
    }
    assert(normalized_arg(w) =~= name);
    assert(mode_from(args, 1) == AppMode::Query);
}

// ---------------------------------------------------------------------------
// Environment
// ---------------------------------------------------------------------------

/// Value of the first variable named `name` in an environment listing.
pub open spec fn env_value_from(env: Seq<(String, String)>, name: Seq<char>, k: int) -> Option<
    Seq<char>,
>
    decreases env.len() - k,
{
    if k < 0 || k >= env.len() {
        None
    } else if env[k].0@ == name {
        Some(env[k].1@)
    } else {
        env_value_from(env, name, k + 1)
    }
}

/// A variable's value trimmed, unless it is missing or blank.
pub open spec fn env_setting(env: Seq<(String, String)>, name: Seq<char>) -> Option<Seq<char>> {
    match env_value_from(env, name, 0) {
        Some(v) => if trim(v).len() > 0 {
            Some(trim(v))
        } else {
            None
        },
        None => None,
    }
}

/// Reads a variable from an environment listing (name, value pairs), trimmed;
/// `None` when it is missing or blank.
pub fn env_setting_exec(env: &Vec<(String, String)>, name: &str) -> (r: Option<String>)
    ensures
        match env_setting(env@, name@) {
            Some(v) => r is Some && r->0@ == v,
            None => r is None,
        },
{
    let target = to_string(name);
    let mut k: usize = 0;
    while k < env.len()
        invariant
            k <= env.len(),
            target@ == name@,
            env_value_from(env@, name@, 0) == env_value_from(env@, name@, k as int),
        decreases env.len() - k,
    {
        if env[k].0 == target {
            let t = trim_chars(&str_chars(env[k].1.as_str()));
            if t.len() > 0 {
                return Some(string_from_chars(&t));
            } else {
                return None;
            }
        }
        k += 1;
    }
    None
}

/// An override variable's value exactly as set, unless it is missing or blank.
pub open spec fn env_override(env: Seq<(String, String)>, name: Seq<char>) -> Option<Seq<char>> {
    match env_value_from(env, name, 0) {
        Some(v) => if trim(v).len() > 0 {
            Some(v)
        } else {
            None
        },
        None => None,
    }
}

/// Reads an override variable from an environment listing, as set; `None`
/// when it is missing or blank.
pub fn env_override_exec(env: &Vec<(String, String)>, name: &str) -> (r: Option<String>)
    ensures
        match env_override(env@, name@) {
            Some(v) => r is Some && r->0@ == v,
            None => r is None,
        },
{
    let target = to_string(name);
    let mut k: usize = 0;
    while k < env.len()
        invariant
            k <= env.len(),
            target@ == name@,
            env_value_from(env@, name@, 0) == env_value_from(env@, name@, k as int),
        decreases env.len() - k,
    {
        if env[k].0 == target {
            let t = trim_chars(&str_chars(env[k].1.as_str()));
            if t.len() > 0 {
                return Some(env[k].1.clone());
            } else {
                return None;
            }
        }
        k += 1;
    }
    None
}

pub open spec fn setting_or(v: Option<Seq<char>>, default: Seq<char>) -> Seq<char> {
    match v {
        Some(x) => x,
        None => default,
    }
}

fn setting_or_exec(env: &Vec<(String, String)>, name: &str, default: &str) -> (r: String)
    ensures
        r@ == setting_or(env_setting(env@, name@), default@),
{
    match env_setting_exec(env, name) {
        Some(v) => v,
        None => to_string(default),
    }
}

fn override_or_exec(env: &Vec<(String, String)>, name: &str, default: &str) -> (r: String)
    ensures
        r@ == setting_or(env_override(env@, name@), default@),
{
    match env_override_exec(env, name) {
        Some(v) => v,
        None => to_string(default),
    }
}

// ---------------------------------------------------------------------------
// Tracked software
// ---------------------------------------------------------------------------

/// How a target's installed version is found in the CDK snapshot.
#[derive(Debug, Clone, Copy, PartialEq, Eq, Structural)]
pub enum Detector {
    CdkDrive3rdPartyManagedAssemblies96x,
    Adaptiva,
    BlueZone,
    WebStart,
}

/// How a target is installed.
#[derive(Debug, Clone, Copy)]
pub enum InstallerKind {
    /// One installer run with arguments from an environment override or the
    /// built-in default.
    Standard { args_env_var: &'static str, default_args: &'static str },
    /// The two-step Adaptiva package (`preadaptiva.msi`, then
    /// `AdaptivaClientSetup.exe`).
    Adaptiva { preadaptiva_override_env_var: &'static str, client_override_env_var: &'static str },
}

/// A tracked software package.
#[derive(Debug, Clone, Copy)]
pub struct TargetSoftware {
    pub installed_name: &'static str,
    pub osd_description: &'static str,
    pub detector: Detector,
    pub installer: InstallerKind,
}

/// A standard installer with the given override variable and default arguments.
pub open spec fn is_standard_installer(k: InstallerKind, env_var: Seq<char>, default: Seq<char>) -> bool {
    match k {
        InstallerKind::Standard { args_env_var, default_args } => args_env_var@ == env_var
            && default_args@ == default,
        _ => false,
    }
}

/// The Adaptiva installer with the given override variables.
pub open spec fn is_adaptiva_installer_with(
    k: InstallerKind,
    preadaptiva_var: Seq<char>,
    client_var: Seq<char>,
) -> bool {
    match k {
        InstallerKind::Adaptiva { preadaptiva_override_env_var, client_override_env_var } =>
            preadaptiva_override_env_var@ == preadaptiva_var && client_override_env_var@
            == client_var,
        _ => false,
    }
}

/// A target with these names, detector and installer.
pub open spec fn target_is(
    t: TargetSoftware,
    installed_name: Seq<char>,
    osd_description: Seq<char>,
    detector: Detector,
) -> bool {
    t.installed_name@ == installed_name && t.osd_description@ == osd_description && t.detector
        == detector
}

/// The four tracked packages, in processing order.
pub fn target_softwares() -> (r: Vec<TargetSoftware>)
    ensures
        r@.len() == 4,
        target_is(
            r@[0],
            "CDK Drive 3rd Party Managed Assemblies 96.x"@,
            "CDK Drive 3rd Party Managed Assemblies 96.x"@,
            Detector::CdkDrive3rdPartyManagedAssemblies96x,
        ),
        is_standard_installer(r@[0].installer, "CDK_3RD_PARTY_INSTALL_ARGS"@, ""@),
        target_is(
            r@[1],
            "Adaptiva"@,
            "CDK Software Install Agent ( Adaptiva )"@,
            Detector::Adaptiva,
        ),
        is_adaptiva_installer_with(
            r@[1].installer,
            "CDK_ADAPTIVA_PREADAPTIVA_ARGS"@,
            "CDK_ADAPTIVA_CLIENT_ARGS"@,
        ),
        target_is(r@[2], "BlueZone"@, "CDK Terminal Emulator"@, Detector::BlueZone),
        is_standard_installer(r@[2].installer, "CDK_BLUEZONE_INSTALL_ARGS"@, "/silent"@),
        target_is(r@[3], "CDK Drive WebStart"@, "CDK Drive WebStart"@, Detector::WebStart),
        is_standard_installer(r@[3].installer, "CDK_WEBSTART_INSTALL_ARGS"@, "/quiet /norestart"@),
{
    let mut r: Vec<TargetSoftware> = Vec::new();
    r.push(
        TargetSoftware {
            installed_name: "CDK Drive 3rd Party Managed Assemblies 96.x",
            osd_description: "CDK Drive 3rd Party Managed Assemblies 96.x",
            detector: Detector::CdkDrive3rdPartyManagedAssemblies96x,
            installer: InstallerKind::Standard {
                args_env_var: "CDK_3RD_PARTY_INSTALL_ARGS",
                default_args: "",
            },
        },
    );
    r.push(
        TargetSoftware {
            installed_name: "Adaptiva",
            osd_description: "CDK Software Install Agent ( Adaptiva )",
            detector: Detector::Adaptiva,
            installer: InstallerKind::Adaptiva {
                preadaptiva_override_env_var: "CDK_ADAPTIVA_PREADAPTIVA_ARGS",
                client_override_env_var: "CDK_ADAPTIVA_CLIENT_ARGS",
            },
        },
    );
    r.push(
        TargetSoftware {
            installed_name: "BlueZone",
            osd_description: "CDK Terminal Emulator",
            detector: Detector::BlueZone,
            installer: InstallerKind::Standard {
                args_env_var: "CDK_BLUEZONE_INSTALL_ARGS",
                default_args: "/silent",
            },
        },
    );
    r.push(
        TargetSoftware {
            installed_name: "CDK Drive WebStart",
            osd_description: "CDK Drive WebStart",
            detector: Detector::WebStart,
            installer: InstallerKind::Standard {
                args_env_var: "CDK_WEBSTART_INSTALL_ARGS",
                default_args: "/quiet /norestart",
            },
        },
    );
    r
}

/// The installed product a detector finds in the snapshot.
pub open spec fn detected(detector: Detector, info: CdkInfo) -> Option<(Seq<char>, Seq<char>)> {
    match detector {
        Detector::CdkDrive3rdPartyManagedAssemblies96x => reported(
            "CDK Drive 3rd Party Managed Assemblies 96.x"@,
            info.cdk_3rd_party_assemblies_version@,
        ),
        Detector::Adaptiva => reported("Adaptiva"@, info.adaptiva_installed_version@),
        Detector::BlueZone => reported("BlueZone"@, info.bluezone_version@),
        Detector::WebStart => match reported(
            "CDK Drive WebStart"@,
            info.webstart_add_remove_version@,
        ) {
            Some(p) => Some(p),
            None => reported("CDK Drive WebStart"@, info.webstart_version@),
        },
    }
}

/// Finds a target's installed version in the snapshot.
pub fn detect_installed(target: &TargetSoftware, cdk_info: &CdkInfo) -> (r: Option<
    InstalledProduct,
>)
    ensures
        product_opt_view(r) == detected(target.detector, *cdk_info),
{
    match target.detector {
        Detector::CdkDrive3rdPartyManagedAssemblies96x =>
            detect_cdk_drive_3rd_party_managed_assemblies_96x(cdk_info),
        Detector::Adaptiva => detect_adaptiva(cdk_info),
        Detector::BlueZone => detect_bluezone(cdk_info),
        Detector::WebStart => get_webstart_installed_version_from_cdk_info(cdk_info),
    }
}

pub open spec fn is_adaptiva_installer(k: InstallerKind) -> bool {
    k is Adaptiva
}

/// Targets installed through the two-step Adaptiva package.
pub fn is_adaptiva_target(target: &TargetSoftware) -> (r: bool)
    ensures
        r == is_adaptiva_installer(target.installer),
{
    match target.installer {
        InstallerKind::Adaptiva { .. } => true,
        InstallerKind::Standard { .. } => false,
    }
}

// ---------------------------------------------------------------------------
// Installer arguments
// ---------------------------------------------------------------------------

pub open spec fn adaptiva_host_text(env: Seq<(String, String)>) -> Seq<char> {
    setting_or(env_setting(env, "ADAPTIVA_HOST"@), "C000000-example.drive.example.com"@)
}

/// `preadaptiva.msi` arguments: the override, or `CNUMBER=<c-number> HOST=<host>`.
pub open spec fn preadaptiva_args_text(env: Seq<(String, String)>, override_var: Seq<char>) -> Seq<
    char,
> {
    setting_or(
        env_override(env, override_var),
        "CNUMBER="@ + setting_or(env_setting(env, "ADAPTIVA_CNUMBER"@), "C000000"@) + " HOST="@
            + adaptiva_host_text(env),
    )
}

/// `AdaptivaClientSetup.exe` arguments: the override, or the upgrade command
/// line for the host and server GUID.
pub open spec fn client_args_text(env: Seq<(String, String)>, override_var: Seq<char>) -> Seq<
    char,
> {
    setting_or(
        env_override(env, override_var),
        "-installorupgrade -servername "@ + adaptiva_host_text(env) + " -cloudrelay -serverguid "@
            + setting_or(
            env_setting(env, "ADAPTIVA_SERVER_GUID"@),
            "00000000-0000-0000-0000-000000000000"@,
        ),
    )
}

/// The effective Adaptiva C-number.
pub fn adaptiva_cnumber(env: &Vec<(String, String)>) -> (r: String)
    ensures
        r@ == setting_or(env_setting(env@, "ADAPTIVA_CNUMBER"@), "C000000"@),
{
    setting_or_exec(env, "ADAPTIVA_CNUMBER", "C000000")
}

/// The effective Adaptiva host (server) name.
pub fn adaptiva_host(env: &Vec<(String, String)>) -> (r: String)
    ensures
        r@ == adaptiva_host_text(env@),
{
    setting_or_exec(env, "ADAPTIVA_HOST", "C000000-example.drive.example.com")
}

/// The effective Adaptiva server GUID.
pub fn adaptiva_server_guid(env: &Vec<(String, String)>) -> (r: String)
    ensures
        r@ == setting_or(
            env_setting(env@, "ADAPTIVA_SERVER_GUID"@),
            "00000000-0000-0000-0000-000000000000"@,
        ),
{
    setting_or_exec(env, "ADAPTIVA_SERVER_GUID", "00000000-0000-0000-0000-000000000000")
}

/// Arguments for `preadaptiva.msi`.
pub fn resolve_adaptiva_preadaptiva_args(env: &Vec<(String, String)>, override_env_var: &str) -> (r:
    String)
    ensures
        r@ == preadaptiva_args_text(env@, override_env_var@),
{
    match env_override_exec(env, override_env_var) {
        Some(v) => v,
        None => {
            let mut out: Vec<char> = Vec::new();
            push_str(&mut out, "CNUMBER=");
            push_str(&mut out, adaptiva_cnumber(env).as_str());
            push_str(&mut out, " HOST=");
            push_str(&mut out, adaptiva_host(env).as_str());
            string_from_chars(&out)
        },
    }
}

/// Arguments for `AdaptivaClientSetup.exe`.
pub fn resolve_adaptiva_client_args(env: &Vec<(String, String)>, override_env_var: &str) -> (r:
    String)
    ensures
        r@ == client_args_text(env@, override_env_var@),
{
    match env_override_exec(env, override_env_var) {
        Some(v) => v,
        None => {
            let mut out: Vec<char> = Vec::new();
            push_str(&mut out, "-installorupgrade -servername ");
            push_str(&mut out, adaptiva_host(env).as_str());
            push_str(&mut out, " -cloudrelay -serverguid ");
            push_str(&mut out, adaptiva_server_guid(env).as_str());
            string_from_chars(&out)
        },
    }
}

/// The install arguments a target would use: for a standard installer the
/// environment override or the built-in default; for Adaptiva a summary of
/// both steps' arguments, `preadaptiva.msi: <args> | AdaptivaClientSetup.exe: <args>`.
pub open spec fn target_args_text(target: TargetSoftware, env: Seq<(String, String)>) -> Seq<char> {
    match target.installer {
        InstallerKind::Standard { args_env_var, default_args } => setting_or(
            env_override(env, args_env_var@),
            default_args@,
        ),
        InstallerKind::Adaptiva { preadaptiva_override_env_var, client_override_env_var } =>
            "preadaptiva.msi: "@ + preadaptiva_args_text(env, preadaptiva_override_env_var@)
            + " | AdaptivaClientSetup.exe: "@ + client_args_text(env, client_override_env_var@),
    }
}

/// Resolves the effective install arguments for a target without performing
/// any action.
pub fn resolve_target_install_args(target: &TargetSoftware, env: &Vec<(String, String)>) -> (r:
    String)
    ensures
        r@ == target_args_text(*target, env@),
{
    match target.installer {
        InstallerKind::Standard { args_env_var, default_args } => override_or_exec(
            env,
            args_env_var,
            default_args,
        ),
        InstallerKind::Adaptiva { preadaptiva_override_env_var, client_override_env_var } => {
            let mut out: Vec<char> = Vec::new();
            push_str(&mut out, "preadaptiva.msi: ");
            push_str(
                &mut out,
                resolve_adaptiva_preadaptiva_args(env, preadaptiva_override_env_var).as_str(),
            );
            push_str(&mut out, " | AdaptivaClientSetup.exe: ");
            push_str(&mut out, resolve_adaptiva_client_args(env, client_override_env_var).as_str());
            string_from_chars(&out)
        },
    }
}

// ---------------------------------------------------------------------------
// Install decisions
// ---------------------------------------------------------------------------

/// An installation the caller has to carry out (update mode only).
#[derive(Debug)]
pub enum InstallRequest {
    /// Download `url` and run it with `args`.
    Standard { url: String, args: String },
    /// Download the Adaptiva package from `package_url` and run its
    /// two installers.
    Adaptiva { package_url: String, preadaptiva_args: String, client_args: String },
}

pub enum InstallRequestView {
    Standard { url: Seq<char>, args: Seq<char> },
    Adaptiva { package_url: Seq<char>, preadaptiva_args: Seq<char>, client_args: Seq<char> },
}

impl View for InstallRequest {
    type V = InstallRequestView;

    open spec fn view(&self) -> InstallRequestView {
        match self {
            InstallRequest::Standard { url, args } => InstallRequestView::Standard {
                url: url@,
                args: args@,
            },
            InstallRequest::Adaptiva { package_url, preadaptiva_args, client_args } =>
                InstallRequestView::Adaptiva {
                package_url: package_url@,
                preadaptiva_args: preadaptiva_args@,
                client_args: client_args@,
            },
        }
    }
}

pub open spec fn request_opt_view(o: Option<InstallRequest>) -> Option<InstallRequestView> {
    match o {
        Some(r) => Some(r@),
        None => None,
    }
}

/// What to report for a target that needs installing or updating, and what
/// to do about it.
#[derive(Debug)]
pub struct InstallDecision {
    /// The action text; empty when an install is requested, to be filled with
    /// that install's outcome.
    pub action: String,
    /// The effective install arguments.
    pub install_args: String,
    pub request: Option<InstallRequest>,
}

pub open spec fn request_for(
    target: TargetSoftware,
    link: Seq<char>,
    env: Seq<(String, String)>,
) -> InstallRequestView {
    match target.installer {
        InstallerKind::Standard { .. } => InstallRequestView::Standard {
            url: link,
            args: target_args_text(target, env),
        },
        InstallerKind::Adaptiva { preadaptiva_override_env_var, client_override_env_var } =>
            InstallRequestView::Adaptiva {
            package_url: replace_all(link, "/index.php"@, "/download.php"@),
            preadaptiva_args: preadaptiva_args_text(env, preadaptiva_override_env_var@),
            client_args: client_args_text(env, client_override_env_var@),
        },
    }
}

/// The decision for a target needing `operation` (`install` or `update`):
/// without a download link it cannot be done; in query mode the report says
/// what would be done; in update mode the install is requested.
pub open spec fn decision_spec(
    target: TargetSoftware,
    mode: AppMode,
    link: Seq<char>,
    env: Seq<(String, String)>,
    operation: Seq<char>,
) -> (Seq<char>, Seq<char>, Option<InstallRequestView>) {
    let args = target_args_text(target, env);
    if link.len() == 0 {
        ("Cannot "@ + operation + ": no download link"@, args, None)
    } else if mode == AppMode::Query {
        ("Would download and "@ + operation, args, None)
    } else {
        (seq![], args, Some(request_for(target, link, env)))
    }
}

/// Determines the action and effective install arguments for a target that
/// has to be installed or updated, requesting the install in update mode.
pub fn perform_or_describe_install(
    target: &TargetSoftware,
    mode: &AppMode,
    download_link: &str,
    env: &Vec<(String, String)>,
    operation: &str,
) -> (r: InstallDecision)
    ensures
        (r.action@, r.install_args@, request_opt_view(r.request)) == decision_spec(
            *target,
            *mode,
            download_link@,
            env@,
            operation@,
        ),
{
    let resolved = resolve_target_install_args(target, env);
    if download_link.is_empty() {
        let mut out: Vec<char> = Vec::new();
        push_str(&mut out, "Cannot ");
        push_str(&mut out, operation);
        push_str(&mut out, ": no download link");
        return InstallDecision {
            action: string_from_chars(&out),
            install_args: resolved,
            request: None,
        };
    }
    match mode {
        AppMode::Query => InstallDecision {
            action: concat2("Would download and ", operation),
            install_args: resolved,
            request: None,
        },
        AppMode::Update => {
            let request = match target.installer {
                InstallerKind::Standard { .. } => InstallRequest::Standard {
                    url: to_string(download_link),
                    args: resolved.clone(),
                },
                InstallerKind::Adaptiva { preadaptiva_override_env_var, client_override_env_var } =>
                    InstallRequest::Adaptiva {
                    package_url: adaptiva_zip_download_url(download_link),
                    preadaptiva_args: resolve_adaptiva_preadaptiva_args(
                        env,
                        preadaptiva_override_env_var,
                    ),
                    client_args: resolve_adaptiva_client_args(env, client_override_env_var),
                },
            };
            InstallDecision { action: String::new(), install_args: resolved, request: Some(request) }
        },
    }
}

/// The install arguments shown for a target that needs nothing: in query mode
/// the ones that would be used, in update mode none.
pub fn current_target_install_args(
    mode: &AppMode,
    target: &TargetSoftware,
    env: &Vec<(String, String)>,
) -> (r: String)
    ensures
        *mode == AppMode::Query ==> r@ == target_args_text(*target, env@),
        *mode == AppMode::Update ==> r@ == Seq::<char>::empty(),
{
    match mode {
        AppMode::Query => resolve_target_install_args(target, env),
        AppMode::Update => String::new(),
    }
}

// ---------------------------------------------------------------------------
// Report rows
// ---------------------------------------------------------------------------

/// The text content of a report row.
pub struct TargetRowView {
    pub target: Seq<char>,
    pub osd_description: Seq<char>,
    pub installed_version: Seq<char>,
    pub osd_version: Seq<char>,
    pub state: Seq<char>,
    pub action: Seq<char>,
    pub download_link: Seq<char>,
    pub install_args: Seq<char>,
    pub note: Seq<char>,
}

impl View for TargetComparisonRow {
    type V = TargetRowView;

    open spec fn view(&self) -> TargetRowView {
        TargetRowView {
            target: self.target@,
            osd_description: self.osd_description@,
            installed_version: self.installed_version@,
            osd_version: self.osd_version@,
            state: self.state@,
            action: self.action@,
            download_link: self.download_link@,
            install_args: self.install_args@,
            note: self.note@,
        }
    }
}

/// The report row of a target, and the install it calls for, if any.
#[derive(Debug)]
pub struct TargetPlan {
    pub row: TargetComparisonRow,
    pub request: Option<InstallRequest>,
}

pub open spec fn plan_view(p: TargetPlan) -> (TargetRowView, Option<InstallRequestView>) {
    (p.row@, request_opt_view(p.request))
}

/// Row and request for a target that is installed with `version`.
pub open spec fn installed_plan(
    entries: Seq<SoftwareEntry>,
    mode: AppMode,
    target: TargetSoftware,
    version: Seq<char>,
    env: Seq<(String, String)>,
) -> (TargetRowView, Option<InstallRequestView>) {
    match first_described(entries, target.osd_description@) {
        None => (
            TargetRowView {
                target: target.installed_name@,
                osd_description: target.osd_description@,
                installed_version: version,
                osd_version: "Not found on OSD"@,
                state: "Unknown"@,
                action: "Cannot compare"@,
                download_link: seq![],
                install_args: seq![],
                note: "OSD comparison skipped: target software not found on page"@,
            },
            None,
        ),
        Some(i) => {
            let e = entries[i]@;
            let osd_version = preferred_version_of(e);
            let state = state_of(version_order(version, osd_version));
            let shown_args = if mode == AppMode::Query {
                target_args_text(target, env)
            } else {
                seq![]
            };
            let (action, args, request) = if state == VersionState::NeedsUpdate {
                if is_adaptiva_installer(target.installer) {
                    ("Install skipped: already installed"@, shown_args, None)
                } else {
                    decision_spec(target, mode, e.download_link, env, "update"@)
                }
            } else {
                ("No update required"@, shown_args, None)
            };
            (
                TargetRowView {
                    target: target.installed_name@,
                    osd_description: e.description,
                    installed_version: version,
                    osd_version,
                    state: version_state_text(state),
                    action,
                    download_link: e.download_link,
                    install_args: args,
                    note: seq![],
                },
                request,
            )
        },
    }
}

/// Row and request for a target that is not installed.
pub open spec fn missing_plan(
    entries: Seq<SoftwareEntry>,
    mode: AppMode,
    target: TargetSoftware,
    env: Seq<(String, String)>,
) -> (TargetRowView, Option<InstallRequestView>) {
    match first_described(entries, target.osd_description@) {
        None => (
            TargetRowView {
                target: target.installed_name@,
                osd_description: target.osd_description@,
                installed_version: "Not installed"@,
                osd_version: "Not found on OSD"@,
                state: "Missing"@,
                action: "Unavailable"@,
                download_link: seq![],
                install_args: seq![],
                note: "Target software not installed and not found on OSD page"@,
            },
            None,
        ),
        Some(i) => {
            let e = entries[i]@;
            let (action, args, request) = decision_spec(
                target,
                mode,
                e.download_link,
                env,
                "install"@,
            );
            (
                TargetRowView {
                    target: target.installed_name@,
                    osd_description: target.osd_description@,
                    installed_version: "Not installed"@,
                    osd_version: preferred_version_of(e),
                    state: "Missing"@,
                    action,
                    download_link: e.download_link,
                    install_args: args,
                    note: seq![],
                },
                request,
            )
        },
    }
}

/// The plan for a target given what the snapshot says is installed.
pub open spec fn target_plan(
    entries: Seq<SoftwareEntry>,
    mode: AppMode,
    target: TargetSoftware,
    info: CdkInfo,
    env: Seq<(String, String)>,
) -> (TargetRowView, Option<InstallRequestView>) {
    match detected(target.detector, info) {
        Some(p) => installed_plan(entries, mode, target, p.1, env),
        None => missing_plan(entries, mode, target, env),
    }
}

/// Builds the report row for an installed target.
pub fn installed_target_row(
    entries: &Vec<SoftwareEntry>,
    mode: &AppMode,
    target: &TargetSoftware,
    product: InstalledProduct,
    env: &Vec<(String, String)>,
) -> (r: TargetPlan)
    ensures
        plan_view(r) == installed_plan(entries@, *mode, *target, product.version@, env@),
{
    let result = match compare_software_version(entries, target.osd_description, product.version.as_str()) {
        Some(result) => result,
        None => {
            return TargetPlan {
                row: TargetComparisonRow {
                    target: to_string(target.installed_name),
                    osd_description: to_string(target.osd_description),
                    installed_version: product.version,
                    osd_version: to_string("Not found on OSD"),
                    state: to_string("Unknown"),
                    action: to_string("Cannot compare"),
                    download_link: String::new(),
                    install_args: String::new(),
                    note: to_string("OSD comparison skipped: target software not found on page"),
                },
                request: None,
            };
        },
    };
    let (action, install_args, request) = match result.state {
        VersionState::NeedsUpdate => {
            if is_adaptiva_target(target) {
                (
                    to_string("Install skipped: already installed"),
                    current_target_install_args(mode, target, env),
                    None,
                )
            } else {
                let d = perform_or_describe_install(
                    target,
                    mode,
                    result.download_link.as_str(),
                    env,
                    "update",
                );
                (d.action, d.install_args, d.request)
            }
        },
        _ => (
            to_string("No update required"),
            current_target_install_args(mode, target, env),
            None,
        ),
    };
    TargetPlan {
        row: TargetComparisonRow {
            target: to_string(target.installed_name),
            osd_description: result.description,
            installed_version: product.version,
            osd_version: result.version,
            state: to_string(version_state_as_str(&result.state)),
            action,
            download_link: result.download_link,
            install_args,
            note: String::new(),
        },
        request,
    }
}

/// Builds the report row for a target that is not installed.
pub fn missing_target_row(
    entries: &Vec<SoftwareEntry>,
    mode: &AppMode,
    target: &TargetSoftware,
    env: &Vec<(String, String)>,
) -> (r: TargetPlan)
    ensures
        plan_view(r) == missing_plan(entries@, *mode, *target, env@),
{
    match get_software_by_description(entries, target.osd_description) {
        Some(entry) => {
            let d = perform_or_describe_install(
                target,
                mode,
                entry.download_link.as_str(),
                env,
                "install",
            );
            TargetPlan {
                row: TargetComparisonRow {
                    target: to_string(target.installed_name),
                    osd_description: to_string(target.osd_description),
                    installed_version: to_string("Not installed"),
                    osd_version: to_string(entry.preferred_version()),
                    state: to_string("Missing"),
                    action: d.action,
                    download_link: entry.download_link.clone(),
                    install_args: d.install_args,
                    note: String::new(),
                },
                request: d.request,
            }
        },
        None => TargetPlan {
            row: TargetComparisonRow {
                target: to_string(target.installed_name),
                osd_description: to_string(target.osd_description),
                installed_version: to_string("Not installed"),
                osd_version: to_string("Not found on OSD"),
                state: to_string("Missing"),
                action: to_string("Unavailable"),
                download_link: String::new(),
                install_args: String::new(),
                note: to_string("Target software not installed and not found on OSD page"),
            },
            request: None,
        },
    }
}

/// Detects a target's installed version in the snapshot, compares it with the
/// catalog, and returns its report row together with the install it calls
/// for (in update mode); in query mode nothing is ever requested.
pub fn process_target(
    entries: &Vec<SoftwareEntry>,
    mode: &AppMode,
    target: &TargetSoftware,
    cdk_info: &CdkInfo,
    env: &Vec<(String, String)>,
) -> (r: TargetPlan)
    ensures
        plan_view(r) == target_plan(entries@, *mode, *target, *cdk_info, env@),
{
    match detect_installed(target, cdk_info) {
        Some(product) => installed_target_row(entries, mode, target, product, env),
        None => missing_target_row(entries, mode, target, env),
    }
}

/// In query mode no target ever calls for an install.
pub proof fn law_query_mode_changes_nothing(
    entries: Seq<SoftwareEntry>,
    target: TargetSoftware,
    info: CdkInfo,
    env: Seq<(String, String)>,
)
    ensures
        target_plan(entries, AppMode::Query, target, info, env).1 is None,
{
}

/// An install is only ever requested in update mode, for a target listed in
/// the catalog with a download link, and only when the target is missing or
/// (for a target other than Adaptiva) older than the catalog version; the
/// request downloads from that link (for Adaptiva, from its `download.php`
/// form).
pub proof fn law_install_requested_only_when_needed(
    entries: Seq<SoftwareEntry>,
    mode: AppMode,
    target: TargetSoftware,
    info: CdkInfo,
    env: Seq<(String, String)>,
)
    ensures
        target_plan(entries, mode, target, info, env).1 is Some ==> {
            &&& mode == AppMode::Update
            &&& first_described(entries, target.osd_description@) is Some
            &&& {
                let e = entries[first_described(entries, target.osd_description@)->0]@;
                &&& e.download_link.len() > 0
                &&& target_plan(entries, mode, target, info, env).1 == Some(
                    request_for(target, e.download_link, env),
                )
                &&& match detected(target.detector, info) {
                    None => true,
                    Some(p) => !is_adaptiva_installer(target.installer) && version_order(
                        p.1,
                        preferred_version_of(e),
                    ) == crate::version::Order::Less,
                }
            }
        },
{
}

/// An Adaptiva agent that is already installed is never installed again,
/// whatever the mode and the catalog say.
pub proof fn law_installed_adaptiva_never_reinstalled(
    entries: Seq<SoftwareEntry>,
    mode: AppMode,
    target: TargetSoftware,
    info: CdkInfo,
    env: Seq<(String, String)>,
)
    requires
        is_adaptiva_installer(target.installer),
        detected(target.detector, info) is Some,
    ensures
        target_plan(entries, mode, target, info, env).1 is None,
{
}

// ---------------------------------------------------------------------------
// Post-run summary
// ---------------------------------------------------------------------------

pub open spec fn starts_with(s: Seq<char>, p: Seq<char>) -> bool {
    p.len() <= s.len() && s.take(p.len() as int) == p
}

pub fn starts_with_exec(s: &str, p: &str) -> (r: bool)
    ensures
        r == starts_with(s@, p@),
{
    let sc = str_chars(s);
    let pc = str_chars(p);
    if pc.len() > sc.len() {
        return false;
    }
    let r = crate::text::occurs_at_exec(&sc, &pc, 0);
    assert(sc@.subrange(0, pc@.len() as int) == sc@.take(pc@.len() as int));
    r
}

/// A query-mode row announcing an install or update that update mode would do.
pub open spec fn is_pending(row: TargetComparisonRow) -> bool {
    starts_with(row.action@, "Would download and "@)
}

/// An update-mode row whose install was attempted.
pub open spec fn was_attempted(row: TargetComparisonRow) -> bool {
    starts_with(row.action@, "Installed"@) || starts_with(row.action@, "Install failed"@)
        || starts_with(row.action@, "Download failed"@)
}

pub open spec fn pending_lines(rows: Seq<TargetComparisonRow>, k: int) -> Seq<Seq<char>>
    decreases k,
{
    if k <= 0 || k > rows.len() {
        seq![]
    } else {
        pending_lines(rows, k - 1) + if is_pending(rows[k - 1]) {
            seq!["  - "@ + rows[k - 1].target@ + ": "@ + rows[k - 1].action@]
        } else {
            seq![]
        }
    }
}

pub open spec fn attempt_lines(rows: Seq<TargetComparisonRow>, k: int) -> Seq<Seq<char>>
    decreases k,
{
    if k <= 0 || k > rows.len() {
        seq![]
    } else {
        attempt_lines(rows, k - 1) + if was_attempted(rows[k - 1]) {
            seq![
                "  - "@ + rows[k - 1].target@ + ": "@ + (if starts_with(
                    rows[k - 1].action@,
                    "Installed"@,
                ) {
                    "SUCCESS"@
                } else {
                    "FAILED"@
                }) + " ("@ + rows[k - 1].action@ + ")"@,
            ]
        } else {
            seq![]
        }
    }
}

/// The Post-Run Summary: in query mode which packages need installing or
/// updating and how to do it; in update mode each attempted install with its
/// verdict; always where the variable files and `summary.txt` are.
pub open spec fn post_run_summary(
    mode: AppMode,
    rows: Seq<TargetComparisonRow>,
    variables_dir: Seq<char>,
) -> Seq<Seq<char>> {
    let body = if mode == AppMode::Query {
        let p = pending_lines(rows, rows.len() as int);
        if p.len() == 0 {
            seq!["All tracked packages are up to date; nothing needs installing."@]
        } else {
            seq![crate::text::dec(p.len()) + " package(s) need installing or updating:"@] + p
                + seq!["Run again with /update to install them."@]
        }
    } else {
        let a = attempt_lines(rows, rows.len() as int);
        if a.len() == 0 {
            seq!["No installs were attempted."@]
        } else {
            seq!["Install actions attempted:"@] + a
        }
    };
    seq!["Post-Run Summary"@] + body + seq![
        "Variables directory: "@ + variables_dir,
        "Full CDK Installation Info table: "@ + variables_dir + "\\summary.txt"@,
    ]
}

/// Whatever the mode and the rows, the Post-Run Summary opens with its title
/// and closes by naming the variables directory and its `summary.txt`.
pub proof fn law_post_run_summary_points_to_variables(
    mode: AppMode,
    rows: Seq<TargetComparisonRow>,
    variables_dir: Seq<char>,
)
    ensures
        ({
            let s = post_run_summary(mode, rows, variables_dir);
            &&& s.len() >= 4
            &&& s[0] == "Post-Run Summary"@
            &&& s[s.len() - 2] == "Variables directory: "@ + variables_dir
            &&& s[s.len() - 1] == "Full CDK Installation Info table: "@ + variables_dir
                + "\\summary.txt"@
        }),
{
}

fn push_line(lines: &mut Vec<String>, line: String)
    ensures
        crate::app_logging::strs(final(lines)@) == crate::app_logging::strs(old(lines)@).push(
            line@,
        ),
{
    proof {
        assert(crate::app_logging::strs(lines@.push(line)) =~= crate::app_logging::strs(
            lines@,
        ).push(line@));
    }
    lines.push(line);
}

/// The Post-Run Summary lines logged after all comparison tables.
pub fn log_post_run_summary(
    mode: &AppMode,
    rows: &Vec<TargetComparisonRow>,
    variables_dir: &str,
) -> (r: Vec<String>)
    ensures
        crate::app_logging::strs(r@) == post_run_summary(*mode, rows@, variables_dir@),
{
    let mut listed: Vec<String> = Vec::new();
    let mut k: usize = 0;
    while k < rows.len()
        invariant
            k <= rows@.len(),
            *mode == AppMode::Query ==> crate::app_logging::strs(listed@) == pending_lines(
                rows@,
                k as int,
            ),
            *mode == AppMode::Update ==> crate::app_logging::strs(listed@) == attempt_lines(
                rows@,
                k as int,
            ),
        decreases rows.len() - k,
    {
        let row = &rows[k];
        match mode {
            AppMode::Query => {
                if starts_with_exec(row.action.as_str(), "Would download and ") {
                    let mut line: Vec<char> = Vec::new();
                    push_str(&mut line, "  - ");
                    push_str(&mut line, row.target.as_str());
                    push_str(&mut line, ": ");
                    push_str(&mut line, row.action.as_str());
                    push_line(&mut listed, string_from_chars(&line));
                }
            },
            AppMode::Update => {
                let ok = starts_with_exec(row.action.as_str(), "Installed");
                if ok || starts_with_exec(row.action.as_str(), "Install failed")
                    || starts_with_exec(row.action.as_str(), "Download failed") {
                    let mut line: Vec<char> = Vec::new();
                    push_str(&mut line, "  - ");
                    push_str(&mut line, row.target.as_str());
                    push_str(&mut line, ": ");
                    if ok {
                        push_str(&mut line, "SUCCESS");
                    } else {
                        push_str(&mut line, "FAILED");
                    }
                    push_str(&mut line, " (");
                    push_str(&mut line, row.action.as_str());
                    push_str(&mut line, ")");
                    push_line(&mut listed, string_from_chars(&line));
                }
            },
        }
        k += 1;
    }
    let mut r: Vec<String> = Vec::new();
    push_line(&mut r, to_string("Post-Run Summary"));
    let ghost head = crate::app_logging::strs(r@);
    match mode {
        AppMode::Query => {
            if listed.len() == 0 {
                push_line(
                    &mut r,
                    to_string("All tracked packages are up to date; nothing needs installing."),
                );
            } else {
                let mut first = crate::text::dec_chars(listed.len() as u64);
                push_str(&mut first, " package(s) need installing or updating:");
                push_line(&mut r, string_from_chars(&first));
                let ghost before = crate::app_logging::strs(r@);
                let mut j: usize = 0;
                while j < listed.len()
                    invariant
                        j <= listed@.len(),
                        crate::app_logging::strs(r@) == before + crate::app_logging::strs(
                            listed@,
                        ).take(j as int),
                    decreases listed.len() - j,
                {
                    push_line(&mut r, listed[j].clone());
                    j += 1;
                    assert(crate::app_logging::strs(listed@).take(j as int) == crate::app_logging::strs(
                        listed@,
                    ).take(j - 1 as int).push(listed@[j - 1]@));
                }
                assert(crate::app_logging::strs(listed@).take(listed@.len() as int)
                    == crate::app_logging::strs(listed@));
                push_line(&mut r, to_string("Run again with /update to install them."));
            }
        },
        AppMode::Update => {
            if listed.len() == 0 {
                push_line(&mut r, to_string("No installs were attempted."));
            } else {
                push_line(&mut r, to_string("Install actions attempted:"));
                let ghost before = crate::app_logging::strs(r@);
                let mut j: usize = 0;
                while j < listed.len()
                    invariant
                        j <= listed@.len(),
                        crate::app_logging::strs(r@) == before + crate::app_logging::strs(
                            listed@,
                        ).take(j as int),
                    decreases listed.len() - j,
                {
                    push_line(&mut r, listed[j].clone());
                    j += 1;
                    assert(crate::app_logging::strs(listed@).take(j as int) == crate::app_logging::strs(
                        listed@,
                    ).take(j - 1 as int).push(listed@[j - 1]@));
                }
                assert(crate::app_logging::strs(listed@).take(listed@.len() as int)
                    == crate::app_logging::strs(listed@));
            }
        },
    }
    push_line(&mut r, concat2("Variables directory: ", variables_dir));
    let mut last: Vec<char> = Vec::new();
    push_str(&mut last, "Full CDK Installation Info table: ");
    push_str(&mut last, variables_dir);
    push_str(&mut last, "\\summary.txt");
    push_line(&mut r, string_from_chars(&last));
    assert(crate::app_logging::strs(r@) =~= post_run_summary(*mode, rows@, variables_dir@));
    r
}

/// Whether any target called for an install (and so a verification pass follows).
pub fn any_install_requested(plans: &Vec<TargetPlan>) -> (r: bool)
    ensures
        r == exists|i: int| 0 <= i < plans@.len() && (#[trigger] plans@[i]).request is Some,
{
    let mut k: usize = 0;
    while k < plans.len()
        invariant
            k <= plans@.len(),
            forall|i: int| 0 <= i < k ==> (#[trigger] plans@[i]).request is None,
        decreases plans.len() - k,
    {
        if plans[k].request.is_some() {
            return true;
        }
        k += 1;
    }
    false
}

/// Whether the post-update verification pass runs: in update mode, once at
/// least one install was requested.
pub fn verification_pass_needed(mode: &AppMode, plans: &Vec<TargetPlan>) -> (r: bool)
    ensures
        r == (*mode == AppMode::Update && exists|i: int|
            0 <= i < plans@.len() && (#[trigger] plans@[i]).request is Some),
{
    match mode {
        AppMode::Update => any_install_requested(plans),
        AppMode::Query => false,
    }
}

} // verus!
