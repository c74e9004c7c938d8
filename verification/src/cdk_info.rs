//! The snapshot of CDK installation state and the decisions that turn raw
//! registry and filesystem observations into its values.
//!
//! Reading the registry and the filesystem is left to the caller; the
//! functions here take what was read and compute what the snapshot records.
use vstd::prelude::*;
use crate::text::{
    concat3, dec, dec_string, eq_ignore_case, extend_chars, hex_byte, join, push_str,
    str_eq_ignore_case, string_from_chars, to_string,
};

verus! {

/// Status returned by a registry key + named-value presence check.
#[derive(Debug, Clone, Copy, PartialEq, Eq, Structural)]
pub enum RegistryCheckStatus {
    /// The key exists and contains the expected named value.
    Found,
    /// The key exists but does not contain the expected named value.
    PathExists,
    /// The registry key does not exist.
    PathMissing,
}

/// Status returned by a filesystem path existence check.
#[derive(Debug)]
pub enum PathCheckStatus {
    /// The path exists on the filesystem.
    Found,
    /// The path does not exist.
    Missing,
    /// An I/O error occurred while checking for the path.
    Error(String),
}

pub open spec fn registry_status_text(s: RegistryCheckStatus) -> Seq<char> {
    match s {
        RegistryCheckStatus::Found => "Found"@,
        RegistryCheckStatus::PathExists => "PathExists"@,
        RegistryCheckStatus::PathMissing => "PathMissing"@,
    }
}

pub open spec fn path_status_text(s: PathCheckStatus) -> Seq<char> {
    match s {
        PathCheckStatus::Found => "Found"@,
        PathCheckStatus::Missing => "Missing"@,
        PathCheckStatus::Error(e) => "Error: "@ + e@,
    }
}

impl RegistryCheckStatus {
    /// The text the status displays as.
    pub fn as_string(&self) -> (r: String)
        ensures
            r@ == registry_status_text(*self),
    {
        match self {
            RegistryCheckStatus::Found => to_string("Found"),
            RegistryCheckStatus::PathExists => to_string("PathExists"),
            RegistryCheckStatus::PathMissing => to_string("PathMissing"),
        }
    }
}

impl PathCheckStatus {
    /// The text the status displays as.
    pub fn as_string(&self) -> (r: String)
        ensures
            r@ == path_status_text(*self),
    {
        match self {
            PathCheckStatus::Found => to_string("Found"),
            PathCheckStatus::Missing => to_string("Missing"),
            PathCheckStatus::Error(e) => {
                let mut r = to_string("Error: ");
                r.append(e.as_str());
                r
            },
        }
    }
}

/// Snapshot of CDK installation state gathered from the local system.
#[derive(Debug)]
pub struct CdkInfo {
    /// ADP WSVC 4.5 registry key + `version` value presence.
    pub adp_check: RegistryCheckStatus,
    /// CDKDrive URL-protocol registry key + `URL Protocol` value presence.
    pub webstart_url_check: RegistryCheckStatus,
    /// Default shell-open command for the CDKDrive URL handler, or
    /// `PathExists` / `PathMissing`.
    pub webstart_shell_var: String,
    /// CDKGlobal `CDKUnifyDriveEnabler` registry value presence.
    pub unify_drive_enabler_check: RegistryCheckStatus,
    /// Adaptiva client `setup.status` registry value presence.
    pub adaptiva_check: RegistryCheckStatus,
    /// All named values under `HKLM\SOFTWARE\CDK\Adaptiva` and its subkeys;
    /// `None` when the key is absent.
    pub adaptiva_cdk_key_values: Option<Vec<(String, String)>>,
    /// All named values under `HKLM\SOFTWARE\WOW6432Node\CDK\Adaptiva` and its
    /// subkeys; `None` when the key is absent.
    pub adaptiva_cdk_key_wow_values: Option<Vec<(String, String)>>,
    pub adaptiva_server_host_name: String,
    pub adaptiva_server_host_name_wow: String,
    pub adaptiva_server_locator_name: String,
    pub adaptiva_server_locator_name_wow: String,
    pub adaptiva_setup_guid: String,
    pub adaptiva_client_data_manager_guid: String,
    pub adaptiva_setup_guid_wow: String,
    pub adaptiva_client_data_manager_guid_wow: String,
    /// CDK SIA directory presence.
    pub sia_check: PathCheckStatus,
    /// CDK SIA win10 maintenance XML file presence.
    pub sia_xml_check: PathCheckStatus,
    /// CDK SIA w10 fix VBS script presence.
    pub sia_fix_check: PathCheckStatus,
    /// File version of `CDK Drive WebStart.exe`, or `NotFound`.
    pub webstart_version: String,
    /// Add/Remove Programs version of CDK Drive WebStart, or `NotFound`.
    pub webstart_add_remove_version: String,
    /// Installed version of CDK Drive 3rd Party Managed Assemblies 96.x, or `NotFound`.
    pub cdk_3rd_party_assemblies_version: String,
    /// Installed version of Adaptiva, or `NotFound`.
    pub adaptiva_installed_version: String,
    /// Installed version of BlueZone, or `NotFound`.
    pub bluezone_version: String,
}

// ---------------------------------------------------------------------------
// Registry checks
// ---------------------------------------------------------------------------

/// Some name among `names` equals `wanted`, ignoring ASCII case.
pub open spec fn has_name_ignore_case(names: Seq<String>, wanted: Seq<char>) -> bool {
    exists|i: int| 0 <= i < names.len() && eq_ignore_case(#[trigger] names[i]@, wanted)
}

/// The status of a registry key + named-value check, given whether the key
/// could be opened and the names of the values it holds.
pub fn registry_check_status(key_opened: bool, value_names: &Vec<String>, value_name: &str) -> (r:
    RegistryCheckStatus)
    ensures
        !key_opened ==> r == RegistryCheckStatus::PathMissing,
        key_opened && has_name_ignore_case(value_names@, value_name@) ==> r
            == RegistryCheckStatus::Found,
        key_opened && !has_name_ignore_case(value_names@, value_name@) ==> r
            == RegistryCheckStatus::PathExists,
{
    if !key_opened {
        return RegistryCheckStatus::PathMissing;
    }
    let mut i: usize = 0;
    while i < value_names.len()
        invariant
            key_opened,
            i <= value_names.len(),
            forall|j: int| 0 <= j < i ==> !eq_ignore_case(#[trigger] value_names@[j]@, value_name@),
        decreases value_names.len() - i,
    {
        if str_eq_ignore_case(value_names[i].as_str(), value_name) {
            return RegistryCheckStatus::Found;
        }
        i += 1;
    }
    RegistryCheckStatus::PathExists
}

pub open spec fn shell_command_text(key_exists: bool, default_value: Option<String>) -> Seq<char> {
    if !key_exists {
        "PathMissing"@
    } else {
        match default_value {
            Some(cmd) => if cmd@.len() > 0 {
                cmd@
            } else {
                "PathExists"@
            },
            None => "PathExists"@,
        }
    }
}

/// The value recorded for the CDKDrive shell-open command: the command when
/// the key has a non-empty default value, `PathExists` when the key exists
/// without one, `PathMissing` when the key is absent.
pub fn shell_command_value(key_exists: bool, default_value: Option<String>) -> (r: String)
    ensures
        r@ == shell_command_text(key_exists, default_value),
{
    if !key_exists {
        return to_string("PathMissing");
    }
    match default_value {
        Some(cmd) => if cmd.as_str().is_empty() {
            to_string("PathExists")
        } else {
            cmd
        },
        None => to_string("PathExists"),
    }
}

/// A named registry string, or `Not Found` when the key or value is absent.
pub fn registry_string_value(value: Option<String>) -> (r: String)
    ensures
        match value {
            Some(v) => r@ == v@,
            None => r@ == "Not Found"@,
        },
{
    match value {
        Some(v) => v,
        None => to_string("Not Found"),
    }
}

/// The status of a path existence check (`Path::try_exists`).
pub fn path_check_status(result: Result<bool, String>) -> (r: PathCheckStatus)
    ensures
        match result {
            Ok(true) => r is Found,
            Ok(false) => r is Missing,
            Err(e) => r == PathCheckStatus::Error(e),
        },
{
    match result {
        Ok(true) => PathCheckStatus::Found,
        Ok(false) => PathCheckStatus::Missing,
        Err(e) => PathCheckStatus::Error(e),
    }
}

pub open spec fn joined_key_path(prefix: Seq<char>, name: Seq<char>) -> Seq<char> {
    if prefix.len() == 0 {
        name
    } else {
        prefix + "\\"@ + name
    }
}

/// Label of a value found while walking a key: the value name, `(Default)`
/// for the unnamed value, prefixed by the subkey path below the walked key.
pub fn key_value_label(prefix: &str, value_name: &str) -> (r: String)
    ensures
        r@ == joined_key_path(
            prefix@,
            if value_name@.len() == 0 {
                "(Default)"@
            } else {
                value_name@
            },
        ),
{
    let display = if value_name.is_empty() {
        to_string("(Default)")
    } else {
        to_string(value_name)
    };
    subkey_prefix(prefix, display.as_str())
}

/// Path of a subkey below the walked key.
pub fn subkey_prefix(prefix: &str, sub_name: &str) -> (r: String)
    ensures
        r@ == joined_key_path(prefix@, sub_name@),
{
    if prefix.is_empty() {
        to_string(sub_name)
    } else {
        concat3(prefix, "\\", sub_name)
    }
}

// ---------------------------------------------------------------------------
// Registry value formatting
// ---------------------------------------------------------------------------

/// The registry value types that are displayed differently.
#[derive(Debug, Clone, Copy, PartialEq, Eq, Structural)]
pub enum RegValueKind {
    Sz,
    ExpandSz,
    Dword,
    Qword,
    MultiSz,
    /// Any other type, shown as hex bytes.
    Other,
}

/// UTF-16 decoding with every unpaired surrogate replaced by U+FFFD
/// (`String::from_utf16_lossy`).
pub open spec fn utf16_lossy(u: Seq<u16>) -> Seq<char>
    decreases u.len(),
{
    if u.len() == 0 {
        seq![]
    } else if u[0] < 0xD800 || u[0] > 0xDFFF {
        seq![u[0] as char] + utf16_lossy(u.drop_first())
    } else if u[0] <= 0xDBFF && u.len() >= 2 && 0xDC00 <= u[1] <= 0xDFFF {
        seq![(0x10000 + (u[0] - 0xD800) * 0x400 + (u[1] - 0xDC00)) as char] + utf16_lossy(
            u.skip(2),
        )
    } else {
        seq!['\u{FFFD}'] + utf16_lossy(u.drop_first())
    }
}

/// `String::from_utf16_lossy`.
#[verifier::external_body]
pub(crate) fn string_from_utf16_lossy(units: &Vec<u16>) -> (r: String)
    ensures
        r@ == utf16_lossy(units@),
{
    String::from_utf16_lossy(units.as_slice())
}

/// The little-endian 16-bit units of a byte string (`chunks_exact(2)`).
pub open spec fn le_units(b: Seq<u8>) -> Seq<u16> {
    Seq::new(b.len() / 2, |k: int| (b[2 * k] + 256 * b[2 * k + 1]) as u16)
}

/// The units before the first zero unit.
pub open spec fn until_nul(u: Seq<u16>) -> Seq<u16>
    decreases u.len(),
{
    if u.len() == 0 || u[0] == 0 {
        seq![]
    } else {
        seq![u[0]] + until_nul(u.drop_first())
    }
}

/// The maximal runs of non-zero units (split at zeros, empty pieces dropped).
pub open spec fn nonzero_runs(u: Seq<u16>) -> Seq<Seq<u16>>
    decreases u.len(),
{
    if u.len() == 0 {
        seq![]
    } else {
        let w = nonzero_runs(u.drop_last());
        if u.last() == 0 {
            w
        } else if u.len() >= 2 && u[u.len() - 2] != 0 {
            w.update(w.len() - 1, w.last().push(u.last()))
        } else {
            w.push(seq![u.last()])
        }
    }
}

/// Little-endian unsigned value of a byte string.
pub open spec fn le_value(b: Seq<u8>) -> nat
    decreases b.len(),
{
    if b.len() == 0 {
        0
    } else {
        (b[0] + 256 * le_value(b.drop_first())) as nat
    }
}

pub open spec fn pow256(k: nat) -> nat
    decreases k,
{
    if k == 0 {
        1
    } else {
        256 * pow256((k - 1) as nat)
    }
}

/// The display text of a registry value of the given kind and raw bytes.
pub open spec fn reg_value_text(kind: RegValueKind, b: Seq<u8>) -> Seq<char> {
    match kind {
        RegValueKind::Sz | RegValueKind::ExpandSz => utf16_lossy(until_nul(le_units(b))),
        RegValueKind::Dword => if b.len() >= 4 {
            dec(le_value(b.take(4)))
        } else {
            "(invalid DWORD)"@
        },
        RegValueKind::Qword => if b.len() >= 8 {
            dec(le_value(b.take(8)))
        } else {
            "(invalid QWORD)"@
        },
        RegValueKind::MultiSz => join(
            nonzero_runs(le_units(b)).map_values(|r: Seq<u16>| utf16_lossy(r)),
            " | "@,
        ),
        RegValueKind::Other => join(b.map_values(|x: u8| hex_byte(x)), seq![' ']),
    }
}

fn le_units_exec(b: &Vec<u8>) -> (r: Vec<u16>)
    ensures
        r@ == le_units(b@),
{
    let mut r: Vec<u16> = Vec::new();
    let n: usize = b.len() / 2;
    let mut k: usize = 0;
    while k < n
        invariant
            k <= n,
            n == b.len() / 2,
            r@.len() == k,
            forall|j: int| 0 <= j < k ==> #[trigger] r@[j] == le_units(b@)[j],
        decreases n - k,
    {
        let lo: u16 = b[2 * k] as u16;
        let hi: u16 = b[2 * k + 1] as u16;
        r.push(lo + 256 * hi);
        k += 1;
    }
    assert(r@ == le_units(b@));
    r
}

fn until_nul_exec(u: &Vec<u16>) -> (r: Vec<u16>)
    ensures
        r@ == until_nul(u@),
{
    let mut k: usize = 0;
    assert(u@.skip(0) == u@);
    assert(u@.take(0) == Seq::<u16>::empty());
    while k < u.len() && u[k] != 0
        invariant
            k <= u.len(),
            until_nul(u@) == u@.take(k as int) + until_nul(u@.skip(k as int)),
        decreases u.len() - k,
    {
        assert(u@.skip(k as int).drop_first() == u@.skip(k + 1));
        assert(u@.take(k + 1) == u@.take(k as int) + seq![u@[k as int]]);
        k += 1;
    }
    assert(until_nul(u@.skip(k as int)) == Seq::<u16>::empty());
    let mut r: Vec<u16> = Vec::new();
    let mut i: usize = 0;
    while i < k
        invariant
            i <= k <= u.len(),
            r@ == u@.take(i as int),
        decreases k - i,
    {
        r.push(u[i]);
        i += 1;
        assert(r@ == u@.take(i as int));
    }
    r
}

proof fn lemma_runs_open(u: Seq<u16>)
    requires
        u.len() >= 1,
        u.last() != 0,
    ensures
        nonzero_runs(u).len() >= 1,
    decreases u.len(),
{
    if u.len() >= 2 && u[u.len() - 2] != 0 {
        lemma_runs_open(u.drop_last());
    }
}

fn nonzero_runs_exec(u: &Vec<u16>) -> (r: Vec<Vec<u16>>)
    ensures
        r@.len() == nonzero_runs(u@).len(),
        forall|k: int| 0 <= k < r@.len() ==> #[trigger] r@[k]@ == nonzero_runs(u@)[k],
{
    let mut r: Vec<Vec<u16>> = Vec::new();
    let mut cur: Vec<u16> = Vec::new();
    let mut i: usize = 0;
    while i < u.len()
        invariant
            i <= u.len(),
            ({
                let w = nonzero_runs(u@.take(i as int));
                &&& (i > 0 && u@[i - 1] != 0) ==> (w.len() == r@.len() + 1 && cur@ == w.last())
                &&& !(i > 0 && u@[i - 1] != 0) ==> (w.len() == r@.len() && cur@.len() == 0)
                &&& forall|k: int| 0 <= k < r@.len() ==> #[trigger] r@[k]@ == w[k]
            }),
        decreases u.len() - i,
    {
        let ghost p = u@.take(i as int);
        let ghost q = u@.take(i + 1 as int);
        assert(q.drop_last() == p);
        assert(q.last() == u@[i as int]);
        if u[i] == 0 {
            if i > 0 && u[i - 1] != 0 {
                r.push(cur);
                cur = Vec::new();
            }
        } else {
            if i > 0 && u[i - 1] != 0 {
                assert(q[q.len() - 2] == u@[i - 1]);
                proof {
                    lemma_runs_open(p);
                }
            }
            cur.push(u[i]);
        }
        i += 1;
    }
    if u.len() > 0 && u[u.len() - 1] != 0 {
        r.push(cur);
    }
    assert(u@.take(u.len() as int) == u@);
    r
}

proof fn lemma_le_value_bound(b: Seq<u8>)
    ensures
        le_value(b) < pow256(b.len()),
    decreases b.len(),
{
    if b.len() > 0 {
        lemma_le_value_bound(b.drop_first());
        let v = le_value(b.drop_first());
        let p = pow256((b.len() - 1) as nat);
        assert(b[0] + 256 * v < 256 * p) by (nonlinear_arith)
            requires
                v < p,
                b[0] < 256,
        ;
    }
}

/// Little-endian value of the first `n` bytes.
fn le_value_exec(b: &Vec<u8>, n: usize) -> (r: u64)
    requires
        n <= b.len(),
        n <= 8,
    ensures
        r == le_value(b@.take(n as int)),
{
    proof {
        lemma_le_value_bound(b@.take(n as int));
        lemma_pow256_values();
        lemma_pow256_mono(n as nat, 8);
    }
    let mut acc: u64 = 0;
    let mut i: usize = n;
    while i > 0
        invariant
            i <= n <= b.len(),
            n <= 8,
            acc == le_value(b@.subrange(i as int, n as int)),
            le_value(b@.take(n as int)) < 0x1_0000_0000_0000_0000nat,
        decreases i,
    {
        let ghost s = b@.subrange(i - 1, n as int);
        assert(s.drop_first() == b@.subrange(i as int, n as int));
        proof {
            lemma_le_value_prefix_bound(b@, (i - 1) as int, n as int);
        }
        i -= 1;
        acc = (b[i] as u64) + 256 * acc;
    }
    assert(b@.subrange(0, n as int) == b@.take(n as int));
    acc
}

proof fn lemma_pow256_mono(a: nat, b: nat)
    requires
        a <= b,
    ensures
        pow256(a) <= pow256(b),
    decreases b,
{
    if a < b {
        lemma_pow256_mono(a, (b - 1) as nat);
        assert(pow256((b - 1) as nat) >= 1) by {
            lemma_pow256_pos((b - 1) as nat);
        }
    }
}

proof fn lemma_pow256_values()
    ensures
        pow256(7) == 0x100_0000_0000_0000nat,
        pow256(8) == 0x1_0000_0000_0000_0000nat,
{
    reveal_with_fuel(pow256, 9);
}

proof fn lemma_pow256_pos(a: nat)
    ensures
        pow256(a) >= 1,
    decreases a,
{
    if a > 0 {
        lemma_pow256_pos((a - 1) as nat);
    }
}

/// The value of a suffix of the first `n` bytes fits in 64 bits when those
/// bytes do.
proof fn lemma_le_value_prefix_bound(b: Seq<u8>, i: int, n: int)
    requires
        0 <= i < n <= b.len(),
        n <= 8,
    ensures
        le_value(b.subrange(i, n)) < 0x1_0000_0000_0000_0000nat,
        le_value(b.subrange(i + 1, n)) < 0x100_0000_0000_0000nat,
{
    lemma_le_value_bound(b.subrange(i, n));
    lemma_le_value_bound(b.subrange(i + 1, n));
    lemma_pow256_mono((n - i) as nat, 8);
    lemma_pow256_mono((n - i - 1) as nat, 7);
    lemma_pow256_values();
}

/// Formats a registry value for display: strings decoded from UTF-16 up to
/// the first NUL, numbers in decimal, multi-strings joined with ` | `, and
/// anything else as space-separated uppercase hex bytes.
pub fn format_reg_value(kind: RegValueKind, bytes: &Vec<u8>) -> (r: String)
    ensures
        r@ == reg_value_text(kind, bytes@),
{
    match kind {
        RegValueKind::Sz | RegValueKind::ExpandSz => {
            let units = until_nul_exec(&le_units_exec(bytes));
            string_from_utf16_lossy(&units)
        },
        RegValueKind::Dword => {
            if bytes.len() >= 4 {
                dec_string(le_value_exec(bytes, 4))
            } else {
                to_string("(invalid DWORD)")
            }
        },
        RegValueKind::Qword => {
            if bytes.len() >= 8 {
                dec_string(le_value_exec(bytes, 8))
            } else {
                to_string("(invalid QWORD)")
            }
        },
        RegValueKind::MultiSz => {
            let runs = nonzero_runs_exec(&le_units_exec(bytes));
            let ghost spec_runs = nonzero_runs(le_units(bytes@));
            let ghost texts = spec_runs.map_values(|x: Seq<u16>| utf16_lossy(x));
            let mut out: Vec<char> = Vec::new();
            let mut k: usize = 0;
            while k < runs.len()
                invariant
                    k <= runs.len(),
                    runs@.len() == spec_runs.len(),
                    texts.len() == spec_runs.len(),
                    forall|j: int| 0 <= j < runs@.len() ==> #[trigger] runs@[j]@ == spec_runs[j],
                    forall|j: int|
                        0 <= j < texts.len() ==> #[trigger] texts[j] == utf16_lossy(spec_runs[j]),
                    out@ == join(texts.take(k as int), " | "@),
                decreases runs.len() - k,
            {
                let piece = string_from_utf16_lossy(&runs[k]);
                if k > 0 {
                    push_str(&mut out, " | ");
                }
                push_str(&mut out, piece.as_str());
                k += 1;
                assert(texts.take(k as int).drop_last() == texts.take(k - 1 as int));
            }
            assert(texts.take(runs.len() as int) == texts);
            string_from_chars(&out)
        },
        RegValueKind::Other => {
            let ghost texts = bytes@.map_values(|x: u8| hex_byte(x));
            let mut out: Vec<char> = Vec::new();
            let mut k: usize = 0;
            while k < bytes.len()
                invariant
                    k <= bytes.len(),
                    texts == bytes@.map_values(|x: u8| hex_byte(x)),
                    out@ == join(texts.take(k as int), seq![' ']),
                decreases bytes.len() - k,
            {
                if k > 0 {
                    out.push(' ');
                }
                let mut pair: Vec<char> = Vec::new();
                pair.push(crate::text::digit((bytes[k] / 16) as u64));
                pair.push(crate::text::digit((bytes[k] % 16) as u64));
                assert(pair@ == hex_byte(bytes@[k as int]));
                extend_chars(&mut out, &pair);
                k += 1;
                assert(texts.take(k as int).drop_last() == texts.take(k - 1 as int));
            }
            assert(texts.take(bytes.len() as int) == texts);
            string_from_chars(&out)
        },
    }
}

} // verus!
