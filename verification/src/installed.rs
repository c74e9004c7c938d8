//! Installed-product versions: decoding them from registry records and file
//! version resources, choosing the newest, and reading them back from the
//! CDK snapshot.
use vstd::prelude::*;
use crate::cdk_info::CdkInfo;
use crate::text::{
    chars_eq, contains_chars, contains_seq, dec, dec_chars, extend_chars, find_chars,
    first_occurrence, is_ascii_alnum, is_ascii_digit, lower, lower_chars, lower_seq,
    str_chars, string_from_chars, to_string, trim, trim_chars,
};
use crate::utils::{is_missing_value, missing_value};
use crate::version::{compare_versions, version_order, Order};

verus! {

/// An installed product and its version.
#[derive(Debug)]
pub struct InstalledProduct {
    pub product_name: String,
    pub version: String,
}

impl View for InstalledProduct {
    type V = (Seq<char>, Seq<char>);

    open spec fn view(&self) -> (Seq<char>, Seq<char>) {
        (self.product_name@, self.version@)
    }
}

impl InstalledProduct {
    pub fn new(product_name: &str, version: &str) -> (r: InstalledProduct)
        ensures
            r@ == (product_name@, version@),
    {
        InstalledProduct { product_name: to_string(product_name), version: to_string(version) }
    }
}

/// Add/Remove and MSI product-name pattern for CDK Drive 3rd Party Managed Assemblies.
pub const CDK_DRIVE_3RD_PARTY_MANAGED_ASSEMBLIES_96X_PATTERN: &'static str =
    "CDK Drive 3rd Party Managed Assemblies";

/// Add/Remove and MSI product-name pattern for Adaptiva.
pub const ADAPTIVA_ADD_REMOVE_PATTERN: &'static str = "Adaptiva";

/// Add/Remove and MSI product-name pattern for CDK Drive WebStart.
pub const WEBSTART_ADD_REMOVE_PATTERN: &'static str = "CDKDriveWebStart";

/// File name of the BlueZone terminal emulator executable.
pub const BLUEZONE_EXECUTABLE_NAME: &'static str = "bzvt.exe";

/// Adaptiva client executable, relative to a Program Files root.
pub const ADAPTIVA_ONESITE_CLIENT_RELATIVE_PATH: &'static str =
    "Adaptiva\\AdaptivaClient\\bin\\OneSiteClient.exe";

/// The non-blank values among the first `k` settings, trimmed, in order.
pub open spec fn set_roots_upto(values: Seq<Option<String>>, k: int) -> Seq<Seq<char>>
    decreases k,
{
    if k <= 0 || k > values.len() {
        seq![]
    } else {
        set_roots_upto(values, k - 1) + match values[k - 1] {
            Some(v) => if trim(v@).len() > 0 {
                seq![trim(v@)]
            } else {
                seq![]
            },
            None => seq![],
        }
    }
}

/// The Program Files roots to search: the values of the Program Files
/// settings that are set and not blank, trimmed and in the order given, then
/// `C:\Program Files` and `C:\Program Files (x86)`.
pub open spec fn program_files_roots(values: Seq<Option<String>>) -> Seq<Seq<char>> {
    set_roots_upto(values, values.len() as int) + seq![
        "C:\\Program Files"@,
        "C:\\Program Files (x86)"@,
    ]
}

/// Lists the Program Files roots to search, from the values of the Program
/// Files settings (`ProgramFiles`, `ProgramFiles(x86)`, `ProgramW6432`).
pub fn program_files_root_candidates(values: &Vec<Option<String>>) -> (r: Vec<String>)
    ensures
        crate::app_logging::strs(r@) == program_files_roots(values@),
{
    let mut r: Vec<String> = Vec::new();
    let mut k: usize = 0;
    while k < values.len()
        invariant
            k <= values.len(),
            crate::app_logging::strs(r@) == set_roots_upto(values@, k as int),
        decreases values.len() - k,
    {
        match &values[k] {
            Some(v) => {
                let t = trim_chars(&str_chars(v.as_str()));
                if t.len() > 0 {
                    let item = string_from_chars(&t);
                    proof {
                        assert(crate::app_logging::strs(r@.push(item)) =~= crate::app_logging::strs(
                            r@,
                        ).push(item@));
                    }
                    r.push(item);
                } else {
                    assert(set_roots_upto(values@, k + 1) =~= set_roots_upto(values@, k as int));
                }
            },
            None => {
                assert(set_roots_upto(values@, k + 1) =~= set_roots_upto(values@, k as int));
            },
        }
        k += 1;
    }
    let a = to_string("C:\\Program Files");
    let b = to_string("C:\\Program Files (x86)");
    proof {
        assert(crate::app_logging::strs(r@.push(a)) =~= crate::app_logging::strs(r@).push(a@));
    }
    r.push(a);
    proof {
        assert(crate::app_logging::strs(r@.push(b)) =~= crate::app_logging::strs(r@).push(b@));
    }
    r.push(b);
    r
}

// ---------------------------------------------------------------------------
// Product-name matching
// ---------------------------------------------------------------------------

/// The ASCII letters and digits of a text, lowercased; spacing and
/// punctuation dropped.
pub open spec fn compact(s: Seq<char>) -> Seq<char>
    decreases s.len(),
{
    if s.len() == 0 {
        seq![]
    } else {
        compact(s.drop_last()) + if is_ascii_alnum(s.last()) {
            seq![lower(s.last())]
        } else {
            seq![]
        }
    }
}

pub open spec fn name_matches(name: Seq<char>, pattern: Seq<char>) -> bool {
    contains_seq(compact(name), compact(pattern))
}

fn compact_chars(s: &Vec<char>) -> (r: Vec<char>)
    ensures
        r@ == compact(s@),
{
    let mut r: Vec<char> = Vec::new();
    let mut i: usize = 0;
    while i < s.len()
        invariant
            i <= s.len(),
            r@ == compact(s@.take(i as int)),
        decreases s.len() - i,
    {
        let c = s[i];
        assert(s@.take(i + 1).drop_last() == s@.take(i as int));
        if crate::text::char_is_ascii_alnum(c) {
            r.push(crate::text::char_lower(c));
        }
        i += 1;
    }
    assert(s@.take(s.len() as int) == s@);
    r
}

/// Tolerant product-name match: the pattern's letters and digits occur, in
/// order and contiguously, among the name's letters and digits, ignoring
/// ASCII case, spacing and punctuation.
pub fn product_name_matches(product_name: &str, pattern: &str) -> (r: bool)
    ensures
        r == name_matches(product_name@, pattern@),
{
    let n = compact_chars(&str_chars(product_name));
    let p = compact_chars(&str_chars(pattern));
    contains_chars(&n, &p)
}

// ---------------------------------------------------------------------------
// Version decoding
// ---------------------------------------------------------------------------

pub open spec fn is_version_char(c: char) -> bool {
    is_ascii_digit(c) || c == '.'
}

/// Length of the leading run of digits and dots.
pub open spec fn version_run_len(s: Seq<char>) -> nat
    decreases s.len(),
{
    if s.len() > 0 && is_version_char(s[0]) {
        1 + version_run_len(s.drop_first())
    } else {
        0
    }
}

/// The text with its trailing dots removed.
pub open spec fn trim_trailing_dots(s: Seq<char>) -> Seq<char>
    decreases s.len(),
{
    if s.len() > 0 && s.last() == '.' {
        trim_trailing_dots(s.drop_last())
    } else {
        s
    }
}

/// The version embedded in a product name after `V-` (any case): the digits
/// and dots that follow, trailing dots removed, when they hold a dot.
pub open spec fn name_version(name: Seq<char>) -> Option<Seq<char>> {
    match first_occurrence(lower_seq(name), seq!['v', '-']) {
        None => None,
        Some(p) => version_after(name, p + 2),
    }
}

/// The version of the digit-and-dot run starting at `start`, if it holds a dot.
pub open spec fn version_after(name: Seq<char>, start: int) -> Option<Seq<char>> {
    let rest = name.skip(start);
    let run = rest.take(version_run_len(rest) as int);
    if run.contains('.') {
        Some(trim_trailing_dots(run))
    } else {
        None
    }
}

proof fn lemma_version_run(s: Seq<char>, k: int)
    requires
        0 <= k <= s.len(),
        forall|i: int| 0 <= i < k ==> is_version_char(#[trigger] s[i]),
        k < s.len() ==> !is_version_char(s[k]),
    ensures
        version_run_len(s) == k,
    decreases k,
{
    if k > 0 {
        assert forall|i: int| 0 <= i < k - 1 implies is_version_char(
            #[trigger] s.drop_first()[i],
        ) by {
            assert(s.drop_first()[i] == s[i + 1]);
        }
        if k < s.len() {
            assert(s.drop_first()[k - 1] == s[k]);
        }
        lemma_version_run(s.drop_first(), k - 1);
    }
}

proof fn lemma_run_chars(s: Seq<char>)
    ensures
        version_run_len(s) <= s.len(),
        forall|i: int| 0 <= i < version_run_len(s) ==> is_version_char(#[trigger] s[i]),
    decreases s.len(),
{
    if s.len() > 0 && is_version_char(s[0]) {
        lemma_run_chars(s.drop_first());
        assert forall|i: int| 0 <= i < version_run_len(s) implies is_version_char(
            #[trigger] s[i],
        ) by {
            if i > 0 {
                assert(s[i] == s.drop_first()[i - 1]);
            }
        }
    }
}

proof fn lemma_trim_dots(s: Seq<char>)
    ensures
        trim_trailing_dots(s).len() <= s.len(),
        trim_trailing_dots(s) == s.take(trim_trailing_dots(s).len() as int),
        trim_trailing_dots(s).len() > 0 ==> trim_trailing_dots(s).last() != '.',
    decreases s.len(),
{
    if s.len() > 0 && s.last() == '.' {
        lemma_trim_dots(s.drop_last());
        let t = trim_trailing_dots(s.drop_last());
        assert(s.drop_last().take(t.len() as int) == s.take(t.len() as int));
    } else {
        assert(s.take(s.len() as int) == s);
    }
}

/// A version taken from a product name is made of ASCII digits and dots only
/// and never ends with a dot.
pub proof fn law_name_version_shape(name: Seq<char>)
    ensures
        match name_version(name) {
            Some(v) => (forall|i: int| 0 <= i < v.len() ==> is_version_char(#[trigger] v[i])) && (
            v.len() > 0 ==> v.last() != '.'),
            None => true,
        },
{
    if let Some(p) = first_occurrence(lower_seq(name), seq!['v', '-']) {
        let rest = name.skip(p + 2);
        let run = rest.take(version_run_len(rest) as int);
        lemma_run_chars(rest);
        lemma_trim_dots(run);
        let v = trim_trailing_dots(run);
        assert forall|i: int| 0 <= i < v.len() implies is_version_char(#[trigger] v[i]) by {
            assert(v[i] == run[i]);
            assert(run[i] == rest[i]);
        }
    }
}

fn trim_trailing_dots_exec(s: &Vec<char>) -> (r: Vec<char>)
    ensures
        r@ == trim_trailing_dots(s@),
{
    let mut n: usize = s.len();
    assert(s@.take(s.len() as int) == s@);
    while n > 0 && s[n - 1] == '.'
        invariant
            n <= s.len(),
            trim_trailing_dots(s@) == trim_trailing_dots(s@.take(n as int)),
        decreases n,
    {
        assert(s@.take(n as int).drop_last() == s@.take(n - 1));
        n -= 1;
    }
    let mut r: Vec<char> = Vec::new();
    let mut i: usize = 0;
    while i < n
        invariant
            i <= n <= s.len(),
            r@ == s@.take(i as int),
        decreases n - i,
    {
        r.push(s[i]);
        i += 1;
        assert(r@ == s@.take(i as int));
    }
    proof {
        if n > 0 {
            assert(s@.take(n as int).last() == s@[n - 1]);
        }
    }
    r
}

/// End of the run of digits and dots that starts at `start`.
fn version_run_end(chars: &Vec<char>, start: usize) -> (end: usize)
    requires
        start <= chars.len(),
    ensures
        start <= end <= chars.len(),
        end - start == version_run_len(chars@.skip(start as int)),
{
    let ghost rest = chars@.skip(start as int);
    let mut end: usize = start;
    while end < chars.len() && (crate::text::char_is_ascii_digit(chars[end]) || chars[end] == '.')
        invariant
            start <= end <= chars.len(),
            rest == chars@.skip(start as int),
            forall|i: int| 0 <= i < end - start ==> is_version_char(#[trigger] rest[i]),
        decreases chars.len() - end,
    {
        assert(rest[end - start] == chars@[end as int]);
        end += 1;
    }
    proof {
        if end < chars.len() {
            assert(rest[end - start] == chars@[end as int]);
        }
        lemma_version_run(rest, end - start);
    }
    end
}

fn chars_contain(v: &Vec<char>, c: char) -> (r: bool)
    ensures
        r == v@.contains(c),
{
    let mut i: usize = 0;
    while i < v.len()
        invariant
            i <= v.len(),
            forall|j: int| 0 <= j < i ==> v@[j] != c,
        decreases v.len() - i,
    {
        if v[i] == c {
            return true;
        }
        i += 1;
    }
    false
}

fn sub_chars(chars: &Vec<char>, start: usize, end: usize) -> (r: Vec<char>)
    requires
        start <= end <= chars.len(),
    ensures
        r@ == chars@.subrange(start as int, end as int),
{
    let mut r: Vec<char> = Vec::new();
    let mut i: usize = start;
    while i < end
        invariant
            start <= i <= end <= chars.len(),
            r@ == chars@.subrange(start as int, i as int),
        decreases end - i,
    {
        r.push(chars[i]);
        i += 1;
        assert(r@ == chars@.subrange(start as int, i as int));
    }
    r
}

/// Finds a `V-` prefix (any case) in `name` followed by dot-separated digits
/// and returns that version, trailing dots removed; a run without a dot is no
/// version.
pub fn extract_version_from_name(name: &str) -> (r: Option<String>)
    ensures
        match name_version(name@) {
            Some(v) => r is Some && r->0@ == v,
            None => r is None,
        },
{
    let chars = str_chars(name);
    let low = lower_chars(&chars);
    let pat: Vec<char> = vec!['v', '-'];
    let found = find_chars(&low, &pat);
    let pos = match found {
        Some(p) => p,
        None => {
            return None;
        },
    };
    assert(first_occurrence(lower_seq(name@), seq!['v', '-']) == Some(pos as int));
    assert(pat@ == seq!['v', '-']);
    assert(crate::text::occurs_at(low@, pat@, pos as int));
    assert(low@.len() == chars@.len());
    assert(pos + 2 <= low@.len());
    let n = chars.len();
    assert(pos + 2 <= n);
    let start: usize = pos + 2;
    let end = version_run_end(&chars, start);
    let run = sub_chars(&chars, start, end);
    assert(run@ == name@.skip(start as int).take(version_run_len(name@.skip(start as int)) as int));
    if chars_contain(&run, '.') {
        Some(string_from_chars(&trim_trailing_dots_exec(&run)))
    } else {
        None
    }
}

/// The MSI `Version` DWORD as text: top byte, next byte, low word.
pub open spec fn msi_dword_text(v: u32) -> Seq<char> {
    dec((v / 0x100_0000) as nat) + seq!['.'] + dec(((v / 0x1_0000) % 0x100) as nat) + seq!['.']
        + dec((v % 0x1_0000) as nat)
}

/// Decodes an MSI product version, preferring a `V-X.Y.Z[.W]` version in the
/// product name and otherwise unpacking the MSI version DWORD
/// (top byte = major, next byte = minor, low word = build).
pub fn decode_msi_version(product_name: &str, version_int: u32) -> (r: String)
    ensures
        match name_version(product_name@) {
            Some(v) => r@ == v,
            None => r@ == msi_dword_text(version_int),
        },
{
    if let Some(v) = extract_version_from_name(product_name) {
        return v;
    }
    let mut out = dec_chars((version_int / 0x100_0000) as u64);
    out.push('.');
    extend_chars(&mut out, &dec_chars(((version_int / 0x1_0000) % 0x100) as u64));
    out.push('.');
    extend_chars(&mut out, &dec_chars((version_int % 0x1_0000) as u64));
    string_from_chars(&out)
}

/// The file-version fields of a Windows fixed file-version resource
/// (`VS_FIXEDFILEINFO::dwFileVersionMS` and `dwFileVersionLS`).
#[derive(Debug, Clone, Copy)]
pub struct FixedFileVersion {
    pub file_version_ms: u32,
    pub file_version_ls: u32,
}

/// `major.minor.build.revision` from the high and low words of the two fields.
pub open spec fn fixed_version_text(v: FixedFileVersion) -> Seq<char> {
    dec((v.file_version_ms / 0x1_0000) as nat) + seq!['.'] + dec(
        (v.file_version_ms % 0x1_0000) as nat,
    ) + seq!['.'] + dec((v.file_version_ls / 0x1_0000) as nat) + seq!['.'] + dec(
        (v.file_version_ls % 0x1_0000) as nat,
    )
}

/// Formats Win32 fixed file-version fields as `major.minor.build.revision`.
pub fn format_fixed_file_version(version_info: &FixedFileVersion) -> (r: String)
    ensures
        r@ == fixed_version_text(*version_info),
{
    let mut out = dec_chars((version_info.file_version_ms / 0x1_0000) as u64);
    out.push('.');
    extend_chars(&mut out, &dec_chars((version_info.file_version_ms % 0x1_0000) as u64));
    out.push('.');
    extend_chars(&mut out, &dec_chars((version_info.file_version_ls / 0x1_0000) as u64));
    out.push('.');
    extend_chars(&mut out, &dec_chars((version_info.file_version_ls % 0x1_0000) as u64));
    string_from_chars(&out)
}

// ---------------------------------------------------------------------------
// Choosing the newest
// ---------------------------------------------------------------------------

pub open spec fn versions_of(ps: Seq<InstalledProduct>) -> Seq<Seq<char>> {
    ps.map_values(|p: InstalledProduct| p.version@)
}

/// Position of the newest of the first `n` versions: a later version takes
/// the place only when it orders strictly after the one held, so among equal
/// versions the first is kept.
pub open spec fn newest_index(vs: Seq<Seq<char>>, n: int) -> int
    decreases n,
{
    if n <= 1 {
        0
    } else {
        let b = newest_index(vs, n - 1);
        if version_order(vs[n - 1], vs[b]) == Order::Greater {
            n - 1
        } else {
            b
        }
    }
}

proof fn lemma_newest_index_bounds(vs: Seq<Seq<char>>, n: int)
    requires
        1 <= n,
    ensures
        0 <= newest_index(vs, n) < n,
    decreases n,
{
    if n > 1 {
        lemma_newest_index_bounds(vs, n - 1);
    }
}

/// Returns the product with the highest version, or `None` for no products.
pub fn select_highest_version(matches: Vec<InstalledProduct>) -> (r: Option<InstalledProduct>)
    ensures
        matches@.len() == 0 ==> r is None,
        matches@.len() > 0 ==> r == Some(
            matches@[newest_index(versions_of(matches@), matches@.len() as int)],
        ),
{
    let mut matches = matches;
    if matches.len() == 0 {
        return None;
    }
    let ghost vs = versions_of(matches@);
    let mut best: usize = 0;
    let mut i: usize = 1;
    while i < matches.len()
        invariant
            1 <= i <= matches.len(),
            vs == versions_of(matches@),
            best < i,
            best as int == newest_index(vs, i as int),
        decreases matches.len() - i,
    {
        assert(vs[i as int] == matches@[i as int].version@);
        assert(vs[best as int] == matches@[best as int].version@);
        if compare_versions(matches[i].version.as_str(), matches[best].version.as_str())
            == Order::Greater {
            best = i;
        }
        i += 1;
    }
    Some(matches.swap_remove(best))
}

/// The versions are ordered consistently by `compare_versions`: reversing a
/// comparison swaps less and greater, and "not greater" is transitive.
pub open spec fn consistently_ordered(vs: Seq<Seq<char>>) -> bool {
    &&& forall|i: int, j: int|
        0 <= i < vs.len() && 0 <= j < vs.len() ==> (version_order(#[trigger] vs[i], #[trigger] vs[j])
            == Order::Greater <==> version_order(vs[j], vs[i]) == Order::Less)
    &&& forall|i: int, j: int, k: int|
        0 <= i < vs.len() && 0 <= j < vs.len() && 0 <= k < vs.len() && version_order(
            #[trigger] vs[i],
            #[trigger] vs[j],
        ) != Order::Greater && version_order(vs[j], #[trigger] vs[k]) != Order::Greater
            ==> version_order(vs[i], vs[k]) != Order::Greater
}

proof fn lemma_newest_is_maximal(vs: Seq<Seq<char>>, n: int)
    requires
        1 <= n <= vs.len(),
        consistently_ordered(vs),
    ensures
        forall|j: int| 0 <= j < n ==> version_order(#[trigger] vs[j], vs[newest_index(vs, n)])
            != Order::Greater,
    decreases n,
{
    lemma_newest_index_bounds(vs, n);
    let b = newest_index(vs, n);
    assert(version_order(vs[b], vs[b]) != Order::Greater);
    if n > 1 {
        lemma_newest_is_maximal(vs, n - 1);
        let p = newest_index(vs, n - 1);
        lemma_newest_index_bounds(vs, n - 1);
        if version_order(vs[n - 1], vs[p]) == Order::Greater {
            assert(version_order(vs[p], vs[n - 1]) == Order::Less);
            assert forall|j: int| 0 <= j < n implies version_order(#[trigger] vs[j], vs[b])
                != Order::Greater by {
                if j < n - 1 {
                    assert(version_order(vs[j], vs[p]) != Order::Greater);
                }
            }
        }
    }
}

/// When the versions are consistently ordered, no product is newer than the
/// one `select_highest_version` returns.
pub proof fn law_selected_version_is_highest(products: Seq<InstalledProduct>)
    requires
        products.len() > 0,
        consistently_ordered(versions_of(products)),
    ensures
        forall|j: int|
            0 <= j < products.len() ==> version_order(
                #[trigger] products[j].version@,
                products[newest_index(versions_of(products), products.len() as int)].version@,
            ) != Order::Greater,
{
    let vs = versions_of(products);
    lemma_newest_is_maximal(vs, products.len() as int);
    lemma_newest_index_bounds(vs, products.len() as int);
    assert forall|j: int| 0 <= j < products.len() implies version_order(
        #[trigger] products[j].version@,
        products[newest_index(vs, products.len() as int)].version@,
    ) != Order::Greater by {
        assert(vs[j] == products[j].version@);
    }
}

// ---------------------------------------------------------------------------
// Registry product records
// ---------------------------------------------------------------------------

/// Add/Remove records (display name, display version) whose name matches.
pub open spec fn add_remove_candidates(recs: Seq<(String, String)>, pat: Seq<char>, k: int) -> Seq<
    (Seq<char>, Seq<char>),
>
    decreases k,
{
    if k <= 0 || k > recs.len() {
        seq![]
    } else {
        add_remove_candidates(recs, pat, k - 1) + if name_matches(recs[k - 1].0@, pat) {
            seq![(recs[k - 1].0@, recs[k - 1].1@)]
        } else {
            seq![]
        }
    }
}

/// MSI product records (product name, version DWORD) whose name matches,
/// with their decoded version.
pub open spec fn msi_candidates(recs: Seq<(String, u32)>, pat: Seq<char>, k: int) -> Seq<
    (Seq<char>, Seq<char>),
>
    decreases k,
{
    if k <= 0 || k > recs.len() {
        seq![]
    } else {
        msi_candidates(recs, pat, k - 1) + if name_matches(recs[k - 1].0@, pat) {
            seq![
                (recs[k - 1].0@, match name_version(recs[k - 1].0@) {
                    Some(v) => v,
                    None => msi_dword_text(recs[k - 1].1),
                }),
            ]
        } else {
            seq![]
        }
    }
}

pub open spec fn product_views(ps: Seq<InstalledProduct>) -> Seq<(Seq<char>, Seq<char>)> {
    ps.map_values(|p: InstalledProduct| p@)
}

/// Picks the installed version of a product from what the registry lists:
/// Add/Remove entries (display name, display version) and MSI product entries
/// (product name, version DWORD) whose names match `name_pattern`, the
/// Add/Remove ones first; returns the one with the highest version.
pub fn installed_version_from_records(
    add_remove: &Vec<(String, String)>,
    msi_products: &Vec<(String, u32)>,
    name_pattern: &str,
) -> (r: Option<InstalledProduct>)
    ensures
        ({
            let cands = add_remove_candidates(add_remove@, name_pattern@, add_remove@.len() as int)
                + msi_candidates(msi_products@, name_pattern@, msi_products@.len() as int);
            &&& cands.len() == 0 ==> r is None
            &&& cands.len() > 0 ==> r is Some && r->0@ == cands[newest_index(
                cands.map_values(|c: (Seq<char>, Seq<char>)| c.1),
                cands.len() as int,
            )]
        }),
{
    let mut found: Vec<InstalledProduct> = Vec::new();
    let mut i: usize = 0;
    while i < add_remove.len()
        invariant
            i <= add_remove.len(),
            product_views(found@) == add_remove_candidates(add_remove@, name_pattern@, i as int),
        decreases add_remove.len() - i,
    {
        if product_name_matches(add_remove[i].0.as_str(), name_pattern) {
            found.push(InstalledProduct::new(add_remove[i].0.as_str(), add_remove[i].1.as_str()));
        }
        i += 1;
    }
    let ghost first = product_views(found@);
    let mut j: usize = 0;
    while j < msi_products.len()
        invariant
            j <= msi_products.len(),
            product_views(found@) == first + msi_candidates(msi_products@, name_pattern@, j as int),
        decreases msi_products.len() - j,
    {
        let ghost before = product_views(found@);
        if product_name_matches(msi_products[j].0.as_str(), name_pattern) {
            let v = decode_msi_version(msi_products[j].0.as_str(), msi_products[j].1);
            found.push(InstalledProduct::new(msi_products[j].0.as_str(), v.as_str()));
            assert(product_views(found@) == before + seq![found@.last()@]);
        }
        j += 1;
        assert(product_views(found@) == first + msi_candidates(
            msi_products@,
            name_pattern@,
            j as int,
        ));
    }
    let ghost cands = product_views(found@);
    assert(versions_of(found@) == cands.map_values(|c: (Seq<char>, Seq<char>)| c.1));
    let r = select_highest_version(found);
    proof {
        if cands.len() > 0 {
            lemma_newest_index_bounds(versions_of(found@), found@.len() as int);
        }
    }
    r
}

// ---------------------------------------------------------------------------
// Versions recorded in the CDK snapshot
// ---------------------------------------------------------------------------

/// The product for a recorded version, or nothing for a missing value.
pub open spec fn reported(name: Seq<char>, version: Seq<char>) -> Option<(Seq<char>, Seq<char>)> {
    if missing_value(version) {
        None
    } else {
        Some((name, version))
    }
}

pub open spec fn product_opt_view(o: Option<InstalledProduct>) -> Option<(Seq<char>, Seq<char>)> {
    match o {
        Some(p) => Some(p@),
        None => None,
    }
}

/// A product for a version recorded in the snapshot, unless the recorded
/// value is empty or a not-found token.
pub fn product_from_reported_version(product_name: &str, version: &str) -> (r: Option<
    InstalledProduct,
>)
    ensures
        missing_value(version@) ==> r is None,
        !missing_value(version@) ==> r is Some && r->0@ == (product_name@, version@),
{
    if is_missing_value(version) {
        None
    } else {
        Some(InstalledProduct::new(product_name, version))
    }
}

/// CDK Drive 3rd Party Managed Assemblies 96.x as recorded in the snapshot.
pub fn detect_cdk_drive_3rd_party_managed_assemblies_96x(cdk_info: &CdkInfo) -> (r: Option<
    InstalledProduct,
>)
    ensures
        missing_value(cdk_info.cdk_3rd_party_assemblies_version@) ==> r is None,
        !missing_value(cdk_info.cdk_3rd_party_assemblies_version@) ==> r is Some && r->0@ == (
            "CDK Drive 3rd Party Managed Assemblies 96.x"@,
            cdk_info.cdk_3rd_party_assemblies_version@,
        ),
{
    product_from_reported_version(
        "CDK Drive 3rd Party Managed Assemblies 96.x",
        cdk_info.cdk_3rd_party_assemblies_version.as_str(),
    )
}

/// Adaptiva as recorded in the snapshot.
pub fn detect_adaptiva(cdk_info: &CdkInfo) -> (r: Option<InstalledProduct>)
    ensures
        missing_value(cdk_info.adaptiva_installed_version@) ==> r is None,
        !missing_value(cdk_info.adaptiva_installed_version@) ==> r is Some && r->0@ == (
            "Adaptiva"@,
            cdk_info.adaptiva_installed_version@,
        ),
{
    product_from_reported_version("Adaptiva", cdk_info.adaptiva_installed_version.as_str())
}

/// BlueZone as recorded in the snapshot.
pub fn detect_bluezone(cdk_info: &CdkInfo) -> (r: Option<InstalledProduct>)
    ensures
        missing_value(cdk_info.bluezone_version@) ==> r is None,
        !missing_value(cdk_info.bluezone_version@) ==> r is Some && r->0@ == (
            "BlueZone"@,
            cdk_info.bluezone_version@,
        ),
{
    product_from_reported_version("BlueZone", cdk_info.bluezone_version.as_str())
}

/// CDK Drive WebStart as recorded in the snapshot, preferring the
/// Add/Remove version over the executable's file version.
pub fn get_webstart_installed_version_from_cdk_info(cdk_info: &CdkInfo) -> (r: Option<
    InstalledProduct,
>)
    ensures
        !missing_value(cdk_info.webstart_add_remove_version@) ==> r is Some && r->0@ == (
            "CDK Drive WebStart"@,
            cdk_info.webstart_add_remove_version@,
        ),
        missing_value(cdk_info.webstart_add_remove_version@) && !missing_value(
            cdk_info.webstart_version@,
        ) ==> r is Some && r->0@ == ("CDK Drive WebStart"@, cdk_info.webstart_version@),
        missing_value(cdk_info.webstart_add_remove_version@) && missing_value(
            cdk_info.webstart_version@,
        ) ==> r is None,
{
    match product_from_reported_version(
        "CDK Drive WebStart",
        cdk_info.webstart_add_remove_version.as_str(),
    ) {
        Some(p) => Some(p),
        None => product_from_reported_version(
            "CDK Drive WebStart",
            cdk_info.webstart_version.as_str(),
        ),
    }
}

/// The first of two detections that found something: the preferred source
/// (for Adaptiva its executable), otherwise the fallback (its Add/Remove
/// entry).
pub fn prefer_first(a: Option<InstalledProduct>, b: Option<InstalledProduct>) -> (r: Option<
    InstalledProduct,
>)
    ensures
        product_opt_view(r) == match a {
            Some(p) => Some(p@),
            None => product_opt_view(b),
        },
{
    match a {
        Some(p) => Some(p),
        None => b,
    }
}

proof fn lemma_compact_append(a: Seq<char>, b: Seq<char>)
    ensures
        compact(a + b) == compact(a) + compact(b),
    decreases b.len(),
{
    if b.len() == 0 {
        assert(a + b =~= a);
        assert(compact(b) =~= seq![]);
    } else {
        lemma_compact_append(a, b.drop_last());
        assert((a + b).drop_last() =~= a + b.drop_last());
        assert((a + b).last() == b.last());
    }
}

/// A product name matches a pattern exactly when the pattern, stripped to
/// lowercase letters and digits, occurs anywhere in the name stripped the same
/// way; in particular any name made of text, the pattern and more text
/// matches it.
pub proof fn law_name_contains_pattern(name: Seq<char>, pattern: Seq<char>, x: Seq<char>, y: Seq<char>)
    ensures
        name_matches(name, pattern) <==> exists|i: int|
            0 <= i && i + compact(pattern).len() <= compact(name).len() && #[trigger] compact(
                name,
            ).subrange(i, i + compact(pattern).len()) == compact(pattern),
        name_matches(x + pattern + y, pattern),
{
    let c = compact(name);
    let q = compact(pattern);
    if name_matches(name, pattern) {
        let i = choose|i: int| crate::text::occurs_at(c, q, i);
        assert(c.subrange(i, i + q.len()) == q);
    }
    if exists|i: int| 0 <= i && i + q.len() <= c.len() && #[trigger] c.subrange(i, i + q.len()) == q {
        let i = choose|i: int| 0 <= i && i + q.len() <= c.len() && #[trigger] c.subrange(i, i + q.len()) == q;
        assert(crate::text::occurs_at(c, q, i));
    }
    lemma_compact_append(x, pattern);
    lemma_compact_append(x + pattern, y);
    let cx = compact(x);
    let cp = compact(pattern);
    let cn = compact(x + pattern + y);
    assert(cn == cx + cp + compact(y));
    assert(cn.subrange(cx.len() as int, (cx.len() + cp.len()) as int) =~= cp);
    assert(crate::text::occurs_at(cn, cp, cx.len() as int));
}

/// An Add/Remove record whose name holds the pattern anywhere (any case,
/// spacing and punctuation aside) is among the candidates, so a version is
/// found for the pattern.
pub proof fn law_record_containing_pattern_is_found(
    add_remove: Seq<(String, String)>,
    pattern: Seq<char>,
    i: int,
    x: Seq<char>,
    y: Seq<char>,
)
    requires
        0 <= i < add_remove.len(),
        add_remove[i].0@ == x + pattern + y,
    ensures
        add_remove_candidates(add_remove, pattern, add_remove.len() as int).contains(
            (add_remove[i].0@, add_remove[i].1@),
        ),
{
    law_name_contains_pattern(add_remove[i].0@, pattern, x, y);
    lemma_candidates_contain(add_remove, pattern, i, add_remove.len() as int);
}

proof fn lemma_candidates_contain(add_remove: Seq<(String, String)>, pattern: Seq<char>, i: int, k: int)
    requires
        0 <= i < k <= add_remove.len(),
        name_matches(add_remove[i].0@, pattern),
    ensures
        add_remove_candidates(add_remove, pattern, k).contains((add_remove[i].0@, add_remove[i].1@)),
    decreases k,
{
    let c = add_remove_candidates(add_remove, pattern, k);
    let p = add_remove_candidates(add_remove, pattern, k - 1);
    if i == k - 1 {
        assert(c[c.len() - 1] == (add_remove[i].0@, add_remove[i].1@));
    } else {
        lemma_candidates_contain(add_remove, pattern, i, k - 1);
        let j = choose|j: int| 0 <= j < p.len() && p[j] == (add_remove[i].0@, add_remove[i].1@);
        assert(c[j] == p[j]);
    }
}

} // verus!
