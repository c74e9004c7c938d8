//! Installer handling: argument tokenising, download file names, and the
//! outcome texts of installer and `taskkill` runs.
use vstd::prelude::*;
use crate::app_logging::strs;
use crate::text::{
    char_is_ws, dec, extend_chars, is_ws, lower_chars, occurs_at, occurs_at_exec, push_str, str_chars,
    string_from_chars, to_string,
};

verus! {

// ---------------------------------------------------------------------------
// Argument tokenising
// ---------------------------------------------------------------------------

/// State of the tokeniser after some characters.
pub struct SplitState {
    pub tokens: Seq<Seq<char>>,
    pub current: Seq<char>,
    pub in_quotes: bool,
}

pub open spec fn split_step(st: SplitState, c: char) -> SplitState {
    if c == '"' {
        SplitState { in_quotes: !st.in_quotes, ..st }
    } else if is_ws(c) && !st.in_quotes {
        if st.current.len() > 0 {
            SplitState { tokens: st.tokens.push(st.current), current: seq![], in_quotes: false }
        } else {
            st
        }
    } else {
        SplitState { current: st.current.push(c), ..st }
    }
}

pub open spec fn split_upto(s: Seq<char>, k: int) -> SplitState
    decreases k,
{
    if k <= 0 || k > s.len() {
        SplitState { tokens: seq![], current: seq![], in_quotes: false }
    } else {
        split_step(split_upto(s, k - 1), s[k - 1])
    }
}

/// Tokens of an installer argument string: whitespace outside double quotes
/// separates tokens, the quotes themselves are dropped, and empty tokens are
/// not produced.
pub open spec fn install_arg_tokens(s: Seq<char>) -> Seq<Seq<char>> {
    let st = split_upto(s, s.len() as int);
    if st.current.len() > 0 {
        st.tokens.push(st.current)
    } else {
        st.tokens
    }
}

/// Every token is non-empty and free of double quotes.
pub open spec fn clean_tokens(ts: Seq<Seq<char>>) -> bool {
    forall|i: int| 0 <= i < ts.len() ==> #[trigger] ts[i].len() > 0 && !ts[i].contains('"')
}

/// Splits an installer argument string into tokens, treating double-quoted
/// substrings as parts of a single token and stripping the quotes.
pub fn split_install_args(args: &str) -> (r: Vec<String>)
    ensures
        strs(r@) == install_arg_tokens(args@),
        clean_tokens(strs(r@)),
{
    let cs = str_chars(args);
    let mut result: Vec<String> = Vec::new();
    let mut current: Vec<char> = Vec::new();
    let mut in_quotes = false;
    let mut i: usize = 0;
    while i < cs.len()
        invariant
            i <= cs.len(),
            cs@ == args@,
            strs(result@) == split_upto(cs@, i as int).tokens,
            current@ == split_upto(cs@, i as int).current,
            in_quotes == split_upto(cs@, i as int).in_quotes,
            clean_tokens(strs(result@)),
            !current@.contains('"'),
        decreases cs.len() - i,
    {
        let c = cs[i];
        if c == '"' {
            in_quotes = !in_quotes;
        } else if char_is_ws(c) && !in_quotes {
            if current.len() > 0 {
                let token = string_from_chars(&current);
                proof {
                    assert(strs(result@.push(token)) =~= strs(result@).push(token@));
                }
                result.push(token);
                current = Vec::new();
                assert(!current@.contains('"'));
            }
        } else {
            current.push(c);
            assert(!current@.contains('"')) by {
                if current@.contains('"') {
                    let j = choose|j: int| 0 <= j < current@.len() && current@[j] == '"';
                    assert(current@.drop_last()[j] == '"');
                }
            }
        }
        i += 1;
    }
    if current.len() > 0 {
        let token = string_from_chars(&current);
        proof {
            assert(strs(result@.push(token)) =~= strs(result@).push(token@));
        }
        result.push(token);
    }
    result
}

// ---------------------------------------------------------------------------
// Download URLs and file names
// ---------------------------------------------------------------------------

/// `s` with every non-overlapping occurrence of `pat`, scanning left to
/// right, replaced by `rep` (`str::replace`).
pub open spec fn replace_all(s: Seq<char>, pat: Seq<char>, rep: Seq<char>) -> Seq<char>
    decreases s.len(),
{
    if s.len() == 0 || pat.len() == 0 {
        s
    } else if occurs_at(s, pat, 0) {
        rep + replace_all(s.skip(pat.len() as int), pat, rep)
    } else {
        seq![s[0]] + replace_all(s.drop_first(), pat, rep)
    }
}

proof fn lemma_occurs_at_shift(s: Seq<char>, pat: Seq<char>, i: int)
    requires
        0 <= i <= s.len(),
    ensures
        occurs_at(s, pat, i) == occurs_at(s.skip(i), pat, 0),
{
    if occurs_at(s, pat, i) {
        assert(s.skip(i).subrange(0, pat.len() as int) =~= s.subrange(i, i + pat.len()));
    }
    if occurs_at(s.skip(i), pat, 0) {
        assert(s.skip(i).subrange(0, pat.len() as int) =~= s.subrange(i, i + pat.len()));
    }
}

/// `str::replace`.
pub fn replace_chars(s: &Vec<char>, pat: &Vec<char>, rep: &Vec<char>) -> (r: Vec<char>)
    requires
        pat@.len() > 0,
    ensures
        r@ == replace_all(s@, pat@, rep@),
{
    let mut out: Vec<char> = Vec::new();
    let mut i: usize = 0;
    assert(s@.skip(0) == s@);
    while i < s.len()
        invariant
            i <= s.len(),
            pat@.len() > 0,
            out@ + replace_all(s@.skip(i as int), pat@, rep@) == replace_all(s@, pat@, rep@),
        decreases s.len() - i,
    {
        let ghost t = s@.skip(i as int);
        proof {
            lemma_occurs_at_shift(s@, pat@, i as int);
        }
        if occurs_at_exec(s, pat, i) {
            extend_chars(&mut out, rep);
            assert(t.skip(pat@.len() as int) == s@.skip(i + pat@.len()));
            i += pat.len();
        } else {
            out.push(s[i]);
            assert(t.drop_first() == s@.skip(i + 1));
            assert(t[0] == s@[i as int]);
            i += 1;
        }
    }
    assert(s@.skip(i as int).len() == 0);
    r_identity(out)
}

fn r_identity(v: Vec<char>) -> (r: Vec<char>)
    ensures
        r@ == v@ + Seq::<char>::empty(),
{
    assert(v@ + Seq::<char>::empty() =~= v@);
    v
}

/// The Adaptiva package download URL for its OSD page: `/index.php` becomes
/// `/download.php`.
pub fn adaptiva_zip_download_url(osd_url: &str) -> (r: String)
    ensures
        r@ == replace_all(osd_url@, "/index.php"@, "/download.php"@),
{
    let s = str_chars(osd_url);
    let pat = str_chars("/index.php");
    let rep = str_chars("/download.php");
    assert(pat@.len() > 0) by {
        reveal_strlit("/index.php");
    }
    string_from_chars(&replace_chars(&s, &pat, &rep))
}

/// The path segments `url` reports for a URL: `None` when it does not parse
/// or cannot be a base.
pub uninterp spec fn url_path_segments(url: Seq<char>) -> Option<Seq<Seq<char>>>;

/// Parses `url` with the `url` crate (`Url::parse`) and lists its path
/// segments (`Url::path_segments`), percent-encoded as the crate reports them.
#[verifier::external_body]
fn url_path_segments_call(url: &str) -> (r: Option<Vec<String>>)
    ensures
        match r {
            Some(v) => url_path_segments(url@) == Some(strs(v@)),
            None => url_path_segments(url@) is None,
        },
{
    match ::url::Url::parse(url) {
        Ok(u) => match u.path_segments() {
            Some(segments) => Some(segments.map(str::to_string).collect()),
            None => None,
        },
        Err(_) => None,
    }
}

/// The local file name for a download: the URL's last path segment, except
/// that `download.php` becomes `<parent segment>.zip`.
pub open spec fn download_file_name(segments: Option<Seq<Seq<char>>>) -> Option<Seq<char>> {
    match segments {
        None => None,
        Some(segs) => if segs.len() == 0 {
            None
        } else {
            let last = segs.last();
            if last == "download.php"@ && segs.len() >= 2 && segs[segs.len() - 2].len() > 0 {
                Some(segs[segs.len() - 2] + ".zip"@)
            } else if last.len() == 0 {
                None
            } else {
                Some(last)
            }
        },
    }
}

pub open spec fn opt_view(o: Option<String>) -> Option<Seq<char>> {
    match o {
        Some(s) => Some(s@),
        None => None,
    }
}

/// Chooses the download file name from the URL's path segments.
pub fn filename_from_segments(segments: Option<Vec<String>>) -> (r: Option<String>)
    ensures
        match segments {
            None => download_file_name(None) == opt_view(r),
            Some(v) => download_file_name(Some(strs(v@))) == opt_view(r),
        },
{
    let segs = match segments {
        Some(v) => v,
        None => {
            return None;
        },
    };
    let n = segs.len();
    if n == 0 {
        return None;
    }
    let last = &segs[n - 1];
    let download = to_string("download.php");
    if *last == download && n >= 2 && !segs[n - 2].as_str().is_empty() {
        let mut name = segs[n - 2].clone();
        name.append(".zip");
        return Some(name);
    }
    if last.as_str().is_empty() {
        None
    } else {
        Some(last.clone())
    }
}

/// Extracts the local file name for a download URL.
pub fn extract_filename_from_url(url: &str) -> (r: Option<String>)
    ensures
        download_file_name(url_path_segments(url@)) == opt_view(r),
{
    filename_from_segments(url_path_segments_call(url))
}

// ---------------------------------------------------------------------------
// Outcome texts
// ---------------------------------------------------------------------------

/// Reason texts for common msiexec / Windows Installer exit codes.
pub open spec fn msiexec_reason(code: i32) -> Seq<char> {
    if code == 1602 {
        "user cancelled the installation"@
    } else if code == 1603 {
        "fatal error during installation"@
    } else if code == 1605 {
        "product not currently installed (uninstall attempted)"@
    } else if code == 1618 {
        "another installation is already in progress"@
    } else if code == 1619 {
        "installation package not found or could not be opened"@
    } else if code == 1620 {
        "installation package invalid or corrupt"@
    } else if code == 1622 {
        "error opening installation log file"@
    } else if code == 1623 {
        "installation language not supported"@
    } else if code == 1625 {
        "installation forbidden by system policy — run as Administrator"@
    } else if code == 1638 {
        "another version of this product is already installed"@
    } else if code == 1639 {
        "invalid command-line argument to msiexec"@
    } else if code == 1641 {
        "installer initiated a restart (success)"@
    } else {
        "see https://learn.microsoft.com/en-us/windows/win32/msi/error-codes for details"@
    }
}

/// Translates common msiexec / Windows Installer exit codes into a short reason.
pub fn msiexec_exit_code_description(code: i32) -> (r: &'static str)
    ensures
        r@ == msiexec_reason(code),
{
    if code == 1602 {
        "user cancelled the installation"
    } else if code == 1603 {
        "fatal error during installation"
    } else if code == 1605 {
        "product not currently installed (uninstall attempted)"
    } else if code == 1618 {
        "another installation is already in progress"
    } else if code == 1619 {
        "installation package not found or could not be opened"
    } else if code == 1620 {
        "installation package invalid or corrupt"
    } else if code == 1622 {
        "error opening installation log file"
    } else if code == 1623 {
        "installation language not supported"
    } else if code == 1625 {
        "installation forbidden by system policy — run as Administrator"
    } else if code == 1638 {
        "another version of this product is already installed"
    } else if code == 1639 {
        "invalid command-line argument to msiexec"
    } else if code == 1641 {
        "installer initiated a restart (success)"
    } else {
        "see https://learn.microsoft.com/en-us/windows/win32/msi/error-codes for details"
    }
}

/// Decimal text of a signed integer.
pub open spec fn int_text(i: int) -> Seq<char> {
    if i < 0 {
        seq!['-'] + dec((-i) as nat)
    } else {
        dec(i as nat)
    }
}

pub fn int_chars(i: i64) -> (r: Vec<char>)
    ensures
        r@ == int_text(i as int),
{
    if i < 0 {
        let mag: u64 = (-(i as i128)) as u64;
        let mut r: Vec<char> = Vec::new();
        r.push('-');
        extend_chars(&mut r, &crate::text::dec_chars(mag));
        r
    } else {
        crate::text::dec_chars(i as u64)
    }
}

/// The exit code an installer run reports (`-1` when it has none).
pub open spec fn exit_code_or_default(code: Option<i32>) -> i32 {
    match code {
        Some(c) => c,
        None => -1i32,
    }
}

/// The outcome text of a finished installer: success, or exit code 3010
/// (success, reboot required), reports as installed; any other code as a
/// failure with its msiexec reason.
pub open spec fn install_outcome_text(success: bool, code: Option<i32>) -> Seq<char> {
    let c = exit_code_or_default(code);
    if success || c == 3010 {
        (if c == 3010 {
            "Installed - reboot required"@
        } else {
            "Installed"@
        }) + " (exit code: "@ + int_text(c as int) + ")"@
    } else {
        "Install failed (exit code: "@ + int_text(c as int) + " — "@ + msiexec_reason(c) + ")"@
    }
}

pub fn install_outcome(success: bool, code: Option<i32>) -> (r: String)
    ensures
        r@ == install_outcome_text(success, code),
{
    let c: i32 = match code {
        Some(c) => c,
        None => -1,
    };
    let mut out: Vec<char> = Vec::new();
    if success || c == 3010 {
        if c == 3010 {
            push_str(&mut out, "Installed - reboot required");
        } else {
            push_str(&mut out, "Installed");
        }
        push_str(&mut out, " (exit code: ");
        extend_chars(&mut out, &int_chars(c as i64));
        push_str(&mut out, ")");
    } else {
        push_str(&mut out, "Install failed (exit code: ");
        extend_chars(&mut out, &int_chars(c as i64));
        push_str(&mut out, " — ");
        push_str(&mut out, msiexec_exit_code_description(c));
        push_str(&mut out, ")");
    }
    string_from_chars(&out)
}

/// What a `taskkill /F /IM` run tells about the process.
#[derive(Debug, Clone, Copy, PartialEq, Eq, Structural)]
pub enum TaskkillOutcome {
    /// The process was running and was terminated.
    Killed,
    /// Exit code 128: no such process was running.
    NotRunning,
    /// Any other failure.
    Failed,
}

/// Classifies a finished `taskkill` run by its status.
pub fn classify_taskkill(success: bool, code: Option<i32>) -> (r: TaskkillOutcome)
    ensures
        success ==> r == TaskkillOutcome::Killed,
        !success && code == Some(128i32) ==> r == TaskkillOutcome::NotRunning,
        !success && code != Some(128i32) ==> r == TaskkillOutcome::Failed,
{
    if success {
        TaskkillOutcome::Killed
    } else {
        match code {
            Some(c) => if c == 128 {
                TaskkillOutcome::NotRunning
            } else {
                TaskkillOutcome::Failed
            },
            None => TaskkillOutcome::Failed,
        }
    }
}

// ---------------------------------------------------------------------------
// Download attempts
// ---------------------------------------------------------------------------

/// How many times an installer download is attempted.
pub const MAX_DOWNLOAD_ATTEMPTS: u32 = 10;

/// Seconds to wait before the next download attempt.
pub const DOWNLOAD_RETRY_DELAY_SECONDS: u64 = 10;

/// What one download attempt came back with.
#[derive(Debug, Clone, Copy, PartialEq, Eq, Structural)]
pub enum DownloadEvent {
    /// The server answered with this status and `Content-Length`.
    Response { status: u16, content_length: Option<u64> },
    /// The request, or reading or saving the body, failed.
    Failed,
}

/// What to do after a download attempt.
#[derive(Debug, Clone, Copy, PartialEq, Eq, Structural)]
pub enum DownloadAction {
    /// Save the response body as the installer.
    Save,
    /// Try again after the retry delay.
    Retry,
    /// Stop: every attempt failed.
    GiveUp,
}

/// A response worth saving: a 2xx status that does not announce an empty body.
pub open spec fn response_usable(event: DownloadEvent) -> bool {
    match event {
        DownloadEvent::Response { status, content_length } => 200 <= status <= 299
            && content_length != Some(0u64),
        DownloadEvent::Failed => false,
    }
}

/// Decides, after attempt number `attempt` (counted from 1), whether to save
/// the response, retry, or give up: a usable response is saved; anything else
/// is retried until the last attempt has failed.
pub fn download_step(attempt: u32, event: &DownloadEvent) -> (r: DownloadAction)
    requires
        1 <= attempt <= MAX_DOWNLOAD_ATTEMPTS,
    ensures
        response_usable(*event) ==> r == DownloadAction::Save,
        !response_usable(*event) && attempt < MAX_DOWNLOAD_ATTEMPTS ==> r == DownloadAction::Retry,
        !response_usable(*event) && attempt == MAX_DOWNLOAD_ATTEMPTS ==> r == DownloadAction::GiveUp,
{
    let usable = match event {
        DownloadEvent::Response { status, content_length } => 200 <= *status && *status <= 299
            && match content_length {
            Some(n) => *n != 0,
            None => true,
        },
        DownloadEvent::Failed => false,
    };
    if usable {
        DownloadAction::Save
    } else if attempt < MAX_DOWNLOAD_ATTEMPTS {
        DownloadAction::Retry
    } else {
        DownloadAction::GiveUp
    }
}

// ---------------------------------------------------------------------------
// Installer sequencing
// ---------------------------------------------------------------------------

/// An installer run counts as successful: it succeeded, or exited with 3010
/// (success, reboot required).
pub open spec fn run_succeeded(success: bool, code: Option<i32>) -> bool {
    success || code == Some(3010i32)
}

/// Whether the Adaptiva client setup runs after `preadaptiva.msi` finished
/// with this status: only when that first step succeeded.
pub fn adaptiva_next_step(pre_success: bool, pre_code: Option<i32>) -> (r: bool)
    ensures
        r == run_succeeded(pre_success, pre_code),
{
    pre_success || match pre_code {
        Some(c) => c == 3010,
        None => false,
    }
}

/// Seconds to wait before installing after trying to end `wsStart_4.exe`:
/// twenty when it was running and was terminated, none otherwise.
pub fn wait_after_webstart_kill(outcome: TaskkillOutcome) -> (r: u64)
    ensures
        outcome == TaskkillOutcome::Killed ==> r == 20,
        outcome != TaskkillOutcome::Killed ==> r == 0,
{
    match outcome {
        TaskkillOutcome::Killed => 20,
        _ => 0,
    }
}

/// A file name whose extension is `msi` in any case: it ends in `.msi` and
/// has something before that dot (`Path::extension`).
pub open spec fn is_msi_file_name(name: Seq<char>) -> bool {
    name.len() > 4 && crate::text::eq_ignore_case(name.skip(name.len() - 4), ".msi"@)
}

/// Whether an installer file is run through `msiexec.exe /i` (an `.msi`
/// package) rather than executed directly.
pub fn runs_through_msiexec(file_name: &str) -> (r: bool)
    ensures
        r == is_msi_file_name(file_name@),
{
    let cs = str_chars(file_name);
    if cs.len() <= 4 {
        return false;
    }
    let mut tail: Vec<char> = Vec::new();
    let mut i: usize = cs.len() - 4;
    while i < cs.len()
        invariant
            cs@ == file_name@,
            cs@.len() > 4,
            cs@.len() - 4 <= i <= cs@.len(),
            tail@ == cs@.subrange(cs@.len() - 4, i as int),
        decreases cs.len() - i,
    {
        tail.push(cs[i]);
        i += 1;
    }
    assert(tail@ == cs@.skip(cs@.len() - 4));
    let ext = str_chars(".msi");
    crate::text::chars_eq(&lower_chars(&tail), &lower_chars(&ext))
}

} // verus!
