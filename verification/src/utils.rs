//! Small helpers shared across the library: missing-value tokens, default
//! paths, filename tokens, capitalisation and timestamps.
use vstd::prelude::*;
use crate::text::{
    dec, dec_pad, is_ascii_upper, dec_pad_chars, eq_ignore_case, extend_chars, is_ascii_alnum, is_ascii_lower,
    lower, lower_chars, lower_seq, push_str, str_chars, str_eq_ignore_case, string_from_chars,
    strip_leading, strip_leading_exec, strip_trailing, strip_trailing_exec, trim, trim_chars,
};

verus! {

/// Compact not-found token used by cached version fields.
pub const NOT_FOUND_COMPACT: &'static str = "NotFound";

/// Human-readable not-found token used in tables and registry string reads.
pub const NOT_FOUND_DISPLAY: &'static str = "Not Found";

/// Empty (after trimming) or one of the not-found tokens, ignoring ASCII case.
pub open spec fn missing_value(v: Seq<char>) -> bool {
    let t = trim(v);
    t.len() == 0 || eq_ignore_case(t, "NotFound"@) || eq_ignore_case(t, "Not Found"@)
}

/// True for empty strings, `NotFound` or `Not Found`, case-insensitively.
pub fn is_missing_value(value: &str) -> (r: bool)
    ensures
        r == missing_value(value@),
{
    let t = trim_chars(&str_chars(value));
    if t.len() == 0 {
        return true;
    }
    let ts = crate::text::string_from_chars(&t);
    str_eq_ignore_case(ts.as_str(), "NotFound") || str_eq_ignore_case(ts.as_str(), "Not Found")
}

// ---------------------------------------------------------------------------
// Environment-derived settings
// ---------------------------------------------------------------------------

/// A raw environment value trimmed, unless it is missing or blank.
pub open spec fn non_empty_value(raw: Option<String>) -> Option<Seq<char>> {
    match raw {
        Some(v) => if trim(v@).len() > 0 {
            Some(trim(v@))
        } else {
            None
        },
        None => None,
    }
}

/// Trims an environment value read by the caller, dropping missing or blank
/// values.
pub fn non_empty_env_var(raw: Option<String>) -> (r: Option<String>)
    ensures
        match non_empty_value(raw) {
            Some(v) => r is Some && r->0@ == v,
            None => r is None,
        },
{
    match raw {
        Some(v) => {
            let t = trim_chars(&str_chars(v.as_str()));
            if t.len() > 0 {
                Some(string_from_chars(&t))
            } else {
                None
            }
        },
        None => None,
    }
}

/// A path setting: the non-blank (trimmed) environment value, or the default.
pub fn env_path_or_else(raw: Option<String>, default: String) -> (r: String)
    ensures
        match non_empty_value(raw) {
            Some(v) => r@ == v,
            None => r@ == default@,
        },
{
    match non_empty_env_var(raw) {
        Some(v) => v,
        None => default,
    }
}

// ---------------------------------------------------------------------------
// File-name tokens
// ---------------------------------------------------------------------------

/// Whether a character is alphabetic or numeric in the Unicode sense
/// (`char::is_alphanumeric`).
pub uninterp spec fn unicode_alphanumeric(c: char) -> bool;

/// `char::is_alphanumeric`; for ASCII characters it holds exactly of letters
/// and digits.
#[verifier::external_body]
pub(crate) fn char_is_alphanumeric(c: char) -> (r: bool)
    ensures
        r == unicode_alphanumeric(c),
        (c as u32) < 128 ==> (r <==> is_ascii_alnum(c)),
{
    c.is_alphanumeric()
}

/// Characters a file-name token keeps: letters and digits (`char::is_alphanumeric`,
/// which on ASCII holds exactly of letters and digits), dots and hyphens.
pub open spec fn kept_in_token(c: char) -> bool {
    if (c as u32) < 128 {
        is_ascii_alnum(c) || c == '.' || c == '-'
    } else {
        unicode_alphanumeric(c)
    }
}

/// Characters kept, every run of others replaced by one underscore.
pub open spec fn sanitize_upto(s: Seq<char>, k: int) -> Seq<char>
    decreases k,
{
    if k <= 0 || k > s.len() {
        seq![]
    } else {
        let p = sanitize_upto(s, k - 1);
        if kept_in_token(s[k - 1]) {
            p.push(s[k - 1])
        } else if k >= 2 && !kept_in_token(s[k - 2]) {
            p
        } else {
            p.push('_')
        }
    }
}

/// A check label as a Windows-safe, lowercase file-name token.
pub open spec fn safe_token(s: Seq<char>) -> Seq<char> {
    lower_seq(strip_trailing(strip_leading(sanitize_upto(s, s.len() as int), '_'), '_'))
}

/// Converts a check label into a Windows-safe filename token: letters,
/// digits, hyphens and dots are kept, any run of other characters becomes one
/// underscore, leading and trailing underscores are trimmed, and the result
/// is lowercased (ASCII).
pub fn safe_filename_token(name: &str) -> (r: String)
    ensures
        r@ == safe_token(name@),
{
    let cs = str_chars(name);
    let mut out: Vec<char> = Vec::new();
    let mut last_was_underscore = false;
    let mut i: usize = 0;
    while i < cs.len()
        invariant
            i <= cs.len(),
            cs@ == name@,
            out@ == sanitize_upto(cs@, i as int),
            last_was_underscore == (i >= 1 && !kept_in_token(cs@[i - 1])),
        decreases cs.len() - i,
    {
        let c = cs[i];
        if char_is_alphanumeric(c) || c == '.' || c == '-' {
            out.push(c);
            last_was_underscore = false;
        } else if !last_was_underscore {
            out.push('_');
            last_was_underscore = true;
        }
        i += 1;
    }
    let trimmed = strip_trailing_exec(&strip_leading_exec(&out, '_'), '_');
    string_from_chars(&lower_chars(&trimmed))
}

proof fn lemma_strip_leading_head(s: Seq<char>, c: char)
    ensures
        strip_leading(s, c).len() > 0 ==> strip_leading(s, c)[0] != c,
    decreases s.len(),
{
    if s.len() > 0 && s[0] == c {
        lemma_strip_leading_head(s.drop_first(), c);
    }
}

proof fn lemma_strip_trailing_prefix(s: Seq<char>, c: char)
    ensures
        strip_trailing(s, c).len() <= s.len(),
        strip_trailing(s, c) == s.take(strip_trailing(s, c).len() as int),
        strip_trailing(s, c).len() > 0 ==> strip_trailing(s, c).last() != c,
    decreases s.len(),
{
    if s.len() > 0 && s.last() == c {
        lemma_strip_trailing_prefix(s.drop_last(), c);
        let t = strip_trailing(s.drop_last(), c);
        assert(s.drop_last().take(t.len() as int) == s.take(t.len() as int));
    } else {
        assert(s.take(s.len() as int) == s);
    }
}

/// The shape of a file-name token: every character is kept or an underscore,
/// no two underscores are adjacent, none stands first or last, and no ASCII
/// capital letter occurs.
pub open spec fn token_shaped(t: Seq<char>) -> bool {
    &&& forall|i: int| 0 <= i < t.len() ==> #[trigger] t[i] == '_' || kept_in_token(t[i])
    &&& forall|i: int| 0 <= i < t.len() - 1 ==> !(#[trigger] t[i] == '_' && t[i + 1] == '_')
    &&& t.len() > 0 ==> t[0] != '_' && t.last() != '_'
    &&& forall|i: int| 0 <= i < t.len() ==> !is_ascii_upper(#[trigger] t[i])
}

/// Kept or underscore characters, no two underscores adjacent.
pub open spec fn underscore_runs_single(t: Seq<char>) -> bool {
    &&& forall|i: int| 0 <= i < t.len() ==> #[trigger] t[i] == '_' || kept_in_token(t[i])
    &&& forall|i: int| 0 <= i < t.len() - 1 ==> !(#[trigger] t[i] == '_' && t[i + 1] == '_')
}

proof fn lemma_sanitize(s: Seq<char>, k: int)
    requires
        0 <= k <= s.len(),
    ensures
        underscore_runs_single(sanitize_upto(s, k)),
        k == 0 ==> sanitize_upto(s, k).len() == 0,
        k >= 1 && kept_in_token(s[k - 1]) ==> sanitize_upto(s, k).len() > 0
            && sanitize_upto(s, k).last() == s[k - 1],
        k >= 1 && !kept_in_token(s[k - 1]) ==> sanitize_upto(s, k).len() > 0
            && sanitize_upto(s, k).last() == '_',
    decreases k,
{
    if k > 0 {
        lemma_sanitize(s, k - 1);
        let p = sanitize_upto(s, k - 1);
        let q = sanitize_upto(s, k);
        assert(!kept_in_token('_'));
        if kept_in_token(s[k - 1]) {
            assert(q == p.push(s[k - 1]));
        } else if k >= 2 && !kept_in_token(s[k - 2]) {
            assert(q == p);
        } else {
            assert(q == p.push('_'));
            assert forall|i: int| 0 <= i < q.len() - 1 implies !(#[trigger] q[i] == '_' && q[i
                + 1] == '_') by {
                if i < p.len() - 1 {
                    assert(q[i] == p[i] && q[i + 1] == p[i + 1]);
                } else {
                    assert(i == p.len() - 1);
                    assert(q[i] == p.last());
                }
            }
        }
    }
}

proof fn lemma_strip_leading_suffix(s: Seq<char>, c: char)
    ensures
        strip_leading(s, c).len() <= s.len(),
        strip_leading(s, c) == s.skip(s.len() - strip_leading(s, c).len()),
    decreases s.len(),
{
    if s.len() > 0 && s[0] == c {
        lemma_strip_leading_suffix(s.drop_first(), c);
        let t = strip_leading(s.drop_first(), c);
        assert(s.drop_first().skip(s.len() - 1 - t.len()) == s.skip(s.len() - t.len()));
    } else {
        assert(s.skip(0) == s);
    }
}

proof fn lemma_lower_char(c: char)
    ensures
        (lower(c) == '_') == (c == '_'),
        kept_in_token(c) ==> kept_in_token(lower(c)),
        !is_ascii_upper(lower(c)),
        !is_ascii_upper(c) ==> lower(c) == c,
{
}

proof fn lemma_sanitize_shaped(t: Seq<char>, k: int)
    requires
        token_shaped(t),
        0 <= k <= t.len(),
    ensures
        sanitize_upto(t, k) == t.take(k),
    decreases k,
{
    if k > 0 {
        lemma_sanitize_shaped(t, k - 1);
        assert(t.take(k) == t.take(k - 1).push(t[k - 1]));
        if !kept_in_token(t[k - 1]) {
            assert(t[k - 1] == '_');
            assert(k >= 2);
            assert(t[k - 2] != '_');
            assert(kept_in_token(t[k - 2]));
        }
    }
}

/// A file-name token keeps only letters, digits, dots, hyphens and single
/// underscores between them, holds no ASCII capital letter, and making a
/// token of a token changes nothing.
pub proof fn law_safe_token_shape(name: Seq<char>)
    ensures
        token_shaped(safe_token(name)),
        safe_token(safe_token(name)) == safe_token(name),
{
    let x = sanitize_upto(name, name.len() as int);
    let l = strip_leading(x, '_');
    let u = strip_trailing(l, '_');
    lemma_sanitize(name, name.len() as int);
    lemma_strip_leading_head(x, '_');
    lemma_strip_leading_suffix(x, '_');
    lemma_strip_trailing_prefix(l, '_');
    let t = safe_token(name);
    assert(t == lower_seq(u));
    let off = x.len() - l.len();
    assert forall|i: int| 0 <= i < u.len() implies u[i] == x[i + off] by {
        assert(u[i] == l[i]);
    }
    assert forall|i: int| 0 <= i < t.len() implies #[trigger] t[i] == '_' || kept_in_token(t[i]) by {
        lemma_lower_char(u[i]);
        assert(u[i] == x[i + off]);
    }
    assert forall|i: int| 0 <= i < t.len() - 1 implies !(#[trigger] t[i] == '_' && t[i + 1]
        == '_') by {
        lemma_lower_char(u[i]);
        lemma_lower_char(u[i + 1]);
        assert(u[i] == x[i + off] && u[i + 1] == x[i + 1 + off]);
    }
    assert forall|i: int| 0 <= i < t.len() implies !is_ascii_upper(#[trigger] t[i]) by {
        lemma_lower_char(u[i]);
    }
    if u.len() > 0 {
        assert(u[0] == l[0]);
        lemma_lower_char(u[0]);
        lemma_lower_char(u.last());
        assert(t[0] == lower(u[0]));
        assert(t.last() == lower(u.last()));
    }
    assert(token_shaped(t));
    lemma_sanitize_shaped(t, t.len() as int);
    assert(t.take(t.len() as int) == t);
    let x2 = sanitize_upto(t, t.len() as int);
    assert(strip_leading(x2, '_') == t);
    assert(strip_trailing(t, '_') == t);
    assert forall|i: int| 0 <= i < t.len() implies lower(t[i]) == t[i] by {
        lemma_lower_char(t[i]);
    }
    assert(lower_seq(t) =~= t);
}

/// The file-name token of a check label (same rules as `safe_filename_token`).
pub fn to_safe_filename(name: &str) -> (r: String)
    ensures
        r@ == safe_token(name@),
{
    safe_filename_token(name)
}

// ---------------------------------------------------------------------------
// Capitalisation
// ---------------------------------------------------------------------------

/// The characters `char::to_uppercase` yields for `c`.
pub uninterp spec fn char_uppercase(c: char) -> Seq<char>;

/// `char::to_uppercase`, collected; an ASCII lowercase letter becomes its
/// capital and any other ASCII character stays as it is.
#[verifier::external_body]
pub(crate) fn char_to_uppercase(c: char) -> (r: String)
    ensures
        r@ == char_uppercase(c),
        (c as u32) < 128 && is_ascii_lower(c) ==> r@ == seq![((c as u32) - 32) as char],
        (c as u32) < 128 && !is_ascii_lower(c) ==> r@ == seq![c],
{
    c.to_uppercase().collect()
}

pub open spec fn capitalized(s: Seq<char>) -> Seq<char> {
    if s.len() == 0 {
        seq![]
    } else {
        char_uppercase(s[0]) + s.drop_first()
    }
}

/// The text with its first character uppercased.
pub fn capitalize_first(value: &str) -> (r: String)
    ensures
        r@ == capitalized(value@),
{
    let cs = str_chars(value);
    if cs.len() == 0 {
        return String::new();
    }
    let mut out = str_chars(char_to_uppercase(cs[0]).as_str());
    let mut i: usize = 1;
    let ghost head = out@;
    while i < cs.len()
        invariant
            1 <= i <= cs.len(),
            cs@ == value@,
            out@ == head + cs@.subrange(1, i as int),
        decreases cs.len() - i,
    {
        out.push(cs[i]);
        i += 1;
        assert(out@ == head + cs@.subrange(1, i as int));
    }
    assert(cs@.subrange(1, cs@.len() as int) == cs@.drop_first());
    string_from_chars(&out)
}

// ---------------------------------------------------------------------------
// Timestamps
// ---------------------------------------------------------------------------

/// A year as chrono's `%Y` writes it: four digits, zero-padded, for years
/// 0 to 9999; otherwise a sign followed by at least four digits.
pub open spec fn year_text(y: int) -> Seq<char> {
    if 0 <= y <= 9999 {
        dec_pad(y as nat, 4)
    } else if y < 0 {
        seq!['-'] + dec_pad((-y) as nat, 4)
    } else {
        seq!['+'] + dec_pad(y as nat, 4)
    }
}

/// `YYYY-MM-DD--H-MM-am|pm` with a 12-hour clock (midnight and noon are 12).
pub open spec fn timestamp_text(year: int, month: nat, day: nat, hour: nat, minute: nat) -> Seq<
    char,
> {
    let hour_12: nat = if hour % 12 == 0 {
        12
    } else {
        hour % 12
    };
    year_text(year) + seq!['-'] + dec_pad(month, 2) + seq!['-'] + dec_pad(day, 2) + "--"@ + dec(
        hour_12,
    ) + seq!['-'] + dec_pad(minute, 2) + seq!['-'] + if hour < 12 {
        "am"@
    } else {
        "pm"@
    }
}

/// Formats a local date and time for log file names and the last-run marker.
pub fn build_timestamp(year: i32, month: u32, day: u32, hour: u32, minute: u32) -> (r: String)
    requires
        1 <= month <= 12,
        1 <= day <= 31,
        hour < 24,
        minute < 60,
    ensures
        r@ == timestamp_text(year as int, month as nat, day as nat, hour as nat, minute as nat),
{
    let mut out: Vec<char> = Vec::new();
    if 0 <= year && year <= 9999 {
        out = dec_pad_chars(year as u64, 4);
    } else if year < 0 {
        out.push('-');
        extend_chars(&mut out, &dec_pad_chars((-(year as i64)) as u64, 4));
    } else {
        out.push('+');
        extend_chars(&mut out, &dec_pad_chars(year as u64, 4));
    }
    out.push('-');
    extend_chars(&mut out, &dec_pad_chars(month as u64, 2));
    out.push('-');
    extend_chars(&mut out, &dec_pad_chars(day as u64, 2));
    push_str(&mut out, "--");
    let hour_12: u32 = if hour % 12 == 0 {
        12
    } else {
        hour % 12
    };
    extend_chars(&mut out, &crate::text::dec_chars(hour_12 as u64));
    out.push('-');
    extend_chars(&mut out, &dec_pad_chars(minute as u64, 2));
    out.push('-');
    if hour < 12 {
        push_str(&mut out, "am");
    } else {
        push_str(&mut out, "pm");
    }
    string_from_chars(&out)
}

} // verus!
