//! Chat server binary download: URL, failure marker, and retry decision.
//!
//! The download itself, the decompression and the file operations are done by the
//! caller. A failed download leaves a marker file `<binary>.download-failed` holding
//! the failure time (seconds since the epoch) on its first line and the error on its
//! second; while the marker is younger than 24 hours, no new download is tried.
use crate::text::{
    chars_of, dec, find_from, find_seq, lemma_find_from_seq_unique, lemma_occurs_skip, occurs_at,
    push_dec,
    string_of_range,
};
use vstd::prelude::*;
use vstd::string::*;

verus! {

/// Pinned release version of the chat server binary.
pub const TUWUNEL_VERSION: &'static str = "v1.5.1";

/// How long a download failure is remembered, in seconds (24 hours).
pub const DOWNLOAD_RETRY_SECS: u64 = 86400;

/// The architecture slug used in release file names, for a supported CPU architecture.
pub open spec fn arch_slug(arch: Seq<char>) -> Option<Seq<char>> {
    if arch == "x86_64"@ {
        Some("x86_64-v2"@)
    } else if arch == "aarch64"@ {
        Some("aarch64"@)
    } else {
        None
    }
}

/// The release URL for a version and architecture slug (statically linked GNU build,
/// zstd-compressed).
pub open spec fn release_url(version: Seq<char>, slug: Seq<char>) -> Seq<char> {
    "https://github.com/matrix-construct/tuwunel/releases/download/"@ + version + "/"@ + version
        + "-release-all-"@ + slug + "-linux-gnu-tuwunel.zst"@
}

/// Build the download URL for a CPU architecture (`std::env::consts::ARCH`).
pub fn build_download_url(arch: &str) -> (r: Result<String, String>)
    ensures
        match arch_slug(arch@) {
            Some(slug) => r matches Ok(u) && u@ == release_url(TUWUNEL_VERSION@, slug),
            None => r matches Err(e) && e@ == "Unsupported architecture for Tuwunel: "@ + arch@,
        },
{
    let a = chars_of(arch);
    let slug = if crate::text::chars_eq_str(&a, "x86_64") {
        "x86_64-v2"
    } else if crate::text::chars_eq_str(&a, "aarch64") {
        "aarch64"
    } else {
        let mut e = String::from_str("Unsupported architecture for Tuwunel: ");
        e.append(arch);
        return Err(e);
    };
    let version = TUWUNEL_VERSION;
    let mut u = String::from_str("https://github.com/matrix-construct/tuwunel/releases/download/");
    u.append(version);
    u.append("/");
    u.append(version);
    u.append("-release-all-");
    u.append(slug);
    u.append("-linux-gnu-tuwunel.zst");
    Ok(u)
}

/// Marker file path for a failed download: `<binary_path>.download-failed`.
pub fn download_failure_marker(bin_path: &str) -> (r: String)
    ensures
        r@ == bin_path@ + ".download-failed"@,
{
    let mut m = String::from_str(bin_path);
    m.append(".download-failed");
    m
}

/// Content of the failure marker: the failure time and the error, one per line.
pub fn failure_marker_content(ts_secs: u64, error: &str) -> (r: String)
    ensures
        r@ == dec(ts_secs as nat) + "\n"@ + error@ + "\n"@,
{
    let mut s = String::new();
    push_dec(&mut s, ts_secs);
    s.append("\n");
    s.append(error);
    s.append("\n");
    assert(s@ =~= dec(ts_secs as nat) + "\n"@ + error@ + "\n"@);
    s
}

// =============================================================================
// Reading the marker
// =============================================================================

/// The first line of `s` and what follows it (`str::lines`): the line ends at the first
/// newline, which is dropped with a `\r` just before it; the last line may lack a newline.
/// An empty text has no line.
pub open spec fn first_line(s: Seq<char>) -> Option<(Seq<char>, Seq<char>)> {
    if s.len() == 0 {
        None
    } else {
        match find_seq(s, seq!['\n']) {
            Some(p) => {
                let l = s.take(p);
                let line = if l.len() > 0 && l.last() == '\r' {
                    l.drop_last()
                } else {
                    l
                };
                Some((line, s.skip(p + 1)))
            },
            None => Some((s, Seq::empty())),
        }
    }
}

/// ASCII decimal digit.
pub open spec fn is_digit(c: char) -> bool {
    '0' <= c && c <= '9'
}

/// Value of a string of decimal digits.
pub open spec fn digits_value(s: Seq<char>) -> nat
    decreases s.len(),
{
    if s.len() == 0 {
        0
    } else {
        digits_value(s.drop_last()) * 10 + ((s.last() as u32) - ('0' as u32)) as nat
    }
}

/// One or more decimal digits with a value that fits in `u64`.
pub open spec fn parse_digits(d: Seq<char>) -> Option<u64> {
    if d.len() > 0 && (forall|i: int| 0 <= i < d.len() ==> is_digit(#[trigger] d[i])) && digits_value(d)
        <= u64::MAX {
        Some(digits_value(d) as u64)
    } else {
        None
    }
}

/// `u64::from_str`: an optional `+`, then one or more decimal digits, with a value that fits.
pub open spec fn parse_u64(s: Seq<char>) -> Option<u64> {
    if s.len() > 0 && s[0] == '+' {
        parse_digits(s.drop_first())
    } else {
        parse_digits(s)
    }
}

/// The failure time recorded in a marker: its first line as an integer.
pub open spec fn marker_timestamp(content: Seq<char>) -> Option<u64> {
    match first_line(content) {
        Some((line, _)) => parse_u64(line),
        None => None,
    }
}

/// The reason recorded in a marker: its second line, or a default.
pub open spec fn marker_reason(content: Seq<char>) -> Seq<char> {
    match first_line(content) {
        Some((_, rest)) => match first_line(rest) {
            Some((line, _)) => line,
            None => "download previously failed"@,
        },
        None => "download previously failed"@,
    }
}

/// The message for a failure of the given age (`age_secs` seconds and `age_nanos`
/// nanoseconds), while it is younger than 24 hours; nothing once it is stale.
pub open spec fn failure_message(content: Seq<char>, age_secs: u64, age_nanos: u32) -> Option<Seq<char>> {
    if age_secs < 86400 {
        let left: int = if age_nanos > 0 {
            86400 - age_secs - 1
        } else {
            86400 - age_secs
        };
        Some(
            "Download skipped (cached failure, retry in ~"@ + dec((left / 3600) as nat) + "h): "@
                + marker_reason(content),
        )
    } else {
        None
    }
}

/// The first line of `v[from..]`, as `(start, end, next)`: the line is `v[start..end]` and
/// the rest starts at `next`.
pub(crate) fn first_line_exec(v: &Vec<char>, from: usize) -> (r: Option<(usize, usize, usize)>)
    requires
        from <= v@.len(),
    ensures
        match first_line(v@.skip(from as int)) {
            Some((line, rest)) => r matches Some((a, b, n)) && from <= a <= b <= n <= v@.len()
                && v@.subrange(a as int, b as int) == line && v@.skip(n as int) == rest,
            None => r is None,
        },
{
    let n = v.len();
    if from == n {
        return None;
    }
    let nl = vec!['\n'];
    assert(nl@ =~= seq!['\n']);
    let ghost s = v@.skip(from as int);
    match find_from(v, &nl, from) {
        Some(p) => {
            proof {
                assert forall|j: int| 0 <= j < p - from implies !occurs_at(s, seq!['\n'], j) by {
                    lemma_occurs_skip(v@, seq!['\n'], from as int, j);
                }
                lemma_occurs_skip(v@, seq!['\n'], from as int, p - from);
                lemma_find_from_seq_unique(s, seq!['\n'], 0, Some(p - from));
                assert(s.skip(p - from + 1) =~= v@.skip(p + 1));
                assert(s.take(p - from) =~= v@.subrange(from as int, p as int));
            }
            let end = if p > from && v[p - 1] == '\r' {
                p - 1
            } else {
                p
            };
            proof {
                let l = s.take(p - from);
                if p > from && v@[p - 1] == '\r' {
                    assert(l.drop_last() =~= v@.subrange(from as int, p - 1));
                }
            }
            Some((from, end, p + 1))
        },
        None => {
            proof {
                assert forall|j: int| 0 <= j implies !occurs_at(s, seq!['\n'], j) by {
                    lemma_occurs_skip(v@, seq!['\n'], from as int, j);
                }
                lemma_find_from_seq_unique(s, seq!['\n'], 0, None);
                assert(v@.subrange(from as int, n as int) =~= s);
                assert(v@.skip(n as int) =~= Seq::<char>::empty());
            }
            Some((from, n, n))
        },
    }
}

proof fn lemma_digits_value_grows(s: Seq<char>, i: int)
    requires
        0 <= i <= s.len(),
        forall|k: int| 0 <= k < s.len() ==> is_digit(#[trigger] s[k]),
    ensures
        digits_value(s.take(i)) <= digits_value(s),
    decreases s.len() - i,
{
    if i < s.len() {
        lemma_digits_value_grows(s, i + 1);
        assert(s.take(i + 1).drop_last() =~= s.take(i));
    } else {
        assert(s.take(i) =~= s);
    }
}

/// `u64::from_str` on `v[a..b]`.
pub(crate) fn parse_u64_range(v: &Vec<char>, a: usize, b: usize) -> (r: Option<u64>)
    requires
        a <= b <= v@.len(),
    ensures
        r == parse_u64(v@.subrange(a as int, b as int)),
{
    let ghost s = v@.subrange(a as int, b as int);
    let mut i = a;
    if i < b && v[i] == '+' {
        i = i + 1;
    }
    let ghost d = v@.subrange(i as int, b as int);
    proof {
        if s.len() > 0 && s[0] == '+' {
            assert(s.drop_first() =~= d);
        } else {
            assert(s =~= d);
        }
    }
    assert(parse_u64(s) == parse_digits(d));
    if i == b {
        return None;
    }
    let start = i;
    let mut value: u64 = 0;
    while i < b
        invariant
            a <= start <= i <= b <= v@.len(),
            d == v@.subrange(start as int, b as int),
            s == v@.subrange(a as int, b as int),
            parse_u64(s) == parse_digits(d),
            forall|k: int| start <= k < i ==> is_digit(#[trigger] v@[k]),
            value == digits_value(v@.subrange(start as int, i as int)),
        decreases b - i,
    {
        let c = v[i];
        if !('0' <= c && c <= '9') {
            proof {
                assert(d[i - start] == c);
            }
            return None;
        }
        let digit = (c as u32 - '0' as u32) as u64;
        proof {
            assert(v@.subrange(start as int, i + 1).drop_last() =~= v@.subrange(start as int, i as int));
        }
        let ghost full = digits_value(v@.subrange(start as int, i + 1));
        match value.checked_mul(10) {
            Some(m) => match m.checked_add(digit) {
                Some(nv) => {
                    value = nv;
                },
                None => {
                    proof {
                        lemma_prefix_overflow(v@, start as int, i as int, b as int);
                    }
                    return None;
                },
            },
            None => {
                proof {
                    lemma_prefix_overflow(v@, start as int, i as int, b as int);
                }
                return None;
            },
        }
        i = i + 1;
    }
    assert(v@.subrange(start as int, i as int) =~= d);
    Some(value)
}

/// When digits so far, then one more, already exceed `u64::MAX`, either a later character
/// is not a digit or the whole value exceeds `u64::MAX`.
proof fn lemma_prefix_overflow(v: Seq<char>, start: int, i: int, b: int)
    requires
        0 <= start <= i < b <= v.len(),
        forall|k: int| start <= k <= i ==> is_digit(#[trigger] v[k]),
        digits_value(v.subrange(start, i + 1)) > u64::MAX,
    ensures
        !(forall|k: int| 0 <= k < b - start ==> is_digit(#[trigger] v.subrange(start, b)[k]))
            || digits_value(v.subrange(start, b)) > u64::MAX,
{
    let d = v.subrange(start, b);
    if forall|k: int| 0 <= k < d.len() ==> is_digit(#[trigger] d[k]) {
        lemma_digits_value_grows(d, i + 1 - start);
        assert(d.take(i + 1 - start) =~= v.subrange(start, i + 1));
    }
}

/// The failure time in a marker's content, if its first line is an integer.
pub fn marker_failure_time(content: &str) -> (r: Option<u64>)
    ensures
        r == marker_timestamp(content@),
{
    let v = chars_of(content);
    assert(v@.skip(0) =~= content@);
    match first_line_exec(&v, 0) {
        Some((a, b, _)) => parse_u64_range(&v, a, b),
        None => None,
    }
}

/// Check a recorded download failure of the given age.
///
/// Returns the message to report while the failure is younger than 24 hours (the
/// download is then skipped), or `None` when it is stale (the marker is then removed and
/// the download tried again).
pub fn is_download_recently_failed(content: &str, age_secs: u64, age_nanos: u32) -> (r: Option<String>)
    ensures
        match failure_message(content@, age_secs, age_nanos) {
            Some(m) => r matches Some(s) && s@ == m,
            None => r is None,
        },
{
    if age_secs >= DOWNLOAD_RETRY_SECS {
        return None;
    }
    let v = chars_of(content);
    assert(v@.skip(0) =~= content@);
    let mut reason = String::from_str("download previously failed");
    match first_line_exec(&v, 0) {
        Some((_, _, next)) => {
            match first_line_exec(&v, next) {
                Some((a, b, _)) => {
                    reason = string_of_range(&v, a, b);
                },
                None => {},
            }
        },
        None => {},
    }
    let left = if age_nanos > 0 {
        DOWNLOAD_RETRY_SECS - age_secs - 1
    } else {
        DOWNLOAD_RETRY_SECS - age_secs
    };
    let mut s = String::from_str("Download skipped (cached failure, retry in ~");
    push_dec(&mut s, left / 3600);
    s.append("h): ");
    s.append(reason.as_str());
    Some(s)
}

// =============================================================================
// Installing the binary
// =============================================================================

/// How running the decompressor went.
pub enum ZstdRun {
    /// The `zstd` command is not installed.
    NotFound,
    /// The command could not be started, for another reason (its description).
    SpawnFailed(String),
    /// The command ran; its exit code, when it exited with one.
    Exited { success: bool, code: Option<i32> },
}

/// An integer in decimal, with a minus sign when negative.
pub open spec fn signed_dec(i: int) -> Seq<char> {
    if i < 0 {
        "-"@ + dec((-i) as nat)
    } else {
        dec(i as nat)
    }
}

/// The outcome of a decompression run.
pub open spec fn zstd_outcome(run: ZstdRun) -> Result<(), Seq<char>> {
    match run {
        ZstdRun::NotFound => Err("zstd command not found. Install it: sudo apt install zstd (or equivalent)"@),
        ZstdRun::SpawnFailed(e) => Err("Failed to run zstd: "@ + e@),
        ZstdRun::Exited { success, code } => if success {
            Ok(())
        } else {
            Err(
                "zstd decompression failed (exit code: "@ + signed_dec(
                    match code {
                        Some(c) => c as int,
                        None => -1,
                    },
                ) + ")"@,
            )
        },
    }
}

fn push_signed(out: &mut String, i: i32)
    ensures
        final(out)@ == old(out)@ + signed_dec(i as int),
{
    if i < 0 {
        out.append("-");
        let m: u64 = if i == i32::MIN {
            2147483648
        } else {
            (-i) as u64
        };
        push_dec(out, m);
    } else {
        push_dec(out, i as u64);
    }
    assert(out@ =~= old(out)@ + signed_dec(i as int));
}

/// The result of decompressing the downloaded archive with the system `zstd` command.
pub fn zstd_result(run: ZstdRun) -> (r: Result<(), String>)
    ensures
        match zstd_outcome(run) {
            Ok(()) => r is Ok,
            Err(m) => r matches Err(e) && e@ == m,
        },
{
    match run {
        ZstdRun::NotFound => Err(
            String::from_str("zstd command not found. Install it: sudo apt install zstd (or equivalent)"),
        ),
        ZstdRun::SpawnFailed(e) => {
            let mut m = String::from_str("Failed to run zstd: ");
            m.append(e.as_str());
            Err(m)
        },
        ZstdRun::Exited { success, code } => {
            if success {
                Ok(())
            } else {
                let c: i32 = match code {
                    Some(c) => c,
                    None => -1,
                };
                let mut m = String::from_str("zstd decompression failed (exit code: ");
                push_signed(&mut m, c);
                m.append(")");
                Err(m)
            }
        },
    }
}

/// What the installer learned from the step it just took.
pub enum InstallEvent {
    /// Where the binary goes was determined (`None`: no home directory); whether it exists.
    Located(Option<bool>),
    /// The failure marker was read: the message of a recent failure, if any.
    MarkerChecked(Option<String>),
    /// The binary's path has no parent directory.
    NoParentDir,
    /// The binary's directory was created, or not (the directory and the error).
    DirCreated(Result<(), (String, String)>),
    /// The archive was downloaded, or not (the error).
    Downloaded(Result<(), String>),
    /// The archive was decompressed, or not (the error).
    Decompressed(Result<(), String>),
    /// The archive was removed and the binary made executable, or not (the error).
    Finalized(Result<(), String>),
}

/// What the installer does next.
pub enum InstallAction {
    /// Read the failure marker.
    CheckMarker,
    /// Create the binary's directory.
    CreateDir,
    /// Download the archive from this URL.
    Download(String),
    /// Record the failure in the marker, then fail with this error.
    RecordFailure(String),
    /// Decompress the archive.
    Decompress,
    /// Remove the archive and make the binary executable.
    Finalize,
    /// Remove the failure marker and succeed.
    ClearMarker,
    /// Stop with this result.
    Finish(Result<(), String>),
}

/// The action is to stop with an error carrying `msg`.
pub open spec fn fails_with(a: InstallAction, msg: Seq<char>) -> bool {
    a matches InstallAction::Finish(Err(e)) && e@ == msg
}

/// `a` is the installer's next action after event `ev`, on CPU architecture `arch`.
pub open spec fn install_next(arch: Seq<char>, ev: InstallEvent, a: InstallAction) -> bool {
    match ev {
        InstallEvent::Located(None) => fails_with(a, "Cannot determine home directory for Tuwunel binary"@),
        InstallEvent::Located(Some(exists)) => if exists {
            a matches InstallAction::Finish(Ok(()))
        } else {
            a is CheckMarker
        },
        InstallEvent::MarkerChecked(Some(reason)) => fails_with(a, reason@),
        InstallEvent::MarkerChecked(None) => a is CreateDir,
        InstallEvent::NoParentDir => fails_with(a, "Invalid binary path"@),
        InstallEvent::DirCreated(Err((dir, e))) => fails_with(a, "Cannot create "@ + dir@ + ": "@ + e@),
        InstallEvent::DirCreated(Ok(())) => match arch_slug(arch) {
            Some(slug) => a matches InstallAction::Download(u) && u@ == release_url(TUWUNEL_VERSION@, slug),
            None => fails_with(a, "Unsupported architecture for Tuwunel: "@ + arch),
        },
        InstallEvent::Downloaded(Err(e)) => a matches InstallAction::RecordFailure(m) && m@ == e@,
        InstallEvent::Downloaded(Ok(())) => a is Decompress,
        InstallEvent::Decompressed(Err(e)) => fails_with(a, e@),
        InstallEvent::Decompressed(Ok(())) => a is Finalize,
        InstallEvent::Finalized(Err(e)) => fails_with(a, "Cannot set executable permission: "@ + e@),
        InstallEvent::Finalized(Ok(())) => a is ClearMarker,
    }
}

/// Ensure the chat server binary is installed, one step at a time: from what the last step
/// found, the next step. An existing binary is kept; a failure recorded less than a day
/// ago is reported without downloading; a failed download is recorded before failing;
/// after decompressing, the archive is removed, the binary made executable and the
/// failure marker removed.
pub fn ensure_binary_step(arch: &str, ev: InstallEvent) -> (r: InstallAction)
    ensures
        install_next(arch@, ev, r),
{
    match ev {
        InstallEvent::Located(None) => InstallAction::Finish(
            Err(String::from_str("Cannot determine home directory for Tuwunel binary")),
        ),
        InstallEvent::Located(Some(exists)) => {
            if exists {
                InstallAction::Finish(Ok(()))
            } else {
                InstallAction::CheckMarker
            }
        },
        InstallEvent::MarkerChecked(Some(reason)) => InstallAction::Finish(Err(reason)),
        InstallEvent::MarkerChecked(None) => InstallAction::CreateDir,
        InstallEvent::NoParentDir => InstallAction::Finish(Err(String::from_str("Invalid binary path"))),
        InstallEvent::DirCreated(Err((dir, e))) => {
            let mut m = String::from_str("Cannot create ");
            m.append(dir.as_str());
            m.append(": ");
            m.append(e.as_str());
            InstallAction::Finish(Err(m))
        },
        InstallEvent::DirCreated(Ok(())) => match build_download_url(arch) {
            Ok(u) => InstallAction::Download(u),
            Err(e) => InstallAction::Finish(Err(e)),
        },
        InstallEvent::Downloaded(Err(e)) => InstallAction::RecordFailure(e),
        InstallEvent::Downloaded(Ok(())) => InstallAction::Decompress,
        InstallEvent::Decompressed(Err(e)) => InstallAction::Finish(Err(e)),
        InstallEvent::Decompressed(Ok(())) => InstallAction::Finalize,
        InstallEvent::Finalized(Err(e)) => {
            let mut m = String::from_str("Cannot set executable permission: ");
            m.append(e.as_str());
            InstallAction::Finish(Err(m))
        },
        InstallEvent::Finalized(Ok(())) => InstallAction::ClearMarker,
    }
}

// =============================================================================
// Writing and reading the marker
// =============================================================================

/// A decimal digit's value.
proof fn lemma_digit_value(d: nat)
    requires
        d < 10,
    ensures
        is_digit(crate::text::digit_char(d)),
        (crate::text::digit_char(d) as u32) - ('0' as u32) == d,
{
    assert(crate::text::digit_char(d) as u32 == 48 + d);
}

/// The decimal form of `n` is a non-empty run of digits whose value is `n`.
pub proof fn lemma_dec_parses(n: nat)
    ensures
        dec(n).len() > 0,
        forall|i: int| 0 <= i < dec(n).len() ==> is_digit(#[trigger] dec(n)[i]),
        digits_value(dec(n)) == n,
    decreases n,
{
    lemma_digit_value(n % 10);
    if n < 10 {
        assert(dec(n).drop_last() =~= Seq::<char>::empty());
        assert(dec(n).last() == crate::text::digit_char(n));
        lemma_digit_value(n);
        assert(digits_value(dec(n).drop_last()) == 0);
    } else {
        lemma_dec_parses(n / 10);
        let d = dec(n / 10);
        assert(dec(n) == d.push(crate::text::digit_char(n % 10)));
        assert(dec(n).drop_last() =~= d);
        assert(dec(n).last() == crate::text::digit_char(n % 10));
        assert(digits_value(dec(n)) == digits_value(d) * 10 + (n % 10));
        assert((n / 10) * 10 + n % 10 == n) by (nonlinear_arith);
        assert forall|i: int| 0 <= i < dec(n).len() implies is_digit(#[trigger] dec(n)[i]) by {
            if i < d.len() {
                assert(dec(n)[i] == d[i]);
            }
        }
    }
}

/// The first line of `line + "\n" + rest`, for a line without a newline.
proof fn lemma_first_line_of(line: Seq<char>, rest: Seq<char>)
    requires
        !line.contains('\n'),
    ensures
        first_line(line + seq!['\n'] + rest) == Some((
            if line.len() > 0 && line.last() == '\r' {
                line.drop_last()
            } else {
                line
            },
            rest,
        )),
{
    let s = line + seq!['\n'] + rest;
    let p = line.len() as int;
    assert(occurs_at(s, seq!['\n'], p)) by {
        assert(s.subrange(p, p + 1) =~= seq!['\n']);
    }
    assert forall|j: int| 0 <= j < p implies !occurs_at(s, seq!['\n'], j) by {
        if occurs_at(s, seq!['\n'], j) {
            assert(s.subrange(j, j + 1)[0] == s[j]);
            assert(s[j] == line[j]);
        }
    }
    lemma_find_from_seq_unique(s, seq!['\n'], 0, Some(p));
    assert(s.take(p) =~= line);
    assert(s.skip(p + 1) =~= rest);
}

/// Law: a failure marker reads back what was written: its time, and the error (for an
/// error on one line, not ending in a carriage return).
pub proof fn law_marker_round_trip(ts: u64, error: Seq<char>)
    requires
        !error.contains('\n'),
        !(error.len() > 0 && error.last() == '\r'),
    ensures
        marker_timestamp(dec(ts as nat) + "\n"@ + error + "\n"@) == Some(ts),
        marker_reason(dec(ts as nat) + "\n"@ + error + "\n"@) == error,
{
    reveal_strlit("\n");
    let d = dec(ts as nat);
    lemma_dec_parses(ts as nat);
    let c = d + "\n"@ + error + "\n"@;
    assert(c =~= d + seq!['\n'] + (error + seq!['\n']));
    assert(!d.contains('\n')) by {
        if d.contains('\n') {
            let k = choose|k: int| 0 <= k < d.len() && d[k] == '\n';
            assert(is_digit(d[k]));
        }
    }
    assert(is_digit(d.last()));
    lemma_first_line_of(d, error + seq!['\n']);
    lemma_first_line_of(error, Seq::empty());
    assert(error + seq!['\n'] + Seq::<char>::empty() =~= error + seq!['\n']);
    assert(is_digit(d[0]));
    assert(parse_u64(d) == parse_digits(d));
}

} // verus!
