//! The durable record of one run.
//!
//! A manifest is written once, at the end of a run, whatever the
//! outcome; the ghost views below are what the JSON codec's contracts
//! and the round-trip proof speak about.

use vstd::prelude::*;

use crate::text::chars_to_string;
use crate::text::digit_char;
use crate::text::push_str_chars;

verus! {

/// One executed (or skipped) step, as recorded.
#[derive(Debug, Clone)]
pub struct ManifestStepV1 {
    pub name: String,
    pub argv: Vec<String>,
    pub duration_ms: Option<u64>,
    pub exit_code: Option<i32>,
    pub stdout_path: Option<String>,
    pub stderr_path: Option<String>,
}

/// The final outcome of a run.
#[derive(Debug, Clone)]
pub struct ManifestResultV1 {
    pub ok: bool,
    pub exit_code: i32,
    pub error: Option<String>,
}

/// The whole record of one run.
#[derive(Debug, Clone)]
pub struct ManifestV1 {
    pub schema: String,
    pub podci_version: String,
    pub timestamp_utc: String,
    pub project: String,
    pub job: String,
    pub profile: String,
    pub namespace: String,
    pub env_id: String,
    pub base_image_digest: Option<String>,
    pub base_image_digest_status: Option<String>,
    pub steps: Vec<ManifestStepV1>,
    pub result: ManifestResultV1,
}

/// Ghost view of a step record.
pub struct StepView {
    pub name: Seq<char>,
    pub argv: Seq<Seq<char>>,
    pub duration_ms: Option<int>,
    pub exit_code: Option<int>,
    pub stdout_path: Option<Seq<char>>,
    pub stderr_path: Option<Seq<char>>,
}

/// Ghost view of a run result.
pub struct ResultView {
    pub ok: bool,
    pub exit_code: int,
    pub error: Option<Seq<char>>,
}

/// Ghost view of a manifest.
pub struct ManifestView {
    pub schema: Seq<char>,
    pub podci_version: Seq<char>,
    pub timestamp_utc: Seq<char>,
    pub project: Seq<char>,
    pub job: Seq<char>,
    pub profile: Seq<char>,
    pub namespace: Seq<char>,
    pub env_id: Seq<char>,
    pub base_image_digest: Option<Seq<char>>,
    pub base_image_digest_status: Option<Seq<char>>,
    pub steps: Seq<StepView>,
    pub result: ResultView,
}

/// View of an optional string as an optional character sequence.
pub open spec fn opt_view(o: Option<String>) -> Option<Seq<char>> {
    match o {
        Some(s) => Some(s@),
        None => None,
    }
}

impl View for ManifestStepV1 {
    type V = StepView;

    open spec fn view(&self) -> StepView {
        StepView {
            name: self.name@,
            argv: self.argv.deep_view(),
            duration_ms: match self.duration_ms {
                Some(d) => Some(d as int),
                None => None,
            },
            exit_code: match self.exit_code {
                Some(c) => Some(c as int),
                None => None,
            },
            stdout_path: opt_view(self.stdout_path),
            stderr_path: opt_view(self.stderr_path),
        }
    }
}

impl DeepView for ManifestStepV1 {
    type V = StepView;

    open spec fn deep_view(&self) -> StepView {
        self.view()
    }
}

impl View for ManifestResultV1 {
    type V = ResultView;

    open spec fn view(&self) -> ResultView {
        ResultView { ok: self.ok, exit_code: self.exit_code as int, error: opt_view(self.error) }
    }
}

impl View for ManifestV1 {
    type V = ManifestView;

    open spec fn view(&self) -> ManifestView {
        ManifestView {
            schema: self.schema@,
            podci_version: self.podci_version@,
            timestamp_utc: self.timestamp_utc@,
            project: self.project@,
            job: self.job@,
            profile: self.profile@,
            namespace: self.namespace@,
            env_id: self.env_id@,
            base_image_digest: opt_view(self.base_image_digest),
            base_image_digest_status: opt_view(self.base_image_digest_status),
            steps: self.steps.deep_view(),
            result: self.result@,
        }
    }
}

impl StepView {
    /// Numbers a step record can actually hold.
    pub open spec fn wf(&self) -> bool {
        &&& (self.duration_ms matches Some(d) ==> 0 <= d <= u64::MAX)
        &&& (self.exit_code matches Some(c) ==> i32::MIN <= c <= i32::MAX)
    }
}

impl ResultView {
    /// Numbers a result record can actually hold.
    pub open spec fn wf(&self) -> bool {
        i32::MIN <= self.exit_code <= i32::MAX
    }
}

impl ManifestView {
    /// Numbers a manifest can actually hold.
    pub open spec fn wf(&self) -> bool {
        &&& forall|i: int| 0 <= i < self.steps.len() ==> (#[trigger] self.steps[i]).wf()
        &&& self.result.wf()
    }
}

/// The schema marker of manifest version 1.
pub fn manifest_schema_v1() -> (r: &'static str)
    ensures
        r@ == "podci-manifest.v1"@,
{
    "podci-manifest.v1"
}

/// Relies on chrono's `Utc::now` and `DateTime::to_rfc3339`: the
/// current UTC time, rendered as an RFC 3339 timestamp. The value
/// depends on the clock, so nothing is claimed about it.
#[verifier::external_body]
pub fn now_utc_rfc3339() -> String {
    chrono::Utc::now().to_rfc3339()
}

/// Relies on chrono's `Utc::now` and the `Datelike`/`Timelike`
/// accessors: the current UTC time as plain calendar fields. The
/// values depend on the clock, so only the documented field ranges
/// are claimed (month 1 to 12, day 1 to 31, hour 0 to 23, minute and
/// second 0 to 59).
#[verifier::external_body]
fn now_utc_fields() -> (r: (i32, u32, u32, u32, u32, u32))
    ensures
        1 <= r.1 <= 12,
        1 <= r.2 <= 31,
        r.3 <= 23,
        r.4 <= 59,
        r.5 <= 59,
{
    let now = chrono::Utc::now();
    (
        chrono::Datelike::year(&now),
        chrono::Datelike::month(&now),
        chrono::Datelike::day(&now),
        chrono::Timelike::hour(&now),
        chrono::Timelike::minute(&now),
        chrono::Timelike::second(&now),
    )
}

/// A number as two zero-padded decimal digits.
pub open spec fn pad2(n: int) -> Seq<char> {
    seq![digit_char(n / 10), digit_char(n % 10)]
}

/// A number as four zero-padded decimal digits.
pub open spec fn pad4(n: int) -> Seq<char> {
    seq![digit_char(n / 1000), digit_char((n / 100) % 10), digit_char((n / 10) % 10), digit_char(
        n % 10,
    )]
}

/// A year folded into the four-digit range a compact timestamp can
/// carry.
pub open spec fn clamp_year(y: int) -> int {
    if y < 0 {
        0
    } else if y > 9999 {
        9999
    } else {
        y
    }
}

/// The compact `%Y%m%dT%H%M%SZ` rendering of a UTC time, with the
/// year folded into four digits.
pub open spec fn compact_ts(y: int, mo: int, d: int, h: int, mi: int, s: int) -> Seq<char> {
    pad4(clamp_year(y)) + pad2(mo) + pad2(d) + seq!['T'] + pad2(h) + pad2(mi) + pad2(s)
        + seq!['Z']
}

/// Append a two-digit zero-padded number.
fn push_pad2(out: &mut Vec<char>, n: u32)
    requires
        n <= 99,
    ensures
        final(out)@ == old(out)@ + pad2(n as int),
{
    out.push((48 + (n / 10) as u8) as char);
    out.push((48 + (n % 10) as u8) as char);
    proof {
        assert(out@ =~= old(out)@ + pad2(n as int));
    }
}

/// Append a four-digit zero-padded number.
fn push_pad4(out: &mut Vec<char>, n: u32)
    requires
        n <= 9999,
    ensures
        final(out)@ == old(out)@ + pad4(n as int),
{
    out.push((48 + (n / 1000) as u8) as char);
    out.push((48 + ((n / 100) % 10) as u8) as char);
    out.push((48 + ((n / 10) % 10) as u8) as char);
    out.push((48 + (n % 10) as u8) as char);
    proof {
        assert(out@ =~= old(out)@ + pad4(n as int));
    }
}

/// Render calendar fields in the compact timestamp form.
fn push_compact_ts(out: &mut Vec<char>, y: i32, mo: u32, d: u32, h: u32, mi: u32, s: u32)
    requires
        mo <= 99,
        d <= 99,
        h <= 99,
        mi <= 99,
        s <= 99,
    ensures
        final(out)@ == old(out)@ + compact_ts(y as int, mo as int, d as int, h as int, mi as int, s as int),
{
    let yc: u32 = if y < 0 {
        0
    } else if y > 9999 {
        9999
    } else {
        y as u32
    };
    proof {
        assert(yc as int == clamp_year(y as int));
    }
    push_pad4(out, yc);
    push_pad2(out, mo);
    push_pad2(out, d);
    out.push('T');
    push_pad2(out, h);
    push_pad2(out, mi);
    push_pad2(out, s);
    out.push('Z');
    proof {
        assert(out@ =~= old(out)@ + compact_ts(
            y as int,
            mo as int,
            d as int,
            h as int,
            mi as int,
            s as int,
        ));
    }
}

/// Relies on rand's `Alphanumeric` distribution: `n` characters
/// drawn uniformly from `a-z`, `A-Z` and `0-9`.
#[verifier::external_body]
fn random_alphanumeric(n: usize) -> (r: String)
    ensures
        r@.len() == n,
        forall|i: int| 0 <= i < r@.len() ==> is_run_id_char(#[trigger] r@[i]),
{
    rand::distr::Distribution::<u8>::sample_iter(rand::distr::Alphanumeric, rand::rng())
        .take(n)
        .map(char::from)
        .collect()
}

/// ASCII letters and digits, the alphabet of a run id suffix.
pub open spec fn is_run_id_char(c: char) -> bool {
    (48 <= (c as u32) <= 57) || (65 <= (c as u32) <= 90) || (97 <= (c as u32) <= 122)
}

/// A decimal digit character.
pub open spec fn is_digit_char(c: char) -> bool {
    48 <= (c as u32) <= 57
}

/// A compact timestamp over in-range fields is sixteen characters:
/// eight digits, `T`, six digits, `Z`.
proof fn lemma_compact_ts_shape(y: int, mo: int, d: int, h: int, mi: int, s: int)
    requires
        0 <= mo <= 99,
        0 <= d <= 99,
        0 <= h <= 99,
        0 <= mi <= 99,
        0 <= s <= 99,
    ensures
        compact_ts(y, mo, d, h, mi, s).len() == 16,
        compact_ts(y, mo, d, h, mi, s)[8] == 'T',
        compact_ts(y, mo, d, h, mi, s)[15] == 'Z',
        forall|i: int|
            (0 <= i < 8 || 9 <= i < 15) ==> is_digit_char(#[trigger] compact_ts(
                y,
                mo,
                d,
                h,
                mi,
                s,
            )[i]),
{
    let t = compact_ts(y, mo, d, h, mi, s);
    let yc = clamp_year(y);
    assert(0 <= yc <= 9999);
    assert(t[0] == digit_char(yc / 1000) && is_digit_char(t[0]));
    assert(t[1] == digit_char((yc / 100) % 10) && is_digit_char(t[1]));
    assert(t[2] == digit_char((yc / 10) % 10) && is_digit_char(t[2]));
    assert(t[3] == digit_char(yc % 10) && is_digit_char(t[3]));
    assert(t[4] == digit_char(mo / 10) && is_digit_char(t[4]));
    assert(t[5] == digit_char(mo % 10) && is_digit_char(t[5]));
    assert(t[6] == digit_char(d / 10) && is_digit_char(t[6]));
    assert(t[7] == digit_char(d % 10) && is_digit_char(t[7]));
    assert(t[8] == 'T');
    assert(t[9] == digit_char(h / 10) && is_digit_char(t[9]));
    assert(t[10] == digit_char(h % 10) && is_digit_char(t[10]));
    assert(t[11] == digit_char(mi / 10) && is_digit_char(t[11]));
    assert(t[12] == digit_char(mi % 10) && is_digit_char(t[12]));
    assert(t[13] == digit_char(s / 10) && is_digit_char(t[13]));
    assert(t[14] == digit_char(s % 10) && is_digit_char(t[14]));
    assert(t[15] == 'Z');
}

/// A fresh run identifier: the compact UTC timestamp, a dash, and
/// ten random alphanumeric characters — twenty-seven characters in
/// all, time-sortable on the prefix. Which digits the clock yields
/// is not promised, only the shape every clock value produces.
pub fn new_run_id() -> (r: String)
    ensures
        r@.len() == 27,
        forall|i: int| (0 <= i < 8 || 9 <= i < 15) ==> is_digit_char(#[trigger] r@[i]),
        r@[8] == 'T',
        r@[15] == 'Z',
        r@[16] == '-',
        forall|i: int| 17 <= i < 27 ==> is_run_id_char(#[trigger] r@[i]),
{
    let (y, mo, d, h, mi, s) = now_utc_fields();
    let suffix = random_alphanumeric(10);
    let mut out: Vec<char> = Vec::new();
    push_compact_ts(&mut out, y, mo, d, h, mi, s);
    out.push('-');
    push_str_chars(&mut out, suffix.as_str());
    proof {
        lemma_compact_ts_shape(y as int, mo as int, d as int, h as int, mi as int, s as int);
        assert(out@.len() == 27);
        assert(forall|i: int| 0 <= i < 16 ==> out@[i] == compact_ts(
            y as int,
            mo as int,
            d as int,
            h as int,
            mi as int,
            s as int,
        )[i]);
        assert(out@[16] == '-');
        assert(forall|i: int| 17 <= i < 27 ==> out@[i] == suffix@[i - 17]);
    }
    chars_to_string(&out)
}

} // verus!
