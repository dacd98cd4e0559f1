//! A small JSON codec for the manifest record.
//!
//! The encoder produces one canonical form: fixed key order, no
//! extra whitespace, strings escaped with `\"`, `\\` and `\u00XX`
//! for control characters. The parser accepts exactly that form, and
//! the round-trip lemmas prove that whatever the encoder writes the
//! parser reads back unchanged.

use vstd::prelude::*;

use crate::manifest::ManifestResultV1;
use crate::manifest::ManifestStepV1;
use crate::manifest::ManifestV1;
use crate::manifest::ManifestView;
use crate::manifest::ResultView;
use crate::manifest::StepView;
use crate::text::chars_to_string;
use crate::text::digit_char;
use crate::text::push_str_chars;
use crate::text::push_u64_dec;
use crate::text::u64_dec;

verus! {

/// The character for a single lower-case hex digit.
pub open spec fn hex_char(d: int) -> char {
    if d < 10 {
        digit_char(d)
    } else {
        ((d + 87) as u8) as char
    }
}

/// How one character is written inside a JSON string literal.
pub open spec fn esc_char(c: char) -> Seq<char> {
    if c == '"' {
        seq!['\\', '"']
    } else if c == '\\' {
        seq!['\\', '\\']
    } else if (c as u32) < 32 {
        seq!['\\', 'u', '0', '0', hex_char((c as u32) as int / 16), hex_char((c as u32) as int % 16)]
    } else {
        seq![c]
    }
}

/// The escaped form of the first `i` characters of `s`.
pub open spec fn esc_upto(s: Seq<char>, i: int) -> Seq<char>
    decreases i,
{
    if i <= 0 {
        Seq::empty()
    } else {
        esc_upto(s, i - 1) + esc_char(s[i - 1])
    }
}

/// A whole JSON string literal, quotes included.
pub open spec fn json_str(s: Seq<char>) -> Seq<char> {
    seq!['"'] + esc_upto(s, s.len() as int) + seq!['"']
}

/// Append a JSON string literal for `s`.
pub fn push_json_str(out: &mut Vec<char>, s: &str)
    ensures
        final(out)@ == old(out)@ + json_str(s@),
{
    out.push('"');
    let n: usize = s.unicode_len();
    let mut i: usize = 0;
    while i < n
        invariant
            n == s@.len(),
            i <= n,
            out@ == old(out)@ + seq!['"'] + esc_upto(s@, i as int),
        decreases n - i,
    {
        let c = s.get_char(i);
        let u = c as u32;
        if c == '"' {
            out.push('\\');
            out.push('"');
        } else if c == '\\' {
            out.push('\\');
            out.push('\\');
        } else if u < 32 {
            out.push('\\');
            out.push('u');
            out.push('0');
            out.push('0');
            let hi = u / 16;
            let lo = u % 16;
            if hi < 10 {
                out.push((48 + hi as u8) as char);
            } else {
                out.push((87 + hi as u8) as char);
            }
            if lo < 10 {
                out.push((48 + lo as u8) as char);
            } else {
                out.push((87 + lo as u8) as char);
            }
        } else {
            out.push(c);
        }
        i = i + 1;
        proof {
            assert(out@ =~= old(out)@ + seq!['"'] + esc_upto(s@, i as int));
        }
    }
    out.push('"');
    proof {
        assert(out@ =~= old(out)@ + json_str(s@));
    }
}

/// Whether `c` is a decimal digit.
pub open spec fn is_digit(c: char) -> bool {
    48 <= (c as u32) <= 57
}

/// The numeric value of a decimal digit.
pub open spec fn digit_val(c: char) -> int {
    (c as u32) - 48
}

/// The numeric value of a lower-case hex digit, or -1.
pub open spec fn hex_val(c: char) -> int {
    if is_digit(c) {
        digit_val(c)
    } else if 97 <= (c as u32) <= 102 {
        (c as u32) - 87
    } else {
        -1
    }
}

/// Spec-level scan of a JSON string body (after the opening quote):
/// the decoded characters and what follows the closing quote.
pub open spec fn scan_str_body(s: Seq<char>, acc: Seq<char>) -> Option<(Seq<char>, Seq<char>)>
    decreases s.len(),
{
    if s.len() == 0 {
        None
    } else if s[0] == '"' {
        Some((acc, s.drop_first()))
    } else if s[0] == '\\' {
        if s.len() < 2 {
            None
        } else if s[1] == '"' || s[1] == '\\' {
            scan_str_body(s.skip(2), acc + seq![s[1]])
        } else if s[1] == 'u' {
            if s.len() < 6 || s[2] != '0' || s[3] != '0' {
                None
            } else {
                let code = hex_val(s[4]) * 16 + hex_val(s[5]);
                if hex_val(s[4]) < 0 || hex_val(s[5]) < 0 || code >= 32 {
                    None
                } else {
                    scan_str_body(s.skip(6), acc + seq![((code as u8) as char)])
                }
            }
        } else {
            None
        }
    } else if (s[0] as u32) < 32 {
        None
    } else {
        scan_str_body(s.drop_first(), acc + seq![s[0]])
    }
}

/// Spec-level parse of a JSON string literal.
pub open spec fn scan_str(s: Seq<char>) -> Option<(Seq<char>, Seq<char>)> {
    if s.len() > 0 && s[0] == '"' {
        scan_str_body(s.drop_first(), Seq::empty())
    } else {
        None
    }
}

/// The escaped form decomposes from the front.
pub proof fn lemma_esc_upto_front(s: Seq<char>, i: int)
    requires
        1 <= i <= s.len(),
    ensures
        esc_upto(s, i) == esc_char(s[0]) + esc_upto(s.drop_first(), i - 1),
    decreases i,
{
    if i == 1 {
        assert(esc_upto(s, 0) == Seq::<char>::empty());
        assert(esc_upto(s.drop_first(), 0) == Seq::<char>::empty());
        assert(esc_upto(s, 1) == esc_upto(s, 0) + esc_char(s[0]));
        assert(esc_upto(s, 1) =~= esc_char(s[0]) + esc_upto(s.drop_first(), 0));
    } else {
        lemma_esc_upto_front(s, i - 1);
        assert(s.drop_first()[i - 2] == s[i - 1]);
        assert(esc_upto(s, i) == esc_upto(s, i - 1) + esc_char(s[i - 1]));
        assert(esc_char(s[0]) + esc_upto(s.drop_first(), i - 1) == esc_char(s[0]) + (esc_upto(
            s.drop_first(),
            i - 2,
        ) + esc_char(s.drop_first()[i - 2])));
        assert(esc_char(s[0]) + (esc_upto(s.drop_first(), i - 2) + esc_char(
            s.drop_first()[i - 2],
        )) =~= (esc_char(s[0]) + esc_upto(s.drop_first(), i - 2)) + esc_char(s[i - 1]));
    }
}

/// Scanning the escaped form of `s` followed by a closing quote
/// recovers `s` exactly.
pub proof fn lemma_scan_esc(s: Seq<char>, acc: Seq<char>, rest: Seq<char>)
    ensures
        scan_str_body(esc_upto(s, s.len() as int) + seq!['"'] + rest, acc) == Some(
            (acc + s, rest),
        ),
    decreases s.len(),
{
    let whole = esc_upto(s, s.len() as int) + seq!['"'] + rest;
    if s.len() == 0 {
        assert(whole =~= seq!['"'] + rest);
        assert(whole[0] == '"');
        assert(whole.drop_first() =~= rest);
        assert(acc + s =~= acc);
    } else {
        let c = s[0];
        let t = s.drop_first();
        lemma_esc_upto_front(s, s.len() as int);
        assert(whole =~= esc_char(c) + (esc_upto(t, t.len() as int) + seq!['"'] + rest));
        let inner = esc_upto(t, t.len() as int) + seq!['"'] + rest;
        lemma_scan_esc(t, acc + seq![c], rest);
        if c == '"' {
            assert(whole[0] == '\\' && whole[1] == '"');
            assert(whole.skip(2) =~= inner);
            assert(acc + seq![c] + t =~= acc + s);
        } else if c == '\\' {
            assert(whole[0] == '\\' && whole[1] == '\\');
            assert(whole.skip(2) =~= inner);
            assert(acc + seq![c] + t =~= acc + s);
        } else if (c as u32) < 32 {
            let u = (c as u32) as int;
            assert(whole[0] == '\\' && whole[1] == 'u' && whole[2] == '0' && whole[3] == '0');
            assert(whole[4] == hex_char(u / 16) && whole[5] == hex_char(u % 16));
            assert(hex_val(hex_char(u / 16)) == u / 16) by {
                vstd::utf8::char_u32_cast(c, c as u32);
            }
            assert(hex_val(hex_char(u % 16)) == u % 16);
            assert(hex_val(whole[4]) * 16 + hex_val(whole[5]) == u);
            assert(((u as u8) as char) == c) by {
                vstd::utf8::char_u32_cast(c, c as u32);
            }
            assert(whole.skip(6) =~= inner);
            assert(acc + seq![c] + t =~= acc + s);
        } else {
            assert(whole[0] == c);
            assert(whole.drop_first() =~= inner);
            assert(acc + seq![c] + t =~= acc + s);
        }
    }
}

/// Parsing a whole encoded string literal recovers `s`.
pub proof fn lemma_scan_str(s: Seq<char>, rest: Seq<char>)
    ensures
        scan_str(json_str(s) + rest) == Some((s, rest)),
{
    let whole = json_str(s) + rest;
    assert(whole[0] == '"');
    assert(whole.drop_first() =~= esc_upto(s, s.len() as int) + seq!['"'] + rest);
    lemma_scan_esc(s, Seq::empty(), rest);
    assert(Seq::empty() + s =~= s);
}

/// Powers of ten.
pub open spec fn pow10(k: nat) -> int
    decreases k,
{
    if k == 0 {
        1
    } else {
        10 * pow10((k - 1) as nat)
    }
}

/// Spec-level scan of a run of decimal digits, accumulating their
/// value; stops at the first non-digit.
pub open spec fn scan_digits(s: Seq<char>, acc: int) -> (int, Seq<char>)
    decreases s.len(),
{
    if s.len() > 0 && is_digit(s[0]) {
        scan_digits(s.drop_first(), acc * 10 + digit_val(s[0]))
    } else {
        (acc, s)
    }
}

/// Spec-level parse of an unsigned decimal number (at least one
/// digit).
pub open spec fn scan_nat(s: Seq<char>) -> Option<(int, Seq<char>)> {
    if s.len() > 0 && is_digit(s[0]) {
        Some(scan_digits(s, 0))
    } else {
        None
    }
}

/// Spec-level parse of a possibly negative decimal number.
pub open spec fn scan_int(s: Seq<char>) -> Option<(int, Seq<char>)> {
    if s.len() > 0 && s[0] == '-' {
        match scan_nat(s.drop_first()) {
            Some((v, r)) => Some((-v, r)),
            None => None,
        }
    } else {
        scan_nat(s)
    }
}

/// The decimal form of a possibly negative number.
pub open spec fn int_dec(n: int) -> Seq<char> {
    if n < 0 {
        seq!['-'] + u64_dec(-n)
    } else {
        u64_dec(n)
    }
}

/// Every decimal representation starts with a digit.
pub proof fn lemma_u64_dec_first_digit(n: int)
    requires
        n >= 0,
    ensures
        u64_dec(n).len() >= 1,
        is_digit(u64_dec(n)[0]),
        digit_val(u64_dec(n)[0]) >= 0,
    decreases n,
{
    if n < 10 {
        assert(u64_dec(n) == seq![digit_char(n)]);
        assert((digit_char(n) as u32) == n + 48);
    } else {
        lemma_u64_dec_first_digit(n / 10);
        assert(u64_dec(n)[0] == u64_dec(n / 10)[0]);
    }
}

/// Scanning the decimal form of `n` consumes exactly its digits and
/// shifts the accumulator.
pub proof fn lemma_scan_dec(n: int, acc: int, rest: Seq<char>)
    requires
        n >= 0,
    ensures
        scan_digits(u64_dec(n) + rest, acc) == scan_digits(
            rest,
            acc * pow10(u64_dec(n).len() as nat) + n,
        ),
    decreases n,
{
    let whole = u64_dec(n) + rest;
    if n < 10 {
        assert(u64_dec(n) == seq![digit_char(n)]);
        assert(whole[0] == digit_char(n));
        assert((digit_char(n) as u32) == n + 48);
        assert(is_digit(whole[0]) && digit_val(whole[0]) == n);
        assert(whole.drop_first() =~= rest);
        assert(pow10(1) == 10) by {
            assert(pow10(0) == 1);
        }
    } else {
        let d = digit_char(n % 10);
        let hd = u64_dec(n / 10);
        assert(u64_dec(n) == hd + seq![d]);
        assert(whole =~= hd + (seq![d] + rest));
        lemma_scan_dec(n / 10, acc, seq![d] + rest);
        let k = hd.len() as nat;
        let mid = seq![d] + rest;
        assert(scan_digits(whole, acc) == scan_digits(mid, acc * pow10(k) + n / 10));
        assert((d as u32) == n % 10 + 48);
        assert(is_digit(mid[0]) && digit_val(mid[0]) == n % 10);
        assert(mid.drop_first() =~= rest);
        assert(scan_digits(mid, acc * pow10(k) + n / 10) == scan_digits(
            rest,
            (acc * pow10(k) + n / 10) * 10 + n % 10,
        ));
        assert(u64_dec(n).len() == k + 1);
        assert(pow10(k + 1) == 10 * pow10(k));
        assert((acc * pow10(k) + n / 10) * 10 + n % 10 == acc * pow10(k + 1) + n) by {
            vstd::arithmetic::mul::lemma_mul_is_associative(acc, pow10(k), 10);
            vstd::arithmetic::mul::lemma_mul_is_commutative(pow10(k), 10);
            vstd::arithmetic::div_mod::lemma_fundamental_div_mod(n, 10);
        }
    }
}

/// Parsing the decimal form of a non-negative `n` recovers `n`.
pub proof fn lemma_scan_nat(n: int, rest: Seq<char>)
    requires
        n >= 0,
        rest.len() == 0 || !is_digit(rest[0]),
    ensures
        scan_nat(u64_dec(n) + rest) == Some((n, rest)),
{
    lemma_u64_dec_first_digit(n);
    assert((u64_dec(n) + rest)[0] == u64_dec(n)[0]);
    lemma_scan_dec(n, 0, rest);
    assert(0 * pow10(u64_dec(n).len() as nat) == 0) by {
        vstd::arithmetic::mul::lemma_mul_basics(pow10(u64_dec(n).len() as nat));
    }
    assert(scan_digits(rest, n) == (n, rest));
}

/// Parsing the decimal form of any integer recovers it.
pub proof fn lemma_scan_int(n: int, rest: Seq<char>)
    requires
        rest.len() == 0 || !is_digit(rest[0]),
    ensures
        scan_int(int_dec(n) + rest) == Some((n, rest)),
{
    if n < 0 {
        let whole = int_dec(n) + rest;
        assert(whole[0] == '-');
        assert(!is_digit('-'));
        assert(whole.drop_first() =~= u64_dec(-n) + rest);
        lemma_scan_nat(-n, rest);
    } else {
        lemma_u64_dec_first_digit(n);
        assert((int_dec(n) + rest)[0] == u64_dec(n)[0]);
        assert((int_dec(n) + rest)[0] != '-');
        lemma_scan_nat(n, rest);
    }
}

/// An optional string: `null` or a string literal.
pub open spec fn opt_str_json(o: Option<Seq<char>>) -> Seq<char> {
    match o {
        None => "null"@,
        Some(s) => json_str(s),
    }
}

/// An optional count: `null` or its decimal digits.
pub open spec fn opt_nat_json(o: Option<int>) -> Seq<char> {
    match o {
        None => "null"@,
        Some(n) => u64_dec(n),
    }
}

/// An optional integer: `null` or its decimal form.
pub open spec fn opt_int_json(o: Option<int>) -> Seq<char> {
    match o {
        None => "null"@,
        Some(n) => int_dec(n),
    }
}

/// A boolean literal.
pub open spec fn bool_json(b: bool) -> Seq<char> {
    if b {
        "true"@
    } else {
        "false"@
    }
}

/// The first `i` elements of a string array, comma-separated.
pub open spec fn strs_upto(g: Seq<Seq<char>>, i: int) -> Seq<char>
    decreases i,
{
    if i <= 0 {
        Seq::empty()
    } else if i == 1 {
        json_str(g[0])
    } else {
        strs_upto(g, i - 1) + seq![','] + json_str(g[i - 1])
    }
}

/// The elements of a string array from `j` on, each preceded by a
/// comma except the very first of the array.
pub open spec fn strs_suffix(g: Seq<Seq<char>>, j: int) -> Seq<char>
    decreases g.len() - j,
{
    if j < 0 || j >= g.len() {
        Seq::empty()
    } else if j == 0 {
        json_str(g[0]) + strs_suffix(g, 1)
    } else {
        seq![','] + json_str(g[j]) + strs_suffix(g, j + 1)
    }
}

/// The body of one step record.
pub open spec fn step_json(v: StepView) -> Seq<char> {
    "{\"name\":"@ + json_str(v.name) + ",\"argv\":["@ + strs_upto(v.argv, v.argv.len() as int)
        + "]"@ + ",\"duration_ms\":"@ + opt_nat_json(v.duration_ms) + ",\"exit_code\":"@
        + opt_int_json(v.exit_code) + ",\"stdout_path\":"@ + opt_str_json(v.stdout_path)
        + ",\"stderr_path\":"@ + opt_str_json(v.stderr_path) + "}"@
}

/// The first `i` step records, comma-separated.
pub open spec fn steps_upto(g: Seq<StepView>, i: int) -> Seq<char>
    decreases i,
{
    if i <= 0 {
        Seq::empty()
    } else if i == 1 {
        step_json(g[0])
    } else {
        steps_upto(g, i - 1) + seq![','] + step_json(g[i - 1])
    }
}

/// The step records from `j` on, each preceded by a comma except the
/// very first of the array.
pub open spec fn steps_suffix(g: Seq<StepView>, j: int) -> Seq<char>
    decreases g.len() - j,
{
    if j < 0 || j >= g.len() {
        Seq::empty()
    } else if j == 0 {
        step_json(g[0]) + steps_suffix(g, 1)
    } else {
        seq![','] + step_json(g[j]) + steps_suffix(g, j + 1)
    }
}

/// The body of a run result.
pub open spec fn result_json(v: ResultView) -> Seq<char> {
    "{\"ok\":"@ + bool_json(v.ok) + ",\"exit_code\":"@ + int_dec(v.exit_code) + ",\"error\":"@
        + opt_str_json(v.error) + "}"@
}

/// The whole manifest document, in canonical field order.
pub open spec fn manifest_json(v: ManifestView) -> Seq<char> {
    "{\"schema\":"@ + json_str(v.schema) + ",\"podci_version\":"@ + json_str(v.podci_version)
        + ",\"timestamp_utc\":"@ + json_str(v.timestamp_utc) + ",\"project\":"@ + json_str(
        v.project,
    ) + ",\"job\":"@ + json_str(v.job) + ",\"profile\":"@ + json_str(v.profile)
        + ",\"namespace\":"@ + json_str(v.namespace) + ",\"env_id\":"@ + json_str(v.env_id)
        + ",\"base_image_digest\":"@ + opt_str_json(v.base_image_digest)
        + ",\"base_image_digest_status\":"@ + opt_str_json(v.base_image_digest_status)
        + ",\"steps\":["@ + steps_upto(v.steps, v.steps.len() as int) + "]"@ + ",\"result\":"@
        + result_json(v.result) + "}"@
}

/// Append `null` or a string literal.
fn push_opt_str(out: &mut Vec<char>, o: &Option<String>)
    ensures
        final(out)@ == old(out)@ + opt_str_json(crate::manifest::opt_view(*o)),
{
    match o {
        None => {
            push_str_chars(out, "null");
        },
        Some(s) => {
            push_json_str(out, s.as_str());
        },
    }
}

/// Append `null` or a decimal count.
fn push_opt_u64(out: &mut Vec<char>, o: &Option<u64>)
    ensures
        final(out)@ == old(out)@ + opt_nat_json(
            match *o {
                Some(d) => Some(d as int),
                None => None,
            },
        ),
{
    match o {
        None => {
            push_str_chars(out, "null");
        },
        Some(d) => {
            push_u64_dec(out, *d);
        },
    }
}

/// Append the decimal form of a signed 32-bit value.
pub fn push_i32_dec(out: &mut Vec<char>, n: i32)
    ensures
        final(out)@ == old(out)@ + int_dec(n as int),
{
    if n < 0 {
        out.push('-');
        let mag: u64 = (-(n as i64)) as u64;
        push_u64_dec(out, mag);
        proof {
            assert(out@ =~= old(out)@ + int_dec(n as int));
        }
    } else {
        push_u64_dec(out, n as u64);
    }
}

/// Append `null` or a signed decimal.
fn push_opt_i32(out: &mut Vec<char>, o: &Option<i32>)
    ensures
        final(out)@ == old(out)@ + opt_int_json(
            match *o {
                Some(c) => Some(c as int),
                None => None,
            },
        ),
{
    match o {
        None => {
            push_str_chars(out, "null");
        },
        Some(c) => {
            push_i32_dec(out, *c);
        },
    }
}

/// Append one step record.
#[verifier::rlimit(100)]
fn push_step_json(out: &mut Vec<char>, s: &ManifestStepV1)
    ensures
        final(out)@ == old(out)@ + step_json(s@),
{
    push_str_chars(out, "{\"name\":");
    push_json_str(out, s.name.as_str());
    push_str_chars(out, ",\"argv\":[");
    let n = s.argv.len();
    let mut i: usize = 0;
    while i < n
        invariant
            n == s.argv@.len(),
            i <= n,
            s.argv.deep_view() == s@.argv,
            out@ == old(out)@ + "{\"name\":"@ + json_str(s@.name) + ",\"argv\":["@ + strs_upto(
                s@.argv,
                i as int,
            ),
        decreases n - i,
    {
        if i > 0 {
            out.push(',');
        }
        push_json_str(out, s.argv[i].as_str());
        i = i + 1;
        proof {
            assert(s.argv@[i - 1]@ == s@.argv[i - 1]);
            assert(out@ =~= old(out)@ + "{\"name\":"@ + json_str(s@.name) + ",\"argv\":["@
                + strs_upto(s@.argv, i as int));
        }
    }
    push_str_chars(out, "]");
    push_str_chars(out, ",\"duration_ms\":");
    push_opt_u64(out, &s.duration_ms);
    push_str_chars(out, ",\"exit_code\":");
    push_opt_i32(out, &s.exit_code);
    push_str_chars(out, ",\"stdout_path\":");
    push_opt_str(out, &s.stdout_path);
    push_str_chars(out, ",\"stderr_path\":");
    push_opt_str(out, &s.stderr_path);
    push_str_chars(out, "}");
    proof {
        assert(out@ =~= old(out)@ + step_json(s@));
    }
}

/// Append the run result record.
fn push_result_json(out: &mut Vec<char>, r: &ManifestResultV1)
    ensures
        final(out)@ == old(out)@ + result_json(r@),
{
    push_str_chars(out, "{\"ok\":");
    if r.ok {
        push_str_chars(out, "true");
    } else {
        push_str_chars(out, "false");
    }
    push_str_chars(out, ",\"exit_code\":");
    push_i32_dec(out, r.exit_code);
    push_str_chars(out, ",\"error\":");
    push_opt_str(out, &r.error);
    push_str_chars(out, "}");
    proof {
        assert(out@ =~= old(out)@ + result_json(r@));
    }
}

/// Render a manifest in its canonical JSON form.
pub fn manifest_to_json(m: &ManifestV1) -> (r: String)
    ensures
        r@ == manifest_json(m@),
{
    let mut out: Vec<char> = Vec::new();
    push_str_chars(&mut out, "{\"schema\":");
    push_json_str(&mut out, m.schema.as_str());
    push_str_chars(&mut out, ",\"podci_version\":");
    push_json_str(&mut out, m.podci_version.as_str());
    push_str_chars(&mut out, ",\"timestamp_utc\":");
    push_json_str(&mut out, m.timestamp_utc.as_str());
    push_str_chars(&mut out, ",\"project\":");
    push_json_str(&mut out, m.project.as_str());
    push_str_chars(&mut out, ",\"job\":");
    push_json_str(&mut out, m.job.as_str());
    push_str_chars(&mut out, ",\"profile\":");
    push_json_str(&mut out, m.profile.as_str());
    push_str_chars(&mut out, ",\"namespace\":");
    push_json_str(&mut out, m.namespace.as_str());
    push_str_chars(&mut out, ",\"env_id\":");
    push_json_str(&mut out, m.env_id.as_str());
    push_str_chars(&mut out, ",\"base_image_digest\":");
    push_opt_str(&mut out, &m.base_image_digest);
    push_str_chars(&mut out, ",\"base_image_digest_status\":");
    push_opt_str(&mut out, &m.base_image_digest_status);
    push_str_chars(&mut out, ",\"steps\":[");
    let ghost head = out@;
    let n = m.steps.len();
    let mut i: usize = 0;
    while i < n
        invariant
            n == m.steps@.len(),
            i <= n,
            m.steps.deep_view() == m@.steps,
            out@ == head + steps_upto(m@.steps, i as int),
        decreases n - i,
    {
        if i > 0 {
            out.push(',');
        }
        push_step_json(&mut out, &m.steps[i]);
        i = i + 1;
        proof {
            assert(m.steps@[i - 1]@ == m@.steps[i - 1]);
            assert(out@ =~= head + steps_upto(m@.steps, i as int));
        }
    }
    push_str_chars(&mut out, "]");
    push_str_chars(&mut out, ",\"result\":");
    push_result_json(&mut out, &m.result);
    push_str_chars(&mut out, "}");
    proof {
        assert(out@ =~= manifest_json(m@));
    }
    chars_to_string(&out)
}

/// Spec-level parse of an exact literal prefix.
pub open spec fn scan_lit(s: Seq<char>, lit: Seq<char>) -> Option<Seq<char>> {
    if lit.len() <= s.len() && s.take(lit.len() as int) == lit {
        Some(s.skip(lit.len() as int))
    } else {
        None
    }
}

/// Spec-level parse of `null` or a string literal.
pub open spec fn scan_opt_str(s: Seq<char>) -> Option<(Option<Seq<char>>, Seq<char>)> {
    if s.len() > 0 && s[0] == '"' {
        match scan_str(s) {
            Some((v, r)) => Some((Some(v), r)),
            None => None,
        }
    } else {
        match scan_lit(s, "null"@) {
            Some(r) => Some((None, r)),
            None => None,
        }
    }
}

/// Spec-level parse of `null` or an unsigned decimal.
pub open spec fn scan_opt_nat(s: Seq<char>) -> Option<(Option<int>, Seq<char>)> {
    if s.len() > 0 && is_digit(s[0]) {
        match scan_nat(s) {
            Some((v, r)) => Some((Some(v), r)),
            None => None,
        }
    } else {
        match scan_lit(s, "null"@) {
            Some(r) => Some((None, r)),
            None => None,
        }
    }
}

/// Spec-level parse of `null` or a signed decimal.
pub open spec fn scan_opt_int(s: Seq<char>) -> Option<(Option<int>, Seq<char>)> {
    if s.len() > 0 && (is_digit(s[0]) || s[0] == '-') {
        match scan_int(s) {
            Some((v, r)) => Some((Some(v), r)),
            None => None,
        }
    } else {
        match scan_lit(s, "null"@) {
            Some(r) => Some((None, r)),
            None => None,
        }
    }
}

/// Spec-level parse of a boolean literal.
pub open spec fn scan_bool(s: Seq<char>) -> Option<(bool, Seq<char>)> {
    if s.len() > 0 && s[0] == 't' {
        match scan_lit(s, "true"@) {
            Some(r) => Some((true, r)),
            None => None,
        }
    } else {
        match scan_lit(s, "false"@) {
            Some(r) => Some((false, r)),
            None => None,
        }
    }
}

/// A successful string parse consumes at least two characters.
pub proof fn lemma_scan_str_body_shrinks(s: Seq<char>, acc: Seq<char>)
    ensures
        scan_str_body(s, acc) matches Some((v, r)) ==> r.len() < s.len(),
    decreases s.len(),
{
    if s.len() > 0 && s[0] != '"' {
        if s[0] == '\\' && s.len() >= 2 {
            if s[1] == '"' || s[1] == '\\' {
                lemma_scan_str_body_shrinks(s.skip(2), acc + seq![s[1]]);
            } else if s[1] == 'u' && s.len() >= 6 && s[2] == '0' && s[3] == '0' {
                let code = hex_val(s[4]) * 16 + hex_val(s[5]);
                if hex_val(s[4]) >= 0 && hex_val(s[5]) >= 0 && code < 32 {
                    lemma_scan_str_body_shrinks(s.skip(6), acc + seq![((code as u8) as char)]);
                }
            }
        } else if (s[0] as u32) >= 32 {
            lemma_scan_str_body_shrinks(s.drop_first(), acc + seq![s[0]]);
        }
    }
}

/// A successful string-literal parse consumes at least two
/// characters.
pub proof fn lemma_scan_str_shrinks(s: Seq<char>)
    ensures
        scan_str(s) matches Some((v, r)) ==> r.len() < s.len(),
{
    if s.len() > 0 && s[0] == '"' {
        lemma_scan_str_body_shrinks(s.drop_first(), Seq::empty());
    }
}

/// Spec-level parse of a string array body (after the opening
/// bracket), ending at the closing bracket.
pub open spec fn scan_str_list(s: Seq<char>, acc: Seq<Seq<char>>) -> Option<
    (Seq<Seq<char>>, Seq<char>),
>
    decreases s.len(),
    via scan_str_list_dec
{
    if s.len() == 0 {
        None
    } else if s[0] == ']' {
        Some((acc, s.drop_first()))
    } else if acc.len() == 0 {
        match scan_str(s) {
            Some((v, r)) => scan_str_list(r, acc.push(v)),
            None => None,
        }
    } else if s[0] == ',' {
        match scan_str(s.drop_first()) {
            Some((v, r)) => scan_str_list(r, acc.push(v)),
            None => None,
        }
    } else {
        None
    }
}

#[via_fn]
proof fn scan_str_list_dec(s: Seq<char>, acc: Seq<Seq<char>>) {
    lemma_scan_str_shrinks(s);
    if s.len() > 0 {
        lemma_scan_str_shrinks(s.drop_first());
    }
}

/// Parsing an encoded string array recovers its elements.
#[verifier::rlimit(100)]
pub proof fn lemma_scan_strs(g: Seq<Seq<char>>, j: int, rest: Seq<char>)
    requires
        0 <= j <= g.len(),
        rest.len() == 0 || rest[0] != ']',
    ensures
        scan_str_list(strs_suffix(g, j) + seq![']'] + rest, g.take(j)) == Some((g, rest)),
    decreases g.len() - j,
{
    let whole = strs_suffix(g, j) + seq![']'] + rest;
    if j == g.len() {
        assert(whole =~= seq![']'] + rest);
        assert(whole[0] == ']');
        assert(whole.drop_first() =~= rest);
        assert(g.take(j) =~= g);
    } else if j == 0 {
        let tail = strs_suffix(g, 1) + seq![']'] + rest;
        assert(whole =~= json_str(g[0]) + tail);
        assert(whole[0] == '"');
        assert(g.take(0).len() == 0);
        lemma_scan_str(g[0], tail);
        lemma_scan_strs(g, 1, rest);
        assert(g.take(0).push(g[0]) =~= g.take(1));
    } else {
        let tail = strs_suffix(g, j + 1) + seq![']'] + rest;
        assert(whole =~= seq![','] + (json_str(g[j]) + tail));
        assert(whole[0] == ',');
        assert(g.take(j).len() == j);
        assert(whole.drop_first() =~= json_str(g[j]) + tail);
        lemma_scan_str(g[j], tail);
        lemma_scan_strs(g, j + 1, rest);
        assert(g.take(j).push(g[j]) =~= g.take(j + 1));
    }
}

/// The prefix form of an encoded string array equals its suffix form.
pub proof fn lemma_strs_split(g: Seq<Seq<char>>, i: int)
    requires
        0 <= i <= g.len(),
    ensures
        strs_suffix(g, 0) == strs_upto(g, i) + strs_suffix(g, i),
    decreases i,
{
    if i == 0 {
        assert(strs_suffix(g, 0) =~= strs_upto(g, 0) + strs_suffix(g, 0));
    } else {
        lemma_strs_split(g, i - 1);
        if i - 1 == 0 {
            if i == g.len() {
                assert(strs_suffix(g, i) =~= Seq::<char>::empty());
                assert(strs_suffix(g, 0) =~= strs_upto(g, 1) + strs_suffix(g, 1));
            } else {
                assert(strs_suffix(g, 0) == json_str(g[0]) + strs_suffix(g, 1));
                assert(strs_upto(g, 1) == json_str(g[0]));
                assert(strs_suffix(g, 0) =~= strs_upto(g, 1) + strs_suffix(g, 1));
            }
        } else {
            assert(strs_suffix(g, i - 1) == seq![','] + json_str(g[i - 1]) + strs_suffix(g, i));
            assert(strs_upto(g, i) == strs_upto(g, i - 1) + seq![','] + json_str(g[i - 1]));
            assert(strs_upto(g, i - 1) + (seq![','] + json_str(g[i - 1]) + strs_suffix(g, i))
                =~= strs_upto(g, i) + strs_suffix(g, i));
        }
    }
}

/// Digit scanning never grows the input.
pub proof fn lemma_scan_digits_le(s: Seq<char>, acc: int)
    ensures
        scan_digits(s, acc).1.len() <= s.len(),
    decreases s.len(),
{
    if s.len() > 0 && is_digit(s[0]) {
        lemma_scan_digits_le(s.drop_first(), acc * 10 + digit_val(s[0]));
    }
}

/// Spec-level parse of one step record.
pub open spec fn scan_step(s: Seq<char>) -> Option<(StepView, Seq<char>)> {
    match scan_lit(s, "{\"name\":"@) {
        None => None,
        Some(s1) => match scan_str(s1) {
            None => None,
            Some((name, s2)) => match scan_lit(s2, ",\"argv\":["@) {
                None => None,
                Some(s3) => match scan_str_list(s3, Seq::empty()) {
                    None => None,
                    Some((argv, s4)) => match scan_lit(s4, ",\"duration_ms\":"@) {
                        None => None,
                        Some(s5) => match scan_opt_nat(s5) {
                            None => None,
                            Some((dur, s6)) => match scan_lit(s6, ",\"exit_code\":"@) {
                                None => None,
                                Some(s7) => match scan_opt_int(s7) {
                                    None => None,
                                    Some((code, s8)) => match scan_lit(s8, ",\"stdout_path\":"@) {
                                        None => None,
                                        Some(s9) => match scan_opt_str(s9) {
                                            None => None,
                                            Some((sp, s10)) => match scan_lit(
                                                s10,
                                                ",\"stderr_path\":"@,
                                            ) {
                                                None => None,
                                                Some(s11) => match scan_opt_str(s11) {
                                                    None => None,
                                                    Some((ep, s12)) => match scan_lit(s12, "}"@) {
                                                        None => None,
                                                        Some(s13) => Some(
                                                            (
                                                                StepView {
                                                                    name: name,
                                                                    argv: argv,
                                                                    duration_ms: dur,
                                                                    exit_code: code,
                                                                    stdout_path: sp,
                                                                    stderr_path: ep,
                                                                },
                                                                s13,
                                                            ),
                                                        ),
                                                    },
                                                },
                                            },
                                        },
                                    },
                                },
                            },
                        },
                    },
                },
            },
        },
    }
}

/// String-list scanning never grows the input.
pub proof fn lemma_scan_str_list_le(s: Seq<char>, acc: Seq<Seq<char>>)
    ensures
        scan_str_list(s, acc) matches Some((v, r)) ==> r.len() <= s.len(),
    decreases s.len(),
{
    lemma_scan_str_shrinks(s);
    if s.len() > 0 && s[0] != ']' {
        if acc.len() == 0 {
            if let Some((v, r)) = scan_str(s) {
                lemma_scan_str_list_le(r, acc.push(v));
            }
        } else if s[0] == ',' {
            lemma_scan_str_shrinks(s.drop_first());
            if let Some((v, r)) = scan_str(s.drop_first()) {
                lemma_scan_str_list_le(r, acc.push(v));
            }
        }
    }
}

/// Option scans never grow the input.
pub proof fn lemma_scan_opts_le(s: Seq<char>)
    ensures
        scan_opt_str(s) matches Some((v, r)) ==> r.len() <= s.len(),
        scan_opt_nat(s) matches Some((v, r)) ==> r.len() <= s.len(),
        scan_opt_int(s) matches Some((v, r)) ==> r.len() <= s.len(),
        scan_bool(s) matches Some((v, r)) ==> r.len() <= s.len(),
{
    lemma_scan_str_shrinks(s);
    lemma_scan_digits_le(s, 0);
    if s.len() > 0 {
        lemma_scan_digits_le(s.drop_first(), 0);
    }
}

/// A successful step parse consumes at least one character.
pub proof fn lemma_scan_step_shrinks(s: Seq<char>)
    ensures
        scan_step(s) matches Some((v, r)) ==> r.len() < s.len(),
{
    reveal_strlit("}");
    if let Some(s1) = scan_lit(s, "{\"name\":"@) {
        lemma_scan_str_shrinks(s1);
        if let Some((name, s2)) = scan_str(s1) {
            if let Some(s3) = scan_lit(s2, ",\"argv\":["@) {
                lemma_scan_str_list_le(s3, Seq::empty());
                if let Some((argv, s4)) = scan_str_list(s3, Seq::empty()) {
                    if let Some(s5) = scan_lit(s4, ",\"duration_ms\":"@) {
                        lemma_scan_opts_le(s5);
                        if let Some((dur, s6)) = scan_opt_nat(s5) {
                            if let Some(s7) = scan_lit(s6, ",\"exit_code\":"@) {
                                lemma_scan_opts_le(s7);
                                if let Some((code, s8)) = scan_opt_int(s7) {
                                    if let Some(s9) = scan_lit(s8, ",\"stdout_path\":"@) {
                                        lemma_scan_opts_le(s9);
                                        if let Some((sp, s10)) = scan_opt_str(s9) {
                                            if let Some(s11) = scan_lit(
                                                s10,
                                                ",\"stderr_path\":"@,
                                            ) {
                                                lemma_scan_opts_le(s11);
                                            }
                                        }
                                    }
                                }
                            }
                        }
                    }
                }
            }
        }
    }
}

/// Parsing an exact literal prefix consumes exactly it.
pub proof fn lemma_scan_lit(lit: Seq<char>, rest: Seq<char>)
    ensures
        scan_lit(lit + rest, lit) == Some(rest),
{
    assert((lit + rest).take(lit.len() as int) =~= lit);
    assert((lit + rest).skip(lit.len() as int) =~= rest);
}

/// Parsing an encoded optional string recovers it.
pub proof fn lemma_scan_opt_str(o: Option<Seq<char>>, rest: Seq<char>)
    ensures
        scan_opt_str(opt_str_json(o) + rest) == Some((o, rest)),
{
    reveal_strlit("null");
    match o {
        None => {
            assert((("null"@) + rest)[0] == 'n');
            lemma_scan_lit("null"@, rest);
        },
        Some(v) => {
            assert((json_str(v) + rest)[0] == '"');
            lemma_scan_str(v, rest);
        },
    }
}

/// Parsing an encoded optional count recovers it.
pub proof fn lemma_scan_opt_nat(o: Option<int>, rest: Seq<char>)
    requires
        o matches Some(n) ==> n >= 0,
        rest.len() == 0 || !is_digit(rest[0]),
    ensures
        scan_opt_nat(opt_nat_json(o) + rest) == Some((o, rest)),
{
    reveal_strlit("null");
    match o {
        None => {
            assert((("null"@) + rest)[0] == 'n');
            assert(!is_digit('n'));
            lemma_scan_lit("null"@, rest);
        },
        Some(n) => {
            lemma_u64_dec_first_digit(n);
            assert((u64_dec(n) + rest)[0] == u64_dec(n)[0]);
            lemma_scan_nat(n, rest);
        },
    }
}

/// Parsing an encoded optional integer recovers it.
pub proof fn lemma_scan_opt_int(o: Option<int>, rest: Seq<char>)
    requires
        rest.len() == 0 || !is_digit(rest[0]),
    ensures
        scan_opt_int(opt_int_json(o) + rest) == Some((o, rest)),
{
    reveal_strlit("null");
    match o {
        None => {
            assert((("null"@) + rest)[0] == 'n');
            assert(!is_digit('n') && 'n' != '-');
            lemma_scan_lit("null"@, rest);
        },
        Some(n) => {
            if n < 0 {
                assert((int_dec(n) + rest)[0] == '-');
            } else {
                lemma_u64_dec_first_digit(n);
                assert((int_dec(n) + rest)[0] == u64_dec(n)[0]);
            }
            lemma_scan_int(n, rest);
        },
    }
}

/// Parsing an encoded boolean recovers it.
pub proof fn lemma_scan_bool(b: bool, rest: Seq<char>)
    ensures
        scan_bool(bool_json(b) + rest) == Some((b, rest)),
{
    reveal_strlit("true");
    reveal_strlit("false");
    if b {
        assert((("true"@) + rest)[0] == 't');
        lemma_scan_lit("true"@, rest);
    } else {
        assert((("false"@) + rest)[0] == 'f');
        lemma_scan_lit("false"@, rest);
    }
}

/// Parsing an encoded step record recovers it.
#[verifier::rlimit(100)]
pub proof fn lemma_scan_step(v: StepView, rest: Seq<char>)
    requires
        v.wf(),
    ensures
        scan_step(step_json(v) + rest) == Some((v, rest)),
{
    reveal_strlit(",\"duration_ms\":");
    reveal_strlit(",\"exit_code\":");
    reveal_strlit(",\"stdout_path\":");
    reveal_strlit(",\"stderr_path\":");
    reveal_strlit("}");
    reveal_strlit("]");
    let al = v.argv.len() as int;
    let s13 = rest;
    let s12 = "}"@ + s13;
    let s11 = opt_str_json(v.stderr_path) + s12;
    let s10 = ",\"stderr_path\":"@ + s11;
    let s9 = opt_str_json(v.stdout_path) + s10;
    let s8 = ",\"stdout_path\":"@ + s9;
    let s7 = opt_int_json(v.exit_code) + s8;
    let s6 = ",\"exit_code\":"@ + s7;
    let s5 = opt_nat_json(v.duration_ms) + s6;
    let s4 = ",\"duration_ms\":"@ + s5;
    let s3c = "]"@ + s4;
    let s3 = strs_upto(v.argv, al) + s3c;
    let s2 = ",\"argv\":["@ + s3;
    let s1 = json_str(v.name) + s2;
    let s0 = "{\"name\":"@ + s1;
    let p1 = "{\"name\":"@ + json_str(v.name);
    let p2 = p1 + ",\"argv\":["@;
    let p3 = p2 + strs_upto(v.argv, al);
    let p4 = p3 + "]"@;
    let p5 = p4 + ",\"duration_ms\":"@;
    let p6 = p5 + opt_nat_json(v.duration_ms);
    let p7 = p6 + ",\"exit_code\":"@;
    let p8 = p7 + opt_int_json(v.exit_code);
    let p9 = p8 + ",\"stdout_path\":"@;
    let p10 = p9 + opt_str_json(v.stdout_path);
    let p11 = p10 + ",\"stderr_path\":"@;
    let p12 = p11 + opt_str_json(v.stderr_path);
    assert(step_json(v) == p12 + "}"@);
    crate::text::lemma_app_assoc(p12, "}"@, s13);
    crate::text::lemma_app_assoc(p11, opt_str_json(v.stderr_path), s12);
    crate::text::lemma_app_assoc(p10, ",\"stderr_path\":"@, s11);
    crate::text::lemma_app_assoc(p9, opt_str_json(v.stdout_path), s10);
    crate::text::lemma_app_assoc(p8, ",\"stdout_path\":"@, s9);
    crate::text::lemma_app_assoc(p7, opt_int_json(v.exit_code), s8);
    crate::text::lemma_app_assoc(p6, ",\"exit_code\":"@, s7);
    crate::text::lemma_app_assoc(p5, opt_nat_json(v.duration_ms), s6);
    crate::text::lemma_app_assoc(p4, ",\"duration_ms\":"@, s5);
    crate::text::lemma_app_assoc(p3, "]"@, s4);
    crate::text::lemma_app_assoc(p2, strs_upto(v.argv, al), s3c);
    crate::text::lemma_app_assoc(p1, ",\"argv\":["@, s3);
    crate::text::lemma_app_assoc("{\"name\":"@, json_str(v.name), s2);
    assert(step_json(v) + rest == s0);
    lemma_strs_split(v.argv, al);
    assert(strs_suffix(v.argv, al) == Seq::<char>::empty());
    assert(strs_upto(v.argv, al) =~= strs_suffix(v.argv, 0));
    lemma_scan_lit("{\"name\":"@, s1);
    lemma_scan_str(v.name, s2);
    lemma_scan_lit(",\"argv\":["@, s3);
    assert(s3 =~= strs_suffix(v.argv, 0) + seq![']'] + s4);
    assert(s4[0] == ',');
    lemma_scan_strs(v.argv, 0, s4);
    assert(Seq::<Seq<char>>::empty() =~= v.argv.take(0));
    lemma_scan_lit(",\"duration_ms\":"@, s5);
    assert(s6[0] == ',' && !is_digit(','));
    lemma_scan_opt_nat(v.duration_ms, s6);
    lemma_scan_lit(",\"exit_code\":"@, s7);
    assert(s8[0] == ',' && !is_digit(','));
    lemma_scan_opt_int(v.exit_code, s8);
    lemma_scan_lit(",\"stdout_path\":"@, s9);
    lemma_scan_opt_str(v.stdout_path, s10);
    lemma_scan_lit(",\"stderr_path\":"@, s11);
    lemma_scan_opt_str(v.stderr_path, s12);
    lemma_scan_lit("}"@, s13);
    assert(scan_step(s0) == Some((v, rest)));
}

/// Spec-level parse of a step array body (after the opening
/// bracket), ending at the closing bracket.
pub open spec fn scan_steps_list(s: Seq<char>, acc: Seq<StepView>) -> Option<
    (Seq<StepView>, Seq<char>),
>
    decreases s.len(),
    via scan_steps_list_dec
{
    if s.len() == 0 {
        None
    } else if s[0] == ']' {
        Some((acc, s.drop_first()))
    } else if acc.len() == 0 {
        match scan_step(s) {
            Some((v, r)) => scan_steps_list(r, acc.push(v)),
            None => None,
        }
    } else if s[0] == ',' {
        match scan_step(s.drop_first()) {
            Some((v, r)) => scan_steps_list(r, acc.push(v)),
            None => None,
        }
    } else {
        None
    }
}

#[via_fn]
proof fn scan_steps_list_dec(s: Seq<char>, acc: Seq<StepView>) {
    lemma_scan_step_shrinks(s);
    if s.len() > 0 {
        lemma_scan_step_shrinks(s.drop_first());
    }
}

/// The prefix form of an encoded step array equals its suffix form.
pub proof fn lemma_steps_split(g: Seq<StepView>, i: int)
    requires
        0 <= i <= g.len(),
    ensures
        steps_suffix(g, 0) == steps_upto(g, i) + steps_suffix(g, i),
    decreases i,
{
    if i == 0 {
        assert(steps_suffix(g, 0) =~= steps_upto(g, 0) + steps_suffix(g, 0));
    } else {
        lemma_steps_split(g, i - 1);
        if i - 1 == 0 {
            if i == g.len() {
                assert(steps_suffix(g, i) =~= Seq::<char>::empty());
                assert(steps_suffix(g, 0) =~= steps_upto(g, 1) + steps_suffix(g, 1));
            } else {
                assert(steps_suffix(g, 0) == step_json(g[0]) + steps_suffix(g, 1));
                assert(steps_upto(g, 1) == step_json(g[0]));
                assert(steps_suffix(g, 0) =~= steps_upto(g, 1) + steps_suffix(g, 1));
            }
        } else {
            assert(steps_suffix(g, i - 1) == seq![','] + step_json(g[i - 1]) + steps_suffix(g, i));
            assert(steps_upto(g, i) == steps_upto(g, i - 1) + seq![','] + step_json(g[i - 1]));
            assert(steps_upto(g, i - 1) + (seq![','] + step_json(g[i - 1]) + steps_suffix(g, i))
                =~= steps_upto(g, i) + steps_suffix(g, i));
        }
    }
}

/// A step record's encoding starts with a brace.
pub proof fn lemma_step_json_first(v: StepView)
    ensures
        step_json(v).len() > 0,
        step_json(v)[0] == '{',
{
    reveal_strlit("{\"name\":");
    assert(step_json(v)[0] == ("{\"name\":"@)[0]);
}

/// Parsing an encoded step array recovers its elements.
#[verifier::rlimit(100)]
pub proof fn lemma_scan_steps(g: Seq<StepView>, j: int, rest: Seq<char>)
    requires
        0 <= j <= g.len(),
        rest.len() == 0 || rest[0] != ']',
        forall|i: int| 0 <= i < g.len() ==> (#[trigger] g[i]).wf(),
    ensures
        scan_steps_list(steps_suffix(g, j) + seq![']'] + rest, g.take(j)) == Some((g, rest)),
    decreases g.len() - j,
{
    let whole = steps_suffix(g, j) + seq![']'] + rest;
    if j == g.len() {
        assert(whole =~= seq![']'] + rest);
        assert(whole[0] == ']');
        assert(whole.drop_first() =~= rest);
        assert(g.take(j) =~= g);
    } else if j == 0 {
        let tail = steps_suffix(g, 1) + seq![']'] + rest;
        assert(whole =~= step_json(g[0]) + tail);
        lemma_step_json_first(g[0]);
        assert(whole[0] == '{');
        assert(g.take(0).len() == 0);
        lemma_scan_step(g[0], tail);
        lemma_scan_steps(g, 1, rest);
        assert(g.take(0).push(g[0]) =~= g.take(1));
    } else {
        let tail = steps_suffix(g, j + 1) + seq![']'] + rest;
        assert(whole =~= seq![','] + (step_json(g[j]) + tail));
        assert(whole[0] == ',');
        assert(g.take(j).len() == j);
        assert(whole.drop_first() =~= step_json(g[j]) + tail);
        lemma_scan_step(g[j], tail);
        lemma_scan_steps(g, j + 1, rest);
        assert(g.take(j).push(g[j]) =~= g.take(j + 1));
    }
}

/// Spec-level parse of a run result record.
pub open spec fn scan_result(s: Seq<char>) -> Option<(ResultView, Seq<char>)> {
    match scan_lit(s, "{\"ok\":"@) {
        None => None,
        Some(s1) => match scan_bool(s1) {
            None => None,
            Some((ok, s2)) => match scan_lit(s2, ",\"exit_code\":"@) {
                None => None,
                Some(s3) => match scan_int(s3) {
                    None => None,
                    Some((code, s4)) => match scan_lit(s4, ",\"error\":"@) {
                        None => None,
                        Some(s5) => match scan_opt_str(s5) {
                            None => None,
                            Some((err, s6)) => match scan_lit(s6, "}"@) {
                                None => None,
                                Some(s7) => Some(
                                    (ResultView { ok: ok, exit_code: code, error: err }, s7),
                                ),
                            },
                        },
                    },
                },
            },
        },
    }
}

/// Parsing an encoded run result recovers it.
pub proof fn lemma_scan_result(v: ResultView, rest: Seq<char>)
    ensures
        scan_result(result_json(v) + rest) == Some((v, rest)),
{
    reveal_strlit(",\"exit_code\":");
    reveal_strlit(",\"error\":");
    reveal_strlit("}");
    let s7 = rest;
    let s6 = "}"@ + s7;
    let s5 = opt_str_json(v.error) + s6;
    let s4 = ",\"error\":"@ + s5;
    let s3 = int_dec(v.exit_code) + s4;
    let s2 = ",\"exit_code\":"@ + s3;
    let s1 = bool_json(v.ok) + s2;
    let s0 = "{\"ok\":"@ + s1;
    let p1 = "{\"ok\":"@ + bool_json(v.ok);
    let p2 = p1 + ",\"exit_code\":"@;
    let p3 = p2 + int_dec(v.exit_code);
    let p4 = p3 + ",\"error\":"@;
    let p5 = p4 + opt_str_json(v.error);
    assert(result_json(v) == p5 + "}"@);
    crate::text::lemma_app_assoc(p5, "}"@, s7);
    crate::text::lemma_app_assoc(p4, opt_str_json(v.error), s6);
    crate::text::lemma_app_assoc(p3, ",\"error\":"@, s5);
    crate::text::lemma_app_assoc(p2, int_dec(v.exit_code), s4);
    crate::text::lemma_app_assoc(p1, ",\"exit_code\":"@, s3);
    crate::text::lemma_app_assoc("{\"ok\":"@, bool_json(v.ok), s2);
    assert(result_json(v) + rest == s0);
    lemma_scan_lit("{\"ok\":"@, s1);
    lemma_scan_bool(v.ok, s2);
    lemma_scan_lit(",\"exit_code\":"@, s3);
    assert(s4[0] == ',' && !is_digit(','));
    lemma_scan_int(v.exit_code, s4);
    lemma_scan_lit(",\"error\":"@, s5);
    lemma_scan_opt_str(v.error, s6);
    lemma_scan_lit("}"@, s7);
    assert(scan_result(s0) == Some((v, rest)));
}

/// Spec-level parse of a whole manifest document.
pub open spec fn scan_manifest(s: Seq<char>) -> Option<(ManifestView, Seq<char>)> {
    match scan_lit(s, "{\"schema\":"@) {
        None => None,
        Some(s1) => match scan_str(s1) {
            None => None,
            Some((schema, s2)) => match scan_lit(s2, ",\"podci_version\":"@) {
                None => None,
                Some(s3) => match scan_str(s3) {
                    None => None,
                    Some((pv, s4)) => match scan_lit(s4, ",\"timestamp_utc\":"@) {
                        None => None,
                        Some(s5) => match scan_str(s5) {
                            None => None,
                            Some((ts, s6)) => match scan_lit(s6, ",\"project\":"@) {
                                None => None,
                                Some(s7) => match scan_str(s7) {
                                    None => None,
                                    Some((proj, s8)) => match scan_lit(s8, ",\"job\":"@) {
                                        None => None,
                                        Some(s9) => match scan_str(s9) {
                                            None => None,
                                            Some((job, s10)) => match scan_lit(
                                                s10,
                                                ",\"profile\":"@,
                                            ) {
                                                None => None,
                                                Some(s11) => match scan_str(s11) {
                                                    None => None,
                                                    Some((prof, s12)) => scan_manifest_rest(
                                                        s12,
                                                        schema,
                                                        pv,
                                                        ts,
                                                        proj,
                                                        job,
                                                        prof,
                                                    ),
                                                },
                                            },
                                        },
                                    },
                                },
                            },
                        },
                    },
                },
            },
        },
    }
}

/// Continuation of `scan_manifest` after the profile field.
pub open spec fn scan_manifest_rest(
    s: Seq<char>,
    schema: Seq<char>,
    pv: Seq<char>,
    ts: Seq<char>,
    proj: Seq<char>,
    job: Seq<char>,
    prof: Seq<char>,
) -> Option<(ManifestView, Seq<char>)> {
    match scan_lit(s, ",\"namespace\":"@) {
        None => None,
        Some(s1) => match scan_str(s1) {
            None => None,
            Some((ns, s2)) => match scan_lit(s2, ",\"env_id\":"@) {
                None => None,
                Some(s3) => match scan_str(s3) {
                    None => None,
                    Some((envid, s4)) => match scan_lit(s4, ",\"base_image_digest\":"@) {
                        None => None,
                        Some(s5) => match scan_opt_str(s5) {
                            None => None,
                            Some((digest, s6)) => match scan_lit(
                                s6,
                                ",\"base_image_digest_status\":"@,
                            ) {
                                None => None,
                                Some(s7) => match scan_opt_str(s7) {
                                    None => None,
                                    Some((status, s8)) => match scan_lit(s8, ",\"steps\":["@) {
                                        None => None,
                                        Some(s9) => match scan_steps_list(s9, Seq::empty()) {
                                            None => None,
                                            Some((steps, s10)) => match scan_lit(
                                                s10,
                                                ",\"result\":"@,
                                            ) {
                                                None => None,
                                                Some(s11) => match scan_result(s11) {
                                                    None => None,
                                                    Some((result, s12)) => match scan_lit(
                                                        s12,
                                                        "}"@,
                                                    ) {
                                                        None => None,
                                                        Some(s13) => Some(
                                                            (
                                                                ManifestView {
                                                                    schema: schema,
                                                                    podci_version: pv,
                                                                    timestamp_utc: ts,
                                                                    project: proj,
                                                                    job: job,
                                                                    profile: prof,
                                                                    namespace: ns,
                                                                    env_id: envid,
                                                                    base_image_digest: digest,
                                                                    base_image_digest_status:
                                                                        status,
                                                                    steps: steps,
                                                                    result: result,
                                                                },
                                                                s13,
                                                            ),
                                                        ),
                                                    },
                                                },
                                            },
                                        },
                                    },
                                },
                            },
                        },
                    },
                },
            },
        },
    }
}

/// The tail of a manifest document, from the namespace field on,
/// grouped as the parser consumes it.
pub open spec fn manifest_tail_chars(v: ManifestView, rest: Seq<char>) -> Seq<char> {
    ",\"namespace\":"@ + (json_str(v.namespace) + (",\"env_id\":"@ + (json_str(v.env_id) + (
    ",\"base_image_digest\":"@ + (opt_str_json(v.base_image_digest) + (
    ",\"base_image_digest_status\":"@ + (opt_str_json(v.base_image_digest_status) + (
    ",\"steps\":["@ + (steps_upto(v.steps, v.steps.len() as int) + ("]"@ + (",\"result\":"@ + (
    result_json(v.result) + ("}"@ + rest)))))))))))))
}

/// The head of a manifest document, through the profile field,
/// grouped as the parser consumes it.
pub open spec fn manifest_head_chars(v: ManifestView, tail: Seq<char>) -> Seq<char> {
    "{\"schema\":"@ + (json_str(v.schema) + (",\"podci_version\":"@ + (json_str(v.podci_version)
        + (",\"timestamp_utc\":"@ + (json_str(v.timestamp_utc) + (",\"project\":"@ + (json_str(
    v.project,
    ) + (",\"job\":"@ + (json_str(v.job) + (",\"profile\":"@ + (json_str(v.profile)
        + tail)))))))))))
}

/// A whole manifest document regroups into its parsing shape.
#[verifier::rlimit(100)]
pub proof fn lemma_manifest_shape(v: ManifestView, rest: Seq<char>)
    ensures
        manifest_json(v) + rest == manifest_head_chars(v, manifest_tail_chars(v, rest)),
{
    let sl = v.steps.len() as int;
    let t13 = rest;
    let t12 = "}"@ + t13;
    let t11 = result_json(v.result) + t12;
    let t10 = ",\"result\":"@ + t11;
    let t9c = "]"@ + t10;
    let t9 = steps_upto(v.steps, sl) + t9c;
    let t8 = ",\"steps\":["@ + t9;
    let t7 = opt_str_json(v.base_image_digest_status) + t8;
    let t6 = ",\"base_image_digest_status\":"@ + t7;
    let t5 = opt_str_json(v.base_image_digest) + t6;
    let t4 = ",\"base_image_digest\":"@ + t5;
    let t3 = json_str(v.env_id) + t4;
    let t2 = ",\"env_id\":"@ + t3;
    let t1 = json_str(v.namespace) + t2;
    let t0 = ",\"namespace\":"@ + t1;
    let u11 = json_str(v.profile) + t0;
    let u10 = ",\"profile\":"@ + u11;
    let u9 = json_str(v.job) + u10;
    let u8 = ",\"job\":"@ + u9;
    let u7 = json_str(v.project) + u8;
    let u6 = ",\"project\":"@ + u7;
    let u5 = json_str(v.timestamp_utc) + u6;
    let u4 = ",\"timestamp_utc\":"@ + u5;
    let u3 = json_str(v.podci_version) + u4;
    let u2 = ",\"podci_version\":"@ + u3;
    let u1 = json_str(v.schema) + u2;
    let u0 = "{\"schema\":"@ + u1;
    let p1 = "{\"schema\":"@ + json_str(v.schema);
    let p2 = p1 + ",\"podci_version\":"@;
    let p3 = p2 + json_str(v.podci_version);
    let p4 = p3 + ",\"timestamp_utc\":"@;
    let p5 = p4 + json_str(v.timestamp_utc);
    let p6 = p5 + ",\"project\":"@;
    let p7 = p6 + json_str(v.project);
    let p8 = p7 + ",\"job\":"@;
    let p9 = p8 + json_str(v.job);
    let p10 = p9 + ",\"profile\":"@;
    let p11 = p10 + json_str(v.profile);
    let p12 = p11 + ",\"namespace\":"@;
    let p13 = p12 + json_str(v.namespace);
    let p14 = p13 + ",\"env_id\":"@;
    let p15 = p14 + json_str(v.env_id);
    let p16 = p15 + ",\"base_image_digest\":"@;
    let p17 = p16 + opt_str_json(v.base_image_digest);
    let p18 = p17 + ",\"base_image_digest_status\":"@;
    let p19 = p18 + opt_str_json(v.base_image_digest_status);
    let p20 = p19 + ",\"steps\":["@;
    let p21 = p20 + steps_upto(v.steps, sl);
    let p22 = p21 + "]"@;
    let p23 = p22 + ",\"result\":"@;
    let p24 = p23 + result_json(v.result);
    assert(manifest_json(v) == p24 + "}"@);
    crate::text::lemma_app_assoc(p24, "}"@, t13);
    crate::text::lemma_app_assoc(p23, result_json(v.result), t12);
    crate::text::lemma_app_assoc(p22, ",\"result\":"@, t11);
    crate::text::lemma_app_assoc(p21, "]"@, t10);
    crate::text::lemma_app_assoc(p20, steps_upto(v.steps, sl), t9c);
    crate::text::lemma_app_assoc(p19, ",\"steps\":["@, t9);
    crate::text::lemma_app_assoc(p18, opt_str_json(v.base_image_digest_status), t8);
    crate::text::lemma_app_assoc(p17, ",\"base_image_digest_status\":"@, t7);
    crate::text::lemma_app_assoc(p16, opt_str_json(v.base_image_digest), t6);
    crate::text::lemma_app_assoc(p15, ",\"base_image_digest\":"@, t5);
    crate::text::lemma_app_assoc(p14, json_str(v.env_id), t4);
    crate::text::lemma_app_assoc(p13, ",\"env_id\":"@, t3);
    crate::text::lemma_app_assoc(p12, json_str(v.namespace), t2);
    crate::text::lemma_app_assoc(p11, ",\"namespace\":"@, t1);
    crate::text::lemma_app_assoc(p10, json_str(v.profile), t0);
    crate::text::lemma_app_assoc(p9, ",\"profile\":"@, u11);
    crate::text::lemma_app_assoc(p8, json_str(v.job), u10);
    crate::text::lemma_app_assoc(p7, ",\"job\":"@, u9);
    crate::text::lemma_app_assoc(p6, json_str(v.project), u8);
    crate::text::lemma_app_assoc(p5, ",\"project\":"@, u7);
    crate::text::lemma_app_assoc(p4, json_str(v.timestamp_utc), u6);
    crate::text::lemma_app_assoc(p3, ",\"timestamp_utc\":"@, u5);
    crate::text::lemma_app_assoc(p2, json_str(v.podci_version), u4);
    crate::text::lemma_app_assoc(p1, ",\"podci_version\":"@, u3);
    crate::text::lemma_app_assoc("{\"schema\":"@, json_str(v.schema), u2);
    assert(manifest_json(v) + rest == u0);
}

/// Parsing the tail of an encoded manifest recovers the remaining
/// fields.
#[verifier::rlimit(100)]
pub proof fn lemma_scan_manifest_tail(v: ManifestView, rest: Seq<char>)
    requires
        v.wf(),
    ensures
        scan_manifest_rest(
            manifest_tail_chars(v, rest),
            v.schema,
            v.podci_version,
            v.timestamp_utc,
            v.project,
            v.job,
            v.profile,
        ) == Some((v, rest)),
{
    reveal_strlit(",\"result\":");
    reveal_strlit("}");
    reveal_strlit("]");
    let sl = v.steps.len() as int;
    let t13 = rest;
    let t12 = "}"@ + t13;
    let t11 = result_json(v.result) + t12;
    let t10 = ",\"result\":"@ + t11;
    let t9c = "]"@ + t10;
    let t9 = steps_upto(v.steps, sl) + t9c;
    let t8 = ",\"steps\":["@ + t9;
    let t7 = opt_str_json(v.base_image_digest_status) + t8;
    let t6 = ",\"base_image_digest_status\":"@ + t7;
    let t5 = opt_str_json(v.base_image_digest) + t6;
    let t4 = ",\"base_image_digest\":"@ + t5;
    let t3 = json_str(v.env_id) + t4;
    let t2 = ",\"env_id\":"@ + t3;
    let t1 = json_str(v.namespace) + t2;
    let t0 = ",\"namespace\":"@ + t1;
    assert(manifest_tail_chars(v, rest) == t0);
    lemma_scan_lit(",\"namespace\":"@, t1);
    lemma_scan_str(v.namespace, t2);
    lemma_scan_lit(",\"env_id\":"@, t3);
    lemma_scan_str(v.env_id, t4);
    lemma_scan_lit(",\"base_image_digest\":"@, t5);
    lemma_scan_opt_str(v.base_image_digest, t6);
    lemma_scan_lit(",\"base_image_digest_status\":"@, t7);
    lemma_scan_opt_str(v.base_image_digest_status, t8);
    lemma_scan_lit(",\"steps\":["@, t9);
    lemma_steps_split(v.steps, sl);
    assert(steps_suffix(v.steps, sl) == Seq::<char>::empty());
    assert(steps_upto(v.steps, sl) =~= steps_suffix(v.steps, 0));
    assert(t9 =~= steps_suffix(v.steps, 0) + seq![']'] + t10);
    assert(t10[0] == ',');
    lemma_scan_steps(v.steps, 0, t10);
    assert(Seq::<StepView>::empty() =~= v.steps.take(0));
    lemma_scan_lit(",\"result\":"@, t11);
    lemma_scan_result(v.result, t12);
    lemma_scan_lit("}"@, t13);
}

/// Parsing an encoded manifest recovers it: the round trip is exact.
#[verifier::rlimit(100)]
pub proof fn lemma_scan_manifest(v: ManifestView, rest: Seq<char>)
    requires
        v.wf(),
    ensures
        scan_manifest(manifest_json(v) + rest) == Some((v, rest)),
{
    lemma_manifest_shape(v, rest);
    let tail = manifest_tail_chars(v, rest);
    let u11 = json_str(v.profile) + tail;
    let u10 = ",\"profile\":"@ + u11;
    let u9 = json_str(v.job) + u10;
    let u8 = ",\"job\":"@ + u9;
    let u7 = json_str(v.project) + u8;
    let u6 = ",\"project\":"@ + u7;
    let u5 = json_str(v.timestamp_utc) + u6;
    let u4 = ",\"timestamp_utc\":"@ + u5;
    let u3 = json_str(v.podci_version) + u4;
    let u2 = ",\"podci_version\":"@ + u3;
    let u1 = json_str(v.schema) + u2;
    let u0 = "{\"schema\":"@ + u1;
    assert(manifest_head_chars(v, tail) == u0);
    lemma_scan_lit("{\"schema\":"@, u1);
    lemma_scan_str(v.schema, u2);
    lemma_scan_lit(",\"podci_version\":"@, u3);
    lemma_scan_str(v.podci_version, u4);
    lemma_scan_lit(",\"timestamp_utc\":"@, u5);
    lemma_scan_str(v.timestamp_utc, u6);
    lemma_scan_lit(",\"project\":"@, u7);
    lemma_scan_str(v.project, u8);
    lemma_scan_lit(",\"job\":"@, u9);
    lemma_scan_str(v.job, u10);
    lemma_scan_lit(",\"profile\":"@, u11);
    lemma_scan_str(v.profile, tail);
    lemma_scan_manifest_tail(v, rest);
    assert(scan_manifest(u0) == Some((v, rest)));
}

/// The accumulated value only grows while scanning digits.
pub proof fn lemma_scan_digits_ge(s: Seq<char>, acc: int)
    requires
        acc >= 0,
    ensures
        scan_digits(s, acc).0 >= acc,
    decreases s.len(),
{
    if s.len() > 0 && is_digit(s[0]) {
        lemma_scan_digits_ge(s.drop_first(), acc * 10 + digit_val(s[0]));
    }
}

/// Expect the exact literal `lit` at position `i`.
fn p_lit(s: &Vec<char>, i: usize, lit: &str) -> (r: Option<usize>)
    requires
        i <= s@.len(),
    ensures
        match r {
            Some(j) => i <= j <= s@.len() && scan_lit(s@.skip(i as int), lit@) == Some(
                s@.skip(j as int),
            ),
            None => scan_lit(s@.skip(i as int), lit@) is None,
        },
{
    let m: usize = lit.unicode_len();
    if m > s.len() - i {
        return None;
    }
    let mut k: usize = 0;
    while k < m
        invariant
            i + m <= s@.len(),
            s@.len() <= usize::MAX,
            m == lit@.len(),
            k <= m,
            forall|t: int| 0 <= t < k ==> s@[i + t] == lit@[t],
        decreases m - k,
    {
        if s[i + k] != lit.get_char(k) {
            proof {
                assert(s@.skip(i as int).take(m as int)[k as int] == s@[i + k]);
                assert(s@.skip(i as int).take(m as int) != lit@);
            }
            return None;
        }
        k = k + 1;
    }
    proof {
        assert(s@.skip(i as int).take(m as int) =~= lit@);
        assert(s@.skip(i as int).skip(m as int) =~= s@.skip(i + m));
    }
    Some(i + m)
}

/// The numeric value of a lower-case hex digit, or -1.
fn p_hex_val(c: char) -> (r: i32)
    ensures
        r as int == hex_val(c),
{
    let u = c as u32;
    if 48 <= u && u <= 57 {
        (u - 48) as i32
    } else if 97 <= u && u <= 102 {
        (u - 87) as i32
    } else {
        -1
    }
}

/// Parse a string literal at position `i`.
fn p_str(s: &Vec<char>, i: usize) -> (r: Option<(String, usize)>)
    requires
        i <= s@.len(),
    ensures
        match r {
            Some((v, j)) => i < j <= s@.len() && scan_str(s@.skip(i as int)) == Some(
                (v@, s@.skip(j as int)),
            ),
            None => scan_str(s@.skip(i as int)) is None,
        },
{
    if i >= s.len() || s[i] != '"' {
        proof {
            if i < s@.len() {
                assert(s@.skip(i as int)[0] == s@[i as int]);
            }
        }
        return None;
    }
    proof {
        assert(s@.skip(i as int)[0] == s@[i as int]);
        assert(s@.skip(i as int).drop_first() =~= s@.skip(i + 1));
    }
    let mut pos: usize = i + 1;
    let mut out: Vec<char> = Vec::new();
    proof {
        assert(scan_str(s@.skip(i as int)) == scan_str_body(s@.skip(i + 1), Seq::empty()));
    }
    loop
        invariant
            i < s@.len(),
            s@.len() <= usize::MAX,
            i + 1 <= pos <= s@.len(),
            scan_str(s@.skip(i as int)) == scan_str_body(s@.skip(pos as int), out@),
        decreases s@.len() - pos,
    {
        if pos >= s.len() {
            proof {
                assert(s@.skip(pos as int).len() == 0);
            }
            return None;
        }
        let ghost tail = s@.skip(pos as int);
        proof {
            assert(tail[0] == s@[pos as int]);
        }
        let c = s[pos];
        if c == '"' {
            proof {
                assert(tail.drop_first() =~= s@.skip(pos + 1));
            }
            let v = chars_to_string(&out);
            return Some((v, pos + 1));
        }
        if c == '\\' {
            if pos + 1 >= s.len() {
                proof {
                    assert(tail.len() < 2);
                }
                return None;
            }
            proof {
                assert(tail[1] == s@[pos + 1]);
            }
            let e = s[pos + 1];
            if e == '"' || e == '\\' {
                let ghost o0 = out@;
                out.push(e);
                proof {
                    assert(out@ =~= o0 + seq![e]);
                    assert(tail.skip(2) =~= s@.skip(pos + 2));
                }
                pos = pos + 2;
            } else if e == 'u' {
                if s.len() - pos < 6 {
                    proof {
                        assert(tail.len() < 6);
                    }
                    return None;
                }
                proof {
                    assert(tail[2] == s@[pos + 2] && tail[3] == s@[pos + 3] && tail[4] == s@[pos
                        + 4] && tail[5] == s@[pos + 5]);
                }
                if s[pos + 2] != '0' || s[pos + 3] != '0' {
                    return None;
                }
                let h1 = p_hex_val(s[pos + 4]);
                let h2 = p_hex_val(s[pos + 5]);
                let code = h1 * 16 + h2;
                if h1 < 0 || h2 < 0 || code >= 32 {
                    return None;
                }
                let ghost o0 = out@;
                out.push((code as u8) as char);
                proof {
                    assert(out@ =~= o0 + seq![((code as u8) as char)]);
                    assert(tail.skip(6) =~= s@.skip(pos + 6));
                }
                pos = pos + 6;
            } else {
                return None;
            }
        } else if (c as u32) < 32 {
            return None;
        } else {
            let ghost o0 = out@;
            out.push(c);
            proof {
                assert(out@ =~= o0 + seq![c]);
                assert(tail.drop_first() =~= s@.skip(pos + 1));
            }
            pos = pos + 1;
        }
    }
}

/// Parse an unsigned decimal at position `i`, bounded by `u64`.
fn p_u64(s: &Vec<char>, i: usize) -> (r: Option<(u64, usize)>)
    requires
        i <= s@.len(),
    ensures
        match r {
            Some((v, j)) => i < j <= s@.len() && scan_nat(s@.skip(i as int)) == Some(
                (v as int, s@.skip(j as int)),
            ),
            None => scan_nat(s@.skip(i as int)) is None || (scan_nat(s@.skip(i as int)) matches
                Some((v, rr)) && v > u64::MAX),
        },
{
    if i >= s.len() {
        return None;
    }
    let c0 = s[i];
    proof {
        assert(s@.skip(i as int)[0] == s@[i as int]);
    }
    let u0 = c0 as u32;
    if !(48 <= u0 && u0 <= 57) {
        return None;
    }
    let mut pos: usize = i;
    let mut acc: u64 = 0;
    proof {
        assert(scan_nat(s@.skip(i as int)) == Some(scan_digits(s@.skip(i as int), 0)));
    }
    loop
        invariant
            i <= pos <= s@.len(),
            s@.len() <= usize::MAX,
            pos == i ==> pos < s@.len() && is_digit(s@[pos as int]),
            scan_nat(s@.skip(i as int)) == Some(scan_digits(s@.skip(pos as int), acc as int)),
        decreases s@.len() - pos,
    {
        if pos >= s.len() {
            proof {
                assert(s@.skip(pos as int).len() == 0);
            }
            return Some((acc, pos));
        }
        let ghost tail = s@.skip(pos as int);
        proof {
            assert(tail[0] == s@[pos as int]);
        }
        let c = s[pos];
        let u = c as u32;
        if !(48 <= u && u <= 57) {
            return Some((acc, pos));
        }
        let d: u64 = (u - 48) as u64;
        if acc > (u64::MAX - d) / 10 {
            proof {
                lemma_scan_digits_ge(tail.drop_first(), (acc as int) * 10 + (d as int));
                assert((acc as int) * 10 + (d as int) > u64::MAX);
                assert(tail.drop_first() =~= s@.skip(pos + 1));
            }
            return None;
        }
        acc = acc * 10 + d;
        proof {
            assert(tail.drop_first() =~= s@.skip(pos + 1));
        }
        pos = pos + 1;
    }
}

/// Parse a possibly negative decimal at position `i`, bounded by
/// `i32`.
fn p_i32(s: &Vec<char>, i: usize) -> (r: Option<(i32, usize)>)
    requires
        i <= s@.len(),
    ensures
        match r {
            Some((v, j)) => i < j <= s@.len() && scan_int(s@.skip(i as int)) == Some(
                (v as int, s@.skip(j as int)),
            ),
            None => scan_int(s@.skip(i as int)) is None || (scan_int(s@.skip(i as int)) matches
                Some((v, rr)) && !(i32::MIN <= v <= i32::MAX)),
        },
{
    if i >= s.len() {
        return None;
    }
    proof {
        assert(s@.skip(i as int)[0] == s@[i as int]);
    }
    if s[i] == '-' {
        proof {
            assert(s@.skip(i as int).drop_first() =~= s@.skip(i + 1));
        }
        match p_u64(s, i + 1) {
            None => None,
            Some((m, j)) => {
                if m > 2147483648u64 {
                    return None;
                }
                if m == 2147483648u64 {
                    Some((i32::MIN, j))
                } else {
                    Some((-(m as i32), j))
                }
            },
        }
    } else {
        match p_u64(s, i) {
            None => None,
            Some((m, j)) => {
                if m > 2147483647u64 {
                    return None;
                }
                Some((m as i32, j))
            },
        }
    }
}

/// Parse `null` or a string literal.
fn p_opt_str(s: &Vec<char>, i: usize) -> (r: Option<(Option<String>, usize)>)
    requires
        i <= s@.len(),
    ensures
        match r {
            Some((v, j)) => i < j <= s@.len() && scan_opt_str(s@.skip(i as int)) == Some(
                (crate::manifest::opt_view(v), s@.skip(j as int)),
            ),
            None => scan_opt_str(s@.skip(i as int)) is None,
        },
{
    proof {
        if i < s@.len() {
            assert(s@.skip(i as int)[0] == s@[i as int]);
        }
        reveal_strlit("null");
    }
    if i < s.len() && s[i] == '"' {
        match p_str(s, i) {
            None => None,
            Some((v, j)) => Some((Some(v), j)),
        }
    } else {
        match p_lit(s, i, "null") {
            None => None,
            Some(j) => {
                proof {
                    assert(j > i) by {
                        assert(s@.skip(i as int).skip(4) == s@.skip(j as int));
                    }
                }
                Some((None, j))
            },
        }
    }
}

/// Parse `null` or an unsigned decimal.
fn p_opt_u64(s: &Vec<char>, i: usize) -> (r: Option<(Option<u64>, usize)>)
    requires
        i <= s@.len(),
    ensures
        match r {
            Some((v, j)) => i < j <= s@.len() && scan_opt_nat(s@.skip(i as int)) == Some(
                (
                    match v {
                        Some(d) => Some(d as int),
                        None => None,
                    },
                    s@.skip(j as int),
                ),
            ),
            None => scan_opt_nat(s@.skip(i as int)) is None || (scan_opt_nat(
                s@.skip(i as int),
            ) matches Some((v, rr)) && (v matches Some(n) && n > u64::MAX)),
        },
{
    proof {
        if i < s@.len() {
            assert(s@.skip(i as int)[0] == s@[i as int]);
        }
        reveal_strlit("null");
    }
    if i < s.len() && {
        let u = s[i] as u32;
        48 <= u && u <= 57
    } {
        match p_u64(s, i) {
            None => None,
            Some((v, j)) => Some((Some(v), j)),
        }
    } else {
        match p_lit(s, i, "null") {
            None => None,
            Some(j) => {
                proof {
                    assert(j > i) by {
                        assert(s@.skip(i as int).skip(4) == s@.skip(j as int));
                    }
                }
                Some((None, j))
            },
        }
    }
}

/// Parse `null` or a signed decimal.
fn p_opt_i32(s: &Vec<char>, i: usize) -> (r: Option<(Option<i32>, usize)>)
    requires
        i <= s@.len(),
    ensures
        match r {
            Some((v, j)) => i < j <= s@.len() && scan_opt_int(s@.skip(i as int)) == Some(
                (
                    match v {
                        Some(c) => Some(c as int),
                        None => None,
                    },
                    s@.skip(j as int),
                ),
            ),
            None => scan_opt_int(s@.skip(i as int)) is None || (scan_opt_int(
                s@.skip(i as int),
            ) matches Some((v, rr)) && (v matches Some(n) && !(i32::MIN <= n <= i32::MAX))),
        },
{
    proof {
        if i < s@.len() {
            assert(s@.skip(i as int)[0] == s@[i as int]);
        }
        reveal_strlit("null");
    }
    if i < s.len() && {
        let u = s[i] as u32;
        (48 <= u && u <= 57) || s[i] == '-'
    } {
        match p_i32(s, i) {
            None => None,
            Some((v, j)) => Some((Some(v), j)),
        }
    } else {
        match p_lit(s, i, "null") {
            None => None,
            Some(j) => {
                proof {
                    assert(j > i) by {
                        assert(s@.skip(i as int).skip(4) == s@.skip(j as int));
                    }
                }
                Some((None, j))
            },
        }
    }
}

/// Parse a boolean literal.
fn p_bool(s: &Vec<char>, i: usize) -> (r: Option<(bool, usize)>)
    requires
        i <= s@.len(),
    ensures
        match r {
            Some((v, j)) => i < j <= s@.len() && scan_bool(s@.skip(i as int)) == Some(
                (v, s@.skip(j as int)),
            ),
            None => scan_bool(s@.skip(i as int)) is None,
        },
{
    proof {
        if i < s@.len() {
            assert(s@.skip(i as int)[0] == s@[i as int]);
        }
        reveal_strlit("true");
        reveal_strlit("false");
    }
    if i < s.len() && s[i] == 't' {
        match p_lit(s, i, "true") {
            None => None,
            Some(j) => {
                proof {
                    assert(j > i) by {
                        assert(s@.skip(i as int).skip(4) == s@.skip(j as int));
                    }
                }
                Some((true, j))
            },
        }
    } else {
        match p_lit(s, i, "false") {
            None => None,
            Some(j) => {
                proof {
                    assert(j > i) by {
                        assert(s@.skip(i as int).skip(5) == s@.skip(j as int));
                    }
                }
                Some((false, j))
            },
        }
    }
}

/// Parse a string array body (after the opening bracket).
fn p_str_list(s: &Vec<char>, i: usize) -> (r: Option<(Vec<String>, usize)>)
    requires
        i <= s@.len(),
    ensures
        match r {
            Some((v, j)) => i < j <= s@.len() && scan_str_list(s@.skip(i as int), Seq::empty())
                == Some((v.deep_view(), s@.skip(j as int))),
            None => scan_str_list(s@.skip(i as int), Seq::empty()) is None,
        },
{
    let n = s.len();
    let mut pos: usize = i;
    let mut out: Vec<String> = Vec::new();
    proof {
        assert(out.deep_view() =~= Seq::<Seq<char>>::empty());
    }
    loop
        invariant
            i <= pos <= s@.len(),
            n == s@.len(),
            scan_str_list(s@.skip(i as int), Seq::empty()) == scan_str_list(
                s@.skip(pos as int),
                out.deep_view(),
            ),
        decreases s@.len() - pos,
    {
        if pos >= s.len() {
            proof {
                assert(s@.skip(pos as int).len() == 0);
            }
            return None;
        }
        let ghost tail = s@.skip(pos as int);
        proof {
            assert(tail[0] == s@[pos as int]);
        }
        let c = s[pos];
        if c == ']' {
            proof {
                assert(tail.drop_first() =~= s@.skip(pos + 1));
            }
            return Some((out, pos + 1));
        }
        let at: usize = if out.len() == 0 {
            pos
        } else {
            if c != ',' {
                return None;
            }
            proof {
                assert(tail.drop_first() =~= s@.skip(pos + 1));
            }
            pos + 1
        };
        match p_str(s, at) {
            None => {
                return None;
            },
            Some((v, j)) => {
                let ghost o0 = out.deep_view();
                out.push(v);
                proof {
                    assert(out.deep_view() =~= o0.push(v@));
                }
                pos = j;
            },
        }
    }
}

/// Parse one step record.
#[verifier::rlimit(100)]
fn p_step(s: &Vec<char>, i: usize) -> (r: Option<(ManifestStepV1, usize)>)
    requires
        i <= s@.len(),
    ensures
        match r {
            Some((v, j)) => i <= j <= s@.len() && scan_step(s@.skip(i as int)) == Some(
                (v@, s@.skip(j as int)),
            ),
            None => !(scan_step(s@.skip(i as int)) matches Some((g, rr)) && g.wf()),
        },
{
    let j0 = match p_lit(s, i, "{\"name\":") {
        None => {
            return None;
        },
        Some(j) => j,
    };
    let (name, j1) = match p_str(s, j0) {
        None => {
            return None;
        },
        Some(x) => x,
    };
    let j2 = match p_lit(s, j1, ",\"argv\":[") {
        None => {
            return None;
        },
        Some(j) => j,
    };
    let (argv, j3) = match p_str_list(s, j2) {
        None => {
            return None;
        },
        Some(x) => x,
    };
    let j4 = match p_lit(s, j3, ",\"duration_ms\":") {
        None => {
            return None;
        },
        Some(j) => j,
    };
    let (dur, j5) = match p_opt_u64(s, j4) {
        None => {
            return None;
        },
        Some(x) => x,
    };
    let j6 = match p_lit(s, j5, ",\"exit_code\":") {
        None => {
            return None;
        },
        Some(j) => j,
    };
    let (code, j7) = match p_opt_i32(s, j6) {
        None => {
            return None;
        },
        Some(x) => x,
    };
    let j8 = match p_lit(s, j7, ",\"stdout_path\":") {
        None => {
            return None;
        },
        Some(j) => j,
    };
    let (sp, j9) = match p_opt_str(s, j8) {
        None => {
            return None;
        },
        Some(x) => x,
    };
    let j10 = match p_lit(s, j9, ",\"stderr_path\":") {
        None => {
            return None;
        },
        Some(j) => j,
    };
    let (ep, j11) = match p_opt_str(s, j10) {
        None => {
            return None;
        },
        Some(x) => x,
    };
    let j12 = match p_lit(s, j11, "}") {
        None => {
            return None;
        },
        Some(j) => j,
    };
    let step = ManifestStepV1 {
        name: name,
        argv: argv,
        duration_ms: dur,
        exit_code: code,
        stdout_path: sp,
        stderr_path: ep,
    };
    proof {
        assert(scan_step(s@.skip(i as int)) == Some((step@, s@.skip(j12 as int))));
    }
    Some((step, j12))
}

/// Parse a step array body (after the opening bracket).
fn p_steps(s: &Vec<char>, i: usize) -> (r: Option<(Vec<ManifestStepV1>, usize)>)
    requires
        i <= s@.len(),
    ensures
        match r {
            Some((v, j)) => i < j <= s@.len() && scan_steps_list(s@.skip(i as int), Seq::empty())
                == Some((v.deep_view(), s@.skip(j as int))),
            None => !(scan_steps_list(s@.skip(i as int), Seq::empty()) matches Some((g, rr))
                && forall|k: int| 0 <= k < g.len() ==> (#[trigger] g[k]).wf()),
        },
{
    let n = s.len();
    let mut pos: usize = i;
    let mut out: Vec<ManifestStepV1> = Vec::new();
    proof {
        assert(out.deep_view() =~= Seq::<StepView>::empty());
    }
    loop
        invariant
            i <= pos <= s@.len(),
            n == s@.len(),
            scan_steps_list(s@.skip(i as int), Seq::empty()) == scan_steps_list(
                s@.skip(pos as int),
                out.deep_view(),
            ),
        decreases s@.len() - pos,
    {
        if pos >= s.len() {
            proof {
                assert(s@.skip(pos as int).len() == 0);
            }
            return None;
        }
        let ghost tail = s@.skip(pos as int);
        proof {
            assert(tail[0] == s@[pos as int]);
        }
        let c = s[pos];
        if c == ']' {
            proof {
                assert(tail.drop_first() =~= s@.skip(pos + 1));
            }
            return Some((out, pos + 1));
        }
        let at: usize = if out.len() == 0 {
            pos
        } else {
            if c != ',' {
                return None;
            }
            proof {
                assert(tail.drop_first() =~= s@.skip(pos + 1));
            }
            pos + 1
        };
        match p_step(s, at) {
            None => {
                proof {
                    if let Some((g, rr)) = scan_steps_list(s@.skip(i as int), Seq::empty()) {
                        if forall|k: int| 0 <= k < g.len() ==> (#[trigger] g[k]).wf() {
                            if let Some((sv, r2)) = scan_step(s@.skip(at as int)) {
                                lemma_steps_list_elems(
                                    s@.skip(at as int),
                                    out.deep_view().push(sv),
                                    g,
                                    rr,
                                    sv,
                                    r2,
                                );
                            }
                        }
                    }
                }
                return None;
            },
            Some((v, j)) => {
                let ghost o0 = out.deep_view();
                proof {
                    if j == at {
                        lemma_scan_step_shrinks(s@.skip(at as int));
                    }
                }
                out.push(v);
                proof {
                    assert(out.deep_view() =~= o0.push(v@));
                }
                pos = j;
            },
        }
    }
}

/// Whatever a step-list scan returns contains its accumulator's new
/// element.
proof fn lemma_steps_list_elems(
    s: Seq<char>,
    acc: Seq<StepView>,
    g: Seq<StepView>,
    rr: Seq<char>,
    sv: StepView,
    r2: Seq<char>,
)
    requires
        acc.len() > 0,
        acc.last() == sv,
        scan_steps_list(r2, acc) == Some((g, rr)),
    ensures
        exists|k: int| 0 <= k < g.len() && g[k] == sv,
    decreases r2.len(),
{
    if r2.len() > 0 {
        if r2[0] == ']' {
            assert(g == acc);
            assert(g[acc.len() - 1] == sv);
        } else if r2[0] == ',' {
            if let Some((v2, r3)) = scan_step(r2.drop_first()) {
                let m = acc.len() - 1;
                assert(acc.push(v2)[m] == sv);
                lemma_steps_suffix_mem(r3, acc.push(v2), g, rr, m);
                assert(g[m] == sv);
            }
        }
    }
}

/// A step-list scan's result extends its accumulator.
proof fn lemma_steps_suffix_mem(
    s: Seq<char>,
    acc: Seq<StepView>,
    g: Seq<StepView>,
    rr: Seq<char>,
    m: int,
)
    requires
        scan_steps_list(s, acc) == Some((g, rr)),
        0 <= m < acc.len(),
    ensures
        g.len() >= acc.len(),
        g[m] == acc[m],
    decreases s.len(),
{
    if s.len() > 0 {
        if s[0] == ']' {
        } else if acc.len() == 0 {
        } else if s[0] == ',' {
            lemma_scan_step_shrinks(s.drop_first());
            if let Some((v2, r3)) = scan_step(s.drop_first()) {
                lemma_steps_suffix_mem(r3, acc.push(v2), g, rr, m);
            }
        }
    }
}

/// Parse a run result record.
fn p_result(s: &Vec<char>, i: usize) -> (r: Option<(ManifestResultV1, usize)>)
    requires
        i <= s@.len(),
    ensures
        match r {
            Some((v, j)) => i <= j <= s@.len() && scan_result(s@.skip(i as int)) == Some(
                (v@, s@.skip(j as int)),
            ),
            None => !(scan_result(s@.skip(i as int)) matches Some((g, rr)) && g.wf()),
        },
{
    let j0 = match p_lit(s, i, "{\"ok\":") {
        None => {
            return None;
        },
        Some(j) => j,
    };
    let (ok, j1) = match p_bool(s, j0) {
        None => {
            return None;
        },
        Some(x) => x,
    };
    let j2 = match p_lit(s, j1, ",\"exit_code\":") {
        None => {
            return None;
        },
        Some(j) => j,
    };
    let (code, j3) = match p_i32(s, j2) {
        None => {
            return None;
        },
        Some(x) => x,
    };
    let j4 = match p_lit(s, j3, ",\"error\":") {
        None => {
            return None;
        },
        Some(j) => j,
    };
    let (err, j5) = match p_opt_str(s, j4) {
        None => {
            return None;
        },
        Some(x) => x,
    };
    let j6 = match p_lit(s, j5, "}") {
        None => {
            return None;
        },
        Some(j) => j,
    };
    let res = ManifestResultV1 { ok: ok, exit_code: code, error: err };
    proof {
        assert(scan_result(s@.skip(i as int)) == Some((res@, s@.skip(j6 as int))));
    }
    Some((res, j6))
}

/// Parse the manifest fields from the namespace on, given the head
/// fields already read.
#[verifier::rlimit(100)]
fn p_manifest_rest(
    s: &Vec<char>,
    i: usize,
    schema: String,
    pv: String,
    ts: String,
    proj: String,
    job: String,
    prof: String,
) -> (r: Option<(ManifestV1, usize)>)
    requires
        i <= s@.len(),
    ensures
        match r {
            Some((m, j)) => i <= j <= s@.len() && scan_manifest_rest(
                s@.skip(i as int),
                schema@,
                pv@,
                ts@,
                proj@,
                job@,
                prof@,
            ) == Some((m@, s@.skip(j as int))),
            None => !(scan_manifest_rest(
                s@.skip(i as int),
                schema@,
                pv@,
                ts@,
                proj@,
                job@,
                prof@,
            ) matches Some((g, rr)) && g.wf()),
        },
{
    let j12 = match p_lit(s, i, ",\"namespace\":") {
        None => {
            return None;
        },
        Some(j) => j,
    };
    let (ns, j13) = match p_str(s, j12) {
        None => {
            return None;
        },
        Some(x) => x,
    };
    let j14 = match p_lit(s, j13, ",\"env_id\":") {
        None => {
            return None;
        },
        Some(j) => j,
    };
    let (envid, j15) = match p_str(s, j14) {
        None => {
            return None;
        },
        Some(x) => x,
    };
    let j16 = match p_lit(s, j15, ",\"base_image_digest\":") {
        None => {
            return None;
        },
        Some(j) => j,
    };
    let (digest, j17) = match p_opt_str(s, j16) {
        None => {
            return None;
        },
        Some(x) => x,
    };
    let j18 = match p_lit(s, j17, ",\"base_image_digest_status\":") {
        None => {
            return None;
        },
        Some(j) => j,
    };
    let (status, j19) = match p_opt_str(s, j18) {
        None => {
            return None;
        },
        Some(x) => x,
    };
    let j20 = match p_lit(s, j19, ",\"steps\":[") {
        None => {
            return None;
        },
        Some(j) => j,
    };
    let (steps, j21) = match p_steps(s, j20) {
        None => {
            proof {
                if let Some((g, rr)) = scan_manifest_rest(
                    s@.skip(i as int),
                    schema@,
                    pv@,
                    ts@,
                    proj@,
                    job@,
                    prof@,
                ) {
                    if g.wf() {
                        if let Some((gs, r2)) = scan_steps_list(
                            s@.skip(j20 as int),
                            Seq::empty(),
                        ) {
                            assert(gs == g.steps);
                            assert(forall|k: int|
                                0 <= k < gs.len() ==> (#[trigger] gs[k]).wf());
                        }
                        assert(false);
                    }
                }
            }
            return None;
        },
        Some(x) => x,
    };
    let j22 = match p_lit(s, j21, ",\"result\":") {
        None => {
            return None;
        },
        Some(j) => j,
    };
    let (result, j23) = match p_result(s, j22) {
        None => {
            proof {
                if let Some((g, rr)) = scan_manifest_rest(
                    s@.skip(i as int),
                    schema@,
                    pv@,
                    ts@,
                    proj@,
                    job@,
                    prof@,
                ) {
                    if g.wf() {
                        if let Some((gr, r2)) = scan_result(s@.skip(j22 as int)) {
                            assert(gr == g.result);
                            assert(gr.wf());
                        }
                        assert(false);
                    }
                }
            }
            return None;
        },
        Some(x) => x,
    };
    let j24 = match p_lit(s, j23, "}") {
        None => {
            return None;
        },
        Some(j) => j,
    };
    let m = ManifestV1 {
        schema: schema,
        podci_version: pv,
        timestamp_utc: ts,
        project: proj,
        job: job,
        profile: prof,
        namespace: ns,
        env_id: envid,
        base_image_digest: digest,
        base_image_digest_status: status,
        steps: steps,
        result: result,
    };
    proof {
        assert(scan_manifest_rest(s@.skip(i as int), schema@, pv@, ts@, proj@, job@, prof@)
            == Some((m@, s@.skip(j24 as int))));
    }
    Some((m, j24))
}

/// Parse a whole manifest document; the entire input must be
/// consumed.
#[verifier::rlimit(100)]
pub fn manifest_from_json(text: &str) -> (r: Option<ManifestV1>)
    ensures
        match r {
            Some(m) => scan_manifest(text@) == Some((m@, Seq::<char>::empty())),
            None => !(scan_manifest(text@) matches Some((g, rest)) && rest.len() == 0 && g.wf()),
        },
{
    let s = crate::text::str_chars(text);
    proof {
        assert(s@.skip(0) =~= text@);
    }
    let j0 = match p_lit(&s, 0, "{\"schema\":") {
        None => {
            return None;
        },
        Some(j) => j,
    };
    let (schema, j1) = match p_str(&s, j0) {
        None => {
            return None;
        },
        Some(x) => x,
    };
    let j2 = match p_lit(&s, j1, ",\"podci_version\":") {
        None => {
            return None;
        },
        Some(j) => j,
    };
    let (pv, j3) = match p_str(&s, j2) {
        None => {
            return None;
        },
        Some(x) => x,
    };
    let j4 = match p_lit(&s, j3, ",\"timestamp_utc\":") {
        None => {
            return None;
        },
        Some(j) => j,
    };
    let (ts, j5) = match p_str(&s, j4) {
        None => {
            return None;
        },
        Some(x) => x,
    };
    let j6 = match p_lit(&s, j5, ",\"project\":") {
        None => {
            return None;
        },
        Some(j) => j,
    };
    let (proj, j7) = match p_str(&s, j6) {
        None => {
            return None;
        },
        Some(x) => x,
    };
    let j8 = match p_lit(&s, j7, ",\"job\":") {
        None => {
            return None;
        },
        Some(j) => j,
    };
    let (job, j9) = match p_str(&s, j8) {
        None => {
            return None;
        },
        Some(x) => x,
    };
    let j10 = match p_lit(&s, j9, ",\"profile\":") {
        None => {
            return None;
        },
        Some(j) => j,
    };
    let (prof, j11) = match p_str(&s, j10) {
        None => {
            return None;
        },
        Some(x) => x,
    };
    let (m, j24) = match p_manifest_rest(&s, j11, schema, pv, ts, proj, job, prof) {
        None => {
            return None;
        },
        Some(x) => x,
    };
    if j24 != s.len() {
        proof {
            assert(s@.skip(j24 as int).len() > 0);
        }
        return None;
    }
    proof {
        assert(s@.skip(j24 as int) =~= Seq::<char>::empty());
        assert(scan_manifest(text@) == Some((m@, Seq::<char>::empty())));
    }
    Some(m)
}

} // verus!
