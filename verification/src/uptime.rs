//! Uptime: reading `/proc/uptime` and writing a duration as days, hours,
//! minutes and seconds.
use vstd::prelude::*;

use crate::text;

verus! {

/// Seconds in a day, an hour and a minute.
pub const SECONDS_PER_DAY: u64 = 86_400;
pub const SECONDS_PER_HOUR: u64 = 3_600;
pub const SECONDS_PER_MINUTE: u64 = 60;

/// `total` seconds written as `"{days}d {hours:02}h {minutes:02}m {seconds:02}s"`.
pub open spec fn uptime_text(total: nat) -> Seq<char> {
    text::decimal(total / 86_400) + "d "@ + text::two_digits((total % 86_400) / 3_600) + "h "@
        + text::two_digits((total % 3_600) / 60) + "m "@ + text::two_digits(total % 60) + "s"@
}

/// The four parts of [`uptime_text`] recompose the duration: each below its
/// unit's size, and together exactly `total` seconds.
pub proof fn lemma_uptime_parts(total: nat)
    ensures
        (total % 86_400) / 3_600 < 24,
        (total % 3_600) / 60 < 60,
        total % 60 < 60,
        (total / 86_400) * 86_400 + ((total % 86_400) / 3_600) * 3_600 + ((total % 3_600) / 60) * 60
            + total % 60 == total,
{
    assert((total % 86_400) / 3_600 < 24) by (nonlinear_arith);
    assert((total % 3_600) / 60 < 60) by (nonlinear_arith);
    assert(total == (total / 86_400) * 86_400 + total % 86_400) by (nonlinear_arith);
    let r = total % 86_400;
    assert(r == (r / 3_600) * 3_600 + r % 3_600) by (nonlinear_arith);
    assert(r % 3_600 == total % 3_600) by (nonlinear_arith)
        requires
            r == total % 86_400,
    ;
    let q = total % 3_600;
    assert(q == (q / 60) * 60 + q % 60) by (nonlinear_arith);
    assert(q % 60 == total % 60) by (nonlinear_arith)
        requires
            q == total % 3_600,
    ;
}

/// `d` days, `h` hours, `m` minutes and `s` seconds written out.
pub open spec fn parts_text(d: nat, h: nat, m: nat, s: nat) -> Seq<char> {
    text::decimal(d) + "d "@ + text::two_digits(h) + "h "@ + text::two_digits(m) + "m "@
        + text::two_digits(s) + "s"@
}

/// The text of `d`, `h`, `m`, `s` when they are a duration of `total`
/// seconds split into days, hours below 24, minutes below 60 and seconds
/// below 60.
pub open spec fn reads_back(text: Seq<char>, total: nat) -> bool {
    exists|d: nat, h: nat, m: nat, s: nat|
        {
            &&& h < 24
            &&& m < 60
            &&& s < 60
            &&& d * 86_400 + h * 3_600 + m * 60 + s == total
            &&& #[trigger] parts_text(d, h, m, s) == text
        }
}

/// The uptime text writes the duration split into days, hours, minutes and
/// seconds, each smaller unit below its size.
pub proof fn lemma_uptime_text_reads_back(total: nat)
    ensures
        reads_back(uptime_text(total), total),
{
    lemma_uptime_parts(total);
    let d = total / 86_400;
    let h = (total % 86_400) / 3_600;
    let m = (total % 3_600) / 60;
    let s = total % 60;
    assert(parts_text(d, h, m, s) == uptime_text(total));
}

/// Writes `total_seconds` as days, hours, minutes and seconds, such as
/// `"1d 02h 03m 04s"`.
pub fn format_uptime(total_seconds: u64) -> (r: String)
    ensures
        r@ == uptime_text(total_seconds as nat),
        reads_back(r@, total_seconds as nat),
{
    let days = total_seconds / SECONDS_PER_DAY;
    let hours = (total_seconds % SECONDS_PER_DAY) / SECONDS_PER_HOUR;
    let minutes = (total_seconds % SECONDS_PER_HOUR) / SECONDS_PER_MINUTE;
    let seconds = total_seconds % SECONDS_PER_MINUTE;
    let mut out = String::new();
    text::push_decimal(&mut out, days);
    out.append("d ");
    text::push_two_digits(&mut out, hours);
    out.append("h ");
    text::push_two_digits(&mut out, minutes);
    out.append("m ");
    text::push_two_digits(&mut out, seconds);
    out.append("s");
    assert(out@ =~= uptime_text(total_seconds as nat));
    proof {
        lemma_uptime_text_reads_back(total_seconds as nat);
    }
    out
}

/// The first white-space separated field of a `/proc/uptime` text, or the
/// error for a text that has none.
pub open spec fn uptime_field(input: Seq<char>) -> Result<Seq<char>, Seq<char>> {
    if text::fields(input).len() > 0 {
        Ok(text::fields(input)[0])
    } else {
        Err("Invalid /proc/uptime"@)
    }
}

/// The first white-space separated field of a `/proc/uptime` text: the
/// seconds since boot, not yet read as a number.
pub fn first_uptime_field(input: &str) -> (r: Result<String, String>)
    ensures
        match r {
            Ok(v) => uptime_field(input@) == Ok::<Seq<char>, Seq<char>>(v@),
            Err(e) => uptime_field(input@) == Err::<Seq<char>, Seq<char>>(e@),
        },
        // The first run of non-space characters, after white space only; an
        // input of white space alone is the error.
        match r {
            Ok(v) => exists|a: int|
                #![trigger input@.subrange(a, a + v@.len())]
                {
                    &&& 0 <= a && a + v@.len() <= input@.len()
                    &&& v@.len() > 0
                    &&& input@.subrange(a, a + v@.len()) == v@
                    &&& forall|j: int| 0 <= j < a ==> text::is_space(#[trigger] input@[j])
                    &&& forall|j: int| 0 <= j < v@.len() ==> !text::is_space(#[trigger] v@[j])
                    &&& (a + v@.len() == input@.len() || text::is_space(input@[a + v@.len()]))
                },
            Err(e) => e@ == "Invalid /proc/uptime"@ && forall|j: int|
                0 <= j < input@.len() ==> text::is_space(#[trigger] input@[j]),
        },
{
    let s = text::chars_of(input);
    match text::next_field(&s, 0) {
        None => Err("Invalid /proc/uptime".to_owned()),
        Some((a, b)) => {
            let v = input.substring_char(a, b).to_owned();
            assert(input@.subrange(a as int, a + v@.len()) == v@);
            assert forall|j: int| 0 <= j < v@.len() implies !text::is_space(#[trigger] v@[j]) by {
                assert(v@[j] == s@[a + j]);
            }
            Ok(v)
        },
    }
}

/// The uptime in whole seconds once the field `value` has been read as a
/// number: `seconds` holds that reading, or nothing when the field is no
/// number.
pub fn uptime_seconds_from(value: &str, seconds: Option<u64>) -> (r: Result<u64, String>)
    ensures
        match seconds {
            Some(n) => r == Ok::<u64, String>(n),
            None => r is Err && r->Err_0@ == "Invalid uptime value: "@ + value@,
        },
{
    match seconds {
        Some(n) => Ok(n),
        None => {
            let mut msg = "Invalid uptime value: ".to_owned();
            msg.append(value);
            Err(msg)
        },
    }
}

/// Seconds from `boot` to `now`.
pub fn elapsed_seconds(now: u64, boot: u64) -> (r: u64)
    requires
        boot <= now,
    ensures
        r == now - boot,
{
    now - boot
}

} // verus!
