//! Memory figures: `/proc/meminfo` parsing and kibibyte arithmetic.
use vstd::prelude::*;

use crate::text;

verus! {

/// Total and available memory, in KiB.
pub struct MemoryInfo {
    pub total_kib: u64,
    pub available_kib: u64,
}

impl MemoryInfo {
    /// Memory in use: total minus available.
    pub fn used_kib(&self) -> (r: u64)
        requires
            self.available_kib <= self.total_kib,
        ensures
            r == self.total_kib - self.available_kib,
    {
        self.total_kib - self.available_kib
    }
}

/// A `Result` whose error is text, with the text taken by its view.
pub open spec fn text_result<T>(r: Result<T, String>) -> Result<T, Seq<char>> {
    match r {
        Ok(v) => Ok(v),
        Err(e) => Err(e@),
    }
}

/// What one `/proc/meminfo` line gives: its second white-space separated
/// field, read as a `u64`.
pub open spec fn meminfo_value(line: Seq<char>) -> Result<u64, Seq<char>> {
    let f = text::fields(line);
    if f.len() < 2 {
        Err("Invalid meminfo line: "@ + line)
    } else {
        match text::parse_u64(f[1]) {
            Some(v) => Ok(v),
            None => Err("Invalid memory value: "@ + f[1]),
        }
    }
}

/// What a whole `/proc/meminfo` text gives: the values of the first line that
/// begins with `MemTotal:` and of the first that begins with `MemAvailable:`.
/// Both lines are looked up before either value is read.
pub open spec fn memory_info(input: Seq<char>) -> Result<(u64, u64), Seq<char>> {
    match text::first_with_prefix(text::lines(input), "MemTotal:"@) {
        None => Err("MemTotal not found"@),
        Some(total) => match text::first_with_prefix(text::lines(input), "MemAvailable:"@) {
            None => Err("MemAvailable not found"@),
            Some(available) => match meminfo_value(total) {
                Err(e) => Err(e),
                Ok(t) => match meminfo_value(available) {
                    Err(e) => Err(e),
                    Ok(a) => Ok((t, a)),
                },
            },
        },
    }
}

/// `"<prefix><rest>"` as a new `String`.
fn join_message(prefix: &str, rest: &str) -> (r: String)
    ensures
        r@ == prefix@ + rest@,
{
    let mut r = prefix.to_owned();
    r.append(rest);
    r
}

/// Reads the value of one `/proc/meminfo` line such as `MemTotal: 16 kB`.
pub fn parse_meminfo_value(line: &str) -> (r: Result<u64, String>)
    ensures
        text_result(r) == meminfo_value(line@),
{
    let s = text::chars_of(line);
    let first = text::next_field(&s, 0);
    match first {
        None => Err(join_message("Invalid meminfo line: ", line)),
        Some((_, b1)) => match text::next_field(&s, b1) {
            None => Err(join_message("Invalid meminfo line: ", line)),
            Some((a2, b2)) => {
                let ghost f = text::fields(s@);
                assert(f[1] == f.drop_first()[0]);
                assert(f[1] == s@.subrange(a2 as int, b2 as int));
                match text::parse_u64_range(&s, a2, b2) {
                    Some(v) => Ok(v),
                    None => Err(join_message("Invalid memory value: ", line.substring_char(a2, b2))),
                }
            },
        },
    }
}

/// Reads total and available memory out of a `/proc/meminfo` text.
pub fn parse_memory_info(input: &str) -> (r: Result<MemoryInfo, String>)
    ensures
        match r {
            Ok(m) => memory_info(input@) == Ok::<(u64, u64), Seq<char>>((m.total_kib, m.available_kib)),
            Err(e) => memory_info(input@) == Err::<(u64, u64), Seq<char>>(e@),
        },
{
    let s = text::chars_of(input);
    let total_prefix = text::chars_of("MemTotal:");
    let available_prefix = text::chars_of("MemAvailable:");
    let total_line = match text::find_line_with_prefix(&s, &total_prefix) {
        None => return Err("MemTotal not found".to_owned()),
        Some((a, b)) => input.substring_char(a, b),
    };
    let available_line = match text::find_line_with_prefix(&s, &available_prefix) {
        None => return Err("MemAvailable not found".to_owned()),
        Some((a, b)) => input.substring_char(a, b),
    };
    let total_kib = match parse_meminfo_value(total_line) {
        Ok(v) => v,
        Err(e) => return Err(e),
    };
    let available_kib = match parse_meminfo_value(available_line) {
        Ok(v) => v,
        Err(e) => return Err(e),
    };
    Ok(MemoryInfo { total_kib, available_kib })
}

/// Kibibytes in `bytes` bytes, rounded down.
pub fn total_memory_kib(bytes: u64) -> (r: u64)
    ensures
        r == bytes / 1024,
{
    bytes / 1024
}

/// Kibibytes in the free and inactive pages of `page_size` bytes each,
/// rounded down.
pub fn available_memory_kib(free_pages: u32, inactive_pages: u32, page_size: u64) -> (r: u64)
    requires
        (free_pages + inactive_pages) * page_size <= u64::MAX,
    ensures
        r == (free_pages + inactive_pages) * page_size / 1024,
{
    let pages = free_pages as u64 + inactive_pages as u64;
    let bytes = pages * page_size;
    bytes / 1024
}


/// A `/proc/meminfo` text with the two lines that are read, values in kB.
pub open spec fn meminfo_text(total: u64, available: u64) -> Seq<char> {
    "MemTotal: "@ + text::decimal(total as nat) + " kB\n"@ + "MemAvailable: "@ + text::decimal(
        available as nat,
    ) + " kB\n"@
}

/// The value of a line `<name> <decimal> kB` is the number written there.
pub proof fn lemma_value_of_line(name: Seq<char>, n: u64)
    requires
        name.len() > 0,
        forall|j: int| 0 <= j < name.len() ==> !text::is_space(#[trigger] name[j]),
    ensures
        meminfo_value(name + " "@ + text::decimal(n as nat) + " kB"@) == Ok::<u64, Seq<char>>(n),
{
    reveal_strlit(" ");
    reveal_strlit(" kB");
    let d = text::decimal(n as nat);
    text::lemma_decimal_plain(n as nat);
    text::lemma_decimal_digits(n as nat);
    let l = name + " "@ + d + " kB"@;
    let p = name.len() as int;
    let q = p + 1 + d.len();
    assert forall|j: int| 0 <= j < p implies !text::is_space(#[trigger] l[j]) by {
        assert(l[j] == name[j]);
    }
    assert(text::is_space(l[p]));
    text::lemma_token_end_at(l, 0, p);
    assert forall|j: int| p + 1 <= j < q implies !text::is_space(#[trigger] l[j]) by {
        assert(l[j] == d[j - p - 1]);
    }
    assert(text::is_space(l[q]));
    text::lemma_token_end_at(l, p + 1, q);
    text::lemma_fields_skip_space(l, p, p + 1);
    assert(l.subrange(0, p) =~= name);
    assert(l.subrange(p + 1, q) =~= d);
    let f = text::fields(l);
    assert(f == seq![name] + (seq![d] + text::fields_from(l, q)));
    assert(f[1] == d);
    text::lemma_parse_decimal(n);
}

/// Reading a `/proc/meminfo` text gives back the total and available
/// amounts written in it.
pub proof fn lemma_meminfo_round_trip(total: u64, available: u64)
    ensures
        memory_info(meminfo_text(total, available)) == Ok::<(u64, u64), Seq<char>>(
            (total, available),
        ),
{
    reveal_strlit("MemTotal: ");
    reveal_strlit("MemTotal:");
    reveal_strlit("MemAvailable: ");
    reveal_strlit("MemAvailable:");
    reveal_strlit(" kB\n");
    reveal_strlit(" kB");
    reveal_strlit(" ");
    let dt = text::decimal(total as nat);
    let da = text::decimal(available as nat);
    text::lemma_decimal_plain(total as nat);
    text::lemma_decimal_plain(available as nat);
    let s = meminfo_text(total, available);
    let l1 = "MemTotal: "@ + dt + " kB"@;
    let l2 = "MemAvailable: "@ + da + " kB"@;
    reveal_strlit("\n");
    assert(s =~= l1 + "\n"@ + l2 + "\n"@);
    let k1 = l1.len() as int;
    let k2 = k1 + 1 + l2.len();
    assert(s.len() == k2 + 1);
    // The first line.
    assert forall|j: int| 0 <= j < k1 implies s[j] != '\n' by {
        assert(s[j] == l1[j]);
        if j >= 10 && j < 10 + dt.len() {
            assert(l1[j] == dt[j - 10]);
        }
    }
    assert(s[k1] == '\n');
    text::lemma_line_end_at(s, 0, k1);
    assert(s.subrange(0, k1) =~= l1);
    assert(text::strip_cr(l1) == l1);
    // The second line.
    assert forall|j: int| k1 + 1 <= j < k2 implies s[j] != '\n' by {
        assert(s[j] == l2[j - k1 - 1]);
        if j - k1 - 1 >= 14 && j - k1 - 1 < 14 + da.len() {
            assert(l2[j - k1 - 1] == da[j - k1 - 1 - 14]);
        }
    }
    assert(s[k2] == '\n');
    text::lemma_line_end_at(s, k1 + 1, k2);
    assert(s.subrange(k1 + 1, k2) =~= l2);
    assert(text::strip_cr(l2) == l2);
    assert(text::lines_from(s, k2 + 1) =~= Seq::<Seq<char>>::empty());
    let ls = text::lines(s);
    assert(text::lines_from(s, k1 + 1) == seq![l2] + text::lines_from(s, k2 + 1));
    assert(text::lines_from(s, 0) == seq![l1] + text::lines_from(s, k1 + 1));
    assert(ls == seq![l1] + (seq![l2] + Seq::<Seq<char>>::empty()));
    assert(ls =~= seq![l1, l2]);
    // Which line each name finds.
    assert(l1.take(9) =~= "MemTotal:"@);
    assert(text::first_with_prefix(ls, "MemTotal:"@) == Some(l1));
    assert(l1[3] != "MemAvailable:"@[3]);
    assert(!text::starts_with(l1, "MemAvailable:"@)) by {
        if text::starts_with(l1, "MemAvailable:"@) {
            assert(l1.take(13)[3] == l1[3]);
        }
    }
    assert(ls.drop_first() =~= seq![l2]);
    assert(l2.take(13) =~= "MemAvailable:"@);
    assert(seq![l2][0] == l2);
    assert(text::first_with_prefix(seq![l2], "MemAvailable:"@) == Some(l2));
    assert(text::first_with_prefix(ls, "MemAvailable:"@) == Some(l2));
    // Their values.
    assert("MemTotal: "@ =~= "MemTotal:"@ + " "@);
    assert(l1 =~= "MemTotal:"@ + " "@ + dt + " kB"@);
    lemma_value_of_line("MemTotal:"@, total);
    assert("MemAvailable: "@ =~= "MemAvailable:"@ + " "@);
    assert(l2 =~= "MemAvailable:"@ + " "@ + da + " kB"@);
    lemma_value_of_line("MemAvailable:"@, available);
}


/// What a `/proc/meminfo` text gives is read from its first `MemTotal:` and
/// first `MemAvailable:` lines: the total from the second field of the
/// first, the available amount from the second field of the other; a
/// missing line is reported by name, the total line before the available one.
pub proof fn lemma_memory_info_reads_named_lines(input: Seq<char>)
    ensures
        text::first_with_prefix(text::lines(input), "MemTotal:"@) is None ==> memory_info(input)
            == Err::<(u64, u64), Seq<char>>("MemTotal not found"@),
        text::first_with_prefix(text::lines(input), "MemTotal:"@) is Some && text::first_with_prefix(
            text::lines(input),
            "MemAvailable:"@,
        ) is None ==> memory_info(input) == Err::<(u64, u64), Seq<char>>("MemAvailable not found"@),
        memory_info(input) matches Ok((t, a)) ==> ({
            let lt = text::first_with_prefix(text::lines(input), "MemTotal:"@)->Some_0;
            let la = text::first_with_prefix(text::lines(input), "MemAvailable:"@)->Some_0;
            &&& text::first_with_prefix(text::lines(input), "MemTotal:"@) is Some
            &&& text::first_with_prefix(text::lines(input), "MemAvailable:"@) is Some
            &&& text::fields(lt).len() >= 2 && text::parse_u64(text::fields(lt)[1]) == Some(t)
            &&& text::fields(la).len() >= 2 && text::parse_u64(text::fields(la)[1]) == Some(a)
        }),
{
}

/// A line's value is its second field read as a number; a line with fewer
/// fields, or whose second field is no number, is reported with that text.
pub proof fn lemma_meminfo_value_is_second_field(line: Seq<char>)
    ensures
        text::fields(line).len() < 2 ==> meminfo_value(line) == Err::<u64, Seq<char>>(
            "Invalid meminfo line: "@ + line,
        ),
        text::fields(line).len() >= 2 && text::parse_u64(text::fields(line)[1]) is None
            ==> meminfo_value(line) == Err::<u64, Seq<char>>(
            "Invalid memory value: "@ + text::fields(line)[1],
        ),
        meminfo_value(line) matches Ok(v) ==> text::fields(line).len() >= 2 && text::parse_u64(
            text::fields(line)[1],
        ) == Some(v),
{
}

} // verus!
