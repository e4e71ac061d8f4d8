//! CPU time counters, the busy share between two samples, and the bar that
//! shows it.
use vstd::prelude::*;

use crate::text;

verus! {

/// Cumulative CPU time counters: idle time, and all time.
#[derive(Debug)]
pub struct CpuTimes {
    pub idle: u64,
    pub total: u64,
}

/// The counters of one CPU (or of all of them, under the name `"cpu"`).
#[derive(Debug)]
pub struct CpuSnapshot {
    pub name: String,
    pub times: CpuTimes,
}

/// Busy time and all time elapsed between two samples of one CPU, as
/// `(busy, total)`; busy time is left at zero when no time elapsed.
pub fn cpu_deltas(before: &CpuTimes, after: &CpuTimes) -> (r: (u64, u64))
    requires
        before.total <= after.total,
        before.idle <= after.idle,
        after.total - before.total != 0 ==> after.idle - before.idle <= after.total - before.total,
    ensures
        r.1 == after.total - before.total,
        r.1 == 0 ==> r.0 == 0,
        r.1 != 0 ==> r.0 == (after.total - before.total) - (after.idle - before.idle),
        r.0 <= r.1,
{
    let total_delta = after.total - before.total;
    let idle_delta = after.idle - before.idle;
    if total_delta == 0 {
        return (0, 0);
    }
    (total_delta - idle_delta, total_delta)
}

/// The full block that marks a used cell of a bar.
pub open spec fn filled_cell() -> char {
    '\u{2588}'
}

/// The light shade that marks an unused cell of a bar.
pub open spec fn empty_cell() -> char {
    '\u{2591}'
}

/// A bar of `width` cells whose first `filled` cells are used.
pub open spec fn bar_text(filled: nat, width: nat) -> Seq<char> {
    Seq::new(filled, |_i: int| filled_cell()) + Seq::new((width - filled) as nat, |_i: int| empty_cell())
}

/// Appends `n` copies of the one-character string `cell` to `out`.
fn push_cells(out: &mut String, cell: &str, n: usize)
    requires
        cell@.len() == 1,
    ensures
        final(out)@ == old(out)@ + Seq::new(n as nat, |_i: int| cell@[0]),
{
    let mut k: usize = 0;
    while k < n
        invariant
            k <= n,
            cell@.len() == 1,
            out@ == old(out)@ + Seq::new(k as nat, |_i: int| cell@[0]),
        decreases n - k,
    {
        out.append(cell);
        k = k + 1;
        assert(out@ =~= old(out)@ + Seq::new(k as nat, |_i: int| cell@[0]));
    }
}

/// Draws a bar of `width` cells with its first `filled` cells used.
pub fn bar(filled: usize, width: usize) -> (r: String)
    requires
        filled <= width,
    ensures
        r@ == bar_text(filled as nat, width as nat),
        r@.len() == width,
        forall|i: int| 0 <= i < filled ==> #[trigger] r@[i] == '\u{2588}',
        forall|i: int| filled <= i < width ==> #[trigger] r@[i] == '\u{2591}',
{
    let mut out = String::new();
    proof {
        reveal_strlit("\u{2588}");
        reveal_strlit("\u{2591}");
    }
    push_cells(&mut out, "\u{2588}", filled);
    push_cells(&mut out, "\u{2591}", width - filled);
    assert(out@ =~= bar_text(filled as nat, width as nat));
    out
}

/// The counters `(idle, total)` made of the user, system, idle and nice tick
/// counts of one CPU.
pub fn cpu_times_from_ticks(user: u64, system: u64, idle: u64, nice: u64) -> (r: CpuTimes)
    requires
        user + system + idle + nice <= u64::MAX,
    ensures
        r.idle == idle,
        r.total == user + system + idle + nice,
{
    CpuTimes { idle, total: user + system + idle + nice }
}

/// The counters of all CPUs together, under the name `"cpu"`.
pub fn total_cpu_snapshot(user: u64, system: u64, idle: u64, nice: u64) -> (r: CpuSnapshot)
    requires
        user + system + idle + nice <= u64::MAX,
    ensures
        r.name@ == "cpu"@,
        r.times.idle == idle,
        r.times.total == user + system + idle + nice,
{
    CpuSnapshot { name: "cpu".to_owned(), times: cpu_times_from_ticks(user, system, idle, nice) }
}

/// Tick counts per CPU state, four to a core: user, system, idle, nice.
pub open spec fn core_ticks_fit(ticks: Seq<u64>, count: nat) -> bool {
    &&& ticks.len() >= 4 * count
    &&& forall|i: int|
        0 <= i < count ==> ticks[4 * i] + ticks[4 * i + 1] + #[trigger] ticks[4 * i + 2] + ticks[4
            * i + 3] <= u64::MAX
}

/// The snapshot that [`per_core_cpu_snapshots`] makes of core `i`.
pub open spec fn core_snapshot_spec(ticks: Seq<u64>, i: int, s: CpuSnapshot) -> bool {
    &&& s.name@ == "cpu"@ + text::decimal(i as nat)
    &&& s.times.idle == ticks[4 * i + 2]
    &&& s.times.total == ticks[4 * i] + ticks[4 * i + 1] + ticks[4 * i + 2] + ticks[4 * i + 3]
}

/// One snapshot per core, named `cpu0`, `cpu1`, ..., from a flat array of
/// tick counts, four to a core (user, system, idle, nice).
pub fn per_core_cpu_snapshots(ticks: &Vec<u64>, count: usize) -> (r: Vec<CpuSnapshot>)
    requires
        core_ticks_fit(ticks@, count as nat),
    ensures
        r.len() == count,
        forall|i: int| 0 <= i < count ==> #[trigger] core_snapshot_spec(ticks@, i, r@[i]),
        forall|i: int|
            0 <= i < count ==> (#[trigger] r@[i]).name@ == "cpu"@ + text::decimal(i as nat)
                && r@[i].times.idle == ticks@[4 * i + 2] && r@[i].times.total == ticks@[4 * i]
                + ticks@[4 * i + 1] + ticks@[4 * i + 2] + ticks@[4 * i + 3],
{
    let mut r: Vec<CpuSnapshot> = Vec::new();
    let mut i: usize = 0;
    while i < count
        invariant
            i <= count,
            r.len() == i,
            core_ticks_fit(ticks@, count as nat),
            forall|j: int| 0 <= j < i ==> #[trigger] core_snapshot_spec(ticks@, j, r@[j]),
        decreases count - i,
    {
        let len = ticks.len();
        assert(4 * i + 3 < len);
        let base = 4 * i;
        assert(ticks@[4 * i] + ticks@[4 * i + 1] + ticks@[4 * i + 2] + ticks@[4 * i + 3] <= u64::MAX);
        let times = cpu_times_from_ticks(ticks[base], ticks[base + 1], ticks[base + 2], ticks[base + 3]);
        let mut name = "cpu".to_owned();
        text::push_decimal(&mut name, i as u64);
        r.push(CpuSnapshot { name, times });
        assert(core_snapshot_spec(ticks@, i as int, r@[i as int]));
        i = i + 1;
    }
    assert forall|i: int| 0 <= i < count implies (#[trigger] r@[i]).name@ == "cpu"@ + text::decimal(
        i as nat,
    ) && r@[i].times.idle == ticks@[4 * i + 2] && r@[i].times.total == ticks@[4 * i] + ticks@[4
        * i + 1] + ticks@[4 * i + 2] + ticks@[4 * i + 3] by {
        assert(core_snapshot_spec(ticks@, i, r@[i]));
    }
    r
}

/// The whole-machine snapshot followed by the per-core ones.
pub fn cpu_snapshots(total: CpuSnapshot, cores: Vec<CpuSnapshot>) -> (r: Vec<CpuSnapshot>)
    ensures
        r@ == seq![total] + cores@,
{
    let mut r: Vec<CpuSnapshot> = Vec::new();
    r.push(total);
    let mut cores = cores;
    r.append(&mut cores);
    r
}


// ---------------------------------------------------------------------------
// `/proc/stat`
// ---------------------------------------------------------------------------

/// The error for a `cpu` line of `/proc/stat` that cannot be read.
pub open spec fn stat_line_error(line: Seq<char>) -> Seq<char> {
    "Invalid /proc/stat line: "@ + line
}

/// What one line of `/proc/stat` gives: nothing for a line whose first field
/// does not begin with `cpu`; for a `cpu` line, its name with the idle count
/// and the sum of the user, nice, system and idle counts (the first four
/// numbers), or an error when those are missing, are no `u64`, or overflow.
pub open spec fn stat_line(line: Seq<char>) -> Option<Result<(Seq<char>, u64, u64), Seq<char>>> {
    let f = text::fields(line);
    if f.len() == 0 || !text::starts_with(f[0], "cpu"@) {
        None
    } else if f.len() < 5 {
        Some(Err(stat_line_error(line)))
    } else {
        match (
            text::parse_u64(f[1]),
            text::parse_u64(f[2]),
            text::parse_u64(f[3]),
            text::parse_u64(f[4]),
        ) {
            (Some(user), Some(nice), Some(system), Some(idle)) => if user + nice + system + idle
                <= u64::MAX {
                Some(Ok((f[0], idle, (user + nice + system + idle) as u64)))
            } else {
                Some(Err(stat_line_error(line)))
            },
            _ => Some(Err(stat_line_error(line))),
        }
    }
}

/// What the lines `ls` of `/proc/stat` give: the `cpu` entries in order, or
/// the error of the first `cpu` line that cannot be read.
pub open spec fn stat_entries(ls: Seq<Seq<char>>) -> Result<Seq<(Seq<char>, u64, u64)>, Seq<char>>
    decreases ls.len(),
{
    if ls.len() == 0 {
        Ok(seq![])
    } else {
        match stat_line(ls[0]) {
            None => stat_entries(ls.drop_first()),
            Some(Err(e)) => Err(e),
            Some(Ok(x)) => match stat_entries(ls.drop_first()) {
                Ok(rest) => Ok(seq![x] + rest),
                Err(e) => Err(e),
            },
        }
    }
}

/// The entry that a snapshot stands for.
pub open spec fn snapshot_entry(s: CpuSnapshot) -> (Seq<char>, u64, u64) {
    (s.name@, s.times.idle, s.times.total)
}

/// `done` followed by what `rest` gives.
pub open spec fn after(
    done: Seq<(Seq<char>, u64, u64)>,
    rest: Result<Seq<(Seq<char>, u64, u64)>, Seq<char>>,
) -> Result<Seq<(Seq<char>, u64, u64)>, Seq<char>> {
    match rest {
        Ok(r) => Ok(done + r),
        Err(e) => Err(e),
    }
}

/// Reads one line of `/proc/stat`.
pub fn parse_stat_line(line: &str) -> (r: Option<Result<CpuSnapshot, String>>)
    ensures
        match r {
            None => stat_line(line@) is None,
            Some(Ok(c)) => stat_line(line@) == Some(
                Ok::<(Seq<char>, u64, u64), Seq<char>>(snapshot_entry(c)),
            ),
            Some(Err(e)) => stat_line(line@) == Some(Err::<(Seq<char>, u64, u64), Seq<char>>(e@)),
        },
{
    let s = text::chars_of(line);
    let ghost f = text::fields(s@);
    let (a0, b0) = match text::next_field(&s, 0) {
        None => return None,
        Some(r) => r,
    };
    let cpu_prefix = text::chars_of("cpu");
    if !text::range_starts_with(&s, a0, b0, &cpu_prefix) {
        return None;
    }
    let mut msg = "Invalid /proc/stat line: ".to_owned();
    msg.append(line);
    let mut values: Vec<u64> = Vec::new();
    let mut from = b0;
    let mut k: usize = 0;
    assert(f.drop_first() =~= f.skip(1));
    assert(f[0] == s@.subrange(a0 as int, b0 as int));
    while k < 4
        invariant
            k <= 4,
            a0 < b0 <= from <= s.len(),
            s@ == line@,
            values.len() == k,
            f == text::fields(s@),
            f.len() >= 1 + k,
            text::starts_with(f[0], "cpu"@),
            text::fields_from(s@, from as int) =~= f.skip(1 + k),
            forall|j: int| 0 <= j < k ==> text::parse_u64(f[1 + j]) == Some(#[trigger] values@[j]),
            msg@ == stat_line_error(line@),
        decreases 4 - k,
    {
        let (a, b) = match text::next_field(&s, from) {
            None => return Some(Err(msg)),
            Some(r) => r,
        };
        assert(f[1 + k] == f.skip(1 + k)[0]);
        assert(f.skip(1 + k).drop_first() =~= f.skip(2 + k));
        match text::parse_u64_range(&s, a, b) {
            None => {
                assert(text::parse_u64(f[1 + k]) is None);
                return Some(Err(msg));
            },
            Some(v) => {
                values.push(v);
                assert(text::parse_u64(f[1 + k]) == Some(values@[k as int]));
            },
        }
        from = b;
        k = k + 1;
    }
    let user = values[0];
    let nice = values[1];
    let system = values[2];
    let idle = values[3];
    assert(text::parse_u64(f[1]) == Some(user));
    assert(text::parse_u64(f[2]) == Some(nice));
    assert(text::parse_u64(f[3]) == Some(system));
    assert(text::parse_u64(f[4]) == Some(idle));
    let total = match user.checked_add(nice) {
        None => return Some(Err(msg)),
        Some(t) => match t.checked_add(system) {
            None => return Some(Err(msg)),
            Some(t) => match t.checked_add(idle) {
                None => return Some(Err(msg)),
                Some(t) => t,
            },
        },
    };
    let name = line.substring_char(a0, b0).to_owned();
    Some(Ok(CpuSnapshot { name, times: CpuTimes { idle, total } }))
}

/// Reads the `cpu` lines of a `/proc/stat` text: the whole machine first
/// (`cpu`), then each core (`cpu0`, `cpu1`, ...), as the kernel lists them.
pub fn parse_cpu_stat(input: &str) -> (r: Result<Vec<CpuSnapshot>, String>)
    ensures
        match r {
            Ok(v) => stat_entries(text::lines(input@)) == Ok::<Seq<(Seq<char>, u64, u64)>, Seq<char>>(
                v@.map_values(|c: CpuSnapshot| snapshot_entry(c)),
            ),
            Err(e) => stat_entries(text::lines(input@)) == Err::<Seq<(Seq<char>, u64, u64)>, Seq<char>>(
                e@,
            ),
        },
{
    let s = text::chars_of(input);
    let mut out: Vec<CpuSnapshot> = Vec::new();
    let mut start: usize = 0;
    assert(out@.map_values(|c: CpuSnapshot| snapshot_entry(c)) =~= Seq::<(Seq<char>, u64, u64)>::empty());
    proof {
        match stat_entries(text::lines(s@)) {
            Ok(r) => assert(Seq::<(Seq<char>, u64, u64)>::empty() + r =~= r),
            Err(_) => {},
        }
    }
    while start < s.len()
        invariant
            start <= s.len(),
            s@ == input@,
            stat_entries(text::lines(s@)) == after(
                out@.map_values(|c: CpuSnapshot| snapshot_entry(c)),
                stat_entries(text::lines_from(s@, start as int)),
            ),
        decreases s.len() - start,
    {
        let e = text::find_line_end(&s, start);
        proof {
            text::lemma_line_end(s@, start as int);
        }
        let stop = if e < s.len() && e > start && s[e - 1] == '\r' {
            e - 1
        } else {
            e
        };
        let next = if e < s.len() {
            e + 1
        } else {
            e
        };
        let ghost l = s@.subrange(start as int, stop as int);
        let ghost rest = text::lines_from(s@, next as int);
        proof {
            if e == s.len() {
                assert(text::lines_from(s@, start as int) == seq![l]);
                assert(rest =~= Seq::<Seq<char>>::empty());
                assert(seq![l] =~= seq![l] + rest);
            } else {
                assert(l =~= text::strip_cr(s@.subrange(start as int, e as int)));
                assert(text::lines_from(s@, start as int) == seq![l] + rest);
            }
            assert((seq![l] + rest).drop_first() =~= rest);
            assert((seq![l] + rest)[0] == l);
        }
        let line = input.substring_char(start, stop);
        let ghost before = out@.map_values(|c: CpuSnapshot| snapshot_entry(c));
        match parse_stat_line(line) {
            None => {
                assert(stat_entries(text::lines_from(s@, start as int)) == stat_entries(rest));
            },
            Some(Err(msg)) => {
                assert(stat_entries(text::lines_from(s@, start as int)) == Err::<
                    Seq<(Seq<char>, u64, u64)>,
                    Seq<char>,
                >(msg@));
                return Err(msg);
            },
            Some(Ok(c)) => {
                out.push(c);
                let ghost x = snapshot_entry(c);
                assert(out@.map_values(|c: CpuSnapshot| snapshot_entry(c)) =~= before + seq![x]);
                proof {
                    match stat_entries(rest) {
                        Ok(r) => {
                            assert(stat_entries(text::lines_from(s@, start as int)) == Ok::<
                                Seq<(Seq<char>, u64, u64)>,
                                Seq<char>,
                            >(seq![x] + r));
                            assert(before + (seq![x] + r) =~= (before + seq![x]) + r);
                        },
                        Err(_) => {},
                    }
                }
            },
        }
        start = next;
    }
    assert(text::lines_from(s@, start as int) =~= Seq::<Seq<char>>::empty());
    proof {
        let done = out@.map_values(|c: CpuSnapshot| snapshot_entry(c));
        assert(done + Seq::<(Seq<char>, u64, u64)>::empty() =~= done);
    }
    Ok(out)
}


/// A `cpu` line of `/proc/stat` is read as: name, then user, nice, system
/// and idle counts; its entry holds the name, the idle count, and the sum of
/// the four.
pub proof fn lemma_stat_line_fields(line: Seq<char>)
    ensures
        stat_line(line) matches Some(Ok((name, idle, total))) ==> ({
            let f = text::fields(line);
            &&& f.len() >= 5
            &&& name == f[0]
            &&& text::starts_with(name, "cpu"@)
            &&& text::parse_u64(f[4]) == Some(idle)
            &&& text::parse_u64(f[1]) is Some
            &&& text::parse_u64(f[2]) is Some
            &&& text::parse_u64(f[3]) is Some
            &&& total == text::parse_u64(f[1])->Some_0 + text::parse_u64(f[2])->Some_0
                + text::parse_u64(f[3])->Some_0 + idle
        }),
        stat_line(line) is None <==> (text::fields(line).len() == 0 || !text::starts_with(
            text::fields(line)[0],
            "cpu"@,
        )),
{
}

} // verus!
