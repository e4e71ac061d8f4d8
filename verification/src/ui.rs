//! The frame: the text lines that one refresh shows, and the part of them
//! that fits the terminal.
use vstd::prelude::*;

use crate::cpu;
use crate::model::SystemSnapshot;
use crate::text;

verus! {

/// Cells in each CPU bar.
pub const BAR_WIDTH: usize = 20;

/// Characters that a CPU label is padded to.
pub const LABEL_WIDTH: usize = 5;

/// What the frame shows of one CPU beside its name, worked out from the two
/// samples: the used cells of its bar and its busy share as percentage text.
pub struct CpuFigure {
    pub filled: usize,
    pub usage: String,
}

/// Memory figures as display text: sizes in GiB and the share in use.
pub struct MemoryFigures {
    pub total_gib: String,
    pub available_gib: String,
    pub used_gib: String,
    pub usage_percent: String,
}

/// The views of a sequence of strings.
pub open spec fn views(v: Seq<String>) -> Seq<Seq<char>> {
    v.map_values(|l: String| l@)
}

/// `s` padded with spaces on the right to `width` characters (`{:<width}`).
pub open spec fn pad_right(s: Seq<char>, width: nat) -> Seq<char> {
    if s.len() >= width {
        s
    } else {
        s + Seq::new((width - s.len()) as nat, |_i: int| ' ')
    }
}

/// The label of a CPU: `Total` for the whole machine, otherwise its name.
pub open spec fn cpu_label(name: Seq<char>) -> Seq<char> {
    if name == "cpu"@ {
        "Total"@
    } else {
        name
    }
}

/// The frame line of one CPU.
pub open spec fn cpu_line(name: Seq<char>, filled: nat, usage: Seq<char>) -> Seq<char> {
    "  "@ + pad_right(cpu_label(name), LABEL_WIDTH as nat) + " ["@ + cpu::bar_text(
        filled,
        BAR_WIDTH as nat,
    ) + "] "@ + usage + "%"@
}

/// Number of cores: the CPU entries after the whole-machine one.
pub open spec fn core_count(s: SystemSnapshot) -> nat {
    if s.cpu.len() > 0 {
        (s.cpu.len() - 1) as nat
    } else {
        0
    }
}

/// Number of CPUs present in both samples.
pub open spec fn paired(previous: SystemSnapshot, current: SystemSnapshot) -> nat {
    if previous.cpu.len() <= current.cpu.len() {
        previous.cpu.len() as nat
    } else {
        current.cpu.len() as nat
    }
}

/// The lines above the CPU rows.
pub open spec fn header_lines(current: SystemSnapshot) -> Seq<Seq<char>> {
    seq![
        "rwatch"@,
        "======"@,
        Seq::<char>::empty(),
        "System: "@ + current.system_name@,
        "CPU:    "@ + current.cpu_name@ + " \u{d7} "@ + text::decimal(core_count(current)),
        "Uptime: "@ + current.uptime@,
        "Load:   "@ + current.loadavg@,
        Seq::<char>::empty(),
        "CPU:"@,
    ]
}

/// The lines below the CPU rows.
pub open spec fn memory_lines(m: MemoryFigures) -> Seq<Seq<char>> {
    seq![
        Seq::<char>::empty(),
        "Memory:"@,
        "  Total:      "@ + m.total_gib@ + " GiB"@,
        "  Available:  "@ + m.available_gib@ + " GiB"@,
        "  Used:       "@ + m.used_gib@ + " GiB"@,
        "  Usage:      "@ + m.usage_percent@ + "%"@,
        Seq::<char>::empty(),
        "Updating every 1s \u{2014} Ctrl+C or q to quit"@,
    ]
}

/// The CPU rows: one per CPU present in both samples, named as in the
/// earlier one.
pub open spec fn cpu_lines(
    previous: SystemSnapshot,
    current: SystemSnapshot,
    cpu: Seq<CpuFigure>,
) -> Seq<Seq<char>> {
    Seq::new(
        paired(previous, current),
        |i: int| cpu_line(previous.cpu@[i].name@, cpu[i].filled as nat, cpu[i].usage@),
    )
}

/// The whole frame, one entry per line.
pub open spec fn frame_lines(
    previous: SystemSnapshot,
    current: SystemSnapshot,
    cpu: Seq<CpuFigure>,
    memory: MemoryFigures,
) -> Seq<Seq<char>> {
    header_lines(current) + cpu_lines(previous, current, cpu) + memory_lines(memory)
}

/// `a` followed by `b`, as a new `String`.
fn joined(a: &str, b: &str) -> (r: String)
    ensures
        r@ == a@ + b@,
{
    let mut r = a.to_owned();
    r.append(b);
    r
}

/// The frame line of one CPU.
pub fn cpu_row(name: &String, filled: usize, usage: &String) -> (r: String)
    requires
        filled <= BAR_WIDTH,
    ensures
        r@ == cpu_line(name@, filled as nat, usage@),
        // Two spaces, the label (`Total` for the whole machine) padded to five
        // characters, the bar in brackets, the usage and a percent sign.
        ({
            let label = if name@ == "cpu"@ { "Total"@ } else { name@ };
            let w = if label.len() >= 5 { label.len() as int } else { 5 };
            &&& r@.len() == w + 27 + usage@.len()
            &&& r@[0] == ' ' && r@[1] == ' '
            &&& r@.subrange(2, 2 + label.len() as int) == label
            &&& forall|j: int| 2 + label.len() <= j < 2 + w ==> #[trigger] r@[j] == ' '
            &&& r@[2 + w] == ' ' && r@[3 + w] == '['
            &&& forall|j: int| 0 <= j < filled ==> #[trigger] r@[4 + w + j] == '\u{2588}'
            &&& forall|j: int| filled <= j < 20 ==> #[trigger] r@[4 + w + j] == '\u{2591}'
            &&& r@[24 + w] == ']' && r@[25 + w] == ' '
            &&& r@.subrange(26 + w, 26 + w + usage@.len()) == usage@
            &&& r@[26 + w + usage@.len()] == '%'
        }),
{
    let whole = "cpu".to_owned();
    let label = if name.eq(&whole) {
        "Total".to_owned()
    } else {
        name.clone()
    };
    assert(label@ == cpu_label(name@));
    let mut line = "  ".to_owned();
    line.append(label.as_str());
    let mut width = label.as_str().unicode_len();
    let ghost padded = pad_right(label@, LABEL_WIDTH as nat);
    while width < LABEL_WIDTH
        invariant
            width <= LABEL_WIDTH || width == label@.len(),
            label@.len() <= width,
            line@ == "  "@ + label@ + Seq::new((width - label@.len()) as nat, |_i: int| ' '),
        decreases LABEL_WIDTH - width,
    {
        line.append(" ");
        proof {
            reveal_strlit(" ");
        }
        width = width + 1;
        assert(line@ =~= "  "@ + label@ + Seq::new((width - label@.len()) as nat, |_i: int| ' '));
    }
    assert("  "@ + label@ + Seq::new((width - label@.len()) as nat, |_i: int| ' ') =~= "  "@
        + padded);
    line.append(" [");
    let bar = cpu::bar(filled, BAR_WIDTH);
    line.append(bar.as_str());
    line.append("] ");
    line.append(usage.as_str());
    line.append("%");
    assert(line@ =~= cpu_line(name@, filled as nat, usage@));
    proof {
        reveal_strlit("  ");
        reveal_strlit(" [");
        reveal_strlit("] ");
        reveal_strlit("%");
        reveal_strlit("Total");
        reveal_strlit("cpu");
        let w = padded.len() as int;
        let pre = "  "@ + padded;
        assert(line@ == pre + " ["@ + bar@ + "] "@ + usage@ + "%"@);
        assert(line@.subrange(2, 2 + label@.len() as int) =~= label@);
        assert forall|j: int| 2 + label@.len() <= j < 2 + w implies #[trigger] line@[j] == ' ' by {
            assert(line@[j] == padded[j - 2]);
        }
        assert forall|j: int| 0 <= j < filled implies #[trigger] line@[4 + w + j] == '\u{2588}' by {
            assert(line@[4 + w + j] == bar@[j]);
        }
        assert forall|j: int| filled <= j < 20 implies #[trigger] line@[4 + w + j] == '\u{2591}' by {
            assert(line@[4 + w + j] == bar@[j]);
        }
        assert(line@.subrange(26 + w, 26 + w + usage@.len()) =~= usage@);
    }
    line
}

/// Builds the complete logical frame, one entry per line, without trailing
/// newlines. `cpu` holds what the frame shows of each CPU present in both
/// samples, in order; `memory` the memory figures of `current`.
pub fn build_frame(
    previous: &SystemSnapshot,
    current: &SystemSnapshot,
    cpu: &Vec<CpuFigure>,
    memory: &MemoryFigures,
) -> (r: Vec<String>)
    requires
        cpu.len() == paired(*previous, *current),
        forall|i: int| 0 <= i < cpu.len() ==> #[trigger] cpu@[i].filled <= BAR_WIDTH,
    ensures
        views(r@) == frame_lines(*previous, *current, cpu@, *memory),
        r.len() == 17 + paired(*previous, *current),
        // The header.
        r@[0]@ == "rwatch"@,
        r@[1]@ == "======"@,
        r@[2]@.len() == 0,
        r@[3]@ == "System: "@ + current.system_name@,
        r@[4]@ == "CPU:    "@ + current.cpu_name@ + " \u{d7} "@ + text::decimal(
            (if current.cpu.len() > 0 { current.cpu.len() - 1 } else { 0 }) as nat,
        ),
        r@[5]@ == "Uptime: "@ + current.uptime@,
        r@[6]@ == "Load:   "@ + current.loadavg@,
        r@[7]@.len() == 0,
        r@[8]@ == "CPU:"@,
        // One row per CPU of both samples, named as in the earlier one.
        forall|i: int|
            0 <= i < cpu.len() ==> #[trigger] r@[9 + i]@ == cpu_line(
                previous.cpu@[i].name@,
                cpu@[i].filled as nat,
                cpu@[i].usage@,
            ),
        // The memory figures, each on the line that names it.
        r@[9 + cpu.len()]@.len() == 0,
        r@[10 + cpu.len()]@ == "Memory:"@,
        r@[11 + cpu.len()]@ == "  Total:      "@ + memory.total_gib@ + " GiB"@,
        r@[12 + cpu.len()]@ == "  Available:  "@ + memory.available_gib@ + " GiB"@,
        r@[13 + cpu.len()]@ == "  Used:       "@ + memory.used_gib@ + " GiB"@,
        r@[14 + cpu.len()]@ == "  Usage:      "@ + memory.usage_percent@ + "%"@,
        r@[15 + cpu.len()]@.len() == 0,
        r@[16 + cpu.len()]@ == "Updating every 1s \u{2014} Ctrl+C or q to quit"@,
{
    let mut lines: Vec<String> = Vec::new();
    lines.push("rwatch".to_owned());
    lines.push("======".to_owned());
    lines.push(String::new());
    lines.push(joined("System: ", current.system_name.as_str()));
    let core_count = if current.cpu.len() > 0 {
        current.cpu.len() - 1
    } else {
        0
    };
    let mut cpu_title = joined("CPU:    ", current.cpu_name.as_str());
    cpu_title.append(" \u{d7} ");
    text::push_decimal(&mut cpu_title, core_count as u64);
    lines.push(cpu_title);
    lines.push(joined("Uptime: ", current.uptime.as_str()));
    lines.push(joined("Load:   ", current.loadavg.as_str()));
    lines.push(String::new());
    lines.push("CPU:".to_owned());
    assert(views(lines@) =~= header_lines(*current));
    let pairs = if previous.cpu.len() <= current.cpu.len() {
        previous.cpu.len()
    } else {
        current.cpu.len()
    };
    let mut i: usize = 0;
    while i < pairs
        invariant
            i <= pairs == paired(*previous, *current) == cpu.len(),
            pairs <= previous.cpu.len(),
            forall|j: int| 0 <= j < cpu.len() ==> #[trigger] cpu@[j].filled <= BAR_WIDTH,
            views(lines@) == header_lines(*current) + cpu_lines(*previous, *current, cpu@).take(
                i as int,
            ),
        decreases pairs - i,
    {
        let row = cpu_row(&previous.cpu[i].name, cpu[i].filled, &cpu[i].usage);
        let ghost before = views(lines@);
        lines.push(row);
        assert(views(lines@) =~= before.push(row@));
        assert(cpu_lines(*previous, *current, cpu@).take(i + 1) =~= cpu_lines(
            *previous,
            *current,
            cpu@,
        ).take(i as int).push(row@));
        i = i + 1;
    }
    assert(cpu_lines(*previous, *current, cpu@).take(pairs as int) =~= cpu_lines(
        *previous,
        *current,
        cpu@,
    ));
    let ghost upper = views(lines@);
    lines.push(String::new());
    lines.push("Memory:".to_owned());
    let mut total = joined("  Total:      ", memory.total_gib.as_str());
    total.append(" GiB");
    lines.push(total);
    let mut available = joined("  Available:  ", memory.available_gib.as_str());
    available.append(" GiB");
    lines.push(available);
    let mut used = joined("  Used:       ", memory.used_gib.as_str());
    used.append(" GiB");
    lines.push(used);
    let mut usage = joined("  Usage:      ", memory.usage_percent.as_str());
    usage.append("%");
    lines.push(usage);
    lines.push(String::new());
    lines.push("Updating every 1s \u{2014} Ctrl+C or q to quit".to_owned());
    assert(views(lines@) =~= upper + memory_lines(*memory));
    proof {
        let v = views(lines@);
        assert forall|i: int| 0 <= i < lines.len() implies #[trigger] lines@[i]@ == v[i] by {}
        let n = cpu.len() as int;
        assert(v[9 + n] == memory_lines(*memory)[0]);
        assert(v[10 + n] == memory_lines(*memory)[1]);
        assert(v[11 + n] == memory_lines(*memory)[2]);
        assert(v[12 + n] == memory_lines(*memory)[3]);
        assert(v[13 + n] == memory_lines(*memory)[4]);
        assert(v[14 + n] == memory_lines(*memory)[5]);
        assert(v[15 + n] == memory_lines(*memory)[6]);
        assert(v[16 + n] == memory_lines(*memory)[7]);
        assert forall|i: int| 0 <= i < cpu.len() implies #[trigger] lines@[9 + i]@ == cpu_line(
            previous.cpu@[i].name@,
            cpu@[i].filled as nat,
            cpu@[i].usage@,
        ) by {
            assert(v[9 + i] == cpu_lines(*previous, *current, cpu@)[i]);
        }
    }
    lines
}

// ---------------------------------------------------------------------------
// The visible part of the frame
// ---------------------------------------------------------------------------

/// The largest scroll offset that still fills `rows` rows.
pub open spec fn max_scroll(line_count: nat, rows: nat) -> nat {
    if line_count > rows {
        (line_count - rows) as nat
    } else {
        0
    }
}

/// The scroll offset kept within the frame: no further than the last full
/// page.
pub open spec fn clamped(line_count: nat, rows: nat, offset: nat) -> nat {
    if offset <= max_scroll(line_count, rows) {
        offset
    } else {
        max_scroll(line_count, rows)
    }
}

/// Keeps a scroll offset within the frame.
pub fn clamp_scroll(line_count: usize, rows: usize, offset: usize) -> (r: usize)
    ensures
        r == clamped(line_count as nat, rows as nat, offset as nat),
        r <= offset,
        r <= max_scroll(line_count as nat, rows as nat),
        // No further than the last full page, which ends at the frame's last line.
        line_count > rows ==> r == (if offset <= line_count - rows { offset } else { (line_count
            - rows) as usize }),
        line_count <= rows ==> r == 0,
        offset + rows >= line_count ==> r + rows >= line_count,
{
    let max = if line_count > rows {
        line_count - rows
    } else {
        0
    };
    if offset <= max {
        offset
    } else {
        max
    }
}

/// Number of lines shown from `offset` on in `rows` rows.
pub open spec fn visible_count(line_count: nat, offset: nat, rows: nat) -> nat {
    if offset >= line_count {
        0
    } else if line_count - offset < rows {
        (line_count - offset) as nat
    } else {
        rows
    }
}

/// The first `cols` characters of `line`.
pub open spec fn clipped(line: Seq<char>, cols: nat) -> Seq<char> {
    if line.len() <= cols {
        line
    } else {
        line.take(cols as int)
    }
}

/// The lines shown in a terminal of `rows` rows and `cols` columns when the
/// frame is scrolled by `offset`: each cut to the width, none wrapped.
pub fn visible_lines(lines: &Vec<String>, offset: usize, rows: usize, cols: usize) -> (r: Vec<
    String,
>)
    ensures
        r.len() == visible_count(lines.len() as nat, offset as nat, rows as nat),
        r.len() <= rows,
        forall|i: int|
            0 <= i < r.len() ==> #[trigger] r@[i]@ == clipped(lines@[offset + i]@, cols as nat),
        forall|i: int| 0 <= i < r.len() ==> (#[trigger] r@[i])@.len() <= cols,
        // From `offset`, as many lines as fit, each its first `cols` characters.
        offset >= lines.len() ==> r.len() == 0,
        offset < lines.len() ==> r.len() == (if lines.len() - offset < rows { (lines.len() - offset) as usize } else { rows }),
        forall|i: int|
            0 <= i < r.len() ==> #[trigger] r@[i]@ == lines@[offset + i]@.take(
                if lines@[offset + i]@.len() <= cols { lines@[offset + i]@.len() as int } else { cols as int },
            ),
{
    let mut r: Vec<String> = Vec::new();
    if offset >= lines.len() {
        return r;
    }
    let count = if lines.len() - offset < rows {
        lines.len() - offset
    } else {
        rows
    };
    let mut i: usize = 0;
    while i < count
        invariant
            i <= count == visible_count(lines.len() as nat, offset as nat, rows as nat),
            offset + count <= lines.len(),
            r.len() == i,
            forall|j: int|
                0 <= j < i ==> #[trigger] r@[j]@ == clipped(lines@[offset + j]@, cols as nat),
            forall|j: int| 0 <= j < i ==> (#[trigger] r@[j])@.len() <= cols,
            forall|j: int|
                0 <= j < i ==> #[trigger] r@[j]@ == lines@[offset + j]@.take(
                    if lines@[offset + j]@.len() <= cols { lines@[offset + j]@.len() as int } else { cols as int },
                ),
        decreases count - i,
    {
        let line = lines[offset + i].as_str();
        let len = line.unicode_len();
        let keep = if len <= cols {
            len
        } else {
            cols
        };
        let shown = line.substring_char(0, keep).to_owned();
        assert(shown@ =~= clipped(lines@[offset + i]@, cols as nat));
        assert(shown@.len() <= cols);
        assert(lines@[offset + i]@.take(lines@[offset + i]@.len() as int) =~= lines@[offset + i]@);
        r.push(shown);
        i = i + 1;
    }
    r
}

/// A clamped offset is the requested one when the rows from it still reach
/// past the frame's end no earlier than its last line, and otherwise the
/// offset of the last full page: it never hides the last line when the
/// request would have shown it, and never leaves rows empty needlessly.
pub proof fn lemma_clamp_keeps_last_line(line_count: nat, rows: nat, offset: nat)
    ensures
        clamped(line_count, rows, offset) <= offset,
        clamped(line_count, rows, offset) + rows >= line_count || clamped(line_count, rows, offset)
            == offset,
        offset + rows >= line_count ==> clamped(line_count, rows, offset) + rows >= line_count,
        line_count > rows ==> clamped(line_count, rows, offset) + rows <= line_count,
        line_count <= rows ==> clamped(line_count, rows, offset) == 0,
{
}

/// Clamping twice is clamping once.
pub proof fn lemma_clamp_idempotent(line_count: nat, rows: nat, offset: nat)
    ensures
        clamped(line_count, rows, clamped(line_count, rows, offset)) == clamped(
            line_count,
            rows,
            offset,
        ),
{
}

/// From a clamped offset the visible part is as full as the frame allows:
/// all rows, or the whole frame when it is shorter.
pub proof fn lemma_clamped_view_is_full(line_count: nat, rows: nat, offset: nat)
    ensures
        visible_count(line_count, clamped(line_count, rows, offset), rows) == if line_count
            <= rows {
            line_count
        } else {
            rows
        },
{
}

/// Scrolling to the bottom shows the last page.
pub proof fn lemma_bottom_is_last_page(line_count: nat, rows: nat)
    requires
        line_count <= usize::MAX,
    ensures
        clamped(line_count, rows, usize::MAX as nat) == max_scroll(line_count, rows),
        clamped(line_count, rows, usize::MAX as nat) + rows >= line_count,
        line_count > rows ==> clamped(line_count, rows, usize::MAX as nat) + rows == line_count,
{
}


// ---------------------------------------------------------------------------
// Every frame entry is one line
// ---------------------------------------------------------------------------

/// `s` holds no line break.
pub open spec fn single_line(s: Seq<char>) -> bool {
    forall|i: int| 0 <= i < s.len() ==> s[i] != '\n'
}

/// Joining two single lines gives a single line.
pub proof fn lemma_single_line_join(a: Seq<char>, b: Seq<char>)
    requires
        single_line(a),
        single_line(b),
    ensures
        single_line(a + b),
{
    assert forall|i: int| 0 <= i < (a + b).len() implies (a + b)[i] != '\n' by {
        if i < a.len() {
            assert((a + b)[i] == a[i]);
        } else {
            assert((a + b)[i] == b[i - a.len()]);
        }
    }
}

/// Decimal digits hold no line break.
proof fn lemma_decimal_single_line(n: nat)
    ensures
        single_line(text::decimal(n)),
{
    text::lemma_decimal_digits(n);
    let d = text::decimal(n);
    assert forall|i: int| 0 <= i < d.len() implies d[i] != '\n' by {
        assert(text::is_digit(d[i]));
    }
}

/// A CPU row holds no line break when its name and usage text hold none.
proof fn lemma_cpu_line_single(name: Seq<char>, filled: nat, usage: Seq<char>)
    requires
        single_line(name),
        single_line(usage),
    ensures
        single_line(cpu_line(name, filled, usage)),
{
    reveal_strlit("  ");
    reveal_strlit("Total");
    reveal_strlit(" [");
    reveal_strlit("] ");
    reveal_strlit("%");
    let label = cpu_label(name);
    assert(single_line(label));
    let padded = pad_right(label, LABEL_WIDTH as nat);
    if label.len() < LABEL_WIDTH {
        let spaces = Seq::new((LABEL_WIDTH - label.len()) as nat, |_i: int| ' ');
        assert(single_line(spaces));
        lemma_single_line_join(label, spaces);
    }
    assert(single_line(padded));
    let bar = cpu::bar_text(filled, BAR_WIDTH as nat);
    assert(single_line(bar)) by {
        assert forall|i: int| 0 <= i < bar.len() implies bar[i] != '\n' by {
            if i < filled {
                assert(bar[i] == cpu::filled_cell());
            } else {
                assert(bar[i] == cpu::empty_cell());
            }
        }
    }
    lemma_single_line_join("  "@, padded);
    lemma_single_line_join("  "@ + padded, " ["@);
    lemma_single_line_join("  "@ + padded + " ["@, bar);
    lemma_single_line_join("  "@ + padded + " ["@ + bar, "] "@);
    lemma_single_line_join("  "@ + padded + " ["@ + bar + "] "@, usage);
    lemma_single_line_join("  "@ + padded + " ["@ + bar + "] "@ + usage, "%"@);
}

/// Every entry of the frame is a single line, without line breaks, as long
/// as none of the texts it is made of holds one.
pub proof fn lemma_frame_is_single_lines(
    previous: SystemSnapshot,
    current: SystemSnapshot,
    cpu: Seq<CpuFigure>,
    memory: MemoryFigures,
)
    requires
        single_line(current.system_name@),
        single_line(current.cpu_name@),
        single_line(current.uptime@),
        single_line(current.loadavg@),
        cpu.len() == paired(previous, current),
        forall|i: int| 0 <= i < cpu.len() ==> single_line(#[trigger] previous.cpu@[i].name@),
        forall|i: int| 0 <= i < cpu.len() ==> single_line(#[trigger] cpu[i].usage@),
        single_line(memory.total_gib@),
        single_line(memory.available_gib@),
        single_line(memory.used_gib@),
        single_line(memory.usage_percent@),
    ensures
        forall|i: int|
            0 <= i < frame_lines(previous, current, cpu, memory).len() ==> single_line(
                #[trigger] frame_lines(previous, current, cpu, memory)[i],
            ),
{
    reveal_strlit("rwatch");
    reveal_strlit("======");
    reveal_strlit("System: ");
    reveal_strlit("CPU:    ");
    reveal_strlit(" \u{d7} ");
    reveal_strlit("Uptime: ");
    reveal_strlit("Load:   ");
    reveal_strlit("CPU:");
    reveal_strlit("Memory:");
    reveal_strlit("  Total:      ");
    reveal_strlit("  Available:  ");
    reveal_strlit("  Used:       ");
    reveal_strlit("  Usage:      ");
    reveal_strlit(" GiB");
    reveal_strlit("%");
    reveal_strlit("Updating every 1s \u{2014} Ctrl+C or q to quit");
    lemma_decimal_single_line(core_count(current));
    lemma_single_line_join("System: "@, current.system_name@);
    lemma_single_line_join("CPU:    "@, current.cpu_name@);
    lemma_single_line_join("CPU:    "@ + current.cpu_name@, " \u{d7} "@);
    lemma_single_line_join("CPU:    "@ + current.cpu_name@ + " \u{d7} "@, text::decimal(core_count(current)));
    lemma_single_line_join("Uptime: "@, current.uptime@);
    lemma_single_line_join("Load:   "@, current.loadavg@);
    lemma_single_line_join("  Total:      "@, memory.total_gib@);
    lemma_single_line_join("  Total:      "@ + memory.total_gib@, " GiB"@);
    lemma_single_line_join("  Available:  "@, memory.available_gib@);
    lemma_single_line_join("  Available:  "@ + memory.available_gib@, " GiB"@);
    lemma_single_line_join("  Used:       "@, memory.used_gib@);
    lemma_single_line_join("  Used:       "@ + memory.used_gib@, " GiB"@);
    lemma_single_line_join("  Usage:      "@, memory.usage_percent@);
    lemma_single_line_join("  Usage:      "@ + memory.usage_percent@, "%"@);
    let h = header_lines(current);
    let c = cpu_lines(previous, current, cpu);
    let m = memory_lines(memory);
    assert forall|i: int| 0 <= i < c.len() implies single_line(#[trigger] c[i]) by {
        lemma_cpu_line_single(previous.cpu@[i].name@, cpu[i].filled as nat, cpu[i].usage@);
    }
    assert forall|i: int| 0 <= i < h.len() implies single_line(#[trigger] h[i]) by {}
    assert forall|i: int| 0 <= i < m.len() implies single_line(#[trigger] m[i]) by {}
    let f = frame_lines(previous, current, cpu, memory);
    assert forall|i: int| 0 <= i < f.len() implies single_line(#[trigger] f[i]) by {
        if i < h.len() {
            assert(f[i] == h[i]);
        } else if i < h.len() + c.len() {
            assert(f[i] == c[i - h.len()]);
        } else {
            assert(f[i] == m[i - h.len() - c.len()]);
        }
    }
}

} // verus!
