//! Snapshots of the kernel's CPU counter table and their checked
//! differences.

use vstd::prelude::*;

use crate::parse::digit_char;
use crate::parse::digit_end;
use crate::parse::is_digit;
use crate::parse::num_at;
use crate::parse::single_spec;
use crate::parse::skip_digits;
use crate::parse::skip_spaces;
use crate::parse::space_end;
use crate::parse::scan_u64;
use crate::parse::parse_single;
use crate::parse::ParseError;

verus! {

/// The number of units spent in each scheduling context, for one core or
/// for the whole system. Units are cumulative ticks since boot and are
/// meaningful only as proportions of a total.
#[derive(Debug, Copy, Clone, PartialEq, Eq, Hash, Structural)]
pub struct StatCpu {
    pub user: u64,
    pub nice: u64,
    pub system: u64,
    pub idle: u64,
    pub iowait: u64,
    pub irq: u64,
    pub softirq: u64,
    pub steal: u64,
    pub guest: u64,
}

/// One full sample of the counter table.
#[derive(Debug, Clone, PartialEq, Eq)]
pub struct Stat {
    /// Total stats, sum over all cpus.
    pub cpu_totals: StatCpu,
    /// For each cpu, the units spent in each context, in kernel order.
    pub cpus: Vec<StatCpu>,
    /// Context switches since the system booted.
    pub context_switches: u64,
    /// Timestamp (seconds since epoch) at which the system booted.
    pub boot_time: u64,
    /// Processes and threads created since the system booted.
    pub processes: u64,
    /// Processes currently running (a gauge, not a cumulative counter).
    pub procs_running: u64,
    /// Processes currently blocked waiting for I/O (a gauge).
    pub procs_blocked: u64,
}

/// The change in the counter table over a time period. Cumulative counters
/// difference as unsigned values; the two process gauges may legitimately
/// fall and difference as signed values.
#[derive(Debug, Clone, PartialEq, Eq)]
pub struct StatDelta {
    pub cpu_totals: StatCpu,
    pub cpus: Vec<StatCpu>,
    pub context_switches: u64,
    pub processes: u64,
    pub procs_running: i64,
    pub procs_blocked: i64,
}

/// The mathematical shape of a [`Stat`]: its per-core table as a sequence.
#[verifier::ext_equal]
pub ghost struct StatG {
    pub cpu_totals: StatCpu,
    pub cpus: Seq<StatCpu>,
    pub context_switches: u64,
    pub boot_time: u64,
    pub processes: u64,
    pub procs_running: u64,
    pub procs_blocked: u64,
}

/// The mathematical shape of a [`StatDelta`].
#[verifier::ext_equal]
pub ghost struct StatDeltaG {
    pub cpu_totals: StatCpu,
    pub cpus: Seq<StatCpu>,
    pub context_switches: u64,
    pub processes: u64,
    pub procs_running: i64,
    pub procs_blocked: i64,
}

impl View for Stat {
    type V = StatG;

    open spec fn view(&self) -> StatG {
        StatG {
            cpu_totals: self.cpu_totals,
            cpus: self.cpus@,
            context_switches: self.context_switches,
            boot_time: self.boot_time,
            processes: self.processes,
            procs_running: self.procs_running,
            procs_blocked: self.procs_blocked,
        }
    }
}

impl View for StatDelta {
    type V = StatDeltaG;

    open spec fn view(&self) -> StatDeltaG {
        StatDeltaG {
            cpu_totals: self.cpu_totals,
            cpus: self.cpus@,
            context_switches: self.context_switches,
            processes: self.processes,
            procs_running: self.procs_running,
            procs_blocked: self.procs_blocked,
        }
    }
}

impl StatCpu {
    /// The sum of the nine counters, as an unbounded integer.
    pub open spec fn total_spec(self) -> int {
        self.user + self.nice + self.system + self.idle + self.iowait + self.irq + self.softirq
            + self.steal + self.guest
    }

    /// The units spent with nothing to run: the `idle` and `iowait` buckets.
    pub open spec fn idle_units_spec(self) -> int {
        self.idle + self.iowait
    }

    /// The units spent doing work: every bucket but `idle` and `iowait`.
    pub open spec fn busy_units_spec(self) -> int {
        self.user + self.nice + self.system + self.irq + self.softirq + self.steal + self.guest
    }

    /// The sum of the nine counters. The sum must fit; a snapshot whose
    /// total overflows is a fatal condition and is rejected by
    /// [`StatCpu::checked_total`] instead.
    pub fn total(&self) -> (r: u64)
        requires
            self.total_spec() <= u64::MAX,
        ensures
            r == self.total_spec(),
    {
        self.user + self.nice + self.system + self.idle + self.iowait + self.irq + self.softirq
            + self.steal + self.guest
    }

    /// The sum of the nine counters, or nothing when the sum would wrap.
    pub fn checked_total(&self) -> (r: Option<u64>)
        ensures
            r matches Some(v) ==> self.total_spec() <= u64::MAX && v == self.total_spec(),
            r is None ==> self.total_spec() > u64::MAX,
    {
        let a = match self.user.checked_add(self.nice) {
            Some(v) => v,
            None => {
                return None;
            },
        };
        let b = match a.checked_add(self.system) {
            Some(v) => v,
            None => {
                return None;
            },
        };
        let c = match b.checked_add(self.idle) {
            Some(v) => v,
            None => {
                return None;
            },
        };
        let d = match c.checked_add(self.iowait) {
            Some(v) => v,
            None => {
                return None;
            },
        };
        let e = match d.checked_add(self.irq) {
            Some(v) => v,
            None => {
                return None;
            },
        };
        let f = match e.checked_add(self.softirq) {
            Some(v) => v,
            None => {
                return None;
            },
        };
        let g = match f.checked_add(self.steal) {
            Some(v) => v,
            None => {
                return None;
            },
        };
        match g.checked_add(self.guest) {
            Some(v) => Some(v),
            None => None,
        }
    }

    /// The units spent idle (the `idle` and `iowait` buckets). The sum must
    /// fit; it always does when the nine-field total does.
    pub fn idle_units(&self) -> (r: u64)
        requires
            self.idle_units_spec() <= u64::MAX,
        ensures
            r == self.idle_units_spec(),
    {
        self.idle + self.iowait
    }
}

/// The nine numbers of a per-cpu counter line, read from `from`: each is
/// preceded by a (possibly empty) run of spaces or tabs.
pub open spec fn nums_from(s: Seq<char>, from: int, n: nat) -> Option<Seq<u64>>
    decreases n,
{
    if n == 0 {
        Some(Seq::empty())
    } else {
        let p = space_end(s, from);
        match num_at(s, p) {
            Option::None => None,
            Option::Some(v) => match nums_from(s, digit_end(s, p), (n - 1) as nat) {
                Option::None => None,
                Option::Some(rest) => Some(seq![v] + rest),
            },
        }
    }
}

/// The counter values of one `cpu` line: the literal `cpu`, an optional run
/// of digits naming the core, then nine whitespace-separated numbers in the
/// fixed order `user nice system idle iowait irq softirq steal guest`.
/// Whatever follows the ninth number is ignored.
pub open spec fn cpu_line_spec(s: Seq<char>) -> Option<StatCpu> {
    if s.len() >= 3 && s[0] == 'c' && s[1] == 'p' && s[2] == 'u' {
        match nums_from(s, digit_end(s, 3), 9) {
            Option::Some(ns) => Some(
                StatCpu {
                    user: ns[0],
                    nice: ns[1],
                    system: ns[2],
                    idle: ns[3],
                    iowait: ns[4],
                    irq: ns[5],
                    softirq: ns[6],
                    steal: ns[7],
                    guest: ns[8],
                },
            ),
            Option::None => None,
        }
    } else {
        None
    }
}

impl StatCpu {
    /// Parses one `cpu`-prefixed counter line.
    pub fn from_str(input: &str) -> (r: Option<StatCpu>)
        ensures
            r == cpu_line_spec(input@),
    {
        let ghost s = input@;
        let len = input.unicode_len();
        if len < 3 {
            return None;
        }
        if input.get_char(0) != 'c' || input.get_char(1) != 'p' || input.get_char(2) != 'u' {
            return None;
        }
        let start = skip_digits(input, 3);
        let ghost full = nums_from(s, digit_end(s, 3), 9);
        let mut vals: Vec<u64> = Vec::new();
        let mut pos = start;
        let mut k: usize = 0;
        proof {
            if nums_from(s, pos as int, 9) is Some {
                assert(vals@ + nums_from(s, pos as int, 9).unwrap() =~= nums_from(
                    s,
                    pos as int,
                    9,
                ).unwrap());
            }
        }
        while k < 9
            invariant
                k <= 9,
                vals@.len() == k,
                pos <= s.len(),
                s == input@,
                len == s.len(),
                full == nums_from(s, digit_end(s, 3), 9),
                (match nums_from(s, pos as int, (9 - k) as nat) {
                    Option::Some(rest) => full == Some(vals@ + rest),
                    Option::None => full is None,
                }),
            decreases 9 - k,
        {
            let p = skip_spaces(input, pos);
            match scan_u64(input, p) {
                Option::None => {
                    assert(nums_from(s, pos as int, (9 - k) as nat) is None);
                    return None;
                },
                Option::Some((v, e)) => {
                    proof {
                        let rest_opt = nums_from(s, e as int, (9 - k - 1) as nat);
                        assert(nums_from(s, pos as int, (9 - k) as nat) == (match rest_opt {
                            Option::None => Option::<Seq<u64>>::None,
                            Option::Some(rest) => Option::Some(seq![v] + rest),
                        }));
                        if rest_opt is Some {
                            assert(vals@ + (seq![v] + rest_opt.unwrap()) =~= vals@.push(v)
                                + rest_opt.unwrap());
                        }
                    }
                    vals.push(v);
                    pos = e;
                    k = k + 1;
                },
            }
        }
        proof {
            assert(nums_from(s, pos as int, 0) == Option::Some(Seq::<u64>::empty()));
            assert(vals@ + Seq::<u64>::empty() =~= vals@);
            assert(full == Some(vals@));
        }
        Some(
            StatCpu {
                user: vals[0],
                nice: vals[1],
                system: vals[2],
                idle: vals[3],
                iowait: vals[4],
                irq: vals[5],
                softirq: vals[6],
                steal: vals[7],
                guest: vals[8],
            },
        )
    }
}

/// The aggregate (system-wide totals) line: the literal token `cpu` with no
/// trailing digits, then the nine counters. A per-core `cpu<digits>` line is
/// not accepted as the aggregate.
pub open spec fn aggregate_line_spec(s: Seq<char>) -> Option<StatCpu> {
    if s.len() > 3 && is_digit(s[3]) {
        None
    } else {
        cpu_line_spec(s)
    }
}

/// A per-core counter line: the token `cpu` immediately followed by at
/// least one digit naming the core, then the nine counters. A digitless
/// `cpu` line is not a per-core entry.
pub open spec fn core_line_spec(s: Seq<char>) -> Option<StatCpu> {
    if s.len() > 3 && is_digit(s[3]) {
        cpu_line_spec(s)
    } else {
        None
    }
}

/// The end of the run of per-core `cpu<digits>` lines starting at `from`:
/// the first index at or after `from` that is past the end or holds a line
/// that is not a per-core counter line.
pub open spec fn cpu_run_end(lines: Seq<Seq<char>>, from: int) -> int
    decreases lines.len() - from,
{
    if 0 <= from < lines.len() && core_line_spec(lines[from]) is Some {
        cpu_run_end(lines, from + 1)
    } else {
        from
    }
}

/// The first line at or after `from` of the shape `<name> <number>`:
/// its value, beside the index just past it. Unrelated lines before it are
/// skipped; absent when no such line remains.
pub open spec fn key_from(lines: Seq<Seq<char>>, from: int, name: Seq<char>) -> Option<(u64, int)>
    decreases lines.len() - from,
{
    if 0 <= from < lines.len() {
        match single_spec(name, lines[from]) {
            Option::Some(v) => Some((v, from + 1)),
            Option::None => key_from(lines, from + 1, name),
        }
    } else {
        None
    }
}

/// The snapshot described by a whole counter table, line by line: the
/// aggregate line first (the literal token `cpu`, no trailing digits), then
/// one `cpu<digits>` line per core, then — after the first unrelated line,
/// which ends the per-core block — the five keyed
/// lines `ctxt`, `btime`, `processes`, `procs_running` and `procs_blocked`,
/// each located in that order with unrelated lines skipped in between.
/// Absent whenever any of these parts is missing or malformed.
pub open spec fn stat_spec(lines: Seq<Seq<char>>) -> Option<StatG> {
    if lines.len() == 0 {
        None
    } else {
        match aggregate_line_spec(lines[0]) {
            Option::None => None,
            Option::Some(totals) => {
                let k = cpu_run_end(lines, 1);
                if k >= lines.len() {
                    None
                } else {
                    let cpus = Seq::new((k - 1) as nat, |i: int| core_line_spec(lines[i + 1]).unwrap());
                    match key_from(lines, k + 1, "ctxt"@) {
                        Option::None => None,
                        Option::Some((ctxt, i1)) => match key_from(lines, i1, "btime"@) {
                            Option::None => None,
                            Option::Some((btime, i2)) => match key_from(lines, i2, "processes"@) {
                                Option::None => None,
                                Option::Some((procs, i3)) => match key_from(
                                    lines,
                                    i3,
                                    "procs_running"@,
                                ) {
                                    Option::None => None,
                                    Option::Some((running, i4)) => match key_from(
                                        lines,
                                        i4,
                                        "procs_blocked"@,
                                    ) {
                                        Option::None => None,
                                        Option::Some((blocked, _)) => Some(
                                            StatG {
                                                cpu_totals: totals,
                                                cpus,
                                                context_switches: ctxt,
                                                boot_time: btime,
                                                processes: procs,
                                                procs_running: running,
                                                procs_blocked: blocked,
                                            },
                                        ),
                                    },
                                },
                            },
                        },
                    }
                }
            },
        }
    }
}

pub proof fn lemma_cpu_run_end(lines: Seq<Seq<char>>, from: int)
    requires
        0 <= from <= lines.len(),
    ensures
        from <= cpu_run_end(lines, from) <= lines.len(),
        forall|j: int|
            from <= j < cpu_run_end(lines, from) ==> core_line_spec(#[trigger] lines[j]) is Some,
        cpu_run_end(lines, from) < lines.len() ==> core_line_spec(
            lines[cpu_run_end(lines, from)],
        ) is None,
    decreases lines.len() - from,
{
    if from < lines.len() && core_line_spec(lines[from]) is Some {
        lemma_cpu_run_end(lines, from + 1);
    }
}

/// Fetches the line at `i`, reporting the single parse-failure kind when
/// the table has run out of lines.
pub fn parse_line<'a>(lines: &'a Vec<String>, i: usize) -> (r: Result<&'a String, ParseError>)
    ensures
        r matches Ok(l) ==> i < lines@.len() && l@ == lines.deep_view()[i as int],
        r is Err ==> i >= lines@.len(),
{
    if i < lines.len() {
        Ok(&lines[i])
    } else {
        Err(ParseError::InvalidData)
    }
}

/// Recognizes a per-core counter line: `cpu`, at least one core digit,
/// then nine numbers.
fn is_core_line(line: &str) -> (r: bool)
    ensures
        r == (core_line_spec(line@) is Some),
{
    let len = line.unicode_len();
    if len <= 3 {
        return false;
    }
    if !digit_char(line.get_char(3)) {
        return false;
    }
    StatCpu::from_str(line).is_some()
}

/// The index of the first line at or after index 1 that is not a per-core
/// counter line (or the number of lines, when every remaining line is one).
fn cpu_block_end(lines: &Vec<String>) -> (r: usize)
    requires
        lines@.len() >= 1,
    ensures
        r == cpu_run_end(lines.deep_view(), 1),
        1 <= r <= lines@.len(),
{
    let ghost dv = lines.deep_view();
    let n = lines.len();
    let mut k: usize = 1;
    while k < n
        invariant
            1 <= k <= n,
            n == lines@.len(),
            dv == lines.deep_view(),
            dv.len() == n,
            cpu_run_end(dv, 1) == cpu_run_end(dv, k as int),
        decreases n - k,
    {
        if !is_core_line(lines[k].as_str()) {
            assert(cpu_run_end(dv, k as int) == k);
            return k;
        }
        k = k + 1;
    }
    assert(cpu_run_end(dv, n as int) == n);
    n
}

/// Scans forward from `from` for a line of the shape `<name> <number>`,
/// skipping unrelated lines, and returns its value beside the index just
/// past it; fails when no such line remains.
fn find_key(lines: &Vec<String>, from: usize, name: &str) -> (r: Result<(u64, usize), ParseError>)
    requires
        from <= lines@.len(),
    ensures
        r matches Ok(p) ==> key_from(lines.deep_view(), from as int, name@) == Some(
            (p.0, p.1 as int),
        ) && from < p.1 <= lines@.len(),
        r is Err ==> key_from(lines.deep_view(), from as int, name@) is None,
{
    let ghost dv = lines.deep_view();
    let n = lines.len();
    let mut i = from;
    while i < n
        invariant
            from <= i <= n,
            n == lines@.len(),
            dv == lines.deep_view(),
            dv.len() == n,
            key_from(dv, from as int, name@) == key_from(dv, i as int, name@),
        decreases n - i,
    {
        match parse_single(name, lines[i].as_str()) {
            Some(v) => {
                return Ok((v, i + 1));
            },
            None => {
                i = i + 1;
            },
        }
    }
    Err(ParseError::InvalidData)
}

impl Stat {
    /// Parses a whole counter table, given as its lines in order. Succeeds
    /// exactly on the tables that [`stat_spec`] accepts and returns exactly
    /// the snapshot it describes; any structural deviation is the single
    /// invalid-data failure and no partial snapshot is returned.
    pub fn from_iter(lines: &Vec<String>) -> (r: Result<Stat, ParseError>)
        ensures
            r matches Ok(s) ==> stat_spec(lines.deep_view()) == Some(s@),
            r is Err ==> stat_spec(lines.deep_view()) is None,
    {
        let ghost dv = lines.deep_view();
        let n = lines.len();
        if n == 0 {
            return Err(ParseError::InvalidData);
        }
        let first = lines[0].as_str();
        let cpu_totals = match StatCpu::from_str(first) {
            Some(t) => t,
            None => {
                return Err(ParseError::InvalidData);
            },
        };
        // The aggregate line must be the bare token `cpu`: a digit after it
        // would make this a per-core line.
        let flen = first.unicode_len();
        if flen > 3 && digit_char(first.get_char(3)) {
            return Err(ParseError::InvalidData);
        }
        assert(aggregate_line_spec(dv[0]) == Some(cpu_totals));
        proof {
            lemma_cpu_run_end(dv, 1);
        }
        let k = cpu_block_end(lines);
        if k >= n {
            return Err(ParseError::InvalidData);
        }
        let mut cpus: Vec<StatCpu> = Vec::new();
        let mut j: usize = 1;
        while j < k
            invariant
                1 <= j <= k < n,
                n == lines@.len(),
                dv == lines.deep_view(),
                dv.len() == n,
                k == cpu_run_end(dv, 1),
                forall|t: int| 1 <= t < k ==> core_line_spec(#[trigger] dv[t]) is Some,
                cpus@.len() == j - 1,
                forall|t: int| 0 <= t < j - 1 ==> cpus@[t] == core_line_spec(#[trigger] dv[t + 1]).unwrap(),
            decreases k - j,
        {
            proof {
                assert(dv[j as int] == lines@[j as int]@);
            }
            match StatCpu::from_str(lines[j].as_str()) {
                Some(c) => {
                    cpus.push(c);
                    j = j + 1;
                },
                None => {
                    proof {
                        assert(false);
                    }
                    return Err(ParseError::InvalidData);
                },
            }
        }
        let (context_switches, i1) = match find_key(lines, k + 1, "ctxt") {
            Ok(p) => p,
            Err(e) => {
                return Err(e);
            },
        };
        let (boot_time, i2) = match find_key(lines, i1, "btime") {
            Ok(p) => p,
            Err(e) => {
                return Err(e);
            },
        };
        let (processes, i3) = match find_key(lines, i2, "processes") {
            Ok(p) => p,
            Err(e) => {
                return Err(e);
            },
        };
        let (procs_running, i4) = match find_key(lines, i3, "procs_running") {
            Ok(p) => p,
            Err(e) => {
                return Err(e);
            },
        };
        let (procs_blocked, _i5) = match find_key(lines, i4, "procs_blocked") {
            Ok(p) => p,
            Err(e) => {
                return Err(e);
            },
        };
        let st = Stat {
            cpu_totals,
            cpus,
            context_switches,
            boot_time,
            processes,
            procs_running,
            procs_blocked,
        };
        proof {
            let spec_cpus = Seq::new((k - 1) as nat, |i: int| core_line_spec(dv[i + 1]).unwrap());
            assert(st.cpus@ =~= spec_cpus);
            assert(stat_spec(dv) == Some(st@));
        }
        Ok(st)
    }
}

/// A failure of checked snapshot differencing. These are misuse- or
/// corruption-class conditions (comparing snapshots out of order, a kernel
/// counter reset, a changed core set), reported loudly rather than clamped.
#[derive(Debug, Clone, Copy, PartialEq, Eq, Structural)]
pub enum DeltaError {
    /// The two snapshots report a different number of cores.
    CpuCountMismatch,
    /// A cumulative counter of the newer snapshot is below the older one's.
    CounterDecreased,
    /// A process gauge is too large for a signed 64-bit difference.
    GaugeOverflow,
}

/// Every counter of `older` is at most the matching counter of `newer`.
pub open spec fn cpu_le(older: StatCpu, newer: StatCpu) -> bool {
    &&& older.user <= newer.user
    &&& older.nice <= newer.nice
    &&& older.system <= newer.system
    &&& older.idle <= newer.idle
    &&& older.iowait <= newer.iowait
    &&& older.irq <= newer.irq
    &&& older.softirq <= newer.softirq
    &&& older.steal <= newer.steal
    &&& older.guest <= newer.guest
}

/// The field-wise difference of two counter sets.
pub open spec fn cpu_delta(newer: StatCpu, older: StatCpu) -> StatCpu {
    StatCpu {
        user: (newer.user - older.user) as u64,
        nice: (newer.nice - older.nice) as u64,
        system: (newer.system - older.system) as u64,
        idle: (newer.idle - older.idle) as u64,
        iowait: (newer.iowait - older.iowait) as u64,
        irq: (newer.irq - older.irq) as u64,
        softirq: (newer.softirq - older.softirq) as u64,
        steal: (newer.steal - older.steal) as u64,
        guest: (newer.guest - older.guest) as u64,
    }
}

/// Every cumulative counter is monotone from `older` to `newer`: the
/// aggregate line, each per-core line position-wise, the context-switch
/// count and the process-creation count.
pub open spec fn counters_monotone(newer: StatG, older: StatG) -> bool {
    &&& cpu_le(older.cpu_totals, newer.cpu_totals)
    &&& forall|i: int|
        0 <= i < newer.cpus.len() ==> cpu_le(#[trigger] older.cpus[i], newer.cpus[i])
    &&& older.context_switches <= newer.context_switches
    &&& older.processes <= newer.processes
}

/// Both snapshots' process gauges fit in a signed 64-bit difference.
pub open spec fn gauges_fit(newer: StatG, older: StatG) -> bool {
    &&& newer.procs_running <= i64::MAX
    &&& older.procs_running <= i64::MAX
    &&& newer.procs_blocked <= i64::MAX
    &&& older.procs_blocked <= i64::MAX
}

/// The field-wise difference of two snapshots: checked unsigned
/// subtraction of every cumulative counter, position-wise over the per-core
/// table, and signed subtraction of the two process gauges.
pub open spec fn delta_spec(newer: StatG, older: StatG) -> StatDeltaG {
    StatDeltaG {
        cpu_totals: cpu_delta(newer.cpu_totals, older.cpu_totals),
        cpus: Seq::new(newer.cpus.len(), |i: int| cpu_delta(newer.cpus[i], older.cpus[i])),
        context_switches: (newer.context_switches - older.context_switches) as u64,
        processes: (newer.processes - older.processes) as u64,
        procs_running: (newer.procs_running - older.procs_running) as i64,
        procs_blocked: (newer.procs_blocked - older.procs_blocked) as i64,
    }
}

impl StatCpu {
    /// The field-wise checked difference against an older counter set;
    /// fails when any counter decreased.
    pub fn difference(&self, older: &StatCpu) -> (r: Option<StatCpu>)
        ensures
            r matches Some(d) ==> cpu_le(*older, *self) && d == cpu_delta(*self, *older),
            r is None ==> !cpu_le(*older, *self),
    {
        if older.user <= self.user && older.nice <= self.nice && older.system <= self.system
            && older.idle <= self.idle && older.iowait <= self.iowait && older.irq <= self.irq
            && older.softirq <= self.softirq && older.steal <= self.steal && older.guest
            <= self.guest {
            Some(
                StatCpu {
                    user: self.user - older.user,
                    nice: self.nice - older.nice,
                    system: self.system - older.system,
                    idle: self.idle - older.idle,
                    iowait: self.iowait - older.iowait,
                    irq: self.irq - older.irq,
                    softirq: self.softirq - older.softirq,
                    steal: self.steal - older.steal,
                    guest: self.guest - older.guest,
                },
            )
        } else {
            None
        }
    }
}

impl Stat {
    /// The checked difference of this (newer) snapshot against an older
    /// one. Fails — and never truncates, zero-pads or clamps — when the
    /// per-core tables differ in length, when any cumulative counter
    /// decreased, or when a process gauge does not fit in a signed 64-bit
    /// difference; otherwise the result is exactly the field-wise
    /// difference.
    pub fn difference(&self, older: &Stat) -> (r: Result<StatDelta, DeltaError>)
        ensures
            r matches Ok(d) ==> self@.cpus.len() == older@.cpus.len() && counters_monotone(
                self@,
                older@,
            ) && gauges_fit(self@, older@) && d@ == delta_spec(self@, older@),
            r == Err::<StatDelta, DeltaError>(DeltaError::CpuCountMismatch) <==> self@.cpus.len() != older@.cpus.len(),
            r == Err::<StatDelta, DeltaError>(DeltaError::CounterDecreased) <==> self@.cpus.len() == older@.cpus.len()
                && !counters_monotone(self@, older@),
            r == Err::<StatDelta, DeltaError>(DeltaError::GaugeOverflow) <==> self@.cpus.len() == older@.cpus.len()
                && counters_monotone(self@, older@) && !gauges_fit(self@, older@),
    {
        let n = self.cpus.len();
        if n != older.cpus.len() {
            return Err(DeltaError::CpuCountMismatch);
        }
        let cpu_totals = match self.cpu_totals.difference(&older.cpu_totals) {
            Some(d) => d,
            None => {
                return Err(DeltaError::CounterDecreased);
            },
        };
        let mut cpus: Vec<StatCpu> = Vec::new();
        let mut i: usize = 0;
        while i < n
            invariant
                i <= n,
                n == self.cpus@.len(),
                n == older.cpus@.len(),
                forall|j: int| 0 <= j < i ==> cpu_le(#[trigger] older.cpus@[j], self.cpus@[j]),
                cpus@.len() == i,
                forall|j: int|
                    0 <= j < i ==> cpus@[j] == cpu_delta(
                        #[trigger] self.cpus@[j],
                        older.cpus@[j],
                    ),
            decreases n - i,
        {
            match self.cpus[i].difference(&older.cpus[i]) {
                Some(d) => {
                    cpus.push(d);
                    i = i + 1;
                },
                None => {
                    assert(!cpu_le(older.cpus@[i as int], self.cpus@[i as int]));
                    return Err(DeltaError::CounterDecreased);
                },
            }
        }
        let context_switches = match self.context_switches.checked_sub(older.context_switches) {
            Some(v) => v,
            None => {
                return Err(DeltaError::CounterDecreased);
            },
        };
        let processes = match self.processes.checked_sub(older.processes) {
            Some(v) => v,
            None => {
                return Err(DeltaError::CounterDecreased);
            },
        };
        let max = i64::MAX as u64;
        if self.procs_running > max || older.procs_running > max || self.procs_blocked > max
            || older.procs_blocked > max {
            return Err(DeltaError::GaugeOverflow);
        }
        let procs_running = self.procs_running as i64 - older.procs_running as i64;
        let procs_blocked = self.procs_blocked as i64 - older.procs_blocked as i64;
        let d = StatDelta { cpu_totals, cpus, context_switches, processes, procs_running, procs_blocked };
        proof {
            assert(d@ =~= delta_spec(self@, older@));
        }
        Ok(d)
    }
}

/// Checked-sum identity across differencing: when every counter is
/// monotone and the newer sample's total fits in 64 bits, the difference's
/// total is exactly the difference of the two totals — and therefore also
/// fits, so it too is the sum of its nine fields.
pub proof fn lemma_delta_total(newer: StatCpu, older: StatCpu)
    requires
        cpu_le(older, newer),
        newer.total_spec() <= u64::MAX,
    ensures
        cpu_delta(newer, older).total_spec() == newer.total_spec() - older.total_spec(),
        cpu_delta(newer, older).total_spec() <= u64::MAX,
{
}

/// The checked-sum identity lifted to whole snapshots: for any two samples
/// whose cumulative counters are monotone and whose newer aggregate total
/// fits in 64 bits, the difference's aggregate total is the difference of
/// the two aggregate totals.
pub proof fn lemma_snapshot_delta_total(newer: StatG, older: StatG)
    requires
        counters_monotone(newer, older),
        newer.cpu_totals.total_spec() <= u64::MAX,
    ensures
        delta_spec(newer, older).cpu_totals.total_spec() == newer.cpu_totals.total_spec()
            - older.cpu_totals.total_spec(),
        delta_spec(newer, older).cpu_totals.total_spec() <= u64::MAX,
{
    lemma_delta_total(newer.cpu_totals, older.cpu_totals);
}

/// Idle/non-idle partition: the idle units and the busy units of a counter
/// set split its total exactly. Hence, whenever the total is positive, the
/// idle and non-idle fractions sum to one.
pub proof fn lemma_idle_busy_partition(c: StatCpu)
    ensures
        c.idle_units_spec() + c.busy_units_spec() == c.total_spec(),
        0 <= c.idle_units_spec() <= c.total_spec(),
{
}

/// Differencing a snapshot against itself succeeds — provided its process
/// gauges fit in a signed difference — and yields a delta whose every
/// unsigned counter is zero and whose two gauges are zero.
pub proof fn lemma_self_difference_zero(s: StatG)
    requires
        s.procs_running <= i64::MAX,
        s.procs_blocked <= i64::MAX,
    ensures
        counters_monotone(s, s),
        gauges_fit(s, s),
        delta_spec(s, s).cpu_totals == (StatCpu {
            user: 0,
            nice: 0,
            system: 0,
            idle: 0,
            iowait: 0,
            irq: 0,
            softirq: 0,
            steal: 0,
            guest: 0,
        }),
        delta_spec(s, s).cpus.len() == s.cpus.len(),
        forall|i: int|
            0 <= i < s.cpus.len() ==> #[trigger] delta_spec(s, s).cpus[i] == (StatCpu {
                user: 0,
                nice: 0,
                system: 0,
                idle: 0,
                iowait: 0,
                irq: 0,
                softirq: 0,
                steal: 0,
                guest: 0,
            }),
        delta_spec(s, s).context_switches == 0,
        delta_spec(s, s).processes == 0,
        delta_spec(s, s).procs_running == 0,
        delta_spec(s, s).procs_blocked == 0,
{
}

} // verus!
