use cpu_monitor::DeltaError;
use cpu_monitor::DiskStat;
use cpu_monitor::DiskStats;
use cpu_monitor::Stat;
use cpu_monitor::StatCpu;

fn cpu(
    user: u64,
    nice: u64,
    system: u64,
    idle: u64,
    iowait: u64,
    irq: u64,
    softirq: u64,
    steal: u64,
    guest: u64,
) -> StatCpu {
    StatCpu { user, nice, system, idle, iowait, irq, softirq, steal, guest }
}

fn stat(totals: StatCpu, cpus: Vec<StatCpu>) -> Stat {
    Stat {
        cpu_totals: totals,
        cpus,
        context_switches: 1000,
        boot_time: 1535128607,
        processes: 50,
        procs_running: 2,
        procs_blocked: 1,
    }
}

#[test]
fn total_is_sum_of_nine_fields() {
    let c = cpu(17501, 2, 6293, 8212469, 20141, 1955, 805, 0, 0);
    assert_eq!(c.total(), 8259166);
    assert_eq!(c.checked_total(), Some(8259166));
    assert_eq!(c.idle_units(), 8212469 + 20141);
}

#[test]
fn checked_total_rejects_wrapping_sum() {
    let c = cpu(u64::MAX, 1, 0, 0, 0, 0, 0, 0, 0);
    assert_eq!(c.checked_total(), None);
}

#[test]
fn difference_subtracts_field_wise() {
    let older = stat(cpu(10, 1, 2, 100, 5, 0, 3, 0, 0), vec![
        cpu(4, 0, 1, 50, 2, 0, 1, 0, 0),
        cpu(6, 1, 1, 50, 3, 0, 2, 0, 0),
    ]);
    let mut newer = stat(cpu(25, 1, 6, 180, 9, 2, 3, 0, 0), vec![
        cpu(14, 0, 3, 90, 4, 1, 1, 0, 0),
        cpu(11, 1, 3, 90, 5, 1, 2, 0, 0),
    ]);
    newer.context_switches = 1450;
    newer.processes = 61;
    newer.procs_running = 1;
    newer.procs_blocked = 3;
    let d = newer.difference(&older).unwrap();
    assert_eq!(d.cpu_totals, cpu(15, 0, 4, 80, 4, 2, 0, 0, 0));
    assert_eq!(d.cpus.len(), 2);
    assert_eq!(d.cpus[0], cpu(10, 0, 2, 40, 2, 1, 0, 0, 0));
    assert_eq!(d.cpus[1], cpu(5, 0, 2, 40, 2, 1, 0, 0, 0));
    assert_eq!(d.context_switches, 450);
    assert_eq!(d.processes, 11);
    assert_eq!(d.procs_running, -1);
    assert_eq!(d.procs_blocked, 2);
    // Checked-sum identity: the delta's total is the difference of totals,
    // and the sum of the delta's own nine fields.
    assert_eq!(d.cpu_totals.total(), newer.cpu_totals.total() - older.cpu_totals.total());
    assert_eq!(d.cpu_totals.total(), 15 + 4 + 80 + 4 + 2);
}

#[test]
fn different_cpu_count_always_fails() {
    let two = stat(cpu(10, 0, 0, 10, 0, 0, 0, 0, 0), vec![
        cpu(5, 0, 0, 5, 0, 0, 0, 0, 0),
        cpu(5, 0, 0, 5, 0, 0, 0, 0, 0),
    ]);
    let one = stat(cpu(10, 0, 0, 10, 0, 0, 0, 0, 0), vec![cpu(10, 0, 0, 10, 0, 0, 0, 0, 0)]);
    assert_eq!(two.difference(&one).unwrap_err(), DeltaError::CpuCountMismatch);
    assert_eq!(one.difference(&two).unwrap_err(), DeltaError::CpuCountMismatch);
}

#[test]
fn decreased_counter_fails() {
    let older = stat(cpu(10, 0, 0, 10, 0, 0, 0, 0, 0), vec![]);
    let mut newer = older.clone();
    newer.cpu_totals.idle = 9;
    assert_eq!(newer.difference(&older).unwrap_err(), DeltaError::CounterDecreased);
    // A decreased context-switch count fails the same way.
    let mut newer = older.clone();
    newer.context_switches = 999;
    assert_eq!(newer.difference(&older).unwrap_err(), DeltaError::CounterDecreased);
}

#[test]
fn oversized_gauge_fails() {
    let older = stat(cpu(10, 0, 0, 10, 0, 0, 0, 0, 0), vec![]);
    let mut newer = older.clone();
    newer.procs_running = u64::MAX;
    assert_eq!(newer.difference(&older).unwrap_err(), DeltaError::GaugeOverflow);
}

#[test]
fn self_difference_is_zero() {
    let s = stat(cpu(17501, 2, 6293, 8212469, 20141, 1955, 805, 0, 0), vec![
        cpu(4713, 0, 1720, 2049410, 8036, 260, 255, 0, 0),
        cpu(3866, 0, 1325, 2054893, 3673, 928, 307, 0, 0),
    ]);
    let d = s.difference(&s).unwrap();
    assert_eq!(d.cpu_totals, cpu(0, 0, 0, 0, 0, 0, 0, 0, 0));
    for c in &d.cpus {
        assert_eq!(*c, cpu(0, 0, 0, 0, 0, 0, 0, 0, 0));
    }
    assert_eq!(d.cpus.len(), s.cpus.len());
    assert_eq!(d.context_switches, 0);
    assert_eq!(d.processes, 0);
    assert_eq!(d.procs_running, 0);
    assert_eq!(d.procs_blocked, 0);
    assert_eq!(d.cpu_totals.total(), 0);
}

#[test]
fn two_sample_round_trip() {
    let older_raw = "cpu  100 0 50 1000 10 5 5 0 0
cpu0 100 0 50 1000 10 5 5 0 0
intr 1 2 3
ctxt 500
btime 1535128607
processes 40
procs_running 3
procs_blocked 0
";
    let newer_raw = "cpu  160 0 70 1800 14 5 11 0 0
cpu0 160 0 70 1800 14 5 11 0 0
intr 4 5 6
ctxt 740
btime 1535128607
processes 44
procs_running 1
procs_blocked 2
";
    let older = Stat::from_iter(&older_raw.lines().map(|l| l.to_string()).collect::<Vec<String>>()).unwrap();
    let newer = Stat::from_iter(&newer_raw.lines().map(|l| l.to_string()).collect::<Vec<String>>()).unwrap();
    let d = newer.difference(&older).unwrap();
    assert_eq!(d.cpu_totals, cpu(60, 0, 20, 800, 4, 0, 6, 0, 0));
    assert_eq!(d.cpu_totals.total(), 890);
    assert_eq!(d.cpu_totals.idle_units(), 804);
    assert_eq!(d.context_switches, 240);
    assert_eq!(d.processes, 4);
    assert_eq!(d.procs_running, -2);
    assert_eq!(d.procs_blocked, 2);
    // The idle and busy units partition the total.
    let busy = d.cpu_totals.total() - d.cpu_totals.idle_units();
    assert_eq!(d.cpu_totals.idle_units() + busy, d.cpu_totals.total());
}

#[test]
fn disk_stats_carry_entries() {
    let entry = DiskStat {
        major: 8,
        minor: 0,
        name: "sda".to_string(),
        reads_completed: 11,
        reads_merged: 2,
        sectors_read: 88,
        time_reading: 30,
        writes_completed: 7,
        writes_merged: 1,
        sectors_written: 56,
        time_writing: 20,
        io_in_progress: 0,
        time_io: 45,
        time_io_weighted: 50,
    };
    let stats = DiskStats::new(vec![entry.clone()]);
    assert_eq!(stats.iter().len(), 1);
    assert_eq!(stats.iter()[0], entry);
}
