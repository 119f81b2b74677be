use profiler::StatError;
use profiler::Statistic;

const MS: u64 = 1_000_000;

#[test]
fn scenario_totals_and_percentages() {
    let mut s = Statistic::new();
    assert_eq!(s.start_work_at("MyWork", 0), Ok(()));

    assert_eq!(s.end_job("Hi_1", "Hi", "MyWork", 40 * MS), Ok(()));
    assert_eq!(s.end_job("Hello_1", "Hello", "MyWork", 50 * MS), Ok(()));
    assert_eq!(s.end_job("Hello_1", "Hello", "MyWork", 50 * MS), Ok(()));
    assert_eq!(s.end_job("Hello_2", "Hello", "MyWork", 10 * MS), Ok(()));

    assert_eq!(s.end_work_at("MyWork", 150 * MS), Ok(()));

    assert_eq!(s.part_time("Hi"), 40 * MS);
    assert_eq!(s.part_time("Hello"), 110 * MS);
    assert_eq!(s.job_time("Hello_1", "Hello"), 100 * MS);
    assert_eq!(s.job_time("Hello_2", "Hello"), 10 * MS);
    assert_eq!(s.work_total_time_at("MyWork", 0), Ok(150 * MS));

    let elapsed = s.work_total_time_at("MyWork", 0).unwrap();
    let part_percent = s.part_time("Hi") as f64 * 100.0 / elapsed as f64;
    assert!((part_percent - 40.0 / 150.0 * 100.0).abs() < 1e-9);
    let job_percent = s.job_time("Hello_1", "Hello") as f64 * 100.0 / elapsed as f64;
    assert!((job_percent - 100.0 / 150.0 * 100.0).abs() < 1e-9);
}

#[test]
fn accumulation_is_additive() {
    let mut s = Statistic::new();
    assert_eq!(s.start_work_at("W", 7), Ok(()));
    let durations = [3u64, 11, 29, 1];
    let mut sum = 0u64;
    for d in durations {
        assert_eq!(s.end_job("job", "part", "W", d), Ok(()));
        sum += d;
        assert_eq!(s.job_time("job", "part"), sum);
    }
    assert_eq!(s.job_time("job", "part"), 44);
    assert_eq!(s.part_time("part"), 44);
    // another job of the same part raises the part total beyond the job's sum
    assert_eq!(s.end_job("other", "part", "W", 6), Ok(()));
    assert_eq!(s.part_time("part"), 50);
    assert_eq!(s.job_time("job", "part"), 44);
}

#[test]
fn no_double_counting_after_end() {
    let mut s = Statistic::new();
    assert_eq!(s.start_work_at("W", 10), Ok(()));
    assert_eq!(s.end_job("job", "part", "W", 25), Ok(()));
    assert_eq!(s.end_work_at("W", 90), Ok(()));
    // the session has ended: further records succeed but change nothing
    assert_eq!(s.end_job("job", "part", "W", 1000), Ok(()));
    assert_eq!(s.end_job("new_job", "part", "W", 1000), Ok(()));
    assert_eq!(s.end_job("job", "new_part", "W", 1000), Ok(()));
    assert_eq!(s.part_time("part"), 25);
    assert_eq!(s.job_time("job", "part"), 25);
    assert_eq!(s.part_time("new_part"), 0);
    assert_eq!(s.job_time("new_job", "part"), 0);
}

#[test]
fn clock_regression_is_fatal_consistency_error() {
    let mut s = Statistic::new();
    assert_eq!(s.start_work_at("W", 100), Ok(()));
    assert_eq!(s.end_work_at("W", 99), Err(StatError::ClockRegression));
    // the failed end left no end recorded: the session still cannot be queried
    assert_eq!(s.work_total_time_at("W", 0), Err(StatError::NotEnded));
    // an end at exactly the start instant is fine
    assert_eq!(s.end_work_at("W", 100), Ok(()));
    assert_eq!(s.work_total_time_at("W", 0), Ok(0));
}

#[test]
fn duplicate_start_rejected_without_mutation() {
    let mut s = Statistic::new();
    assert_eq!(s.start_work_at("X", 123), Ok(()));
    assert_eq!(s.start_work_at("X", 456), Err(StatError::DuplicateStart));
    // the first recorded start instant survives
    assert_eq!(s.end_work_at("X", 200), Ok(()));
    assert_eq!(s.work_total_time_at("X", 0), Ok(77));
}

#[test]
fn duplicate_start_rejected_with_live_clock() {
    let mut s = Statistic::new();
    assert_eq!(s.start_work("X"), Ok(()));
    assert_eq!(s.start_work("X"), Err(StatError::DuplicateStart));
}

#[test]
fn unknown_names_read_as_zero() {
    let s = Statistic::new();
    assert_eq!(s.part_time("never-seen"), 0);
    assert_eq!(s.job_time("never-seen", "never-seen"), 0);
    let mut s = Statistic::new();
    assert_eq!(s.start_work_at("W", 0), Ok(()));
    assert_eq!(s.end_job("job", "part", "W", 5), Ok(()));
    assert_eq!(s.job_time("never-seen", "part"), 0);
}

#[test]
fn default_session_live_query() {
    let s = Statistic::new();
    let first = s.work_total_time(profiler::default_work());
    assert!(first.is_ok());
    let mut spin = 0u64;
    while spin < 2_000_000 {
        spin = spin.wrapping_add(1);
    }
    let second = s.work_total_time(profiler::default_work());
    assert!(second.is_ok());
    assert!(second.unwrap() >= first.unwrap());
}

#[test]
fn usage_errors_on_missing_sessions() {
    let mut s = Statistic::new();
    assert_eq!(s.end_work_at("nope", 5), Err(StatError::NotStarted));
    assert_eq!(s.end_work("nope"), Err(StatError::NotStarted));
    assert_eq!(s.end_job("j", "p", "nope", 1), Err(StatError::NotStarted));
    assert_eq!(s.work_total_time_at("nope", 5), Err(StatError::NotStarted));
    assert_eq!(s.work_total_time("nope"), Err(StatError::NotStarted));
    // a started, unended, non-default session cannot be queried
    assert_eq!(s.start_work_at("open", 5), Ok(()));
    assert_eq!(s.work_total_time_at("open", 10), Err(StatError::NotEnded));
    assert_eq!(s.work_total_time("open"), Err(StatError::NotEnded));
}

#[test]
fn default_session_is_started_at_construction() {
    let mut s = Statistic::new();
    assert_eq!(
        s.start_work(profiler::default_work()),
        Err(StatError::DuplicateStart)
    );
}
