use profiler::IndentCounter;
use profiler::TimerInfo;
use profiler::compute_indent_whitespace;
use profiler::debug_duration;

#[test]
fn duration_formatting_picks_the_largest_unit() {
    assert_eq!(debug_duration(1_003_000_000), "1.003s");
    assert_eq!(debug_duration(1_500_000_000), "1.500s");
    assert_eq!(debug_duration(40_000_000), "40.000ms");
    assert_eq!(debug_duration(999_999_999), "999.999ms");
    assert_eq!(debug_duration(5_020), "5.020µs");
    assert_eq!(debug_duration(999), "999ns");
    assert_eq!(debug_duration(0), "0ns");
    assert_eq!(debug_duration(61_002_003_004), "61.002s");
}

#[test]
fn indent_whitespace_is_plain_spaces() {
    assert_eq!(compute_indent_whitespace(0), "");
    assert_eq!(compute_indent_whitespace(1), " ");
    assert_eq!(compute_indent_whitespace(6), "      ");
}

#[test]
fn timer_handles_measure_elapsed_time() {
    let t = TimerInfo::new(String::from("job"), 1_000);
    assert_eq!(t.msg, "job");
    assert_eq!(t.time, 1_000);
    assert_eq!(t.elapsed_at(41_000), 40_000);
    // a clock that ran backwards reads as zero elapsed
    assert_eq!(t.elapsed_at(500), 0);
    let live = TimerInfo::start(String::from("live"));
    assert_eq!(live.msg, "live");
    let _ = live.elapsed();
}

#[test]
fn indent_counter_enters_and_exits() {
    let mut c = IndentCounter::new();
    assert_eq!(c.current(), 0);
    assert_eq!(c.enter(), 0);
    assert_eq!(c.enter(), 1);
    assert_eq!(c.current(), 2);
    c.exit();
    assert_eq!(c.current(), 1);
    c.exit();
    assert_eq!(c.current(), 0);
    // leaving at depth zero wraps like the word-sized atomic it mirrors
    c.exit();
    assert_eq!(c.current(), usize::MAX);
    assert_eq!(c.enter(), usize::MAX);
    assert_eq!(c.current(), 0);
}

#[test]
fn print_add() {
    let mut s = profiler::Statistic::new();
    let start = TimerInfo::new(String::from("Hello"), 0);

    // trace a multi-line message under the running timer, indented two deep
    let title = "HelloMsg";
    let body = "Hello, I\nAm\nA\nMessage";
    let indent = compute_indent_whitespace(2);
    let mut rendered = String::from("\n");
    for line in body.lines() {
        rendered.push_str(&indent);
        rendered.push_str(line);
        rendered.push('\n');
    }
    println!("StartMsg: {}", title);
    println!("{}", rendered);
    println!("EndMsg: {}", title);
    assert_eq!(rendered, "\n  Hello, I\n  Am\n  A\n  Message\n");

    // finish the timer under the default part and session
    let elapsed = start.elapsed_at(5_000_000);
    assert_eq!(
        s.end_job(&start.msg, "DefaultPart", profiler::default_work(), elapsed),
        Ok(())
    );
    assert_eq!(s.job_time("Hello", "DefaultPart"), 5_000_000);
    println!("End: {} {}", start.msg, debug_duration(elapsed));
}
