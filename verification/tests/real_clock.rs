use pulse::Signal;
use pulse::SignalState;
use schedule_pulse::clock::Clock;
use schedule_pulse::event::SchedulingRequest;
use schedule_pulse::worker::ScheduleWorker;
use std::sync::Condvar;
use std::sync::Mutex;
use std::time::Duration;
use time::SteadyTime;

struct Stopwatch {
    start: SteadyTime,
}

impl Stopwatch {
    fn new() -> Stopwatch {
        Stopwatch { start: SteadyTime::now() }
    }

    fn expect_elapsed(&self, expected_ms: i64) {
        let actual_elapsed_ms = (SteadyTime::now() - self.start).num_milliseconds();
        assert!(
            actual_elapsed_ms - 100 < expected_ms,
            "Elapsed too late: {}ms instead of {}ms",
            actual_elapsed_ms,
            expected_ms
        );
        assert!(
            actual_elapsed_ms + 100 > expected_ms,
            "Elapsed too soon: {}ms instead of {}ms",
            actual_elapsed_ms,
            expected_ms
        );
    }
}

fn rest(ms: u32) {
    let gate = Mutex::new(false);
    let trigger = Condvar::new();
    let start = SteadyTime::now();
    let mut guard = gate.lock().unwrap();
    loop {
        let gone = (SteadyTime::now() - start).num_milliseconds();
        if gone >= ms as i64 {
            break;
        }
        guard = trigger.wait_timeout(guard, Duration::from_millis((ms as i64 - gone) as u64)).unwrap().0;
    }
}

struct Scheduler {
    worker: ScheduleWorker,
    queued: Vec<SchedulingRequest>,
}

impl Scheduler {
    fn new() -> Scheduler {
        Scheduler { worker: ScheduleWorker::new(), queued: Vec::new() }
    }

    fn oneshot_ms(&mut self, ms: u32) -> Signal {
        let (handle, request) = SchedulingRequest::new(ms);
        self.queued.push(request);
        handle
    }

    fn wait(&mut self, handle: Signal) -> Result<(), pulse::WaitError> {
        while handle.is_pending() {
            let batch = std::mem::take(&mut self.queued);
            let wait_millis = self.worker.run_once(batch);
            if handle.is_pending() {
                rest(wait_millis);
            }
        }
        handle.wait()
    }
}

#[test]
fn simple_wait() {
    let mut scheduler = Scheduler::new();
    let watch = Stopwatch::new();
    let timer = scheduler.oneshot_ms(1400);
    scheduler.wait(timer).unwrap();
    watch.expect_elapsed(1400);
}

#[test]
fn several_concurrent_waits() {
    let mut scheduler = Scheduler::new();
    let watch = Stopwatch::new();
    let medium = scheduler.oneshot_ms(1400);
    let short = scheduler.oneshot_ms(300);
    let long = scheduler.oneshot_ms(2000);
    scheduler.wait(short).unwrap();
    watch.expect_elapsed(300);

    scheduler.wait(medium).unwrap();
    watch.expect_elapsed(1400);

    scheduler.wait(long).unwrap();
    watch.expect_elapsed(2000);
}

#[test]
fn several_concurrent_waits_misordered() {
    let mut scheduler = Scheduler::new();
    let watch = Stopwatch::new();
    let medium = scheduler.oneshot_ms(1400);
    let short = scheduler.oneshot_ms(300);
    let long = scheduler.oneshot_ms(2000);

    scheduler.wait(long).unwrap();
    watch.expect_elapsed(2000);

    assert_eq!(short.state(), SignalState::Pulsed);
    assert_eq!(medium.state(), SignalState::Pulsed);
    short.wait().unwrap();
    watch.expect_elapsed(2000);

    medium.wait().unwrap();
    watch.expect_elapsed(2000);
}

#[test]
fn sleep_equivalent_of_one_and_a_half_seconds() {
    let mut scheduler = Scheduler::new();
    let watch = Stopwatch::new();
    let timer = scheduler.oneshot_ms(1500);
    assert_eq!(scheduler.wait(timer), Ok(()));
    watch.expect_elapsed(1500);
}

#[test]
fn dropped_handle_and_later_timer_on_the_real_clock() {
    let mut scheduler = Scheduler::new();
    let watch = Stopwatch::new();
    let forgotten = scheduler.oneshot_ms(100);
    drop(forgotten);
    let first = scheduler.oneshot_ms(200);
    scheduler.wait(first).unwrap();
    watch.expect_elapsed(200);
    assert_eq!(scheduler.worker.pending_count(), 0);
    let later = scheduler.oneshot_ms(150);
    scheduler.wait(later).unwrap();
    watch.expect_elapsed(350);
}

#[test]
fn run_once_fires_a_request_without_delay_at_once() {
    let mut worker = ScheduleWorker::new();
    let (handle, request) = SchedulingRequest::new(0);
    let (far, far_request) = SchedulingRequest::new(3600000);
    let wait = worker.run_once(vec![request, far_request]);
    assert_eq!(handle.state(), SignalState::Pulsed);
    assert_eq!(far.state(), SignalState::Pending);
    assert_eq!(worker.pending_count(), 1);
    assert_eq!(wait, 10000);
}

#[test]
fn run_once_on_an_idle_worker_rests_one_second() {
    let mut worker = ScheduleWorker::new();
    assert_eq!(worker.run_once(Vec::new()), 1000);
    assert_eq!(worker.pending_count(), 0);
}

#[test]
fn run_once_does_not_fire_before_the_delay_on_the_real_clock() {
    let mut worker = ScheduleWorker::new();
    let (handle, request) = SchedulingRequest::new(250);
    let start = worker.now_ms();
    assert_eq!(worker.run_once(vec![request]), 25);
    loop {
        let before = worker.now_ms();
        worker.run_once(Vec::new());
        if handle.state() == SignalState::Pulsed {
            assert!(worker.now_ms() - start >= 250);
            break;
        }
        assert!(before - start < 20000);
        rest(5);
    }
}

#[test]
fn clock_counts_milliseconds_from_its_start() {
    let clock = Clock::start();
    let first = clock.now_ms();
    assert!(first >= 0);
    assert!(first < 1000);
    rest(120);
    let second = clock.now_ms();
    assert!(second - first >= 119);
    assert!(second - first < 1000);
}

#[test]
fn worker_clock_does_not_run_backwards() {
    let worker = ScheduleWorker::new();
    let mut last = worker.now_ms();
    for _ in 0..1000 {
        let now = worker.now_ms();
        assert!(now >= last);
        last = now;
    }
}
