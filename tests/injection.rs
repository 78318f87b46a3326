use std::io::ErrorKind;
use std::sync::atomic::{AtomicUsize, Ordering};
use std::sync::{Arc, Mutex};

use fault_injection::countdown::{countdown_next, verdict, Verdict};
use fault_injection::injector::{
    resolve, set_trigger_function, Failure, Fault, FaultInjector, Hook, NoTrigger, Trigger,
    DISARMED,
};
use fault_injection::jitter::{jitter_rounds, FALLBACK_STAMP};
use fault_injection::origin::{decimal, Origin};

#[derive(Clone)]
struct Recorder {
    calls: Arc<Mutex<Vec<(String, String, u32)>>>,
}

impl Recorder {
    fn new() -> Recorder {
        Recorder { calls: Arc::new(Mutex::new(Vec::new())) }
    }

    fn calls(&self) -> Vec<(String, String, u32)> {
        self.calls.lock().unwrap().clone()
    }
}

impl Trigger for Recorder {
    fn fire(&self, component: &'static str, file: &'static str, line: u32) {
        self.calls.lock().unwrap().push((component.to_string(), file.to_string(), line));
    }
}

fn site(line: u32) -> Origin {
    Origin::new("client", "src/io.rs", line)
}

fn succeed() -> Result<u32, Failure> {
    Ok(7)
}

fn not_found() -> Result<u32, Failure> {
    Err(Failure { kind: ErrorKind::NotFound, message: "no such file".to_string() })
}

#[test]
fn new_injector_is_disarmed() {
    let inj: FaultInjector<NoTrigger> = FaultInjector::new();
    assert_eq!(inj.remaining(), u64::MAX);
    assert_eq!(DISARMED, u64::MAX);
    assert_eq!(inj.delay_intensity(), 0);
    assert_eq!(inj.evaluate(site(1), succeed).ok(), Some(7));
    assert_eq!(inj.remaining(), u64::MAX - 1);
}

#[test]
fn arm_one_injects_at_first_call() {
    let inj: FaultInjector<NoTrigger> = FaultInjector::new();
    inj.arm(1);
    let r = inj.evaluate(site(42), succeed);
    match r {
        Err(f) => {
            assert!(f.is_injected());
            assert_eq!(f.message().as_str(), "injected fault at client:src/io.rs:42");
        }
        Ok(_) => panic!("expected an injected fault"),
    }
}

#[test]
fn arm_two_passes_then_injects() {
    let inj: FaultInjector<NoTrigger> = FaultInjector::new();
    inj.arm(2);
    assert_eq!(inj.evaluate(site(1), succeed).ok(), Some(7));
    let second = inj.evaluate(site(2), succeed);
    assert!(second.err().unwrap().is_injected());
}

#[test]
fn countdown_of_n_fails_exactly_at_n() {
    for n in 1u64..12 {
        let inj: FaultInjector<NoTrigger> = FaultInjector::new();
        inj.arm(n);
        for k in 1..=n {
            let r = inj.evaluate(site(k as u32), succeed);
            if k < n {
                assert_eq!(r.ok(), Some(7));
            } else {
                assert!(r.err().unwrap().is_injected());
            }
        }
    }
}

#[test]
fn arm_zero_saturates() {
    let inj: FaultInjector<NoTrigger> = FaultInjector::new();
    inj.arm(0);
    for line in 0..20u32 {
        let r = inj.evaluate(site(line), succeed);
        assert!(r.err().unwrap().is_injected());
        assert_eq!(inj.remaining(), 0);
    }
}

#[test]
fn exhausted_counter_keeps_injecting() {
    let inj: FaultInjector<NoTrigger> = FaultInjector::new();
    inj.arm(1);
    for _ in 0..5 {
        assert!(inj.evaluate(site(3), succeed).err().unwrap().is_injected());
    }
    assert_eq!(inj.remaining(), 0);
}

#[test]
fn injected_message_names_file_and_line() {
    let inj: FaultInjector<NoTrigger> = FaultInjector::new();
    inj.arm(1);
    let o = Origin::new("storage", "src/pagecache/mod.rs", 1234);
    let f = inj.evaluate(o, succeed).err().unwrap();
    assert!(f.message().contains("src/pagecache/mod.rs"));
    assert!(f.message().ends_with(":1234"));
    assert_eq!(o.injected_message(), "injected fault at storage:src/pagecache/mod.rs:1234");
}

#[test]
fn forwarded_failure_keeps_kind_and_message() {
    let inj: FaultInjector<NoTrigger> = FaultInjector::new();
    let f = inj.evaluate(site(9), not_found).err().unwrap();
    match f {
        Fault::Forwarded { kind, message } => {
            assert_eq!(kind, ErrorKind::NotFound);
            assert_eq!(message, "client:src/io.rs:9 -> no such file");
            assert!(message.ends_with("no such file"));
        }
        Fault::Injected { .. } => panic!("expected a forwarded failure"),
    }
}

#[test]
fn forwarded_failures_collect_breadcrumbs() {
    let inj: FaultInjector<NoTrigger> = FaultInjector::new();
    let inner = inj.evaluate(Origin::new("disk", "src/disk.rs", 5), not_found);
    let outer = inj.evaluate(Origin::new("db", "src/db.rs", 80), move || match inner {
        Ok(v) => Ok(v),
        Err(Fault::Forwarded { kind, message }) => Err(Failure { kind, message }),
        Err(Fault::Injected { message }) => Err(Failure { kind: ErrorKind::Other, message }),
    });
    match outer {
        Err(Fault::Forwarded { kind, message }) => {
            assert_eq!(kind, ErrorKind::NotFound);
            assert_eq!(message, "db:src/db.rs:80 -> disk:src/disk.rs:5 -> no such file");
        }
        _ => panic!("expected a forwarded failure"),
    }
}

#[test]
fn injected_fault_skips_the_operation() {
    let inj: FaultInjector<NoTrigger> = FaultInjector::new();
    inj.arm(1);
    let ran = AtomicUsize::new(0);
    let r = inj.evaluate(site(4), || {
        ran.fetch_add(1, Ordering::SeqCst);
        Ok(1u8)
    });
    assert!(r.is_err());
    assert_eq!(ran.load(Ordering::SeqCst), 0);
}

#[test]
fn trigger_fires_once_at_n() {
    let inj: FaultInjector<Recorder> = FaultInjector::new();
    let rec = Recorder::new();
    set_trigger_function(&inj, rec.clone());
    inj.arm(3);
    for line in 1..=8u32 {
        let _ = inj.evaluate(site(line), succeed);
    }
    assert_eq!(rec.calls(), vec![("client".to_string(), "src/io.rs".to_string(), 3)]);
}

#[test]
fn trigger_not_fired_when_disarmed() {
    let inj: FaultInjector<Recorder> = FaultInjector::new();
    let rec = Recorder::new();
    set_trigger_function(&inj, rec.clone());
    for line in 1..=8u32 {
        assert!(inj.evaluate(site(line), succeed).is_ok());
    }
    assert!(rec.calls().is_empty());
}

#[test]
fn latest_trigger_registration_wins() {
    let inj: FaultInjector<Recorder> = FaultInjector::new();
    let first = Recorder::new();
    let second = Recorder::new();
    set_trigger_function(&inj, first.clone());
    set_trigger_function(&inj, second.clone());
    inj.arm(1);
    let _ = inj.evaluate(site(11), succeed);
    assert!(first.calls().is_empty());
    assert_eq!(second.calls().len(), 1);
    assert!(inj.current_trigger().is_some());
}

#[test]
fn rearming_after_trigger_fires_again() {
    let inj: FaultInjector<Recorder> = FaultInjector::new();
    let rec = Recorder::new();
    set_trigger_function(&inj, rec.clone());
    inj.arm(1);
    let _ = inj.evaluate(site(1), succeed);
    inj.arm(2);
    let _ = inj.evaluate(site(2), succeed);
    let _ = inj.evaluate(site(3), succeed);
    let lines: Vec<u32> = rec.calls().iter().map(|c| c.2).collect();
    assert_eq!(lines, vec![1, 3]);
}

#[test]
fn round_robin_callers_take_distinct_positions() {
    let inj: Arc<FaultInjector<NoTrigger>> = Arc::new(FaultInjector::new());
    inj.arm(50);
    let callers: Vec<Arc<FaultInjector<NoTrigger>>> = (0..4).map(|_| inj.clone()).collect();
    let mut seen: Vec<u64> = Vec::new();
    let mut successes = 0usize;
    let mut failures = 0usize;
    for round in 0..40u32 {
        for (t, caller) in callers.iter().enumerate() {
            let pre = caller.remaining();
            match caller.evaluate(site(t as u32 * 100 + round), succeed) {
                Ok(_) => successes += 1,
                Err(_) => failures += 1,
            }
            if pre > 0 {
                assert!(!seen.contains(&pre));
                seen.push(pre);
            }
        }
    }
    assert_eq!(successes, 49);
    assert_eq!(failures, 160 - 49);
    assert_eq!(seen.len(), 50);
    assert_eq!(inj.remaining(), 0);
}

#[test]
fn take_position_counts_down_and_saturates() {
    let inj: FaultInjector<NoTrigger> = FaultInjector::new();
    inj.arm(5);
    assert_eq!(inj.take_position(), 5);
    assert_eq!(inj.take_position(), 4);
    assert_eq!(inj.remaining(), 3);
    inj.arm(0);
    assert_eq!(inj.take_position(), 0);
    assert_eq!(inj.remaining(), 0);
}

#[test]
fn verdicts_by_pre_value() {
    assert_eq!(verdict(0), Verdict::Exhausted);
    assert_eq!(verdict(1), Verdict::Trigger);
    assert_eq!(verdict(2), Verdict::Proceed);
    assert_eq!(verdict(u64::MAX), Verdict::Proceed);
    assert_eq!(countdown_next(0), 0);
    assert_eq!(countdown_next(1), 0);
    assert_eq!(countdown_next(5), 4);
    assert_eq!(countdown_next(u64::MAX), u64::MAX - 1);
}

#[test]
fn resolve_by_pre_value() {
    let rec = Recorder::new();
    let r = resolve(2, site(6), &mut Some(Hook::new(rec.clone())), succeed);
    assert_eq!(r.ok(), Some(7));
    assert!(rec.calls().is_empty());
    let r = resolve(1, site(6), &mut Some(Hook::new(rec.clone())), succeed);
    assert!(r.err().unwrap().is_injected());
    assert_eq!(rec.calls().len(), 1);
    let r = resolve(0, site(6), &mut Some(Hook::new(rec.clone())), succeed);
    assert_eq!(r.err().unwrap().message().as_str(), "injected fault at client:src/io.rs:6");
    assert_eq!(rec.calls().len(), 1);
    let r = resolve(3, site(6), &mut None::<Hook<NoTrigger>>, not_found);
    assert_eq!(r.err().unwrap().message().as_str(), "client:src/io.rs:6 -> no such file");
}

#[test]
fn jitter_rounds_from_timestamp() {
    assert_eq!(jitter_rounds(0, 3), 48);
    assert_eq!(jitter_rounds(0, u32::MAX), 16 * u32::MAX as u64);
    assert_eq!(jitter_rounds(1, 9), 0);
    assert_eq!(jitter_rounds(8, 5), 15);
    assert_eq!(jitter_rounds(0x8000, 1), 15);
    assert_eq!(jitter_rounds(FALLBACK_STAMP, 7), 7);
    assert_eq!(jitter_rounds(12345, 0), 0);
    assert_eq!(jitter_rounds(0, 0), 0);
}

#[test]
fn injector_jitter_follows_intensity() {
    let inj: FaultInjector<NoTrigger> = FaultInjector::new();
    assert_eq!(inj.jitter(0), 0);
    inj.set_delay_intensity(4);
    assert_eq!(inj.delay_intensity(), 4);
    assert_eq!(inj.jitter(0), 64);
    assert_eq!(inj.jitter(4), 8);
    inj.set_delay_intensity(0);
    assert_eq!(inj.jitter(4), 0);
}

#[test]
fn decimal_rendering() {
    assert_eq!(decimal(0), "0");
    assert_eq!(decimal(7), "7");
    assert_eq!(decimal(10), "10");
    assert_eq!(decimal(120), "120");
    assert_eq!(decimal(u32::MAX), "4294967295");
}

#[test]
fn origin_label_and_forwarded_message() {
    let o = Origin::new("net", "src/tcp.rs", 300);
    assert_eq!(o.label(), "net:src/tcp.rs:300");
    assert_eq!(o.forwarded_message("timed out"), "net:src/tcp.rs:300 -> timed out");
    assert_eq!(o.forwarded_message(""), "net:src/tcp.rs:300 -> ");
    let empty = Origin::new("", "", 0);
    assert_eq!(empty.injected_message(), "injected fault at ::0");
}

#[test]
fn forwarded_failure_does_not_fire_trigger() {
    let inj: FaultInjector<Recorder> = FaultInjector::new();
    let rec = Recorder::new();
    set_trigger_function(&inj, rec.clone());
    let f = inj.evaluate(Origin::new("demo", "src/app.rs", 7), not_found).err().unwrap();
    assert_eq!(f.message().as_str(), "demo:src/app.rs:7 -> no such file");
    assert!(!f.is_injected());
    assert!(rec.calls().is_empty());
    assert_eq!(inj.remaining(), u64::MAX - 1);
}

#[test]
fn arm_zero_never_fires_trigger() {
    let inj: FaultInjector<Recorder> = FaultInjector::new();
    let rec = Recorder::new();
    set_trigger_function(&inj, rec.clone());
    inj.arm(0);
    for line in 0..6u32 {
        assert!(inj.evaluate(site(line), succeed).err().unwrap().is_injected());
    }
    assert!(rec.calls().is_empty());
    assert_eq!(inj.remaining(), 0);
}

#[test]
fn arm_two_fires_trigger_at_second_site() {
    let inj: FaultInjector<Recorder> = FaultInjector::new();
    let rec = Recorder::new();
    set_trigger_function(&inj, rec.clone());
    inj.arm(2);
    assert_eq!(inj.evaluate(Origin::new("demo", "src/app.rs", 10), succeed).ok(), Some(7));
    assert!(rec.calls().is_empty());
    let r = inj.evaluate(Origin::new("demo", "src/app.rs", 11), succeed);
    assert_eq!(r.err().unwrap().message().as_str(), "injected fault at demo:src/app.rs:11");
    assert_eq!(rec.calls(), vec![("demo".to_string(), "src/app.rs".to_string(), 11)]);
    assert_eq!(inj.remaining(), 0);
}

#[test]
fn hook_tell_reaches_trigger() {
    let rec = Recorder::new();
    let mut hook = Hook::new(rec.clone());
    hook.tell("demo", "src/app.rs", 20);
    assert_eq!(rec.calls(), vec![("demo".to_string(), "src/app.rs".to_string(), 20)]);
}
