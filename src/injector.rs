//! The process-wide injection state and the evaluation that every fallible
//! operation goes through.
//!
//! The counter and the delay intensity are independent atomic cells; the
//! trigger sits behind a read-write lock. No lock is held while the wrapped
//! operation or the trigger runs.
use vstd::prelude::*;
use vstd::rwlock::{RwLock, RwLockPredicate};
use std::io::ErrorKind;
use std::sync::atomic::{AtomicU32, AtomicU64, Ordering};
use crate::countdown::{count_after, countdown_next, lemma_count_after, verdict, verdict_at, verdict_of, Verdict};
use crate::jitter::{jitter_rounds, rounds_of, MAX_STAMP_ZEROS};
use crate::origin::{
    decimal_text, file_start, forwarded_text, injected_text, lemma_injected_text_parts, Origin,
};

verus! {

#[verifier::external_type_specification]
#[verifier::external_body]
pub struct ExErrorKind(ErrorKind);

/// The counter value of a freshly made injector: injection never fires in practice.
pub const DISARMED: u64 = 0xffff_ffff_ffff_ffff;

/// A wrapped operation's own failure: its classification and its description.
pub struct Failure {
    pub kind: ErrorKind,
    pub message: String,
}

/// The failure an evaluation hands back.
pub enum Fault {
    /// Injected by the countdown; the description names the call site.
    Injected { message: String },
    /// The operation's own failure, with its classification kept and the
    /// call site put in front of its description.
    Forwarded { kind: ErrorKind, message: String },
}

impl Fault {
    /// The description of the fault.
    pub fn message(&self) -> (r: &String)
        ensures
            r == match self {
                Fault::Injected { message } => message,
                Fault::Forwarded { message, .. } => message,
            },
    {
        match self {
            Fault::Injected { message } => message,
            Fault::Forwarded { message, .. } => message,
        }
    }

    /// Whether the fault was injected rather than forwarded.
    pub fn is_injected(&self) -> (r: bool)
        ensures
            r == (self is Injected),
    {
        match self {
            Fault::Injected { .. } => true,
            Fault::Forwarded { .. } => false,
        }
    }
}

/// The result handed back when an evaluation injects a fault at `o`.
pub open spec fn injected_at<T>(o: Origin, r: Result<T, Fault>) -> bool {
    match r {
        Err(Fault::Injected { message }) => message@ == injected_text(o),
        _ => false,
    }
}

/// The result handed back when the operation ran at `o` and produced `out`:
/// success unchanged, failure with its classification and an origin-prefixed
/// description.
pub open spec fn forwarded_from<T>(o: Origin, out: Result<T, Failure>, r: Result<T, Fault>) -> bool {
    match out {
        Ok(v) => r == Ok::<T, Fault>(v),
        Err(f) => match r {
            Err(Fault::Forwarded { kind, message }) => kind == f.kind && message@
                == forwarded_text(o, f.message@),
            _ => false,
        },
    }
}

/// What an evaluation at `o` that observed the pre-value `pre` hands back,
/// given that running `op` may produce any of its possible outcomes.
pub open spec fn outcome<T, F: FnOnce() -> Result<T, Failure>>(
    pre: u64,
    o: Origin,
    op: F,
    r: Result<T, Fault>,
) -> bool {
    if verdict_of(pre) == Verdict::Proceed {
        exists|out: Result<T, Failure>| op.ensures((), out) && forwarded_from(o, out, r)
    } else {
        injected_at(o, r)
    }
}

/// A callback told of every trigger event, with the call site that caused it.
pub trait Trigger {
    fn fire(&self, component: &'static str, file: &'static str, line: u32);
}

/// A trigger that does nothing, for injectors whose trigger events need no observer.
#[derive(Clone, Copy, Debug)]
pub struct NoTrigger;

impl Trigger for NoTrigger {
    fn fire(&self, _component: &'static str, _file: &'static str, _line: u32) {
    }
}

/// A record of the call sites a trigger was told of: component, file, line.
pub type TriggerLog = Seq<(Seq<char>, Seq<char>, u32)>;

/// A trigger together with the ghost record of every call site it has been
/// told of through [`Hook::tell`].
pub struct Hook<H> {
    pub trigger: H,
    pub log: Ghost<TriggerLog>,
}

impl<H: Trigger> Hook<H> {
    /// A hook around `trigger` that has been told of nothing yet.
    pub fn new(trigger: H) -> (r: Hook<H>)
        ensures
            r.trigger == trigger,
            r.log@ == Seq::<(Seq<char>, Seq<char>, u32)>::empty(),
    {
        Hook { trigger, log: Ghost(Seq::empty()) }
    }

    /// Tells the trigger of a trigger event at the given call site.
    pub fn tell(&mut self, component: &'static str, file: &'static str, line: u32)
        ensures
            final(self).trigger == old(self).trigger,
            final(self).log@ == old(self).log@.push((component@, file@, line)),
    {
        self.trigger.fire(component, file, line);
        self.log = Ghost(self.log@.push((component@, file@, line)));
    }
}

/// The lock predicate of the trigger slot: any trigger, or none, may be registered.
pub struct AnyTrigger;

impl<H> RwLockPredicate<Option<H>> for AnyTrigger {
    open spec fn inv(self, v: Option<H>) -> bool {
        true
    }
}

/// Shared injection state: failure countdown, delay intensity and trigger.
pub struct FaultInjector<H> {
    counter: AtomicU64,
    delay: AtomicU32,
    trigger: RwLock<Option<H>, AnyTrigger>,
}

/// Relies on `AtomicU64::fetch_update`: it applies the step to the value it
/// reads, retrying until no other thread intervened, and hands back the
/// value it read. Other threads may change the counter at any time, so
/// nothing is stated of that value.
#[verifier::external_body]
fn fetch_countdown(counter: &AtomicU64) -> u64 {
    counter.fetch_update(Ordering::AcqRel, Ordering::Acquire, |c| Some(countdown_next(c)))
        .unwrap_or_else(|c| c)
}

impl<H: Trigger + Clone> FaultInjector<H> {
    /// A disarmed injector: counter at its maximum, no delay, no trigger.
    pub fn new() -> (r: Self) {
        FaultInjector {
            counter: AtomicU64::new(DISARMED),
            delay: AtomicU32::new(0),
            trigger: RwLock::new(None, Ghost(AnyTrigger)),
        }
    }

    /// Arms the countdown: the `n`-th evaluation from now is the trigger event.
    pub fn arm(&self, n: u64) {
        self.counter.store(n, Ordering::Release);
    }

    /// The current counter value.
    pub fn remaining(&self) -> u64 {
        self.counter.load(Ordering::Acquire)
    }

    /// Sets the delay intensity; zero turns delays off.
    pub fn set_delay_intensity(&self, n: u32) {
        self.delay.store(n, Ordering::Release);
    }

    /// The current delay intensity.
    pub fn delay_intensity(&self) -> u32 {
        self.delay.load(Ordering::Acquire)
    }

    /// How many times to yield before an evaluation, for the timestamp
    /// `stamp`, at whatever delay intensity is set when this runs.
    pub fn jitter(&self, stamp: u16) -> (r: u64)
        ensures
            exists|intensity: u32| r as nat == rounds_of(stamp, intensity),
            r <= MAX_STAMP_ZEROS * 0xffff_ffff,
    {
        let intensity = self.delay_intensity();
        jitter_rounds(stamp, intensity)
    }

    /// Takes the next countdown position: decrements the counter, stopping
    /// at zero, and hands back the value it held before.
    pub fn take_position(&self) -> u64 {
        fetch_countdown(&self.counter)
    }

    /// A copy of the registered trigger, if any.
    pub fn current_trigger(&self) -> Option<H> {
        let handle = self.trigger.acquire_read();
        let r = match handle.borrow() {
            Some(h) => Some(h.clone()),
            None => None,
        };
        handle.release_read();
        r
    }

    /// Evaluates a fallible operation at the call site `origin`.
    ///
    /// Takes a countdown position; on the trigger event the registered
    /// trigger is told first. The result is either a fault injected at
    /// `origin`, or the operation's own outcome forwarded through `origin`.
    pub fn evaluate<T, F: FnOnce() -> Result<T, Failure>>(&self, origin: Origin, op: F) -> (r: Result<T, Fault>)
        requires
            op.requires(()),
        ensures
            exists|pre: u64| outcome(pre, origin, op, r),
    {
        let pre = self.take_position();
        let mut hook = if verdict(pre) == Verdict::Trigger {
            match self.current_trigger() {
                Some(h) => Some(Hook::new(h)),
                None => None,
            }
        } else {
            None
        };
        resolve(pre, origin, &mut hook, op)
    }
}

/// Replaces the trigger told of trigger events; the last registration wins.
pub fn set_trigger_function<H>(injector: &FaultInjector<H>, f: H) {
    let (_, handle) = injector.trigger.acquire_write();
    handle.release_write(Some(f));
}

/// Finishes an evaluation at `origin` that observed the pre-value `pre`.
///
/// Above one, `op` runs and its outcome is forwarded. At one, `hook` (if
/// any) is told of the call site, and then a fault is injected. At zero a
/// fault is injected without telling anyone. The hook is told of nothing
/// but the trigger event.
pub fn resolve<T, H: Trigger, F: FnOnce() -> Result<T, Failure>>(
    pre: u64,
    origin: Origin,
    hook: &mut Option<Hook<H>>,
    op: F,
) -> (r: Result<T, Fault>)
    requires
        op.requires(()),
    ensures
        outcome(pre, origin, op, r),
        told_at_trigger(pre, origin, *old(hook), *final(hook)),
{
    match verdict(pre) {
        Verdict::Proceed => {
            let out = op();
            let ghost seen = out;
            let r = match out {
                Ok(v) => Ok(v),
                Err(f) => {
                    let message = origin.forwarded_message(f.message.as_str());
                    Err(Fault::Forwarded { kind: f.kind, message })
                },
            };
            assert(op.ensures((), seen) && forwarded_from(origin, seen, r));
            r
        },
        Verdict::Trigger => {
            match hook {
                Some(h) => h.tell(origin.component, origin.file, origin.line),
                None => {},
            }
            let message = origin.injected_message();
            Err(Fault::Injected { message })
        },
        Verdict::Exhausted => Err(Fault::Injected { message: origin.injected_message() }),
    }
}

/// How the hook of an evaluation at `o` that observed `pre` changes: it stays
/// absent or present around the same trigger, and a present one is told of
/// `o` exactly when `pre` is one (the step from one to zero), and of nothing
/// otherwise.
pub open spec fn told_at_trigger<H>(pre: u64, o: Origin, before: Option<Hook<H>>, after: Option<Hook<H>>) -> bool {
    match before {
        None => after is None,
        Some(b) => match after {
            Some(a) => a.trigger == b.trigger && a.log@ == if verdict_of(pre) == Verdict::Trigger {
                b.log@.push(site_of(o))
            } else {
                b.log@
            },
            None => false,
        },
    }
}

/// An injected fault's description holds the file of the call site that
/// injected it, and ends with that call site's line number.
pub proof fn lemma_origin_fidelity<T>(o: Origin, r: Result<T, Fault>)
    requires
        injected_at(o, r),
    ensures
        match r {
            Err(Fault::Injected { message }) => {
                &&& message@.subrange(file_start(o), file_start(o) + o.file@.len()) == o.file@
                &&& message@.subrange(
                    message@.len() - decimal_text(o.line as nat).len(),
                    message@.len() as int,
                ) == decimal_text(o.line as nat)
            },
            _ => false,
        },
{
    lemma_injected_text_parts(o);
}

/// Forwarding a failure keeps its classification, and the new description
/// ends with the original one.
pub proof fn lemma_forwarding_preserves_classification<T>(
    o: Origin,
    f: Failure,
    r: Result<T, Fault>,
)
    requires
        forwarded_from(o, Err::<T, Failure>(f), r),
    ensures
        match r {
            Err(Fault::Forwarded { kind, message }) => {
                &&& kind == f.kind
                &&& message@.len() >= f.message@.len()
                &&& message@.subrange(message@.len() - f.message@.len(), message@.len() as int)
                    == f.message@
            },
            _ => false,
        },
{
    let text = forwarded_text(o, f.message@);
    assert(text.subrange(text.len() - f.message@.len(), text.len() as int) =~= f.message@);
}

/// The record a trigger keeps of a call site.
pub open spec fn site_of(o: Origin) -> (Seq<char>, Seq<char>, u32) {
    (o.component@, o.file@, o.line)
}

/// The call sites, among evaluations at `sites` in turn after arming to `n`,
/// whose evaluation is a trigger event.
pub open spec fn trigger_sites(n: u64, sites: Seq<Origin>) -> TriggerLog
    decreases sites.len(),
{
    if sites.len() == 0 {
        Seq::empty()
    } else {
        let prior = trigger_sites(n, sites.drop_last());
        if verdict_at(n, (sites.len() - 1) as nat) == Verdict::Trigger {
            prior.push(site_of(sites.last()))
        } else {
            prior
        }
    }
}

/// Armed to `n`, evaluations at `sites` in turn have exactly one trigger
/// event, at the `n`-th site, when `1 <= n <= sites.len()`, and none otherwise.
pub proof fn lemma_trigger_sites(n: u64, sites: Seq<Origin>)
    ensures
        trigger_sites(n, sites) == if 1 <= n && n <= sites.len() {
            seq![site_of(sites[n - 1])]
        } else {
            Seq::empty()
        },
    decreases sites.len(),
{
    if sites.len() > 0 {
        let front = sites.drop_last();
        lemma_trigger_sites(n, front);
        lemma_count_after(n, (sites.len() - 1) as nat);
        if 1 <= n && n <= front.len() {
            assert(front[n - 1] == sites[n - 1]);
        }
    }
}

/// A trigger carried through evaluations at `sites`, one after another,
/// after the counter was armed to `n >= 1` (call `k` observing the countdown
/// position `count_after(n, k)`, as on one thread with no re-arming), is told
/// of exactly one call site over all of them when there are at least `n`:
/// the `n`-th. With fewer than `n` calls, or armed to zero, it is told of none.
pub proof fn lemma_trigger_told_once<H>(n: u64, sites: Seq<Origin>, hooks: Seq<Option<Hook<H>>>)
    requires
        hooks.len() == sites.len() + 1,
        hooks[0] is Some,
        hooks[0]->Some_0.log@ == Seq::<(Seq<char>, Seq<char>, u32)>::empty(),
        forall|k: int|
            0 <= k < sites.len() ==> #[trigger] told_at_trigger(
                count_after(n, k as nat),
                sites[k],
                hooks[k],
                hooks[k + 1],
            ),
    ensures
        hooks.last() is Some,
        hooks.last()->Some_0.trigger == hooks[0]->Some_0.trigger,
        hooks.last()->Some_0.log@ == if 1 <= n && n <= sites.len() {
            seq![site_of(sites[n - 1])]
        } else {
            Seq::empty()
        },
{
    lemma_hooks_follow_sites(n, sites, hooks);
    lemma_trigger_sites(n, sites);
}

proof fn lemma_hooks_follow_sites<H>(n: u64, sites: Seq<Origin>, hooks: Seq<Option<Hook<H>>>)
    requires
        hooks.len() == sites.len() + 1,
        hooks[0] is Some,
        hooks[0]->Some_0.log@ == Seq::<(Seq<char>, Seq<char>, u32)>::empty(),
        forall|k: int|
            0 <= k < sites.len() ==> #[trigger] told_at_trigger(
                count_after(n, k as nat),
                sites[k],
                hooks[k],
                hooks[k + 1],
            ),
    ensures
        hooks.last() is Some,
        hooks.last()->Some_0.trigger == hooks[0]->Some_0.trigger,
        hooks.last()->Some_0.log@ == trigger_sites(n, sites),
    decreases sites.len(),
{
    if sites.len() > 0 {
        let k = sites.len() - 1;
        let front = sites.drop_last();
        let earlier = hooks.drop_last();
        assert forall|j: int| 0 <= j < front.len() implies #[trigger] told_at_trigger(
            count_after(n, j as nat),
            front[j],
            earlier[j],
            earlier[j + 1],
        ) by {
            assert(told_at_trigger(count_after(n, j as nat), sites[j], hooks[j], hooks[j + 1]));
        }
        lemma_hooks_follow_sites(n, front, earlier);
        assert(told_at_trigger(count_after(n, k as nat), sites[k], hooks[k], hooks[k + 1]));
        assert(sites.last() == sites[k]);
    }
}

} // verus!
