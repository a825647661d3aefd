//! Throttling of scan progress events.
//!
//! A stage change always emits at once and resets the window; an exact
//! duplicate of the last payload is suppressed; within an unchanged stage,
//! emissions are suppressed until the minimum interval has elapsed.
//! Delivering an admitted event to the event bus is the caller's business.

use vstd::prelude::*;
use crate::types::ScanProgressEvent;

verus! {

/// Whether the payload names a different stage than the last emission.
pub open spec fn step_changed(last_step: Option<String>, payload: ScanProgressEvent) -> bool {
    match last_step {
        Some(s) => s@ != payload.step@,
        None => true,
    }
}

/// Whether the payload repeats the last one exactly.
pub open spec fn duplicate_payload(last: Option<ScanProgressEvent>, p: ScanProgressEvent) -> bool {
    match last {
        Some(q) => q.step@ == p.step@ && q.current == p.current && q.total == p.total
            && q.message.deep_view() == p.message.deep_view(),
        None => false,
    }
}

/// The throttle's memory: the time, stage, and payload last emitted.
#[derive(Debug)]
pub struct ProgressThrottle {
    pub min_interval_ms: u64,
    pub last_emit_at: Option<u64>,
    pub last_step: Option<String>,
    pub last_payload: Option<ScanProgressEvent>,
}

impl ProgressThrottle {
    /// A fresh throttle that has emitted nothing.
    pub fn new(min_interval_ms: u64) -> (r: ProgressThrottle)
        ensures
            r.min_interval_ms == min_interval_ms,
            r.last_emit_at is None,
            r.last_step is None,
            r.last_payload is None,
    {
        ProgressThrottle {
            min_interval_ms,
            last_emit_at: None,
            last_step: None,
            last_payload: None,
        }
    }

    /// Decides whether this payload should be emitted now, and records it
    /// when it is. A stage change emits at once; an exact duplicate never
    /// emits; within an unchanged stage nothing emits until the minimum
    /// interval has passed.
    pub fn should_emit(&mut self, payload: &ScanProgressEvent, now_ms: u64) -> (r: bool)
        requires
            match old(self).last_emit_at {
                Some(t) => t <= now_ms,
                None => true,
            },
        ensures
            ({
                let changed = step_changed(old(self).last_step, *payload);
                let dup = duplicate_payload(old(self).last_payload, *payload);
                let throttled = match old(self).last_emit_at {
                    Some(t) => now_ms - t < old(self).min_interval_ms,
                    None => false,
                };
                &&& r == (changed || (!dup && !throttled))
                &&& (r ==> {
                    &&& final(self).last_emit_at == Some(now_ms)
                    &&& final(self).last_step matches Some(s) && s@ == payload.step@
                    &&& final(self).last_payload matches Some(p) && p.step@ == payload.step@
                        && p.current == payload.current && p.total == payload.total
                        && p.message.deep_view() == payload.message.deep_view()
                })
                &&& (!r ==> *final(self) == *old(self))
                &&& final(self).min_interval_ms == old(self).min_interval_ms
            }),
    {
        let changed: bool = match &self.last_step {
            Some(s) => !s.eq(&payload.step),
            None => true,
        };
        if !changed {
            let dup: bool = match &self.last_payload {
                Some(q) => {
                    q.step.eq(&payload.step) && q.current == payload.current && q.total
                        == payload.total && (match (&q.message, &payload.message) {
                        (Some(a), Some(b)) => a.eq(b),
                        (None, None) => true,
                        _ => false,
                    })
                },
                None => false,
            };
            if dup {
                return false;
            }
            let throttled: bool = match &self.last_emit_at {
                Some(t) => now_ms - *t < self.min_interval_ms,
                None => false,
            };
            if throttled {
                return false;
            }
        }
        self.last_emit_at = Some(now_ms);
        self.last_step = Some(payload.step.clone());
        self.last_payload = Some(
            ScanProgressEvent {
                step: payload.step.clone(),
                current: payload.current,
                total: payload.total,
                message: crate::types::copy_opt_string(&payload.message),
            },
        );
        true
    }
}

} // verus!
