use vstd::prelude::*;

verus! {

/// What to do after a change of the model: start the work for a key, ask
/// to be woken again in so many milliseconds, or nothing.
pub enum Action {
    Start(String),
    Wait(u64),
    Idle,
}

/// An action, as the contracts see it.
pub enum ActionView {
    Start(Seq<char>),
    Wait(u64),
    Idle,
}

impl View for Action {
    type V = ActionView;

    open spec fn view(&self) -> ActionView {
        match self {
            Action::Start(k) => ActionView::Start(k@),
            Action::Wait(ms) => ActionView::Wait(*ms),
            Action::Idle => ActionView::Idle,
        }
    }
}

/// The state of a debounce, as the contracts see it: the key last worked
/// for, and the key waiting with the time it was first seen.
pub struct DebounceView {
    pub done_for: Seq<char>,
    pub pending: Option<(Seq<char>, u64)>,
}

/// The milliseconds from `at` to `now`, 0 when `now` is not later.
pub open spec fn elapsed(now: u64, at: u64) -> int {
    if now >= at {
        now - at
    } else {
        0
    }
}

/// One step of a debounce with delay `delay` at time `now` while the model
/// has key `key`. A key that differs from the one last worked for and from
/// the one waiting starts to wait. The waiting key starts once `delay` has
/// passed (reached, when `inclusive`; exceeded, otherwise) and becomes the
/// key worked for; until then the step asks to be woken when the delay
/// will be over, with 20 ms to spare.
pub open spec fn debounce_step(s: DebounceView, key: Seq<char>, now: u64, delay: u64, inclusive: bool) -> (
    ActionView,
    DebounceView,
) {
    let waiting = if s.done_for != key && (s.pending is None || s.pending.unwrap().0 != key) {
        Some((key, now))
    } else {
        s.pending
    };
    match waiting {
        None => (ActionView::Idle, DebounceView { done_for: s.done_for, pending: None }),
        Some((k, at)) => {
            let el = elapsed(now, at);
            let due = if inclusive {
                el >= delay
            } else {
                el > delay
            };
            if due {
                (ActionView::Start(k), DebounceView { done_for: k, pending: None })
            } else {
                (
                    ActionView::Wait((delay + 20 - el) as u64),
                    DebounceView { done_for: s.done_for, pending: Some((k, at)) },
                )
            }
        },
    }
}

/// Holds back work on a model that is still changing until it has kept
/// still for a while.
pub struct Debounce {
    done_for: String,
    pending: Option<(String, u64)>,
    delay_ms: u64,
    inclusive: bool,
}

impl Debounce {
    /// The state.
    pub closed spec fn view(&self) -> DebounceView {
        DebounceView {
            done_for: self.done_for@,
            pending: match self.pending {
                Some((k, at)) => Some((k@, at)),
                None => None,
            },
        }
    }

    /// The delay in milliseconds.
    pub closed spec fn delay(&self) -> u64 {
        self.delay_ms
    }

    /// Whether reaching the delay is enough, rather than passing it.
    pub closed spec fn inclusive(&self) -> bool {
        self.inclusive
    }

    /// The delay leaves room for the margin.
    #[verifier::type_invariant]
    spec fn delay_fits(&self) -> bool {
        self.delay_ms <= u64::MAX - 20
    }

    /// A debounce that has worked for nothing and has nothing waiting.
    pub fn new(delay_ms: u64, inclusive: bool) -> (d: Debounce)
        requires
            delay_ms <= u64::MAX - 20,
        ensures
            d@.done_for == Seq::<char>::empty(),
            d@.pending is None,
            d.delay() == delay_ms,
            d.inclusive() == inclusive,
    {
        Debounce { done_for: String::new(), pending: None, delay_ms, inclusive }
    }

    /// The key last worked for.
    pub fn done_for(&self) -> (k: &String)
        ensures
            k@ == self@.done_for,
    {
        &self.done_for
    }

    /// Takes one step at time `now_ms` while the model has key `key`, as
    /// `debounce_step` says.
    pub fn step(&mut self, key: String, now_ms: u64) -> (a: Action)
        ensures
            final(self).delay() == old(self).delay(),
            final(self).inclusive() == old(self).inclusive(),
            (a@, final(self)@) == debounce_step(
                old(self)@,
                key@,
                now_ms,
                old(self).delay(),
                old(self).inclusive(),
            ),
    {
        proof {
            use_type_invariant(&*self);
        }
        let mut was = Debounce {
            done_for: String::new(),
            pending: None,
            delay_ms: self.delay_ms,
            inclusive: self.inclusive,
        };
        std::mem::swap(self, &mut was);
        let Debounce { done_for, pending, delay_ms, inclusive } = was;
        let differs = done_for != key && match &pending {
            None => true,
            Some((k, _)) => *k != key,
        };
        let waiting = if differs {
            Some((key, now_ms))
        } else {
            pending
        };
        match waiting {
            None => {
                *self = Debounce { done_for, pending: None, delay_ms, inclusive };
                Action::Idle
            },
            Some((k, at)) => {
                let el = if now_ms >= at { now_ms - at } else { 0 };
                let due = if inclusive { el >= delay_ms } else { el > delay_ms };
                if due {
                    *self = Debounce { done_for: k.clone(), pending: None, delay_ms, inclusive };
                    Action::Start(k)
                } else {
                    let wait = delay_ms + 20 - el;
                    *self = Debounce { done_for, pending: Some((k, at)), delay_ms, inclusive };
                    Action::Wait(wait)
                }
            },
        }
    }
}

/// Work starts only for a key that has waited out the delay.
pub proof fn work_waits_out_the_delay(s: DebounceView, key: Seq<char>, now: u64, delay: u64, inclusive: bool)
    requires
        delay <= u64::MAX - 20,
    ensures
        debounce_step(s, key, now, delay, inclusive).0 is Start ==> ({
            let k = debounce_step(s, key, now, delay, inclusive).0->Start_0;
            ||| (s.pending is Some && s.pending.unwrap().0 == k && elapsed(now, s.pending.unwrap().1) >= delay)
            ||| (k == key && delay == 0 && inclusive)
        }),
{
}

/// A model that keeps still is worked on once: once its key has started,
/// a further step with the same key and nothing else waiting does nothing.
pub proof fn a_still_model_is_worked_on_once(s: DebounceView, key: Seq<char>, now: u64, later: u64, delay: u64, inclusive: bool)
    requires
        debounce_step(s, key, now, delay, inclusive).0 == ActionView::Start(key),
    ensures
        debounce_step(debounce_step(s, key, now, delay, inclusive).1, key, later, delay, inclusive).0
            == ActionView::Idle,
{
}

/// A key that is already waiting starts once the delay has run (reached,
/// where `inclusive`; passed, otherwise), and until then the step asks to
/// be woken 20 ms after the delay will be over; a new key starts its wait
/// at `now`.
pub proof fn waiting_keys_start_when_due(
    done_for: Seq<char>,
    key: Seq<char>,
    at: u64,
    now: u64,
    delay: u64,
    inclusive: bool,
)
    requires
        done_for != key,
        delay <= u64::MAX - 20,
    ensures
        ({
            let s = DebounceView { done_for, pending: Some((key, at)) };
            let el = if now >= at { now - at } else { 0 };
            let due = if inclusive { el >= delay } else { el > delay };
            &&& due ==> debounce_step(s, key, now, delay, inclusive).0 == ActionView::Start(key)
            &&& due ==> debounce_step(s, key, now, delay, inclusive).1 == DebounceView {
                done_for: key,
                pending: None,
            }
            &&& !due ==> debounce_step(s, key, now, delay, inclusive).0 == ActionView::Wait(
                (delay + 20 - el) as u64,
            )
            &&& !due ==> debounce_step(s, key, now, delay, inclusive).1 == s
        }),
        ({
            let fresh = DebounceView { done_for, pending: None };
            &&& debounce_step(fresh, key, now, delay, inclusive).0 == (if delay == 0 && inclusive {
                ActionView::Start(key)
            } else {
                ActionView::Wait((delay + 20) as u64)
            })
            &&& delay > 0 ==> debounce_step(fresh, key, now, delay, inclusive).1.pending == Some((key, now))
        }),
{
}

} // verus!
