use vstd::prelude::*;

verus! {

/// The fewest points a sweep asks the VNA for.
pub const MIN_POINTS: usize = 11;

/// The points a sweep asks for: what the user set, but at least 11.
pub fn sweep_points(points: usize) -> (n: usize)
    ensures
        n == if points < MIN_POINTS { MIN_POINTS } else { points },
{
    if points < MIN_POINTS {
        MIN_POINTS
    } else {
        points
    }
}

/// The link to a VNA, as the contracts see it: whether there is one,
/// whether a sweep is under way, whether sweeps repeat, and which
/// calibration standard, if any, the next good sweep captures.
pub struct LinkView<C> {
    pub linked: bool,
    pub waiting: bool,
    pub continuous: bool,
    pub capture: Option<C>,
}

impl<C> LinkView<C> {
    /// Whether a sweep request goes out, given whether the range to sweep
    /// is not empty: only over a link with no sweep under way.
    pub open spec fn sends(self, range_ok: bool) -> bool {
        self.linked && !self.waiting && range_ok
    }

    /// The link once a request went out.
    pub open spec fn after_sent(self) -> LinkView<C> {
        LinkView { waiting: true, ..self }
    }

    /// A sweep came back, well (`ok`) or not: the standard it captured, if
    /// any, whether to sweep again, and the link after it. A good sweep
    /// hands out the standard to capture and forgets it, and asks for
    /// another where sweeps repeat; a failed one changes nothing else.
    pub open spec fn after_swept(self, ok: bool) -> (Option<C>, bool, LinkView<C>) {
        if ok {
            (self.capture, self.continuous, LinkView { waiting: false, capture: None, ..self })
        } else {
            (None, false, LinkView { waiting: false, ..self })
        }
    }
}

/// The link to a VNA, as the sweep controls see it: whether there is one,
/// whether a sweep is under way, whether sweeps repeat, and which
/// calibration standard, if any, the next sweep captures.
pub struct Link<C> {
    linked: bool,
    waiting: bool,
    continuous: bool,
    capture: Option<C>,
}

impl<C> View for Link<C> {
    type V = LinkView<C>;

    closed spec fn view(&self) -> LinkView<C> {
        LinkView {
            linked: self.linked,
            waiting: self.waiting,
            continuous: self.continuous,
            capture: self.capture,
        }
    }
}

impl<C> Link<C> {
    /// No link, nothing under way, single sweeps, nothing to capture.
    pub fn new() -> (l: Self)
        ensures
            l@ == (LinkView::<C> { linked: false, waiting: false, continuous: false, capture: None }),
    {
        Link { linked: false, waiting: false, continuous: false, capture: None }
    }

    /// Whether a link is open.
    pub fn is_linked(&self) -> (r: bool)
        ensures
            r == self@.linked,
    {
        self.linked
    }

    /// Whether a sweep is under way.
    pub fn is_waiting(&self) -> (r: bool)
        ensures
            r == self@.waiting,
    {
        self.waiting
    }

    /// Whether sweeps repeat.
    pub fn is_continuous(&self) -> (r: bool)
        ensures
            r == self@.continuous,
    {
        self.continuous
    }

    /// A link has been opened.
    pub fn connect(&mut self)
        ensures
            final(self)@ == (LinkView { linked: true, ..old(self)@ }),
    {
        self.linked = true;
    }

    /// Whether a sweep can be asked for now: linked, and none under way.
    pub fn can_sweep(&self) -> (r: bool)
        ensures
            r == (self@.linked && !self@.waiting),
    {
        self.linked && !self.waiting
    }

    /// Whether to send a sweep request, given that the range to sweep is
    /// not empty: only over a link with no sweep under way.
    pub fn request(&self, range_ok: bool) -> (send: bool)
        ensures
            send == self@.sends(range_ok),
    {
        self.linked && !self.waiting && range_ok
    }

    /// A sweep request went out: a sweep is under way.
    pub fn sent(&mut self)
        ensures
            final(self)@ == old(self)@.after_sent(),
    {
        self.waiting = true;
    }

    /// A sweep came back, well or not. After a good one, the standard to
    /// capture, if any, is handed out and forgotten, and the answer says
    /// whether to sweep again; after a failed one nothing more happens.
    pub fn swept(&mut self, ok: bool) -> (r: (Option<C>, bool))
        ensures
            (r.0, r.1, final(self)@) == old(self)@.after_swept(ok),
    {
        self.waiting = false;
        if ok {
            (self.capture.take(), self.continuous)
        } else {
            (None, false)
        }
    }

    /// The device stopped answering: the link is gone.
    pub fn closed(&mut self)
        ensures
            final(self)@ == (LinkView { linked: false, waiting: false, ..old(self)@ }),
    {
        self.waiting = false;
        self.linked = false;
    }

    /// The user closed the link: sweeps stop repeating.
    pub fn disconnect(&mut self)
        ensures
            final(self)@ == (LinkView {
                linked: false,
                waiting: false,
                continuous: false,
                ..old(self)@
            }),
    {
        self.linked = false;
        self.waiting = false;
        self.continuous = false;
    }

    /// Turns repeating sweeps on or off; says whether they are now on, in
    /// which case a sweep should be asked for.
    pub fn toggle_continuous(&mut self) -> (on: bool)
        ensures
            on == !old(self)@.continuous,
            final(self)@ == (LinkView { continuous: on, ..old(self)@ }),
    {
        self.continuous = !self.continuous;
        self.continuous
    }

    /// The next sweep captures calibration standard `standard`; sweeps stop
    /// repeating.
    pub fn start_capture(&mut self, standard: C)
        ensures
            final(self)@ == (LinkView { capture: Some(standard), continuous: false, ..old(self)@ }),
    {
        self.capture = Some(standard);
        self.continuous = false;
    }
}

/// At most one sweep is under way: once a request went out, no other goes
/// out until the sweep comes back, well or not; then one can go out again
/// over the same link.
pub proof fn one_sweep_at_a_time<C>(l: LinkView<C>, range_ok: bool, ok: bool)
    ensures
        !l.after_sent().sends(range_ok),
        l.after_sent().after_swept(ok).2.sends(range_ok) == (l.linked && range_ok),
{
}

/// A standard to capture is captured by the next good sweep and by no
/// other: a failed sweep keeps it for the next, and the sweep after the
/// one that captured it captures nothing.
pub proof fn a_standard_is_captured_once<C>(l: LinkView<C>, standard: C)
    ensures
        ({
            let armed = LinkView { capture: Some(standard), continuous: false, ..l };
            &&& armed.after_swept(true).0 == Some(standard)
            &&& armed.after_swept(true).2.after_swept(true).0 is None
            &&& armed.after_swept(false).0 is None
            &&& armed.after_swept(false).2.after_swept(true).0 == Some(standard)
        }),
{
}

/// A captured standard ends repeating sweeps: the good sweep that captures
/// it asks for no other.
pub proof fn a_capture_stops_repeating<C>(l: LinkView<C>, standard: C)
    ensures
        !(LinkView { capture: Some(standard), continuous: false, ..l }).after_swept(true).1,
{
}

/// A failed sweep captures nothing, keeps the standard waiting for the next
/// one, and asks for no further sweep, whether sweeps repeat or not; a
/// good sweep asks for another exactly when sweeps repeat. Either way the
/// sweep is no longer under way and the link and repeating stay as they
/// were.
pub proof fn a_failed_sweep_asks_for_no_other<C>(l: LinkView<C>, ok: bool)
    ensures
        !ok ==> l.after_swept(ok).0 is None,
        !ok ==> !l.after_swept(ok).1,
        !ok ==> l.after_swept(ok).2.capture == l.capture,
        ok ==> l.after_swept(ok).1 == l.continuous,
        ok ==> l.after_swept(ok).0 == l.capture,
        ok ==> l.after_swept(ok).2.capture is None,
        !l.after_swept(ok).2.waiting,
        l.after_swept(ok).2.linked == l.linked,
        l.after_swept(ok).2.continuous == l.continuous,
{
}

/// A sweep asks for what the user set, but never fewer than 11 points.
pub proof fn sweeps_take_at_least_eleven_points(points: usize)
    ensures
        MIN_POINTS == 11,
        (if points < MIN_POINTS { MIN_POINTS } else { points }) >= 11,
        points >= 11 ==> (if points < MIN_POINTS { MIN_POINTS } else { points }) == points,
{
}

} // verus!
