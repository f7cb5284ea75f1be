use vstd::prelude::*;
use vstd::string::StringExecFns;

use crate::device::SourceCaps;
use crate::event::{InputEvent, BTN_TL, BTN_TL2, BTN_TR, BTN_TR2};
use crate::strutil::{contains_seq, str_contains};

verus! {

/// Ghost image of an opened source.
#[verifier::ext_equal]
pub ghost struct SourceView {
    pub name: Seq<char>,
    pub path: Seq<char>,
    pub caps: SourceCaps,
    pub chan: Seq<InputEvent>,
}

/// An opened event source: its resolved display name, stable path, capability
/// class, and its event channel, modelled as the queue of events waiting to be
/// received (front first). Pushing at the back is the send end of the channel;
/// popping at the front is the receive end.
pub struct OpenedEventSource {
    pub name: String,
    pub path: String,
    pub caps: SourceCaps,
    pub chan: Vec<InputEvent>,
}

impl View for OpenedEventSource {
    type V = SourceView;

    open spec fn view(&self) -> SourceView {
        SourceView { name: self.name@, path: self.path@, caps: self.caps, chan: self.chan@ }
    }
}

impl OpenedEventSource {
    /// Inject one event at the back of this source's channel (the send end,
    /// usable by other flows to feed events into the same channel).
    pub fn send_event(&mut self, ev: InputEvent)
        ensures
            final(self)@ == (SourceView { chan: old(self)@.chan.push(ev), ..old(self)@ }),
    {
        self.chan.push(ev);
    }

    /// Receive the next queued event, if one is waiting (the receive end).
    pub fn next_event(&mut self) -> (r: Option<InputEvent>)
        ensures
            old(self)@.chan.len() == 0 ==> r is None && final(self)@ == old(self)@,
            old(self)@.chan.len() > 0 ==> r == Some(old(self)@.chan[0]) && final(self)@ == (
            SourceView { chan: old(self)@.chan.skip(1), ..old(self)@ }),
    {
        if self.chan.len() == 0 {
            None
        } else {
            let ev = self.chan.remove(0);
            proof {
                assert(self.chan@ =~= old(self).chan@.skip(1));
            }
            Some(ev)
        }
    }
}

/// One step of the single-source chord tracker: a shoulder key event updates
/// its flag from the event value (1 is pressed); everything else is ignored.
pub open spec fn lr_step(l: bool, r: bool, ev: InputEvent) -> (bool, bool) {
    if ev.spec_is_key() && ev.code == BTN_TR {
        (l, ev.value == 1)
    } else if ev.spec_is_key() && ev.code == BTN_TL {
        (ev.value == 1, r)
    } else {
        (l, r)
    }
}

/// The two flags the single-source chord watcher tracks.
#[derive(Debug, Copy, Clone, PartialEq, Eq, Structural)]
pub struct LrFlags {
    pub pressed_l: bool,
    pub pressed_r: bool,
}

impl LrFlags {
    /// Both shoulders released.
    pub fn new() -> (r: LrFlags)
        ensures
            r == (LrFlags { pressed_l: false, pressed_r: false }),
    {
        LrFlags { pressed_l: false, pressed_r: false }
    }

    /// Track one event.
    pub fn update(&mut self, ev: InputEvent)
        ensures
            (final(self).pressed_l, final(self).pressed_r) == lr_step(
                old(self).pressed_l,
                old(self).pressed_r,
                ev,
            ),
    {
        if ev.is_key() && ev.code == BTN_TR {
            self.pressed_r = ev.value == 1;
        } else if ev.is_key() && ev.code == BTN_TL {
            self.pressed_l = ev.value == 1;
        }
    }

    /// Both shoulders held at once.
    pub fn satisfied(&self) -> (r: bool)
        ensures
            r == (self.pressed_l && self.pressed_r),
    {
        self.pressed_l && self.pressed_r
    }
}

/// How many events the single-source watcher consumes from the stream before
/// both shoulder flags are first simultaneously held, starting from the given
/// flags; `None` when the stream runs out first.
pub open spec fn lr_resolve(evs: Seq<InputEvent>, l: bool, r: bool) -> Option<nat>
    decreases evs.len(),
{
    if evs.len() == 0 {
        None
    } else {
        let s = lr_step(l, r, evs[0]);
        if s.0 && s.1 {
            Some(1nat)
        } else {
            match lr_resolve(evs.skip(1), s.0, s.1) {
                Some(n) => Some((n + 1) as nat),
                None => None,
            }
        }
    }
}

/// Watch one independent source under the single-chord rule: consume its
/// events, tracking the left- and right-shoulder flags, until both are held at
/// once. Returns whether the source won; a win leaves the not-yet-consumed
/// events on its channel. Where the stream runs out unresolved — the original
/// watcher would block forever — it returns `false`.
pub fn actually_wait(dev: &mut OpenedEventSource) -> (won: bool)
    ensures
        final(dev)@.name == old(dev)@.name,
        final(dev)@.path == old(dev)@.path,
        final(dev)@.caps == old(dev)@.caps,
        match lr_resolve(old(dev)@.chan, false, false) {
            Some(n) => won && final(dev)@.chan == old(dev)@.chan.skip(n as int),
            None => !won && final(dev)@.chan.len() == 0,
        },
{
    let mut flags = LrFlags::new();
    let ghost orig = dev@.chan;
    let ghost mut k: int = 0;
    loop
        invariant
            orig == old(dev)@.chan,
            dev@.name == old(dev)@.name,
            dev@.path == old(dev)@.path,
            dev@.caps == old(dev)@.caps,
            0 <= k <= orig.len(),
            dev@.chan == orig.skip(k),
            !(flags.pressed_l && flags.pressed_r),
            lr_resolve(orig, false, false) == match lr_resolve(
                orig.skip(k),
                flags.pressed_l,
                flags.pressed_r,
            ) {
                Some(n) => Some((n + k) as nat),
                None => None::<nat>,
            },
        decreases orig.len() - k,
    {
        let recv = dev.next_event();
        match recv {
            None => {
                return false;
            },
            Some(ev) => {
                proof {
                    assert(orig.skip(k)[0] == orig[k]);
                    assert(orig.skip(k).skip(1) =~= orig.skip(k + 1));
                }
                flags.update(ev);
                proof {
                    k = k + 1;
                }
                if flags.satisfied() {
                    return true;
                }
            },
        }
    }
}

/// The six chord flags the pair watcher tracks: three fed by the left half's
/// events, three by the right half's.
#[derive(Debug, Copy, Clone, PartialEq, Eq, Structural)]
pub struct PairFlags {
    pub left_tl: bool,
    pub left_tr: bool,
    pub left_tr2: bool,
    pub right_tr: bool,
    pub right_tl: bool,
    pub right_tl2: bool,
}

/// All flags released.
pub open spec fn pair_flags_init() -> PairFlags {
    PairFlags {
        left_tl: false,
        left_tr: false,
        left_tr2: false,
        right_tr: false,
        right_tl: false,
        right_tl2: false,
    }
}

/// One step of the pair tracker on an event from the left half (a non-zero
/// value is held).
pub open spec fn pair_step_left(st: PairFlags, ev: InputEvent) -> PairFlags {
    if ev.spec_is_key() {
        if ev.code == BTN_TL {
            PairFlags { left_tl: ev.value != 0, ..st }
        } else if ev.code == BTN_TR {
            PairFlags { left_tr: ev.value != 0, ..st }
        } else if ev.code == BTN_TR2 {
            PairFlags { left_tr2: ev.value != 0, ..st }
        } else {
            st
        }
    } else {
        st
    }
}

/// One step of the pair tracker on an event from the right half.
pub open spec fn pair_step_right(st: PairFlags, ev: InputEvent) -> PairFlags {
    if ev.spec_is_key() {
        if ev.code == BTN_TR {
            PairFlags { right_tr: ev.value != 0, ..st }
        } else if ev.code == BTN_TL {
            PairFlags { right_tl: ev.value != 0, ..st }
        } else if ev.code == BTN_TL2 {
            PairFlags { right_tl2: ev.value != 0, ..st }
        } else {
            st
        }
    } else {
        st
    }
}

/// How the pair watcher resolves: merge both halves, keep the left alone, or
/// keep the right alone.
#[derive(Debug, Copy, Clone, PartialEq, Eq, Structural)]
pub enum PairResolution {
    MergeBoth,
    LeftAlone,
    RightAlone,
}

/// The first chord condition the flags satisfy, checked in a fixed order:
/// left half's left shoulder with right half's right shoulder merges the pair;
/// the left half's two right shoulders keep it alone; the right half's two
/// left shoulders keep it alone.
pub open spec fn spec_pair_resolution(st: PairFlags) -> Option<PairResolution> {
    if st.left_tl && st.right_tr {
        Some(PairResolution::MergeBoth)
    } else if st.left_tr && st.left_tr2 {
        Some(PairResolution::LeftAlone)
    } else if st.right_tl && st.right_tl2 {
        Some(PairResolution::RightAlone)
    } else {
        None
    }
}

impl PairFlags {
    /// All flags released.
    pub fn new() -> (r: PairFlags)
        ensures
            r == pair_flags_init(),
    {
        PairFlags {
            left_tl: false,
            left_tr: false,
            left_tr2: false,
            right_tr: false,
            right_tl: false,
            right_tl2: false,
        }
    }

    /// Track one event from the left half.
    pub fn update_left(&mut self, ev: InputEvent)
        ensures
            *final(self) == pair_step_left(*old(self), ev),
    {
        if ev.is_key() {
            if ev.code == BTN_TL {
                self.left_tl = ev.value != 0;
            } else if ev.code == BTN_TR {
                self.left_tr = ev.value != 0;
            } else if ev.code == BTN_TR2 {
                self.left_tr2 = ev.value != 0;
            }
        }
    }

    /// Track one event from the right half.
    pub fn update_right(&mut self, ev: InputEvent)
        ensures
            *final(self) == pair_step_right(*old(self), ev),
    {
        if ev.is_key() {
            if ev.code == BTN_TR {
                self.right_tr = ev.value != 0;
            } else if ev.code == BTN_TL {
                self.right_tl = ev.value != 0;
            } else if ev.code == BTN_TL2 {
                self.right_tl2 = ev.value != 0;
            }
        }
    }

    /// The first chord condition these flags satisfy, if any.
    pub fn resolution(&self) -> (r: Option<PairResolution>)
        ensures
            r == spec_pair_resolution(*self),
    {
        if self.left_tl && self.right_tr {
            Some(PairResolution::MergeBoth)
        } else if self.left_tr && self.left_tr2 {
            Some(PairResolution::LeftAlone)
        } else if self.right_tl && self.right_tl2 {
            Some(PairResolution::RightAlone)
        } else {
            None
        }
    }
}

/// One round of the pair watcher polls the right half, then the left, then
/// checks the chord conditions. This gives the watcher's outcome over whole
/// event streams: the resolution reached first, with how many events it
/// consumed from each half; `None` when both streams run out unresolved.
pub open spec fn pair_run(ls: Seq<InputEvent>, rs: Seq<InputEvent>, st: PairFlags) -> Option<
    (PairResolution, nat, nat),
>
    decreases ls.len() + rs.len(),
{
    if ls.len() == 0 && rs.len() == 0 {
        match spec_pair_resolution(st) {
            Some(res) => Some((res, 0nat, 0nat)),
            None => None,
        }
    } else {
        let st1 = if rs.len() > 0 {
            pair_step_right(st, rs[0])
        } else {
            st
        };
        let st2 = if ls.len() > 0 {
            pair_step_left(st1, ls[0])
        } else {
            st1
        };
        let cl: nat = if ls.len() > 0 {
            1nat
        } else {
            0nat
        };
        let cr: nat = if rs.len() > 0 {
            1nat
        } else {
            0nat
        };
        match spec_pair_resolution(st2) {
            Some(res) => Some((res, cl, cr)),
            None => match pair_run(ls.skip(cl as int), rs.skip(cr as int), st2) {
                Some(t) => Some((t.0, (t.1 + cl) as nat, (t.2 + cr) as nat)),
                None => None,
            },
        }
    }
}

/// View of an optional source.
pub open spec fn opt_view(s: &Option<OpenedEventSource>) -> Option<SourceView> {
    match s {
        Some(v) => Some(v@),
        None => None,
    }
}

/// The channel of an optional source view (an absent half has no events).
pub open spec fn opt_chan(s: Option<SourceView>) -> Seq<InputEvent> {
    match s {
        Some(v) => v.chan,
        None => Seq::empty(),
    }
}

/// Fixed display name of a merged pair.
pub open spec fn spec_merged_name() -> Seq<char> {
    "Nintendo Switch Both Joy-Cons"@
}

/// The logical controller the pair watcher hands out, as a view: on a merge,
/// the left half renamed and upgraded to the full capability class, with the
/// right half's remaining events forwarded onto its channel after its own; on
/// a single-half resolution, that half unchanged but for its consumed events.
pub open spec fn spec_pair_winner(l: Option<SourceView>, r: Option<SourceView>) -> Option<
    SourceView,
> {
    match pair_run(opt_chan(l), opt_chan(r), pair_flags_init()) {
        None => None,
        Some((res, a, b)) => match res {
            PairResolution::MergeBoth => Some(
                SourceView {
                    name: spec_merged_name(),
                    path: l.unwrap().path,
                    caps: SourceCaps::FullX360,
                    chan: l.unwrap().chan.skip(a as int) + r.unwrap().chan.skip(b as int),
                },
            ),
            PairResolution::LeftAlone => Some(
                SourceView { chan: l.unwrap().chan.skip(a as int), ..l.unwrap() },
            ),
            PairResolution::RightAlone => Some(
                SourceView { chan: r.unwrap().chan.skip(b as int), ..r.unwrap() },
            ),
        },
    }
}

/// Watch a pair of detachable halves (either may be absent) under the
/// pair-chord rules, polling the right half, then the left, each round. On a
/// merge, the right half's remaining events are forwarded onto the left
/// half's channel and the merged controller is handed out. Where both streams
/// run out unresolved — the original watcher would block forever — it returns
/// `None`.
pub fn actually_wait_joycon(
    maybe_left: Option<OpenedEventSource>,
    maybe_right: Option<OpenedEventSource>,
) -> (r: Option<OpenedEventSource>)
    ensures
        match r {
            Some(w) => spec_pair_winner(opt_view(&maybe_left), opt_view(&maybe_right)) == Some(w@),
            None => spec_pair_winner(opt_view(&maybe_left), opt_view(&maybe_right)) is None,
        },
{
    let ghost lv0 = opt_view(&maybe_left);
    let ghost rv0 = opt_view(&maybe_right);
    let ghost lchan0 = opt_chan(lv0);
    let ghost rchan0 = opt_chan(rv0);
    let mut left = maybe_left;
    let mut right = maybe_right;
    let mut st = PairFlags::new();
    let ghost mut kl: int = 0;
    let ghost mut kr: int = 0;
    proof {
        assert(lchan0.skip(0) =~= lchan0);
        assert(rchan0.skip(0) =~= rchan0);
    }
    loop
        invariant
            lv0 == opt_view(&maybe_left),
            rv0 == opt_view(&maybe_right),
            lchan0 == opt_chan(lv0),
            rchan0 == opt_chan(rv0),
            0 <= kl <= lchan0.len(),
            0 <= kr <= rchan0.len(),
            match lv0 {
                Some(v) => opt_view(&left) == Some(
                    SourceView {
                        name: v.name,
                        path: v.path,
                        caps: v.caps,
                        chan: v.chan.skip(kl),
                    },
                ),
                None => left is None && kl == 0,
            },
            match rv0 {
                Some(v) => opt_view(&right) == Some(
                    SourceView {
                        name: v.name,
                        path: v.path,
                        caps: v.caps,
                        chan: v.chan.skip(kr),
                    },
                ),
                None => right is None && kr == 0,
            },
            left is None ==> !st.left_tl && !st.left_tr && !st.left_tr2,
            right is None ==> !st.right_tr && !st.right_tl && !st.right_tl2,
            spec_pair_resolution(st) is None,
            pair_run(lchan0, rchan0, pair_flags_init()) == match pair_run(
                lchan0.skip(kl),
                rchan0.skip(kr),
                st,
            ) {
                Some(t) => Some((t.0, (t.1 + kl) as nat, (t.2 + kr) as nat)),
                None => None::<(PairResolution, nat, nat)>,
            },
        decreases (lchan0.len() - kl) + (rchan0.len() - kr),
    {
        let left_empty = match &left {
            Some(l) => l.chan.len() == 0,
            None => true,
        };
        let right_empty = match &right {
            Some(rr) => rr.chan.len() == 0,
            None => true,
        };
        if left_empty && right_empty {
            return None;
        }
        let ghost kl_old = kl;
        let ghost kr_old = kr;
        let ghost st_old = st;
        match &mut right {
            Some(rr) => {
                match rr.next_event() {
                    Some(ev) => {
                        st.update_right(ev);
                        proof {
                            kr = kr + 1;
                            assert(rchan0.skip(kr_old)[0] == rchan0[kr_old]);
                            assert(rchan0.skip(kr_old).skip(1) =~= rchan0.skip(kr_old + 1));
                        }
                    },
                    None => {},
                }
            },
            None => {},
        }
        match &mut left {
            Some(l) => {
                match l.next_event() {
                    Some(ev) => {
                        st.update_left(ev);
                        proof {
                            kl = kl + 1;
                            assert(lchan0.skip(kl_old)[0] == lchan0[kl_old]);
                            assert(lchan0.skip(kl_old).skip(1) =~= lchan0.skip(kl_old + 1));
                        }
                    },
                    None => {},
                }
            },
            None => {},
        }
        match st.resolution() {
            Some(res) => {
                match res {
                    PairResolution::MergeBoth => {
                        let mut l = match left {
                            Some(l) => l,
                            None => vstd::pervasive::unreached(),
                        };
                        let mut rr = match right {
                            Some(rr) => rr,
                            None => vstd::pervasive::unreached(),
                        };
                        l.caps = SourceCaps::FullX360;
                        l.name = String::from_str("Nintendo Switch Both Joy-Cons");
                        l.chan.append(&mut rr.chan);
                        return Some(l);
                    },
                    PairResolution::LeftAlone => {
                        let l = match left {
                            Some(l) => l,
                            None => vstd::pervasive::unreached(),
                        };
                        return Some(l);
                    },
                    PairResolution::RightAlone => {
                        let rr = match right {
                            Some(rr) => rr,
                            None => vstd::pervasive::unreached(),
                        };
                        return Some(rr);
                    },
                }
            },
            None => {
                proof {
                    // One step of pair_run, unfolded by hand.
                    let ls = lchan0.skip(kl_old);
                    let rs = rchan0.skip(kr_old);
                    let st1 = if rs.len() > 0 {
                        pair_step_right(st_old, rs[0])
                    } else {
                        st_old
                    };
                    let st2 = if ls.len() > 0 {
                        pair_step_left(st1, ls[0])
                    } else {
                        st1
                    };
                    assert(st2 == st);
                    let cl: nat = if ls.len() > 0 {
                        1nat
                    } else {
                        0nat
                    };
                    let cr: nat = if rs.len() > 0 {
                        1nat
                    } else {
                        0nat
                    };
                    assert(kl == kl_old + cl);
                    assert(kr == kr_old + cr);
                    assert(lchan0.skip(kl) =~= ls.skip(cl as int));
                    assert(rchan0.skip(kr) =~= rs.skip(cr as int));
                    assert(pair_run(ls, rs, st_old) == (match pair_run(
                        ls.skip(cl as int),
                        rs.skip(cr as int),
                        st2,
                    ) {
                        Some(t) => Some((t.0, (t.1 + cl) as nat, (t.2 + cr) as nat)),
                        None => None::<(PairResolution, nat, nat)>,
                    }));
                }
            },
        }
    }
}

/// The two halves of a detachable pair collected so far during grouping.
pub struct TwoJoycons {
    pub left: Option<OpenedEventSource>,
    pub right: Option<OpenedEventSource>,
}

impl TwoJoycons {
    /// Both halves collected.
    pub fn have_both(&self) -> (r: bool)
        ensures
            r == (self.left is Some && self.right is Some),
    {
        self.left.is_some() && self.right.is_some()
    }

    /// At least one half collected.
    pub fn have_one(&self) -> (r: bool)
        ensures
            r == (self.left is Some || self.right is Some),
    {
        self.left.is_some() || self.right.is_some()
    }
}

/// One watcher the combination engine evaluates: an independent source under
/// the single-chord rule, or a (possibly incomplete) pair of detachable
/// halves under the pair-chord rules.
pub enum WatcherJob {
    Single(OpenedEventSource),
    Pair(Option<OpenedEventSource>, Option<OpenedEventSource>),
}

/// Ghost image of one watcher.
pub ghost enum WatcherJobView {
    Single(SourceView),
    Pair(Option<SourceView>, Option<SourceView>),
}

impl View for WatcherJob {
    type V = WatcherJobView;

    open spec fn view(&self) -> WatcherJobView {
        match self {
            WatcherJob::Single(dev) => WatcherJobView::Single(dev@),
            WatcherJob::Pair(l, r) => WatcherJobView::Pair(opt_view(l), opt_view(r)),
        }
    }
}

/// Views of a sequence of sources.
pub open spec fn source_views(s: Seq<OpenedEventSource>) -> Seq<SourceView> {
    s.map_values(|x: OpenedEventSource| x@)
}

/// Views of a sequence of watchers.
pub open spec fn job_views(s: Seq<WatcherJob>) -> Seq<WatcherJobView> {
    s.map_values(|x: WatcherJob| x@)
}

/// A display name that marks a detachable half-controller.
pub open spec fn is_joycon_name(s: Seq<char>) -> bool {
    contains_seq(s, "Joy-Con"@)
}

/// A display name that marks the left half (any other half counts as right).
pub open spec fn is_left_name(s: Seq<char>) -> bool {
    contains_seq(s, "Left"@)
}

/// How sources are dealt to watchers, in input order: an independent source
/// gets its own single-chord watcher at once; a detachable half is parked in
/// its slot (a later half for the same slot replaces the earlier one); as
/// soon as both slots are filled, the pair is dispatched together and the
/// slots reset. A leftover half at the end is dispatched with its counterpart
/// permanently absent.
pub open spec fn spec_group_sources(
    input: Seq<SourceView>,
    pl: Option<SourceView>,
    pr: Option<SourceView>,
) -> Seq<WatcherJobView>
    decreases input.len(),
{
    if input.len() == 0 {
        if pl is Some || pr is Some {
            seq![WatcherJobView::Pair(pl, pr)]
        } else {
            Seq::empty()
        }
    } else {
        let dev = input[0];
        if is_joycon_name(dev.name) {
            let npl = if is_left_name(dev.name) {
                Some(dev)
            } else {
                pl
            };
            let npr = if is_left_name(dev.name) {
                pr
            } else {
                Some(dev)
            };
            if npl is Some && npr is Some {
                seq![WatcherJobView::Pair(npl, npr)] + spec_group_sources(input.skip(1), None, None)
            } else {
                spec_group_sources(input.skip(1), npl, npr)
            }
        } else {
            seq![WatcherJobView::Single(dev)] + spec_group_sources(input.skip(1), pl, pr)
        }
    }
}

/// Deal the opened sources to their watchers, in input order.
#[verifier::loop_isolation(false)]
pub fn group_sources(input: Vec<OpenedEventSource>) -> (jobs: Vec<WatcherJob>)
    ensures
        job_views(jobs@) == spec_group_sources(source_views(input@), None, None),
{
    let ghost input0 = input@;
    let mut jobs: Vec<WatcherJob> = Vec::new();
    let mut joycons = TwoJoycons { left: None, right: None };
    let mut rest = input;
    loop
        invariant
            spec_group_sources(source_views(input0), None, None) =~= job_views(jobs@)
                + spec_group_sources(
                source_views(rest@),
                opt_view(&joycons.left),
                opt_view(&joycons.right),
            ),
            !(joycons.left is Some && joycons.right is Some),
        decreases rest@.len(),
    {
        if rest.len() == 0 {
            if joycons.have_one() {
                let TwoJoycons { left, right } = joycons;
                let ghost prev_jobs = jobs@;
                jobs.push(WatcherJob::Pair(left, right));
                proof {
                    assert(job_views(jobs@) =~= job_views(prev_jobs).push(
                        WatcherJobView::Pair(opt_view(&left), opt_view(&right)),
                    ));
                    assert(job_views(jobs@) =~= spec_group_sources(source_views(input0), None, None));
                }
                return jobs;
            }
            proof {
                assert(job_views(jobs@) =~= spec_group_sources(source_views(input0), None, None));
            }
            return jobs;
        }
        let ghost prev = rest@;
        let dev = rest.remove(0);
        proof {
            assert(rest@ =~= prev.skip(1));
            assert(source_views(rest@) =~= source_views(prev).skip(1));
            assert(source_views(prev)[0] == dev@);
        }
        if str_contains(dev.name.as_str(), "Joy-Con") {
            if str_contains(dev.name.as_str(), "Left") {
                joycons.left = Some(dev);
            } else {
                joycons.right = Some(dev);
            }
            if joycons.have_both() {
                let ghost prev_jobs = jobs@;
                let TwoJoycons { left, right } = joycons;
                jobs.push(WatcherJob::Pair(left, right));
                joycons = TwoJoycons { left: None, right: None };
                proof {
                    assert(job_views(jobs@) =~= job_views(prev_jobs).push(jobs@.last()@));
                }
            }
        } else {
            let ghost prev_jobs = jobs@;
            jobs.push(WatcherJob::Single(dev));
            proof {
                assert(job_views(jobs@) =~= job_views(prev_jobs).push(jobs@.last()@));
            }
        }
    }
}

/// What one watcher yields on its streams, as a view.
pub open spec fn spec_job_winner(j: WatcherJobView) -> Option<SourceView> {
    match j {
        WatcherJobView::Single(v) => match lr_resolve(v.chan, false, false) {
            Some(n) => Some(SourceView { chan: v.chan.skip(n as int), ..v }),
            None => None,
        },
        WatcherJobView::Pair(l, r) => spec_pair_winner(l, r),
    }
}

/// The first watcher, in dispatch order, that resolves at all; its outcome is
/// the engine's. This renders deterministically the race the watchers run:
/// exactly one winner is handed out per invocation.
pub open spec fn spec_first_winner(jobs: Seq<WatcherJobView>) -> Option<SourceView>
    decreases jobs.len(),
{
    if jobs.len() == 0 {
        None
    } else {
        match spec_job_winner(jobs[0]) {
            Some(w) => Some(w),
            None => spec_first_winner(jobs.skip(1)),
        }
    }
}

/// Evaluate the watchers in dispatch order and hand out the first winner.
#[verifier::loop_isolation(false)]
pub fn run_watchers(jobs: Vec<WatcherJob>) -> (r: Option<OpenedEventSource>)
    ensures
        match r {
            Some(w) => spec_first_winner(job_views(jobs@)) == Some(w@),
            None => spec_first_winner(job_views(jobs@)) is None,
        },
{
    let ghost jobs0 = jobs@;
    let mut rest = jobs;
    loop
        invariant
            spec_first_winner(job_views(jobs0)) == spec_first_winner(job_views(rest@)),
        decreases rest@.len(),
    {
        if rest.len() == 0 {
            return None;
        }
        let ghost prev = rest@;
        let job = rest.remove(0);
        proof {
            assert(rest@ =~= prev.skip(1));
            assert(job_views(rest@) =~= job_views(prev).skip(1));
            assert(job_views(prev)[0] == job@);
        }
        match job {
            WatcherJob::Single(dev) => {
                let mut dev = dev;
                if actually_wait(&mut dev) {
                    return Some(dev);
                }
            },
            WatcherJob::Pair(l, r) => {
                match actually_wait_joycon(l, r) {
                    Some(w) => {
                        return Some(w);
                    },
                    None => {},
                }
            },
        }
    }
}

/// The whole combination engine over whole event streams: group the sources
/// into watchers, then hand out the first winner.
pub open spec fn spec_wait_for_lr(input: Seq<SourceView>) -> Option<SourceView> {
    spec_first_winner(spec_group_sources(input, None, None))
}

/// Decide which single logical controller the given opened sources yield,
/// evaluating every watcher over its queued events. Exactly one winner is
/// handed out; sources whose chords were never satisfied are abandoned.
/// Returns `None` when no chord can be satisfied by the queued events at all
/// — the situation in which the original engine would wait forever.
pub fn wait_for_lr(input: Vec<OpenedEventSource>) -> (r: Option<OpenedEventSource>)
    ensures
        match r {
            Some(w) => spec_wait_for_lr(source_views(input@)) == Some(w@),
            None => spec_wait_for_lr(source_views(input@)) is None,
        },
{
    let jobs = group_sources(input);
    run_watchers(jobs)
}

} // verus!
