//! Which desktop session to lock or unlock, and what came of it.
//!
//! [`rank_for_lock`] and [`rank_for_unlock`] look near-identical; do not merge
//! them (see their docs). State is re-read after acting; an exit status is
//! never trusted as the result.
use crate::plugins::session::{
    LockView, SeatView, SessionOutcome, SessionState, LOCK_CONFIRM_MS, UNLOCK_CONFIRM_MS,
};
use crate::text::{before, before_irreflexive, before_total, before_transitive, comes_before, same};
use vstd::prelude::*;

verus! {

/// How often to re-read a session while waiting for it to change.
pub const CONFIRM_INTERVAL_MS: u64 = 200;

/// A session this daemon may act on.
#[derive(PartialEq, Eq, Debug)]
pub struct Candidate {
    pub id: String,
    pub kind: String,
    pub active: bool,
    /// Resolved, not the raw hint. See [`resolve_locked`].
    pub locked: bool,
}

/// The model of a [`Candidate`].
pub struct CandidateView {
    pub id: Seq<char>,
    pub kind: Seq<char>,
    pub active: bool,
    pub locked: bool,
}

impl View for Candidate {
    type V = CandidateView;

    open spec fn view(&self) -> CandidateView {
        CandidateView {
            id: self.id@,
            kind: self.kind@,
            active: self.active,
            locked: self.locked,
        }
    }
}

/// What a session is ranked by: a first choice, a second one, then its id.
pub struct Rank {
    pub first: bool,
    pub second: bool,
    pub id: Seq<char>,
}

/// Whether one rank comes strictly before another. What holds comes before what
/// does not.
pub open spec fn ranks_before(a: Rank, b: Rank) -> bool {
    if a.first != b.first {
        a.first
    } else if a.second != b.second {
        a.second
    } else {
        before(a.id, b.id)
    }
}

/// What is asked of the session that is ranked first.
#[derive(Clone, Copy, PartialEq, Eq, Debug, Structural)]
pub enum Want {
    /// The one a person is most likely looking at.
    Report,
    /// One to lock: unlocked first.
    Lock,
    /// One to unlock: locked first.
    Unlock,
}

/// The rank of a session.
pub open spec fn rank(c: CandidateView, want: Want) -> Rank {
    match want {
        Want::Report => Rank { first: true, second: c.active, id: c.id },
        Want::Lock => Rank { first: !c.locked, second: c.active, id: c.id },
        Want::Unlock => Rank { first: c.locked, second: c.active, id: c.id },
    }
}

/// Whether the session at `i` is the first of those that nothing ranks before.
pub open spec fn is_first_choice(c: Seq<Candidate>, want: Want, i: int) -> bool {
    &&& 0 <= i < c.len()
    &&& forall|k: int| 0 <= k < c.len() ==> !ranks_before(rank(#[trigger] c[k]@, want), rank(c[i]@, want))
    &&& forall|k: int|
        0 <= k < i ==> ranks_before(rank(c[i]@, want), rank(#[trigger] c[k]@, want))
}

fn outranks(a: &Candidate, b: &Candidate, want: Want) -> (r: bool)
    ensures
        r == ranks_before(rank(a@, want), rank(b@, want)),
{
    let (fa, fb) = match want {
        Want::Report => (true, true),
        Want::Lock => (!a.locked, !b.locked),
        Want::Unlock => (a.locked, b.locked),
    };
    if fa != fb {
        fa
    } else if a.active != b.active {
        a.active
    } else {
        comes_before(a.id.as_str(), b.id.as_str())
    }
}

proof fn rank_order(a: Rank, b: Rank, c: Rank)
    ensures
        !ranks_before(a, a),
        ranks_before(a, b) && ranks_before(b, c) ==> ranks_before(a, c),
        ranks_before(a, b) && !ranks_before(c, b) ==> ranks_before(a, c),
        !ranks_before(a, b) && ranks_before(c, b) ==> ranks_before(c, a),
{
    before_irreflexive(a.id);
    before_total(a.id, b.id);
    before_total(b.id, c.id);
    before_total(a.id, c.id);
    if before(a.id, b.id) && before(b.id, c.id) {
        before_transitive(a.id, b.id, c.id);
    }
    if before(c.id, b.id) && before(b.id, a.id) {
        before_transitive(c.id, b.id, a.id);
    }
    if before(a.id, b.id) && before(c.id, a.id) {
        before_transitive(c.id, a.id, b.id);
    }
}

/// The place of the session that is ranked first.
fn first_choice(candidates: &[Candidate], want: Want) -> (r: Option<usize>)
    ensures
        r is None <==> candidates@.len() == 0,
        r matches Some(i) ==> is_first_choice(candidates@, want, i as int),
{
    if candidates.len() == 0 {
        return None;
    }
    let mut best: usize = 0;
    proof {
        let r0 = rank(candidates@[0]@, want);
        rank_order(r0, r0, r0);
    }
    for i in 1..candidates.len()
        invariant
            best < i,
            best < candidates@.len(),
            forall|k: int|
                0 <= k < i ==> !ranks_before(
                    rank(#[trigger] candidates@[k]@, want),
                    rank(candidates@[best as int]@, want),
                ),
            forall|k: int|
                0 <= k < best ==> ranks_before(
                    rank(candidates@[best as int]@, want),
                    rank(#[trigger] candidates@[k]@, want),
                ),
    {
        let ghost was = rank(candidates@[best as int]@, want);
        if outranks(&candidates[i], &candidates[best], want) {
            proof {
                let now = rank(candidates@[i as int]@, want);
                assert forall|k: int| 0 <= k < i implies ranks_before(
                    now,
                    rank(#[trigger] candidates@[k]@, want),
                ) by {
                    rank_order(now, was, rank(candidates@[k]@, want));
                }
                assert forall|k: int| 0 <= k <= i implies !ranks_before(
                    rank(#[trigger] candidates@[k]@, want),
                    now,
                ) by {
                    let r = rank(candidates@[k]@, want);
                    rank_order(now, now, now);
                    if k < i && ranks_before(r, now) {
                        rank_order(now, r, now);
                    }
                }
            }
            best = i;
        }
    }
    Some(best)
}

/// Which session an unlock should target: locked first, then active, then
/// lowest id.
///
/// Must not be shared with [`rank_for_lock`]: ranking locked-first for a lock
/// request would pick an already-locked session and report false success. One
/// session hides the bug, since both rankings agree there.
pub fn rank_for_unlock(candidates: &[Candidate]) -> (r: Option<&Candidate>)
    ensures
        r is None <==> candidates@.len() == 0,
        r matches Some(c) ==> exists|i: int|
            is_first_choice(candidates@, Want::Unlock, i) && *c == candidates@[i],
{
    match first_choice(candidates, Want::Unlock) {
        Some(i) => Some(&candidates[i]),
        None => None,
    }
}

/// Which session a lock should target: unlocked sessions first, the
/// deliberate inverse of [`rank_for_unlock`].
pub fn rank_for_lock(candidates: &[Candidate]) -> (r: Option<&Candidate>)
    ensures
        r is None <==> candidates@.len() == 0,
        r matches Some(c) ==> exists|i: int|
            is_first_choice(candidates@, Want::Lock, i) && *c == candidates@[i],
{
    match first_choice(candidates, Want::Lock) {
        Some(i) => Some(&candidates[i]),
        None => None,
    }
}

/// The first choice is unique: two sessions cannot both be it.
pub proof fn first_choice_is_unique(c: Seq<Candidate>, want: Want, i: int, j: int)
    requires
        is_first_choice(c, want, i),
        is_first_choice(c, want, j),
    ensures
        i == j,
{
    if i < j {
        assert(ranks_before(rank(c[j]@, want), rank(c[i]@, want)));
    } else if j < i {
        assert(ranks_before(rank(c[i]@, want), rank(c[j]@, want)));
    }
}

/// While any session is unlocked, a lock targets an unlocked one; while any is
/// locked, an unlock targets a locked one. So neither ever finds its work done
/// by a session it was not meant for.
pub proof fn the_two_rankings_are_opposed(c: Seq<Candidate>, i: int, k: int)
    requires
        0 <= k < c.len(),
    ensures
        is_first_choice(c, Want::Lock, i) && !c[k].locked ==> !c[i].locked,
        is_first_choice(c, Want::Unlock, i) && c[k].locked ==> c[i].locked,
{
    if is_first_choice(c, Want::Lock, i) {
        assert(!ranks_before(rank(c[k]@, Want::Lock), rank(c[i]@, Want::Lock)));
    }
    if is_first_choice(c, Want::Unlock, i) {
        assert(!ranks_before(rank(c[k]@, Want::Unlock), rank(c[i]@, Want::Unlock)));
    }
}

/// Whether the compositor is worth asking: a `yes` hint is trusted, and the
/// compositor only knows about an active Wayland session.
pub fn worth_probing(hint: bool, kind: &str, active: bool) -> (r: bool)
    ensures
        r == (!hint && kind@ == "wayland"@ && active),
{
    !hint && same(kind, "wayland") && active
}

/// Decide whether a session is locked. A `yes` hint is trusted; a `no` hint is
/// only believed once the compositor agrees, on an active Wayland session.
/// `probe` is what the compositor answered, if it has an opinion.
pub fn resolve_locked(hint: bool, kind: &str, active: bool, probe: Option<bool>) -> (r: bool)
    ensures
        r == (hint || (kind@ == "wayland"@ && active && probe == Some(true))),
{
    if hint {
        return true;
    }
    if !worth_probing(hint, kind, active) {
        return false;
    }
    match probe {
        Some(v) => v,
        None => false,
    }
}

/// Whether a person could be sitting at a session: it is theirs, it is of class
/// `user`, which drops systemd's own `manager` session, and it is graphical.
pub fn is_candidate(owner: u32, me: u32, class: &str, kind: &str) -> (r: bool)
    ensures
        r == (owner == me && class@ == "user"@ && (kind@ == "wayland"@ || kind@ == "x11"@)),
{
    owner == me && same(class, "user") && (same(kind, "wayland") || same(kind, "x11"))
}

/// How to lock and unlock, when logind's signal alone isn't enough: many
/// screen lockers ignore it, so a configured command can override it. Each is
/// an argv vector, run directly with no shell.
#[derive(Debug)]
pub struct Commands {
    pub lock: Vec<String>,
    pub unlock: Vec<String>,
}

impl Commands {
    /// The command for a direction. It replaces the logind call, it does not
    /// join it: it is known to work where the signal is ignored.
    pub fn argv(&self, want_locked: bool) -> (r: Option<&Vec<String>>)
        ensures
            ({
                let list = if want_locked {
                    &self.lock
                } else {
                    &self.unlock
                };
                r == (if list@.len() == 0 {
                    None
                } else {
                    Some(list)
                })
            }),
    {
        let list = if want_locked {
            &self.lock
        } else {
            &self.unlock
        };
        if list.len() == 0 {
            None
        } else {
            Some(list)
        }
    }
}

/// What is said where there is nothing to act on.
pub const NO_SESSION: &'static str = "no graphical session for this user";

/// The state to report: that of the session a person is most likely looking at.
pub fn report(candidates: &[Candidate]) -> (r: Result<SessionState, String>)
    ensures
        match r {
            Ok(s) => exists|i: int|
                is_first_choice(candidates@, Want::Report, i) && s@ == #[trigger] seat_of(
                    candidates@[i]@,
                ),
            Err(e) => candidates@.len() == 0 && e@ == NO_SESSION@,
        },
{
    match first_choice(candidates, Want::Report) {
        Some(i) => {
            let c = &candidates[i];
            let s = SessionState {
                locked: c.locked,
                session_id: c.id.clone(),
                kind: c.kind.clone(),
                active: c.active,
            };
            assert(s@ == seat_of(candidates@[i as int]@));
            Ok(s)
        },
        None => Err(NO_SESSION.to_owned()),
    }
}

/// The state of a session as it is reported.
pub open spec fn seat_of(c: CandidateView) -> SeatView {
    SeatView { locked: c.locked, session_id: c.id, kind: c.kind, active: c.active }
}

/// What a request to lock or unlock comes to.
#[derive(PartialEq, Eq, Debug)]
pub enum Plan {
    /// Already where it should be; nothing is sent or waited on.
    Done(SessionOutcome),
    /// This session is to be changed, and read back for this long.
    Change { id: String, confirm_ms: u64 },
}

/// Decide what a request to lock or unlock does.
pub fn plan(candidates: &[Candidate], want_locked: bool) -> (r: Result<Plan, String>)
    ensures
        match r {
            Err(e) => candidates@.len() == 0 && e@ == NO_SESSION@,
            Ok(Plan::Done(o)) => exists|i: int|
                #[trigger] is_first_choice(candidates@, wanted(want_locked), i)
                    && candidates@[i].locked == want_locked && o@ == (LockView {
                    was_locked: want_locked,
                    locked: want_locked,
                    session_id: candidates@[i].id@,
                }),
            Ok(Plan::Change { id, confirm_ms }) => exists|i: int|
                #[trigger] is_first_choice(candidates@, wanted(want_locked), i)
                    && candidates@[i].locked != want_locked && id@ == candidates@[i].id@
                    && confirm_ms == (if want_locked {
                    LOCK_CONFIRM_MS
                } else {
                    UNLOCK_CONFIRM_MS
                }),
        },
{
    let want = if want_locked {
        Want::Lock
    } else {
        Want::Unlock
    };
    let i: usize = match first_choice(candidates, want) {
        Some(i) => i,
        None => {
            return Err(NO_SESSION.to_owned());
        },
    };
    let chosen = &candidates[i];
    assert(is_first_choice(candidates@, wanted(want_locked), i as int));
    if chosen.locked == want_locked {
        Ok(
            Plan::Done(
                SessionOutcome {
                    was_locked: chosen.locked,
                    locked: chosen.locked,
                    session_id: chosen.id.clone(),
                },
            ),
        )
    } else {
        Ok(
            Plan::Change {
                id: chosen.id.clone(),
                confirm_ms: if want_locked {
                    LOCK_CONFIRM_MS
                } else {
                    UNLOCK_CONFIRM_MS
                },
            },
        )
    }
}

/// What a request is ranked by.
pub open spec fn wanted(want_locked: bool) -> Want {
    if want_locked {
        Want::Lock
    } else {
        Want::Unlock
    }
}

/// Waiting for a session to be read back as it should be.
pub struct Confirm {
    want: bool,
    last: bool,
}

impl Confirm {
    /// What is wanted.
    pub closed spec fn wanted(self) -> bool {
        self.want
    }

    /// What was last read.
    pub closed spec fn seen(self) -> bool {
        self.last
    }

    /// Nothing has been read yet, so nothing has changed yet.
    pub fn new(want: bool) -> (c: Confirm)
        ensures
            c.wanted() == want,
            c.seen() == !want,
    {
        Confirm { want, last: !want }
    }

    /// Takes a reading in; `None` where the session could not be read. Returns
    /// whether the waiting is over.
    pub fn read(&mut self, reading: Option<bool>) -> (over: bool)
        ensures
            final(self).wanted() == old(self).wanted(),
            final(self).seen() == (match reading {
                Some(now) => now,
                None => old(self).seen(),
            }),
            over == (reading == Some(old(self).wanted())),
    {
        match reading {
            Some(now) => {
                self.last = now;
                now == self.want
            },
            None => false,
        }
    }

    /// What came of it: what was read back, never what was asked for.
    pub fn outcome(&self, id: String) -> (o: SessionOutcome)
        ensures
            o@ == (LockView {
                was_locked: !self.wanted(),
                locked: self.seen(),
                session_id: id@,
            }),
    {
        SessionOutcome { was_locked: !self.want, locked: self.last, session_id: id }
    }
}

/// The session that is acted on: of those that still need it, an active one where
/// there is one, and else, of those alike, the one whose name comes first. One that
/// does not need it is taken only where none does.
pub proof fn the_session_that_needs_it_is_chosen(c: Seq<Candidate>, want_locked: bool, i: int, k: int)
    requires
        is_first_choice(c, wanted(want_locked), i),
        0 <= k < c.len(),
    ensures
        0 <= i < c.len(),
        c[k].locked != want_locked ==> c[i].locked != want_locked,
        c[k].locked == c[i].locked && c[k].active ==> c[i].active,
        c[k].locked == c[i].locked && c[k].active == c[i].active ==> !before(c[k].id@, c[i].id@),
{
    let want = wanted(want_locked);
    assert(!ranks_before(rank(c[k]@, want), rank(c[i]@, want)));
}

/// The session that is reported: an active one where there is one, and else, of those
/// alike, the one whose name comes first, locked or not.
pub proof fn the_session_in_front_is_reported(
    candidates: &[Candidate],
    r: Result<SessionState, String>,
)
    requires
        call_ensures(report, (candidates,), r),
    ensures
        r is Err <==> candidates@.len() == 0,
        r matches Ok(s) ==> exists|i: int|
            0 <= i < candidates@.len() && {
                let c = #[trigger] candidates@[i];
                &&& s.locked == c.locked && s.active == c.active
                &&& s.session_id@ == c.id@ && s.kind@ == c.kind@
                &&& forall|k: int|
                    0 <= k < candidates@.len() ==> {
                        &&& (#[trigger] candidates@[k]).active ==> c.active
                        &&& candidates@[k].active == c.active ==> !before(candidates@[k].id@, c.id@)
                    }
            },
{
    match r {
        Ok(s) => {
            let i = choose|i: int|
                is_first_choice(candidates@, Want::Report, i) && s@ == #[trigger] seat_of(
                    candidates@[i]@,
                );
            let c = candidates@[i];
            assert forall|k: int| 0 <= k < candidates@.len() implies {
                &&& (#[trigger] candidates@[k]).active ==> c.active
                &&& candidates@[k].active == c.active ==> !before(candidates@[k].id@, c.id@)
            } by {
                assert(!ranks_before(
                    rank(candidates@[k]@, Want::Report),
                    rank(candidates@[i]@, Want::Report),
                ));
            }
        },
        Err(_) => {},
    }
}

/// A request to lock or unlock changes a session whenever one still needs it, and then
/// it is one that does; it is done without a change only where all are as they should
/// be, and says so of one of them. Without a session there is nothing to change.
pub proof fn a_request_changes_what_needs_it(
    candidates: &[Candidate],
    want_locked: bool,
    r: Result<Plan, String>,
)
    requires
        call_ensures(plan, (candidates, want_locked), r),
    ensures
        r is Err <==> candidates@.len() == 0,
        (r matches Ok(Plan::Change { .. })) <==> exists|k: int|
            0 <= k < candidates@.len() && (#[trigger] candidates@[k]).locked != want_locked,
        r matches Ok(Plan::Change { id, confirm_ms }) ==> {
            &&& exists|i: int|
                0 <= i < candidates@.len() && (#[trigger] candidates@[i]).id@ == id@
                    && candidates@[i].locked != want_locked
            &&& want_locked ==> confirm_ms == 8000
            &&& !want_locked ==> confirm_ms == 5000
        },
        r matches Ok(Plan::Done(o)) ==> {
            &&& o.locked == want_locked && o.was_locked == want_locked
            &&& exists|i: int|
                0 <= i < candidates@.len() && (#[trigger] candidates@[i]).id@ == o.session_id@
                    && candidates@[i].locked == want_locked
        },
{
    let want = wanted(want_locked);
    match r {
        Ok(Plan::Done(o)) => {
            let i = choose|i: int|
                #[trigger] is_first_choice(candidates@, want, i) && candidates@[i].locked
                    == want_locked && o@ == (LockView {
                    was_locked: want_locked,
                    locked: want_locked,
                    session_id: candidates@[i].id@,
                });
            assert forall|k: int| 0 <= k < candidates@.len() implies (#[trigger] candidates@[k]).locked
                == want_locked by {
                the_session_that_needs_it_is_chosen(candidates@, want_locked, i, k);
            }
            assert(candidates@[i].id@ == o.session_id@);
        },
        Ok(Plan::Change { id, confirm_ms }) => {
            let i = choose|i: int|
                #[trigger] is_first_choice(candidates@, want, i) && candidates@[i].locked
                    != want_locked && id@ == candidates@[i].id@;
            assert(candidates@[i].locked != want_locked);
        },
        Err(_) => {},
    }
}

/// A session whose hint says locked is locked. One whose hint says otherwise is locked
/// only where the compositor says so, which is asked of an active Wayland session alone.
pub proof fn a_hint_is_believed_only_when_it_says_locked(
    hint: bool,
    kind: &str,
    active: bool,
    probe: Option<bool>,
    r: bool,
    asks: bool,
)
    requires
        call_ensures(resolve_locked, (hint, kind, active, probe), r),
        call_ensures(worth_probing, (hint, kind, active), asks),
    ensures
        hint ==> r && !asks,
        !hint && kind@ == "wayland"@ && active ==> asks && (r <==> probe == Some(true)),
        kind@ != "wayland"@ || !active ==> !asks && r == hint,
{
}

/// A session that is acted on is this user's own, of the class for people, and
/// graphical.
pub proof fn only_ones_own_desktop_is_a_candidate(
    owner: u32,
    me: u32,
    class: &str,
    kind: &str,
    r: bool,
)
    requires
        call_ensures(is_candidate, (owner, me, class, kind), r),
    ensures
        owner != me || class@ != "user"@ ==> !r,
        owner == me && class@ == "user"@ && (kind@ == "wayland"@ || kind@ == "x11"@) ==> r,
        kind@ != "wayland"@ && kind@ != "x11"@ ==> !r,
{
}

/// The command that locks is never the one that unlocks: each direction has its own, and
/// where none is configured there is none.
pub proof fn each_direction_has_its_command(c: Commands, a: Option<&Vec<String>>, b: Option<&Vec<String>>)
    requires
        call_ensures(Commands::argv, (&c, true), a),
        call_ensures(Commands::argv, (&c, false), b),
    ensures
        c.lock@.len() == 0 ==> a is None,
        c.lock@.len() > 0 ==> a == Some(&c.lock),
        c.unlock@.len() == 0 ==> b is None,
        c.unlock@.len() > 0 ==> b == Some(&c.unlock),
{
}

/// A change is over once it is read back and no sooner, and what is said of it is what
/// was last read, never what was asked for.
pub proof fn only_a_reading_confirms(
    want: bool,
    c: Confirm,
    id: String,
    o: SessionOutcome,
)
    requires
        call_ensures(Confirm::new, (want,), c),
        call_ensures(Confirm::outcome, (&c, id), o),
    ensures
        o.locked == !want,
        o.was_locked == !want,
        o.session_id@ == id@,
        c.wanted() == want,
{
}

/// A lone session is the one that is chosen, whatever is asked of it; and of two the choice
/// is the same whichever comes first, unless they are alike in all that is looked at.
pub proof fn the_choice_is_not_a_matter_of_place(a: Candidate, b: Candidate, want: Want)
    ensures
        is_first_choice(seq![a], want, 0),
        rank(a@, want) != rank(b@, want) ==> (is_first_choice(seq![a, b], want, 0)
            <==> is_first_choice(seq![b, a], want, 1)),
{
    rank_order(rank(a@, want), rank(a@, want), rank(a@, want));
    rank_order(rank(b@, want), rank(b@, want), rank(b@, want));
    rank_order(rank(a@, want), rank(b@, want), rank(a@, want));
    before_total(a.id@, b.id@);
    let ab = seq![a, b];
    let ba = seq![b, a];
    assert(ab[0] == a && ab[1] == b && ba[0] == b && ba[1] == a);
}

} // verus!
