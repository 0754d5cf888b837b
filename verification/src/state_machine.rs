//! The mode stack controller: owns the stack of live modes, applies each
//! transition, decides the redraw window, and paces the host loop.

use vstd::prelude::*;

use crate::state::PointerPos;
use crate::state::RunControl;
use crate::state::State;
use crate::state::Surface;
use crate::state::TickInput;
use crate::state::Transition;
use crate::state::TransitionControl;

verus! {

/// The stack left by applying one transition to `stack`, whose last element
/// is the mode that requested it.
pub open spec fn modes_after<M, R>(stack: Seq<M>, t: Transition<M, R>) -> Seq<M> {
    match t {
        Transition::Stay => stack,
        Transition::Pop(_) => stack.drop_last(),
        Transition::Terminate => Seq::empty(),
        Transition::Push(m) => stack.push(m),
        Transition::Switch(m) => stack.drop_last().push(m),
    }
}

/// The pending pop result directly after a transition is applied: a `Pop`
/// fills the slot, every other transition leaves it cleared.
pub open spec fn pending_after<M, R>(t: Transition<M, R>) -> Option<R> {
    match t {
        Transition::Pop(r) => Some(r),
        _ => None,
    }
}

/// The index of the rearmost opaque mode in `stack`: the highest index whose
/// mode is not transparent, or 0 when every mode is transparent.
pub open spec fn rearmost_opaque<M: State>(stack: Seq<M>) -> int
    decreases stack.len(),
{
    if stack.len() == 0 {
        0
    } else if !stack.last().transparent_spec() {
        stack.len() - 1
    } else {
        rearmost_opaque(stack.drop_last())
    }
}

/// Where the redraw window starts: at the rearmost opaque mode, but never at
/// index 0, which is drawn only when it is itself the top. The window runs
/// from here through the top of the stack; everything beneath it is skipped.
pub open spec fn draw_start<M: State>(stack: Seq<M>) -> int {
    if rearmost_opaque(stack) < 1 {
        1
    } else {
        rearmost_opaque(stack)
    }
}

/// `rearmost_opaque` always lands inside a non-empty stack.
proof fn lemma_rearmost_opaque_bounds<M: State>(stack: Seq<M>)
    requires
        stack.len() > 0,
    ensures
        0 <= rearmost_opaque(stack) < stack.len(),
    decreases stack.len(),
{
    if stack.last().transparent_spec() {
        if stack.len() > 1 {
            lemma_rearmost_opaque_bounds(stack.drop_last());
        } else {
            assert(rearmost_opaque(stack.drop_last()) == 0);
        }
    }
}

/// `rearmost_opaque` finds exactly the opaque mode that has only transparent
/// modes above it.
proof fn lemma_rearmost_opaque_at<M: State>(stack: Seq<M>, k: int)
    requires
        0 <= k < stack.len(),
        !stack[k].transparent_spec(),
        forall|j: int| k < j < stack.len() ==> stack[j].transparent_spec(),
    ensures
        rearmost_opaque(stack) == k,
    decreases stack.len(),
{
    if k < stack.len() - 1 {
        assert(stack.drop_last()[k] == stack[k]);
        lemma_rearmost_opaque_at(stack.drop_last(), k);
    }
}

/// With every mode transparent, `rearmost_opaque` falls back to index 0.
proof fn lemma_rearmost_opaque_all_transparent<M: State>(stack: Seq<M>)
    requires
        forall|j: int| 0 <= j < stack.len() ==> stack[j].transparent_spec(),
    ensures
        rearmost_opaque(stack) == 0,
    decreases stack.len(),
{
    if stack.len() > 0 {
        lemma_rearmost_opaque_all_transparent(stack.drop_last());
    }
}

/// The stack left by a whole sequence of transitions, applied oldest first.
pub open spec fn modes_after_all<M, R>(stack: Seq<M>, ts: Seq<Transition<M, R>>) -> Seq<M>
    decreases ts.len(),
{
    if ts.len() == 0 {
        stack
    } else {
        modes_after_all(modes_after(stack, ts.first()), ts.drop_first())
    }
}

/// The stack depth left by one transition applied at depth `d`. A transition
/// is only ever requested by a mode on the stack, so `d` is at least 1
/// wherever the machine applies this.
pub open spec fn depth_after<M, R>(d: int, t: Transition<M, R>) -> int {
    match t {
        Transition::Stay => d,
        Transition::Pop(_) => d - 1,
        Transition::Terminate => 0,
        Transition::Push(_) => d + 1,
        Transition::Switch(_) => d,
    }
}

/// The stack depth left by a whole sequence of transitions, applied oldest
/// first.
pub open spec fn depth_after_all<M, R>(d: int, ts: Seq<Transition<M, R>>) -> int
    decreases ts.len(),
{
    if ts.len() == 0 {
        d
    } else {
        depth_after_all(depth_after(d, ts.first()), ts.drop_first())
    }
}

/// Folding one more transition onto a whole sequence applies it last.
proof fn lemma_depth_after_all_snoc<M, R>(d: int, ts: Seq<Transition<M, R>>, t: Transition<M, R>)
    ensures
        depth_after_all(d, ts.push(t)) == depth_after(depth_after_all(d, ts), t),
    decreases ts.len(),
{
    if ts.len() == 0 {
        assert(ts.push(t).first() == t);
        assert(ts.push(t).drop_first() =~= Seq::<Transition<M, R>>::empty());
        assert(depth_after_all(depth_after(d, t), Seq::<Transition<M, R>>::empty())
            == depth_after(d, t));
        assert(depth_after_all(d, ts) == d);
    } else {
        assert(ts.push(t).first() == ts.first());
        assert(ts.push(t).drop_first() =~= ts.drop_first().push(t));
        lemma_depth_after_all_snoc(depth_after(d, ts.first()), ts.drop_first(), t);
    }
}

/// A sequence of transitions that ends in `Terminate` always folds to depth
/// zero, whatever happened before.
proof fn lemma_depth_after_all_terminate<M, R>(d: int, ts: Seq<Transition<M, R>>)
    requires
        ts.len() > 0,
        ts.last() is Terminate,
    ensures
        depth_after_all(d, ts) == 0,
    decreases ts.len(),
{
    if ts.len() == 1 {
        assert(ts.first() == ts.last());
        assert(depth_after_all(depth_after(d, ts.first()), ts.drop_first())
            == depth_after(d, ts.first()));
    } else {
        assert(ts.drop_first().last() == ts.last());
        lemma_depth_after_all_terminate(depth_after(d, ts.first()), ts.drop_first());
    }
}

/// Law: whatever sequence of transitions is applied to whatever stack, the
/// depth is never negative, and a sequence that ends in `Terminate` always
/// leaves depth zero.
pub proof fn lemma_depth_after_transitions<M, R>(stack: Seq<M>, ts: Seq<Transition<M, R>>)
    ensures
        modes_after_all(stack, ts).len() >= 0,
        ts.len() > 0 && ts.last() is Terminate ==> modes_after_all(stack, ts).len() == 0,
    decreases ts.len(),
{
    if ts.len() > 0 {
        lemma_depth_after_transitions(modes_after(stack, ts.first()), ts.drop_first());
        if ts.last() is Terminate {
            if ts.len() == 1 {
                assert(ts.first() == ts.last());
                assert(modes_after_all(modes_after(stack, ts.first()), ts.drop_first())
                    == modes_after(stack, ts.first()));
            } else {
                assert(ts.drop_first().last() == ts.last());
            }
        }
    }
}

/// Law: a `Push` followed immediately by a `Pop` from the newly pushed mode
/// restores the exact prior stack — the prior top mode included — and leaves
/// the pop's result pending, to be delivered to the restored top mode's very
/// next `update`.
pub proof fn lemma_push_then_pop<M, R>(stack: Seq<M>, pushed: M, result: R)
    ensures
        modes_after(
            modes_after(stack, Transition::<M, R>::Push(pushed)),
            Transition::<M, R>::Pop(result),
        ) == stack,
        pending_after::<M, R>(Transition::Pop(result)) == Some(result),
{
    assert(stack.push(pushed).drop_last() =~= stack);
}

/// Law: the pending pop result never outlives one delivery: resolving any
/// further transition clears the slot, unless that transition is itself a
/// `Pop`, which refills it with a fresh result.
pub proof fn lemma_pending_delivered_once<M, R>(t: Transition<M, R>)
    ensures
        !(t is Pop) ==> pending_after::<M, R>(t) is None,
{
}

/// Law: a `Switch` never increases the stack depth: it destroys exactly one
/// mode — the top one, being replaced — and leaves every mode beneath it in
/// place, with the replacement on top.
pub proof fn lemma_switch_replaces_top<M, R>(stack: Seq<M>, replacement: M)
    requires
        stack.len() > 0,
    ensures
        modes_after(stack, Transition::<M, R>::Switch(replacement)).len() == stack.len(),
        modes_after(stack, Transition::<M, R>::Switch(replacement)).last() == replacement,
        forall|i: int|
            0 <= i < stack.len() - 1 ==> modes_after(
                stack,
                Transition::<M, R>::Switch(replacement),
            )[i] == stack[i],
{
}

/// Law: for the whole sequence of transitions a reachable machine has
/// applied, the stack depth is never negative — it equals the machine's
/// depth, a count — and a trace that ends in `Terminate` always leaves the
/// machine finished, at depth zero.
pub proof fn lemma_machine_depth<M: State>(machine: &StateMachine<M>)
    requires
        machine.follows_trace(),
    ensures
        depth_after_all(machine.initial().len() as int, machine.trace()) >= 0,
        machine.trace().len() > 0 && machine.trace().last() is Terminate ==> machine.finished(),
{
    if machine.trace().len() > 0 && machine.trace().last() is Terminate {
        lemma_depth_after_all_terminate(machine.initial().len() as int, machine.trace());
    }
}

/// The rearmost opaque index is never negative.
proof fn lemma_rearmost_opaque_nonneg<M: State>(stack: Seq<M>)
    ensures
        rearmost_opaque(stack) >= 0,
    decreases stack.len(),
{
    if stack.len() > 0 && stack.last().transparent_spec() {
        lemma_rearmost_opaque_nonneg(stack.drop_last());
    }
}

/// Every mode strictly above the rearmost opaque one is transparent.
proof fn lemma_rearmost_opaque_transparent_above<M: State>(stack: Seq<M>)
    ensures
        forall|j: int|
            rearmost_opaque(stack) < j < stack.len() ==> stack[j].transparent_spec(),
    decreases stack.len(),
{
    if stack.len() > 0 && stack.last().transparent_spec() {
        lemma_rearmost_opaque_nonneg(stack.drop_last());
        lemma_rearmost_opaque_transparent_above(stack.drop_last());
        assert forall|j: int|
            rearmost_opaque(stack) < j < stack.len() implies stack[j].transparent_spec() by {
            if j < stack.len() - 1 {
                assert(stack.drop_last()[j] == stack[j]);
            }
        }
    }
}

/// When the rearmost opaque index is positive, an opaque mode really sits
/// there.
proof fn lemma_rearmost_opaque_found<M: State>(stack: Seq<M>)
    requires
        rearmost_opaque(stack) > 0,
    ensures
        !stack[rearmost_opaque(stack)].transparent_spec(),
    decreases stack.len(),
{
    if stack.len() > 0 && stack.last().transparent_spec() {
        if stack.len() == 1 {
            assert(rearmost_opaque(stack.drop_last()) == 0);
        } else {
            lemma_rearmost_opaque_bounds(stack.drop_last());
            lemma_rearmost_opaque_found(stack.drop_last());
            assert(stack.drop_last()[rearmost_opaque(stack)] == stack[rearmost_opaque(stack)]);
        }
    }
}

/// Law: the redraw window `draw_start(stack) .. stack.len()` never includes
/// index 0 beneath the top, hides nothing it should show — every mode
/// strictly above its start is transparent, so no opaque mode is skipped
/// inside the window — and is tight: a window starting above index 1 starts
/// exactly at an opaque mode.
pub proof fn lemma_draw_window<M: State>(stack: Seq<M>)
    requires
        stack.len() > 0,
    ensures
        1 <= draw_start(stack),
        stack.len() > 1 ==> draw_start(stack) < stack.len(),
        forall|j: int| draw_start(stack) < j < stack.len() ==> stack[j].transparent_spec(),
        draw_start(stack) > 1 ==> !stack[draw_start(stack)].transparent_spec(),
{
    lemma_rearmost_opaque_bounds(stack);
    lemma_rearmost_opaque_transparent_above(stack);
    if rearmost_opaque(stack) > 1 {
        lemma_rearmost_opaque_found(stack);
    }
}

/// Whether a tick's observed input unblocks a machine waiting for input: a
/// key press, a primary click, or pointer movement to a new position.
pub open spec fn qualifies(input: TickInput, last_pointer: PointerPos) -> bool {
    input.key_pressed || input.left_click || input.pointer != last_pointer
}

/// The mode stack controller. Index 0 is the bottom (oldest surviving mode);
/// the last index is the top, which drives each tick. Once the stack is
/// empty the machine has finished; further ticks are a defined no-op that
/// reports [`RunControl::Quit`].
pub struct StateMachine<M: State> {
    state: M::State,
    wait_for_event: bool,
    pop_result: Option<M::StateResult>,
    active_mouse_pos: PointerPos,
    states: Vec<M>,
    draw_count: Ghost<nat>,
    first_modes: Ghost<Seq<M>>,
    transitions: Ghost<Seq<Transition<M, M::StateResult>>>,
}

impl<M: State> StateMachine<M> {
    /// The stack of live modes, bottom first.
    pub closed spec fn modes(&self) -> Seq<M> {
        self.states@
    }

    /// The pending pop result: the value handed to the next `update` of the
    /// mode that just became top after a pop, then cleared.
    pub closed spec fn pending(&self) -> Option<M::StateResult> {
        self.pop_result
    }

    /// Whether the "waiting for input" latch is set.
    pub closed spec fn waiting(&self) -> bool {
        self.wait_for_event
    }

    /// The last pointer position the machine synchronized with.
    pub closed spec fn pointer(&self) -> PointerPos {
        self.active_mouse_pos
    }

    /// The application-wide state shared by every mode.
    pub closed spec fn app_state(&self) -> M::State {
        self.state
    }

    /// How many redraws (clear, layered renders, present) the machine has
    /// started over its whole life.
    pub closed spec fn redraws(&self) -> nat {
        self.draw_count@
    }

    /// The stack the machine started with.
    pub closed spec fn initial(&self) -> Seq<M> {
        self.first_modes@
    }

    /// Every transition the machine has applied over its whole life, oldest
    /// first.
    pub closed spec fn trace(&self) -> Seq<Transition<M, M::StateResult>> {
        self.transitions@
    }

    /// The machine's stack depth is exactly the fold of its recorded
    /// transition trace over the depth it started with. (Mode values mutate
    /// in place as they update, so the depth, not the value sequence, is
    /// what the trace pins.) Construction establishes this and every tick
    /// preserves it, so it holds of every reachable machine.
    pub open spec fn follows_trace(&self) -> bool {
        self.depth() == depth_after_all(self.initial().len() as int, self.trace())
    }

    /// Current stack depth.
    pub open spec fn depth(&self) -> nat {
        self.modes().len()
    }

    /// Whether the machine has finished: the stack is empty and no further
    /// work will ever be done.
    pub open spec fn finished(&self) -> bool {
        self.depth() == 0
    }

    /// Creates a machine driving `init_state`, with the shared application
    /// state it will lend to every mode.
    pub fn new(system_state: M::State, init_state: M) -> (machine: StateMachine<M>)
        ensures
            machine.modes() == seq![init_state],
            machine.pending() is None,
            !machine.waiting(),
            machine.app_state() == system_state,
            machine.pointer() == (PointerPos { x: 0, y: 0 }),
            machine.redraws() == 0,
            machine.initial() == seq![init_state],
            machine.trace().len() == 0,
            machine.follows_trace(),
    {
        let mut states: Vec<M> = Vec::new();
        states.push(init_state);
        proof {
            assert(states@ =~= seq![init_state]);
        }
        StateMachine {
            pop_result: None,
            state: system_state,
            wait_for_event: false,
            active_mouse_pos: PointerPos::zero(),
            first_modes: Ghost(states@),
            transitions: Ghost(Seq::empty()),
            states,
            draw_count: Ghost(0),
        }
    }

    /// Current stack depth, for callers outside the proof world.
    pub fn num_modes(&self) -> (n: usize)
        ensures
            n == self.depth(),
    {
        self.states.len()
    }

    /// Whether the "waiting for input" latch is set.
    pub fn is_waiting(&self) -> (b: bool)
        ensures
            b == self.waiting(),
    {
        self.wait_for_event
    }

    /// Whether the machine has finished and must only report
    /// [`RunControl::Quit`] from now on.
    pub fn is_finished(&self) -> (b: bool)
        ensures
            b == self.finished(),
    {
        self.states.len() == 0
    }

    /// The shared application state, for the host to inspect between ticks.
    pub fn shared_state(&self) -> (s: &M::State)
        ensures
            *s == self.app_state(),
    {
        &self.state
    }

    /// Applies one transition, requested by the mode on top of the stack, to
    /// the stack, and moves the pending pop result slot along: the slot is
    /// cleared (its value was just delivered, at most once), then refilled
    /// only by a `Pop`.
    fn apply_transition(&mut self, transition: Transition<M, M::StateResult>)
        requires
            old(self).depth() > 0,
        ensures
            final(self).modes() == modes_after(old(self).modes(), transition),
            final(self).pending() == pending_after::<M, M::StateResult>(transition),
            final(self).waiting() == old(self).waiting(),
            final(self).pointer() == old(self).pointer(),
            final(self).app_state() == old(self).app_state(),
            final(self).redraws() == old(self).redraws(),
            final(self).initial() == old(self).initial(),
            final(self).trace() == old(self).trace().push(transition),
            old(self).follows_trace() ==> final(self).follows_trace(),
    {
        proof {
            self.transitions@ = self.transitions@.push(transition);
            lemma_depth_after_all_snoc(
                self.first_modes@.len() as int,
                old(self).transitions@,
                transition,
            );
        }
        self.pop_result = None;
        match transition {
            Transition::Stay => {}
            Transition::Switch(new_mode) => {
                let _ = self.states.pop();
                self.states.push(new_mode);
            }
            Transition::Push(new_mode) => {
                self.states.push(new_mode);
            }
            Transition::Pop(result) => {
                self.pop_result = Some(result);
                let _ = self.states.pop();
            }
            Transition::Terminate => {
                self.states.clear();
            }
        }
    }

    /// Scans the stack from the top toward the bottom for the first index of
    /// the redraw window.
    #[verifier::loop_isolation(false)]
    fn find_draw_start(&self) -> (start: usize)
        requires
            self.depth() > 0,
        ensures
            start == draw_start(self.modes()),
    {
        let mut i: usize = self.states.len();
        loop
            invariant
                0 <= i <= self.states@.len(),
                forall|j: int| i <= j < self.states@.len() ==> self.states@[j].transparent_spec(),
            decreases i,
        {
            if i == 0 {
                proof {
                    lemma_rearmost_opaque_all_transparent(self.states@);
                }
                return 1;
            }
            if !self.states[i - 1].is_transparent() {
                proof {
                    lemma_rearmost_opaque_at(self.states@, i - 1);
                }
                if i - 1 < 1 {
                    return 1;
                } else {
                    return i - 1;
                }
            }
            i = i - 1;
        }
    }

    /// Asks the top mode to clear the drawing surface, so a mode can opt into
    /// a narrower partial clear.
    fn clear_consoles(&self, term: &mut <M as State>::Term)
        requires
            self.depth() > 0,
    {
        let top: usize = self.states.len() - 1;
        self.states[top].clear(&self.state, term);
    }

    /// One full redraw: clear the surface through the top mode, draw every
    /// mode of the redraw window beneath the top as inactive, draw the top
    /// mode as active, then present. Index 0 is never drawn beneath the top.
    /// A failed present aborts the tick and is handed back unretried.
    #[verifier::loop_isolation(false)]
    fn redraw(&mut self, term: &mut <M as State>::Term) -> (r: Result<
        (),
        <<M as State>::Term as Surface>::PresentError,
    >)
        requires
            old(self).depth() > 0,
        ensures
            final(self).modes() == old(self).modes(),
            final(self).pending() == old(self).pending(),
            final(self).waiting() == old(self).waiting(),
            final(self).pointer() == old(self).pointer(),
            final(self).app_state() == old(self).app_state(),
            final(self).redraws() == old(self).redraws() + 1,
            final(self).initial() == old(self).initial(),
            final(self).trace() == old(self).trace(),
    {
        self.draw_count = Ghost(self.draw_count@ + 1);
        let top: usize = self.states.len() - 1;
        self.clear_consoles(term);
        let start: usize = self.find_draw_start();
        proof {
            lemma_rearmost_opaque_bounds(self.states@);
        }
        let mut j: usize = start;
        while j < top
            invariant
                start <= j,
                j <= self.states@.len(),
            decreases top - j,
        {
            self.states[j].render(term, &self.state, false);
            j = j + 1;
        }
        self.states[top].render(term, &self.state, true);
        term.present()
    }

    /// Resolves transitions until one tick is complete: repeatedly lets the
    /// top mode react, applies the requested transition, and — unless the
    /// pacing directive was `Immediate` and the stack survived — redraws
    /// once and reports how the host should pace the next frame. An empty
    /// stack ends the machine: `Quit` is reported and nothing more is drawn.
    ///
    /// A mode that keeps answering `Immediate` keeps control inside this one
    /// call; guarding against an endless `Immediate` + `Stay` combination is
    /// the modes' responsibility, not the controller's. The controller only
    /// bounds one tick's resolution steps by `u64::MAX`, a count no host can
    /// reach, and treats an exhausted budget as a frame boundary.
    #[verifier::loop_isolation(false)]
    fn internal_tick(&mut self, term: &mut <M as State>::Term, dt_ms: u64) -> (r: Result<
        RunControl,
        <<M as State>::Term as Surface>::PresentError,
    >)
        ensures
            final(self).waiting() == old(self).waiting(),
            final(self).pointer() == old(self).pointer(),
            r matches Ok(RunControl::Quit) ==> final(self).finished() && final(self).redraws()
                == old(self).redraws(),
            (r matches Ok(RunControl::Update) || r matches Ok(RunControl::WaitForEvent))
                ==> !final(self).finished() && final(self).redraws() == old(self).redraws() + 1,
            r is Err ==> !final(self).finished() && final(self).redraws() == old(self).redraws()
                + 1,
            r is Ok ==> (r matches Ok(RunControl::Quit) <==> final(self).finished()),
            final(self).initial() == old(self).initial(),
            old(self).trace().is_prefix_of(final(self).trace()),
            old(self).follows_trace() ==> final(self).follows_trace(),
            final(self).trace().len() > old(self).trace().len() ==> final(self).pending()
                == pending_after::<M, M::StateResult>(final(self).trace().last()),
            (r matches Ok(RunControl::Quit) && old(self).depth() > 0) ==> {
                &&& final(self).trace().len() > old(self).trace().len()
                &&& (final(self).trace().last() is Pop || final(self).trace().last() is Terminate)
            },
    {
        let mut budget: u64 = u64::MAX;
        while self.states.len() > 0
            invariant
                self.wait_for_event == old(self).wait_for_event,
                self.active_mouse_pos == old(self).active_mouse_pos,
                self.draw_count@ == old(self).draw_count@,
                self.first_modes@ == old(self).first_modes@,
                old(self).transitions@.is_prefix_of(self.transitions@),
                old(self).follows_trace() ==> self.follows_trace(),
                self.transitions@.len() > old(self).transitions@.len() ==> self.pop_result
                    == pending_after::<M, M::StateResult>(self.transitions@.last()),
                (self.states@.len() == 0 && old(self).states@.len() > 0) ==> {
                    &&& self.transitions@.len() > old(self).transitions@.len()
                    &&& (self.transitions@.last() is Pop || self.transitions@.last() is Terminate)
                },
            decreases budget,
        {
            if budget == 0 {
                match self.redraw(term) {
                    Ok(()) => {
                        return Ok(RunControl::Update);
                    },
                    Err(e) => {
                        return Err(e);
                    },
                }
            }
            budget = budget - 1;
            let mut top_mode = self.states.pop().unwrap();
            let (transition, control) = top_mode.update(
                term,
                &mut self.state,
                &self.pop_result,
                dt_ms,
            );
            self.states.push(top_mode);
            self.apply_transition(transition);
            if self.states.len() > 0 {
                match control {
                    TransitionControl::Immediate => {},
                    TransitionControl::Update => {
                        match self.redraw(term) {
                            Ok(()) => {
                                return Ok(RunControl::Update);
                            },
                            Err(e) => {
                                return Err(e);
                            },
                        }
                    },
                    TransitionControl::WaitForEvent => {
                        match self.redraw(term) {
                            Ok(()) => {
                                return Ok(RunControl::WaitForEvent);
                            },
                            Err(e) => {
                                return Err(e);
                            },
                        }
                    },
                }
            }
        }
        Ok(RunControl::Quit)
    }

    /// One host tick. A finished machine only reports `Quit` and is left
    /// untouched. While the "waiting for input" latch is set, the tick is a
    /// no-op until an input qualifies ([`qualifies`]); the qualifying tick
    /// clears the latch, re-synchronizes the tracked pointer position, and
    /// resumes normal ticking on the next host tick. Otherwise the pointer
    /// position is synchronized and the stack-update loop runs: the answer
    /// says whether the host should quit, tick again next frame, or poll for
    /// input, and `WaitForEvent` is exactly when the latch was set. A normal
    /// tick that does not quit redraws exactly once, whatever number of
    /// `Immediate` resolutions it absorbed; a failed present aborts the tick
    /// with the host's error.
    pub fn tick(&mut self, term: &mut <M as State>::Term, input: TickInput) -> (r: Result<
        RunControl,
        <<M as State>::Term as Surface>::PresentError,
    >)
        ensures
            old(self).finished() ==> {
                &&& *final(self) == *old(self)
                &&& r matches Ok(RunControl::Quit)
            },
            (!old(self).finished() && old(self).waiting() && !qualifies(input, old(self).pointer()))
                ==> {
                &&& *final(self) == *old(self)
                &&& r matches Ok(RunControl::WaitForEvent)
            },
            (!old(self).finished() && old(self).waiting() && qualifies(input, old(self).pointer()))
                ==> {
                &&& !final(self).waiting()
                &&& final(self).modes() == old(self).modes()
                &&& final(self).pending() == old(self).pending()
                &&& final(self).app_state() == old(self).app_state()
                &&& final(self).redraws() == old(self).redraws()
                &&& final(self).pointer() == input.pointer
                &&& final(self).initial() == old(self).initial()
                &&& final(self).trace() == old(self).trace()
                &&& r matches Ok(RunControl::Update)
            },
            (!old(self).finished() && !old(self).waiting()) ==> {
                &&& final(self).pointer() == input.pointer
                &&& final(self).initial() == old(self).initial()
                &&& old(self).trace().is_prefix_of(final(self).trace())
                &&& (old(self).follows_trace() ==> final(self).follows_trace())
                &&& (final(self).trace().len() > old(self).trace().len() ==> final(self).pending()
                    == pending_after::<M, M::StateResult>(final(self).trace().last()))
                &&& (r matches Ok(RunControl::Quit) ==> {
                    &&& final(self).trace().len() > old(self).trace().len()
                    &&& (final(self).trace().last() is Pop || final(self).trace().last() is Terminate)
                })
                &&& (final(self).waiting() <==> r matches Ok(RunControl::WaitForEvent))
                &&& (r is Ok ==> (r matches Ok(RunControl::Quit) <==> final(self).finished()))
                &&& (r matches Ok(RunControl::Quit) ==> final(self).redraws() == old(self).redraws())
                &&& ((r matches Ok(RunControl::Update) || r matches Ok(RunControl::WaitForEvent))
                    ==> !final(self).finished() && final(self).redraws() == old(self).redraws() + 1)
                &&& (r is Err ==> !final(self).finished() && final(self).redraws() == old(self).redraws() + 1)
            },
    {
        if self.states.len() == 0 {
            return Ok(RunControl::Quit);
        }
        if self.wait_for_event {
            let moved = input.pointer != self.active_mouse_pos;
            if input.key_pressed || input.left_click {
                self.wait_for_event = false;
            }
            if moved {
                self.wait_for_event = false;
                self.active_mouse_pos = input.pointer;
            }
            if self.wait_for_event {
                Ok(RunControl::WaitForEvent)
            } else {
                Ok(RunControl::Update)
            }
        } else {
            self.active_mouse_pos = input.pointer;
            match self.internal_tick(term, input.dt_ms) {
                Ok(RunControl::WaitForEvent) => {
                    self.wait_for_event = true;
                    Ok(RunControl::WaitForEvent)
                },
                Ok(control) => Ok(control),
                Err(e) => Err(e),
            }
        }
    }
}

} // verus!

