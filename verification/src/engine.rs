//! The engine: exclusive owner of the scene stack and the globals.
//!
//! Scenes never touch the stack; every mutation goes through outcome
//! resolution here. Resolving a `Quit` pops the top scene, merges requested
//! globals into the quitting props, and hands them to the parent's child-quit
//! callback, whose own outcome is resolved in turn — an explicit loop, one pop
//! per step — until a scene elects to stay or the stack empties and the quit
//! handler produces the engine's final dictionary. The per-frame steps
//! (dispatch one event to the top scene, tick the top scene) are exposed so an
//! embedding can drive them from its own render/poll/sleep loop; [`Engine::run`]
//! is the headless loop over ticks alone.
//!
//! Every step has a relational contract (`resolve_rel`, `dispatch_rel`,
//! `tick_rel`, `run_rel`) pinning the new stack and result to the callbacks'
//! declared behaviour.

use vstd::prelude::*;
use crate::dict::{Dict, DictValue, dv_eq};
use crate::scene::{Scene, SceneFnOutcome, SceneLogic, GameEvent};
use crate::stack::Stack;

verus! {

/// The reserved props key under which a scene lists the global names it
/// requests across a transition.
pub open spec fn requests_key() -> Seq<char> {
    "_REQUESTS"@
}

/// The reserved props key under which the requested globals are delivered.
pub open spec fn globals_key() -> Seq<char> {
    "globals"@
}

/// The keys a request list asks for that the globals dictionary has: every
/// string element naming a present global, in any position of the list.
pub open spec fn requested_keys(g: Map<Seq<char>, DictValue>, reqs: Seq<DictValue>) -> Set<
    Seq<char>,
>
    decreases reqs.len(),
{
    if reqs.len() == 0 {
        Set::empty()
    } else {
        let rest = requested_keys(g, reqs.drop_last());
        match reqs.last() {
            DictValue::Str(s) => if g.contains_key(s@) {
                rest.insert(s@)
            } else {
                rest
            },
            _ => rest,
        }
    }
}

/// Whether `gd` is the side mapping gathered for request list `reqs` against
/// globals `g`: exactly the requested present keys, each bound to a
/// structurally equal copy of the global's value.
pub open spec fn gathered_ok(g: Dict, reqs: Seq<DictValue>, gd: Dict) -> bool {
    &&& gd@.dom() == requested_keys(g@, reqs)
    &&& forall|k: Seq<char>|
        #[trigger] gd@.contains_key(k) ==> g@.contains_key(k) && dv_eq(gd@[k], g@[k])
}

/// How props change when they cross a scene boundary: if the props carry a
/// request list, it is removed and the gathered globals are delivered under
/// the reserved key; props without one pass through unchanged. Nothing else
/// changes.
pub open spec fn merged_props(g: Dict, pre: Dict, post: Dict) -> bool {
    if pre@.contains_key(requests_key()) && pre@[requests_key()] is Array {
        exists|gd: Dict|
            #[trigger] gathered_ok(g, pre@[requests_key()]->Array_0@, gd) && post@ == pre@.remove(
                requests_key(),
            ).insert(globals_key(), DictValue::Dict(gd))
    } else {
        post@ == pre@
    }
}

/// How outcome resolution transforms the stack. `Continue` is a no-op;
/// `CreateChild` and `Replace` merge globals into the props, build the scene
/// and push or swap it; `Quit` pops, merges, and either recurses through the
/// parent's child-quit callback or — with no parent left — produces the quit
/// handler's answer. A `Some` result appears exactly when the quit handler
/// ran, and it runs once, at the end of a cascade.
pub open spec fn resolve_rel<L: SceneLogic>(
    g: Dict,
    s0: Seq<Scene<L>>,
    o: SceneFnOutcome<L>,
    s1: Seq<Scene<L>>,
    r: Option<Dict>,
) -> bool
    decreases s0.len(),
{
    match o {
        SceneFnOutcome::Continue => s1 == s0 && r is None,
        SceneFnOutcome::CreateChild { kind, props } => {
            exists|p2: Dict|
                #[trigger] merged_props(g, props, p2) && s1 == s0.push(
                    L::construct_spec(kind, p2),
                ) && r is None
        },
        SceneFnOutcome::Replace { kind, props } => {
            exists|p2: Dict|
                #[trigger] merged_props(g, props, p2) && s1 == (if s0.len() == 0 {
                    s0
                } else {
                    s0.drop_last()
                }).push(L::construct_spec(kind, p2)) && r is None
        },
        SceneFnOutcome::Quit(props) => {
            let popped = if s0.len() == 0 {
                s0
            } else {
                s0.drop_last()
            };
            if popped.len() == 0 {
                exists|p2: Dict|
                    #[trigger] merged_props(g, props, p2) && s1 == popped && r == Some(
                        L::handle_quit_spec(g, p2),
                    )
            } else {
                exists|p2: Dict|
                    #[trigger] merged_props(g, props, p2) && resolve_rel(
                        g,
                        popped.drop_last().push(L::on_child_quit_spec(popped.last(), p2).0),
                        L::on_child_quit_spec(popped.last(), p2).1,
                        s1,
                        r,
                    )
            }
        },
    }
}

/// What one frame step reports: the game goes on, the quit handler finished
/// with the engine's final dictionary, or the stack was found unexpectedly
/// empty — a controlled termination distinguishable from a normal quit.
#[derive(PartialEq, Debug)]
pub enum FrameResult {
    Running,
    Finished(Dict),
    Underflow,
}

/// How dispatching one event transforms the stack: an empty stack underflows;
/// a top scene with no callback registered for the event's type drops it
/// unchanged; otherwise the scene reacts and its outcome is resolved.
pub open spec fn dispatch_rel<L: SceneLogic>(
    g: Dict,
    s0: Seq<Scene<L>>,
    ev: GameEvent,
    s1: Seq<Scene<L>>,
    r: FrameResult,
) -> bool {
    if s0.len() == 0 {
        s1 == s0 && r == FrameResult::Underflow
    } else if !L::handles_spec(s0.last(), ev.kind) {
        s1 == s0 && r == FrameResult::Running
    } else {
        exists|ro: Option<Dict>|
            #[trigger] resolve_rel(
                g,
                s0.drop_last().push(L::on_event_spec(s0.last(), ev).0),
                L::on_event_spec(s0.last(), ev).1,
                s1,
                ro,
            ) && r == (match ro {
                Option::Some(d) => FrameResult::Finished(d),
                Option::None => FrameResult::Running,
            })
    }
}

/// How one tick transforms the stack: an empty stack underflows; otherwise
/// the top scene ticks and its outcome is resolved.
pub open spec fn tick_rel<L: SceneLogic>(
    g: Dict,
    s0: Seq<Scene<L>>,
    interval: u32,
    s1: Seq<Scene<L>>,
    r: FrameResult,
) -> bool {
    if s0.len() == 0 {
        s1 == s0 && r == FrameResult::Underflow
    } else {
        exists|ro: Option<Dict>|
            #[trigger] resolve_rel(
                g,
                s0.drop_last().push(L::on_tick_spec(s0.last(), interval).0),
                L::on_tick_spec(s0.last(), interval).1,
                s1,
                ro,
            ) && r == (match ro {
                Option::Some(d) => FrameResult::Finished(d),
                Option::None => FrameResult::Running,
            })
    }
}

/// Whether the headless run loop can reach final dictionary `out` from stack
/// `s0` within `fuel` ticks: an empty stack yields an empty dictionary, and
/// otherwise some tick chain ends in a finish (or an underflow's empty
/// dictionary) after at most `fuel` further steps.
pub open spec fn run_rel<L: SceneLogic>(
    g: Dict,
    delay: u32,
    s0: Seq<Scene<L>>,
    out: Dict,
    fuel: nat,
) -> bool
    decreases fuel,
{
    if s0.len() == 0 {
        out@ == Map::<Seq<char>, DictValue>::empty()
    } else {
        exists|s1: Seq<Scene<L>>, r: FrameResult|
            #[trigger] tick_rel(g, s0, delay, s1, r) && (match r {
                FrameResult::Running => fuel > 0 && run_rel(g, delay, s1, out, (fuel - 1) as nat),
                FrameResult::Finished(d) => out == d,
                FrameResult::Underflow => out@ == Map::<Seq<char>, DictValue>::empty(),
            })
    }
}

/// Whether `n` ticks, every one reporting `Running`, lead from stack `s0` to
/// stack `s1`.
pub open spec fn runs_for<L: SceneLogic>(
    g: Dict,
    delay: u32,
    s0: Seq<Scene<L>>,
    s1: Seq<Scene<L>>,
    n: nat,
) -> bool
    decreases n,
{
    if n == 0 {
        s1 == s0
    } else {
        exists|sm: Seq<Scene<L>>|
            #[trigger] tick_rel(g, sm, delay, s1, FrameResult::Running) && runs_for(
                g,
                delay,
                s0,
                sm,
                (n - 1) as nat,
            ) && sm.len() > 0
    }
}

/// What a bounded headless run reports: a `Some` answer is reachable by some
/// finite tick chain, and a `None` answer means the whole frame budget ticked
/// with the game still running.
pub open spec fn run_post<L: SceneLogic>(
    g: Dict,
    delay: u32,
    s0: Seq<Scene<L>>,
    out: Option<Dict>,
    max: nat,
) -> bool {
    match out {
        Some(d) => exists|fuel: nat| #[trigger] run_rel(g, delay, s0, d, fuel),
        None => exists|s1: Seq<Scene<L>>| #[trigger] runs_for(g, delay, s0, s1, max),
    }
}

/// One more running tick extends a running chain.
proof fn lemma_runs_for_step<L: SceneLogic>(
    g: Dict,
    delay: u32,
    s0: Seq<Scene<L>>,
    sm: Seq<Scene<L>>,
    s1: Seq<Scene<L>>,
    m: nat,
)
    requires
        m > 0,
        runs_for(g, delay, s0, sm, (m - 1) as nat),
        sm.len() > 0,
        tick_rel(g, sm, delay, s1, FrameResult::Running),
    ensures
        runs_for(g, delay, s0, s1, m),
{

}

/// The engine owns the scene stack, the process-wide globals and the frame
/// delay; the embedding supplies construction inputs and drives the loop.
pub struct Engine<L: SceneLogic> {
    globals: Dict,
    delay: u32,
    stack: Stack<Scene<L>>,
}

impl<L: SceneLogic> Engine<L> {
    /// The engine's global dictionary.
    pub closed spec fn globals_view(self) -> Dict {
        self.globals
    }

    /// The live scenes, bottom first; the last is the active top.
    pub closed spec fn scenes(self) -> Seq<Scene<L>> {
        self.stack@
    }

    /// The configured inter-frame delay, in engine time units.
    pub closed spec fn frame_delay(self) -> u32 {
        self.delay
    }

    /// A fresh engine with no scenes.
    pub fn new(globals: Dict, delay: u32) -> (e: Self)
        ensures
            e.globals_view() == globals,
            e.frame_delay() == delay,
            e.scenes() == Seq::<Scene<L>>::empty(),
    {
        Engine { globals, delay, stack: Stack::new() }
    }

    /// Seeds or grows the stack from outside the run loop.
    pub fn push_scene(&mut self, scene: Scene<L>)
        ensures
            final(self).globals_view() == old(self).globals_view(),
            final(self).frame_delay() == old(self).frame_delay(),
            final(self).scenes() == old(self).scenes().push(scene),
    {
        self.stack.push(scene);
    }

    /// The active scene — the stack's top — for the embedding to render.
    pub fn peek_scene(&self) -> (r: Option<&Scene<L>>)
        ensures
            self.scenes().len() == 0 ==> r is None,
            self.scenes().len() > 0 ==> r is Some && *r.unwrap() == self.scenes().last(),
    {
        self.stack.peek()
    }

    /// The current stack depth.
    pub fn depth(&self) -> (n: usize)
        ensures
            n == self.scenes().len(),
    {
        self.stack.len()
    }

    /// Merges requested globals into props crossing a scene boundary: reads
    /// the reserved request list, copies each requested present global into a
    /// side mapping delivered under the reserved globals key, and removes the
    /// request list. Props that carry no request list cross unchanged. This
    /// is the only channel by which scene code reads engine globals.
    #[verifier::loop_isolation(false)]
    pub fn handle_props(&self, props: &mut Dict)
        ensures
            merged_props(self.globals_view(), *old(props), *final(props)),
    {
        let req_name: String = "_REQUESTS".to_owned();
        let glob_name: String = "globals".to_owned();
        let ghost pre = *props;
        let mut gathered = Dict::new();
        let mut had_requests = false;
        match props.get(&req_name) {
            Some(DictValue::Array(requests)) => {
                had_requests = true;
                let ghost reqs = requests@;
                let n = requests.len();
                proof {
                    assert(reqs.subrange(0, 0) =~= Seq::<DictValue>::empty());
                }
                let mut i: usize = 0;
                while i < n
                    invariant
                        n == requests@.len(),
                        reqs == requests@,
                        i <= n,
                        gathered@.dom() == requested_keys(self.globals@, reqs.subrange(0, i as int)),
                        forall|k: Seq<char>|
                            #[trigger] gathered@.contains_key(k) ==> self.globals@.contains_key(k)
                                && dv_eq(gathered@[k], self.globals@[k]),
                    decreases n - i,
                {
                    let ghost prefix = reqs.subrange(0, i as int);
                    let ghost prefix2 = reqs.subrange(0, i + 1);
                    proof {
                        assert(prefix2.drop_last() =~= prefix);
                        assert(prefix2.last() == reqs[i as int]);
                    }
                    match &requests[i] {
                        DictValue::Str(name) => {
                            match self.globals.get(name) {
                                Some(obj) => {
                                    gathered.insert(name.clone(), obj.clone());
                                    proof {
                                        assert(gathered@.dom() =~= requested_keys(
                                            self.globals@,
                                            prefix2,
                                        ));
                                    }
                                },
                                None => {
                                    proof {
                                        assert(gathered@.dom() =~= requested_keys(
                                            self.globals@,
                                            prefix2,
                                        ));
                                    }
                                },
                            }
                        },
                        _ => {
                            proof {
                                assert(gathered@.dom() =~= requested_keys(self.globals@, prefix2));
                            }
                        },
                    }
                    i = i + 1;
                }
                proof {
                    assert(reqs.subrange(0, n as int) =~= reqs);
                }
            },
            _ => {},
        }
        if had_requests {
            props.remove(&req_name);
            let ghost gd = gathered;
            props.insert(glob_name, DictValue::Dict(gathered));
            proof {
                assert(gathered_ok(self.globals, pre@[requests_key()]->Array_0@, gd));
            }
        }
    }

    /// Resolves one callback outcome, iterating through quit cascades; `None`
    /// means the run goes on, `Some` carries the quit handler's answer after
    /// the stack emptied.
    #[verifier::loop_isolation(false)]
    pub fn handle_scene_fn_outcome(&mut self, outcome: SceneFnOutcome<L>) -> (r: Option<Dict>)
        ensures
            final(self).globals_view() == old(self).globals_view(),
            final(self).frame_delay() == old(self).frame_delay(),
            resolve_rel(
                old(self).globals_view(),
                old(self).scenes(),
                outcome,
                final(self).scenes(),
                r,
            ),
    {
        let ghost g = self.globals;
        let ghost s_init = self.stack@;
        let ghost o_init = outcome;
        let mut cur = outcome;
        loop
            invariant
                self.globals == g,
                self.delay == old(self).delay,
                g == old(self).globals,
                s_init == old(self).stack@,
                forall|s1: Seq<Scene<L>>, rr: Option<Dict>|
                    #[trigger] resolve_rel(g, self.stack@, cur, s1, rr) ==> resolve_rel(
                        g,
                        s_init,
                        o_init,
                        s1,
                        rr,
                    ),
            decreases self.stack@.len(),
        {
            let ghost cur0 = cur;
            let ghost s_top = self.stack@;
            match cur {
                SceneFnOutcome::Continue => {
                    proof {
                        assert(resolve_rel(g, s_top, cur0, s_top, Option::<Dict>::None));
                    }
                    return None;
                },
                SceneFnOutcome::CreateChild { kind, props } => {
                    let mut p = props;
                    self.handle_props(&mut p);
                    let sc = L::construct(kind, p);
                    self.stack.push(sc);
                    proof {
                        assert(resolve_rel(g, s_top, cur0, self.stack@, Option::<Dict>::None));
                    }
                    return None;
                },
                SceneFnOutcome::Replace { kind, props } => {
                    let mut p = props;
                    self.handle_props(&mut p);
                    let sc = L::construct(kind, p);
                    let _ = self.stack.replace(sc);
                    proof {
                        assert(resolve_rel(g, s_top, cur0, self.stack@, Option::<Dict>::None));
                    }
                    return None;
                },
                SceneFnOutcome::Quit(props) => {
                    let _ = self.stack.pop();
                    let ghost popped = self.stack@;
                    let mut p = props;
                    self.handle_props(&mut p);
                    match self.stack.peek_mut() {
                        Some(parent) => {
                            let ghost parent0 = *parent;
                            let o2 = L::on_child_quit(parent, p);
                            proof {
                                let po = L::on_child_quit_spec(parent0, p);
                                assert(self.stack@ =~= popped.drop_last().push(po.0));
                                assert forall|s1: Seq<Scene<L>>, rr: Option<Dict>|
                                    #[trigger] resolve_rel(g, self.stack@, o2, s1, rr) implies
                                    resolve_rel(g, s_init, o_init, s1, rr) by {
                                    if resolve_rel(g, self.stack@, o2, s1, rr) {
                                        assert(resolve_rel(g, s_top, cur0, s1, rr));
                                    }
                                }
                            }
                            cur = o2;
                        },
                        None => {
                            let out = L::handle_quit(&self.globals, p);
                            proof {
                                assert(self.stack@.len() == 0);
                                assert(resolve_rel(g, s_top, cur0, self.stack@, Some(out)));
                            }
                            return Some(out);
                        },
                    }
                },
            }
        }
    }

    /// Dispatches one polled event to the top scene: if the scene registered
    /// no callback for the event's type the event is dropped silently and
    /// nothing changes; otherwise the callback's outcome is resolved.
    pub fn dispatch_event(&mut self, ev: &GameEvent) -> (r: FrameResult)
        ensures
            final(self).globals_view() == old(self).globals_view(),
            final(self).frame_delay() == old(self).frame_delay(),
            dispatch_rel(old(self).globals_view(), old(self).scenes(), *ev, final(self).scenes(), r),
    {
        let ghost g = self.globals;
        let ghost s0 = self.stack@;
        match self.stack.pop() {
            None => FrameResult::Underflow,
            Some(mut top) => {
                if L::handles(&top, ev.kind) {
                    let o = L::on_event(&mut top, ev);
                    let ghost ta = top;
                    self.stack.push(top);
                    proof {
                        assert(ta == L::on_event_spec(s0.last(), *ev).0);
                        assert(o == L::on_event_spec(s0.last(), *ev).1);
                        assert(self.stack@ == s0.drop_last().push(
                            L::on_event_spec(s0.last(), *ev).0,
                        ));
                    }
                    let res = match self.handle_scene_fn_outcome(o) {
                        None => FrameResult::Running,
                        Some(d) => FrameResult::Finished(d),
                    };
                    proof {
                        assert(dispatch_rel(g, s0, *ev, self.stack@, res));
                    }
                    res
                } else {
                    self.stack.push(top);
                    proof {
                        assert(self.stack@ =~= s0);
                    }
                    FrameResult::Running
                }
            },
        }
    }

    /// Ticks the top scene once per frame with the elapsed interval and
    /// resolves its outcome; an empty stack is reported as an underflow.
    pub fn tick(&mut self, interval: u32) -> (r: FrameResult)
        ensures
            final(self).globals_view() == old(self).globals_view(),
            final(self).frame_delay() == old(self).frame_delay(),
            tick_rel(old(self).globals_view(), old(self).scenes(), interval, final(self).scenes(), r),
    {
        let ghost g = self.globals;
        let ghost s0 = self.stack@;
        match self.stack.pop() {
            None => FrameResult::Underflow,
            Some(mut top) => {
                let o = L::on_tick(&mut top, interval);
                let ghost ta = top;
                self.stack.push(top);
                proof {
                    assert(ta == L::on_tick_spec(s0.last(), interval).0);
                    assert(o == L::on_tick_spec(s0.last(), interval).1);
                    assert(self.stack@ == s0.drop_last().push(
                        L::on_tick_spec(s0.last(), interval).0,
                    ));
                }
                let res = match self.handle_scene_fn_outcome(o) {
                    None => FrameResult::Running,
                    Some(d) => FrameResult::Finished(d),
                };
                proof {
                    assert(tick_rel(g, s0, interval, self.stack@, res));
                }
                res
            },
        }
    }

    /// Runs the engine headlessly — tick after tick, no events — for at most
    /// `max_frames` frames. `Some` carries the final dictionary once a quit
    /// cascade finishes (or an empty dictionary when the stack was found
    /// empty); `None` means every frame of the budget ticked and the game is
    /// still running. An embedding that renders and polls input drives
    /// `dispatch_event` and `tick` from its own loop instead.
    #[verifier::loop_isolation(false)]
    pub fn run(self, max_frames: usize) -> (out: Option<Dict>)
        ensures
            run_post(
                self.globals_view(),
                self.frame_delay(),
                self.scenes(),
                out,
                max_frames as nat,
            ),
    {
        let mut eng = self;
        let ghost g = eng.globals;
        let ghost d0 = eng.delay;
        let ghost s_init = eng.stack@;
        let mut i: usize = 0;
        while i < max_frames
            invariant
                eng.globals == g,
                eng.delay == d0,
                g == self.globals_view(),
                d0 == self.frame_delay(),
                s_init == self.scenes(),
                i <= max_frames,
                runs_for(g, d0, s_init, eng.stack@, i as nat),
                forall|o: Dict, f: nat|
                    #[trigger] run_rel(g, d0, eng.stack@, o, f) ==> run_rel(
                        g,
                        d0,
                        s_init,
                        o,
                        (f + i) as nat,
                    ),
            decreases max_frames - i,
        {
            let ghost s_prev = eng.stack@;
            if eng.stack.empty() {
                let out = Dict::new();
                let res = Some(out);
                proof {
                    assert(run_rel(g, d0, s_prev, res->0, 0nat));
                    assert(run_rel(g, d0, s_init, res->0, (0nat + i) as nat));
                    assert(run_post(g, d0, s_init, res, max_frames as nat));
                }
                return res;
            }
            let d = eng.delay;
            let r = eng.tick(d);
            match r {
                FrameResult::Running => {
                    proof {
                        assert forall|o: Dict, f: nat|
                            #[trigger] run_rel(g, d0, eng.stack@, o, f) implies run_rel(
                            g,
                            d0,
                            s_init,
                            o,
                            (f + (i + 1)) as nat,
                        ) by {
                            if run_rel(g, d0, eng.stack@, o, f) {
                                assert(((f + 1) as nat - 1) as nat == f);
                                assert(run_rel(g, d0, eng.stack@, o, ((f + 1) as nat - 1) as nat));
                                assert(run_rel(g, d0, s_prev, o, (f + 1) as nat));
                                assert(run_rel(g, d0, s_init, o, (((f + 1) as nat) + i) as nat));
                                assert((((f + 1) as nat) + i) as nat == (f + (i + 1)) as nat);
                                assert(run_rel(g, d0, s_init, o, (f + (i + 1)) as nat));
                            }
                        }
                        lemma_runs_for_step(g, d0, s_init, s_prev, eng.stack@, (i + 1) as nat);
                    }
                    i = i + 1;
                },
                FrameResult::Finished(dd) => {
                    let res = Some(dd);
                    proof {
                        assert(run_rel(g, d0, s_prev, res->0, 0nat));
                        assert(run_rel(g, d0, s_init, res->0, (0nat + i) as nat));
                        assert(run_post(g, d0, s_init, res, max_frames as nat));
                    }
                    return res;
                },
                FrameResult::Underflow => {
                    let out = Dict::new();
                    let res = Some(out);
                    proof {
                        assert(run_rel(g, d0, s_prev, res->0, 0nat));
                        assert(run_rel(g, d0, s_init, res->0, (0nat + i) as nat));
                        assert(run_post(g, d0, s_init, res, max_frames as nat));
                    }
                    return res;
                },
            }
        }
        proof {
            assert(runs_for(g, d0, s_init, eng.stack@, max_frames as nat));
            assert(run_post(g, d0, s_init, Option::<Dict>::None, max_frames as nat));
        }
        None
    }
}

/// A quit cascade unwinds the whole stack: when every scene's child-quit
/// callback answers `Quit` whatever it is handed, resolving one `Quit`
/// outcome pops scene after scene down to the empty stack and ends with the
/// quit handler's answer — produced exactly once, at the end of the cascade.
pub proof fn quit_cascade_unwinds<L: SceneLogic>(
    g: Dict,
    s0: Seq<Scene<L>>,
    props: Dict,
    s1: Seq<Scene<L>>,
    r: Option<Dict>,
)
    requires
        resolve_rel(g, s0, SceneFnOutcome::<L>::Quit(props), s1, r),
        forall|s: Scene<L>, p: Dict| (#[trigger] L::on_child_quit_spec(s, p)).1 is Quit,
    ensures
        s1.len() == 0,
        r is Some,
        exists|p: Dict| r == Some(#[trigger] L::handle_quit_spec(g, p)),
    decreases s0.len(),
{
    let popped = if s0.len() == 0 {
        s0
    } else {
        s0.drop_last()
    };
    if popped.len() == 0 {
        let p2 = choose|p2: Dict|
            #[trigger] merged_props(g, props, p2) && s1 == popped && r == Some(
                L::handle_quit_spec(g, p2),
            );
    } else {
        let p2 = choose|p2: Dict|
            #[trigger] merged_props(g, props, p2) && resolve_rel(
                g,
                popped.drop_last().push(L::on_child_quit_spec(popped.last(), p2).0),
                L::on_child_quit_spec(popped.last(), p2).1,
                s1,
                r,
            );
        let po = L::on_child_quit_spec(popped.last(), p2);
        assert(po.1 is Quit);
        match po.1 {
            SceneFnOutcome::Quit(q) => {
                quit_cascade_unwinds(g, popped.drop_last().push(po.0), q, s1, r);
            },
            _ => {
                assert(false);
            },
        }
    }
}

} // verus!
