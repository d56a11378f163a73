//! A data-driven scene behaviour: each callback's reaction is a stored plan.
//!
//! `Script` is the library's own [`SceneLogic`] implementation. A scripted
//! scene carries one plan per callback kind; firing a plan that owns a payload
//! consumes it (the slot is left at `Plan::Stay`). It is enough to stage whole
//! scene graphs — children, replacements, quit cascades — out of plain data,
//! which makes engine behaviour reproducible in tests without writing a game.

use vstd::prelude::*;
use crate::dict::Dict;
use crate::scene::{Scene, SceneFnOutcome, SceneLogic, GameEvent};
use crate::sprite::Sprite;

verus! {

/// What a scripted callback answers next time it fires.
///
/// `Stay` answers `Continue`. `Child` and `Swap` request a child scene or a
/// replacement built from the stored script. `Quit` quits with the stored
/// props. `QuitEcho` quits echoing the props a child handed back; on a tick or
/// an event callback, which receives no props, it answers `Continue`.
pub enum Plan {
    Stay,
    Child { script: Box<Script>, props: Dict },
    Swap { script: Box<Script>, props: Dict },
    Quit { props: Dict },
    QuitEcho,
}

/// Content and behaviour of one scripted scene.
pub struct Script {
    pub background: String,
    pub sprites: Vec<Sprite>,
    pub handled: Vec<u32>,
    pub event_plan: Plan,
    pub tick_plan: Plan,
    pub child_quit_plan: Plan,
}

/// The outcome a plan yields. `incoming` is the props handed to the callback,
/// echoed by `QuitEcho`; `None` for callbacks that receive none.
pub open spec fn plan_outcome(p: Plan, incoming: Option<Dict>) -> SceneFnOutcome<Script> {
    match p {
        Plan::Stay => SceneFnOutcome::Continue,
        Plan::Child { script, props } => SceneFnOutcome::CreateChild { kind: *script, props },
        Plan::Swap { script, props } => SceneFnOutcome::Replace { kind: *script, props },
        Plan::Quit { props } => SceneFnOutcome::Quit(props),
        Plan::QuitEcho => match incoming {
            Some(d) => SceneFnOutcome::Quit(d),
            None => SceneFnOutcome::Continue,
        },
    }
}

/// Whether firing plan `p` consumes it, leaving `Plan::Stay` in its slot.
pub open spec fn plan_consumed(p: Plan) -> bool {
    !(p is Stay || p is QuitEcho)
}

/// The plan left in a slot after it fires.
pub open spec fn plan_after(p: Plan) -> Plan {
    if plan_consumed(p) {
        Plan::Stay
    } else {
        p
    }
}

impl Script {
    /// Takes the plan out of `slot`, leaving what remains after it fires.
    fn take_plan(slot: &mut Plan) -> (p: Plan)
        ensures
            p == *old(slot),
            *final(slot) == plan_after(*old(slot)),
    {
        let mut p = Plan::Stay;
        core::mem::swap(&mut p, slot);
        match p {
            Plan::Stay => {
                p = Plan::Stay;
            },
            Plan::QuitEcho => {
                *slot = Plan::QuitEcho;
                p = Plan::QuitEcho;
            },
            other => {
                return other;
            },
        }
        p
    }
}

impl SceneLogic for Script {
    open spec fn handles_spec(s: Scene<Script>, kind: u32) -> bool {
        s.content.handled@.contains(kind)
    }

    fn handles(s: &Scene<Script>, kind: u32) -> (b: bool) {
        let n = s.content.handled.len();
        let mut i: usize = 0;
        while i < n
            invariant
                n == s.content.handled@.len(),
                i <= n,
                forall|j: int| 0 <= j < i ==> s.content.handled@[j] != kind,
            decreases n - i,
        {
            if s.content.handled[i] == kind {
                return true;
            }
            i = i + 1;
        }
        false
    }

    /// A constructed scene stores the (merged) props as its private state.
    open spec fn construct_spec(kind: Script, props: Dict) -> Scene<Script> {
        Scene { state: props, content: kind }
    }

    fn construct(kind: Script, props: Dict) -> (s: Scene<Script>) {
        Scene { state: props, content: kind }
    }

    open spec fn on_event_spec(s: Scene<Script>, ev: GameEvent) -> (
        Scene<Script>,
        SceneFnOutcome<Script>,
    ) {
        let s2 = Scene {
            content: Script { event_plan: plan_after(s.content.event_plan), ..s.content },
            ..s
        };
        (s2, plan_outcome(s.content.event_plan, None))
    }

    fn on_event(s: &mut Scene<Script>, ev: &GameEvent) -> (o: SceneFnOutcome<Script>) {
        let p = Script::take_plan(&mut s.content.event_plan);
        match p {
            Plan::Stay => SceneFnOutcome::Continue,
            Plan::Child { script, props } => SceneFnOutcome::CreateChild { kind: *script, props },
            Plan::Swap { script, props } => SceneFnOutcome::Replace { kind: *script, props },
            Plan::Quit { props } => SceneFnOutcome::Quit(props),
            Plan::QuitEcho => SceneFnOutcome::Continue,
        }
    }

    open spec fn on_tick_spec(s: Scene<Script>, interval: u32) -> (
        Scene<Script>,
        SceneFnOutcome<Script>,
    ) {
        let s2 = Scene {
            content: Script { tick_plan: plan_after(s.content.tick_plan), ..s.content },
            ..s
        };
        (s2, plan_outcome(s.content.tick_plan, None))
    }

    fn on_tick(s: &mut Scene<Script>, interval: u32) -> (o: SceneFnOutcome<Script>) {
        let p = Script::take_plan(&mut s.content.tick_plan);
        match p {
            Plan::Stay => SceneFnOutcome::Continue,
            Plan::Child { script, props } => SceneFnOutcome::CreateChild { kind: *script, props },
            Plan::Swap { script, props } => SceneFnOutcome::Replace { kind: *script, props },
            Plan::Quit { props } => SceneFnOutcome::Quit(props),
            Plan::QuitEcho => SceneFnOutcome::Continue,
        }
    }

    open spec fn on_child_quit_spec(s: Scene<Script>, props: Dict) -> (
        Scene<Script>,
        SceneFnOutcome<Script>,
    ) {
        let s2 = Scene {
            content: Script { child_quit_plan: plan_after(s.content.child_quit_plan), ..s.content },
            ..s
        };
        (s2, plan_outcome(s.content.child_quit_plan, Some(props)))
    }

    fn on_child_quit(s: &mut Scene<Script>, props: Dict) -> (o: SceneFnOutcome<Script>) {
        let p = Script::take_plan(&mut s.content.child_quit_plan);
        match p {
            Plan::Stay => SceneFnOutcome::Continue,
            Plan::Child { script, props } => SceneFnOutcome::CreateChild { kind: *script, props },
            Plan::Swap { script, props } => SceneFnOutcome::Replace { kind: *script, props },
            Plan::Quit { props } => SceneFnOutcome::Quit(props),
            Plan::QuitEcho => SceneFnOutcome::Quit(props),
        }
    }

    /// The scripted quit handler returns the final props verbatim.
    open spec fn handle_quit_spec(globals: Dict, props: Dict) -> Dict {
        props
    }

    fn handle_quit(globals: &Dict, props: Dict) -> (r: Dict) {
        props
    }
}

} // verus!
