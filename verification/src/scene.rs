//! Scenes and the capability interface through which the engine drives them.
//!
//! A scene is one self-contained mode of interaction (a map, a dialog, a
//! battle). The engine never inspects a scene's content: it talks to it only
//! through the [`SceneLogic`] capability trait, whose callbacks answer with a
//! [`SceneFnOutcome`] — the single channel by which a scene may request a
//! stack mutation. Each executable callback is pinned to a spec-level
//! counterpart, so the engine's own contracts can say exactly what a dispatch
//! or a tick did in terms of the logic's declared behaviour.

use vstd::prelude::*;
use crate::dict::Dict;

verus! {

/// One input event, already decoded to plain values by the embedding: an
/// event-type tag plus an arbitrary payload dictionary.
pub struct GameEvent {
    pub kind: u32,
    pub data: Dict,
}

/// A callback's declarative request to the engine: keep going, push a child
/// scene built from `kind`, replace the top scene, or quit handing `props` to
/// the parent.
pub enum SceneFnOutcome<L> {
    Continue,
    CreateChild { kind: L, props: Dict },
    Replace { kind: L, props: Dict },
    Quit(Dict),
}

/// One live scene: its private state dictionary plus its content and
/// behaviour, owned by its stack slot.
pub struct Scene<L> {
    pub state: Dict,
    pub content: L,
}

/// The capability interface a game implements to define scene behaviour.
///
/// `Self` doubles as the scene-construction tag: a `CreateChild` or `Replace`
/// outcome carries a `Self` value, and the engine turns it into a scene with
/// `construct` after merging requested globals into the props. Every
/// executable method is pinned to a spec function the implementor defines, so
/// engine contracts stay exact while staying polymorphic over the game.
pub trait SceneLogic: Sized {
    /// Whether `s` has a callback registered for events of type `kind`.
    spec fn handles_spec(s: Scene<Self>, kind: u32) -> bool;

    fn handles(s: &Scene<Self>, kind: u32) -> (b: bool)
        ensures
            b == Self::handles_spec(*s, kind),
    ;

    /// The scene a constructor tag builds from already-merged props.
    spec fn construct_spec(kind: Self, props: Dict) -> Scene<Self>;

    fn construct(kind: Self, props: Dict) -> (s: Scene<Self>)
        ensures
            s == Self::construct_spec(kind, props),
    ;

    /// The scene after reacting to `ev`, and the outcome it requests.
    spec fn on_event_spec(s: Scene<Self>, ev: GameEvent) -> (Scene<Self>, SceneFnOutcome<Self>);

    fn on_event(s: &mut Scene<Self>, ev: &GameEvent) -> (o: SceneFnOutcome<Self>)
        ensures
            (*final(s), o) == Self::on_event_spec(*old(s), *ev),
    ;

    /// The scene after one tick of `interval` time units, and its outcome.
    spec fn on_tick_spec(s: Scene<Self>, interval: u32) -> (Scene<Self>, SceneFnOutcome<Self>);

    fn on_tick(s: &mut Scene<Self>, interval: u32) -> (o: SceneFnOutcome<Self>)
        ensures
            (*final(s), o) == Self::on_tick_spec(*old(s), interval),
    ;

    /// The scene after a child quit handed it `props`, and its outcome.
    spec fn on_child_quit_spec(s: Scene<Self>, props: Dict) -> (Scene<Self>, SceneFnOutcome<Self>);

    fn on_child_quit(s: &mut Scene<Self>, props: Dict) -> (o: SceneFnOutcome<Self>)
        ensures
            (*final(s), o) == Self::on_child_quit_spec(*old(s), props),
    ;

    /// The engine's final answer when the last scene quits with `props`.
    spec fn handle_quit_spec(globals: Dict, props: Dict) -> Dict;

    fn handle_quit(globals: &Dict, props: Dict) -> (r: Dict)
        ensures
            r == Self::handle_quit_spec(*globals, props),
    ;
}

} // verus!
