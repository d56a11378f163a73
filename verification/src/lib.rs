//! Core of a 2D scene-stack game engine.
//!
//! A game is a stack of scenes; the engine renders and dispatches input to the
//! scene on top, and scene callbacks answer with an outcome: keep going, push a
//! child scene, replace the top scene, or quit. Props — dynamic dictionaries —
//! travel across scene transitions, and engine-owned globals are merged into
//! them on request. Rendering and event polling are left to an embedding
//! application; everything here is pure state-machine logic.

pub mod dict;
pub mod engine;
pub mod geom;
pub mod scene;
pub mod script;
pub mod sprite;
pub mod stack;

pub use dict::{Dict, DictValue};
pub use engine::{Engine, FrameResult};
pub use scene::{GameEvent, Scene, SceneFnOutcome, SceneLogic};
pub use stack::Stack;
