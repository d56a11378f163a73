//! Sprites, the sprite-sheet index, and render planning.
//!
//! A sprite is either a textured rectangle naming an entry on the sprite
//! sheet, or a flat-colored rectangle. The sheet owns one texture handle
//! (opaque to this core) plus an immutable name-to-source-rectangle index.
//! Rendering is split: [`render_plan`] computes, in sprite-list order, the
//! exact draw operations a render target must perform — or the name of the
//! first sprite missing from the sheet — and the embedding executes them.

use vstd::prelude::*;
use crate::dict::kv_view;
use crate::geom::Rect;

verus! {

/// An RGBA color.
#[derive(Clone, Copy, PartialEq, Eq, Debug)]
pub struct Color {
    pub r: u8,
    pub g: u8,
    pub b: u8,
    pub a: u8,
}

/// One renderable element of a scene, placed at `rect` on the screen.
#[derive(Clone, PartialEq, Debug)]
pub enum Sprite {
    Texture { rect: Rect, sprite: String },
    Rect { rect: Rect, color: Color },
}

/// One texture atlas plus an index of the source rectangle of every sprite
/// name on it; immutable after construction.
pub struct SpriteSheet<T> {
    pub texture: T,
    index: Vec<(String, Rect)>,
}

impl<T> SpriteSheet<T> {
    /// The abstract index: sprite name characters to source rectangle.
    pub closed spec fn index_view(&self) -> Map<Seq<char>, Rect> {
        kv_view(self.index@)
    }

    /// The atlas texture handle the sheet was built with.
    pub closed spec fn texture_view(&self) -> T {
        self.texture
    }

    pub fn new(texture: T, index: Vec<(String, Rect)>) -> (s: Self)
        ensures
            s.index_view() == kv_view(index@),
            s.texture_view() == texture,
    {
        SpriteSheet { texture, index }
    }

    /// The source rectangle for a sprite name; `None` means the sheet has no
    /// such sprite and the caller must treat rendering it as an error.
    pub fn get(&self, key: String) -> (r: Option<&Rect>)
        ensures
            match r {
                Some(v) => self.index_view().contains_key(key@) && *v == self.index_view()[key@],
                None => !self.index_view().contains_key(key@),
            },
    {
        let ghost full = self.index@;
        let n = self.index.len();
        proof {
            assert(full.subrange(0, n as int) =~= full);
        }
        let mut i: usize = 0;
        while i < n
            invariant
                n == self.index@.len(),
                full == self.index@,
                i <= n,
                kv_view(full).contains_key(key@) == kv_view(full.subrange(i as int, n as int))
                    .contains_key(key@),
                kv_view(full).contains_key(key@) ==> kv_view(full)[key@] == kv_view(
                    full.subrange(i as int, n as int),
                )[key@],
            decreases n - i,
        {
            let ghost suffix = full.subrange(i as int, n as int);
            proof {
                assert(suffix.drop_first() =~= full.subrange(i + 1, n as int));
                assert(suffix[0] == full[i as int]);
            }
            if self.index[i].0.eq(&key) {
                proof {
                    assert(kv_view(suffix)[key@] == full[i as int].1);
                }
                return Some(&self.index[i].1);
            }
            i = i + 1;
        }
        proof {
            assert(full.subrange(n as int, n as int) =~= Seq::<(String, Rect)>::empty());
        }
        None
    }
}

/// One draw operation for the render target: copy a source rectangle of the
/// atlas texture to a destination rectangle, or fill a rectangle with a color.
#[derive(Clone, PartialEq, Debug)]
pub enum RenderOp {
    Copy { src: Rect, dst: Rect },
    Fill { rect: Rect, color: Color },
}

/// Why a render plan could not be produced.
#[derive(Clone, PartialEq, Debug)]
pub enum RenderError {
    /// The named sprite is absent from the sprite sheet's index.
    MissingSprite(String),
}

/// The draw operations for `sprites` under index `idx`, in list order, or the
/// characters of the first sprite name the index lacks.
pub open spec fn render_plan_spec(sprites: Seq<Sprite>, idx: Map<Seq<char>, Rect>) -> Result<
    Seq<RenderOp>,
    Seq<char>,
>
    decreases sprites.len(),
{
    if sprites.len() == 0 {
        Ok(Seq::empty())
    } else {
        let first = match sprites[0] {
            Sprite::Texture { rect, sprite } => if idx.contains_key(sprite@) {
                Ok(RenderOp::Copy { src: idx[sprite@], dst: rect })
            } else {
                Err(sprite@)
            },
            Sprite::Rect { rect, color } => Ok(RenderOp::Fill { rect, color }),
        };
        match first {
            Ok(op) => match render_plan_spec(sprites.drop_first(), idx) {
                Ok(rest) => Ok(seq![op] + rest),
                Err(e) => Err(e),
            },
            Err(e) => Err(e),
        }
    }
}

/// Computes the draw operations for `sprites`, in list order; fails with the
/// first sprite name absent from the sheet's index. Nothing is drawn here:
/// the embedding executes the returned operations against its render target.
pub fn render_plan<T>(sprites: &Vec<Sprite>, sheet: &SpriteSheet<T>) -> (r: Result<
    Vec<RenderOp>,
    RenderError,
>)
    ensures
        match r {
            Ok(ops) => render_plan_spec(sprites@, sheet.index_view()) == Ok::<_, Seq<char>>(ops@),
            Err(RenderError::MissingSprite(name)) => render_plan_spec(sprites@, sheet.index_view())
                == Err::<Seq<RenderOp>, _>(name@),
        },
{
    let ghost idx = sheet.index_view();
    let ghost full = sprites@;
    let n = sprites.len();
    let mut ops: Vec<RenderOp> = Vec::new();
    proof {
        assert(full.subrange(0, n as int) =~= full);
    }
    let mut i: usize = 0;
    while i < n
        invariant
            n == sprites@.len(),
            full == sprites@,
            idx == sheet.index_view(),
            i <= n,
            match render_plan_spec(full.subrange(i as int, n as int), idx) {
                Ok(rest) => render_plan_spec(full, idx) == Ok::<_, Seq<char>>(ops@ + rest),
                Err(e) => render_plan_spec(full, idx) == Err::<Seq<RenderOp>, _>(e),
            },
        decreases n - i,
    {
        let ghost suffix = full.subrange(i as int, n as int);
        let ghost ops0 = ops@;
        proof {
            assert(suffix.drop_first() =~= full.subrange(i + 1, n as int));
            assert(suffix[0] == full[i as int]);
        }
        match &sprites[i] {
            Sprite::Texture { rect, sprite } => {
                match sheet.get(sprite.clone()) {
                    Some(src) => {
                        ops.push(RenderOp::Copy { src: *src, dst: *rect });
                    },
                    None => {
                        return Err(RenderError::MissingSprite(sprite.clone()));
                    },
                }
            },
            Sprite::Rect { rect, color } => {
                ops.push(RenderOp::Fill { rect: *rect, color: *color });
            },
        }
        proof {
            let rest2 = full.subrange(i + 1, n as int);
            assert(ops@.drop_last() =~= ops0);
            assert(render_plan_spec(suffix, idx) == (match render_plan_spec(rest2, idx) {
                Ok(r2) => Ok::<_, Seq<char>>(seq![ops@.last()] + r2),
                Err(e) => Err::<Seq<RenderOp>, _>(e),
            }));
            match render_plan_spec(rest2, idx) {
                Ok(r2) => {
                    assert(ops@ + r2 =~= ops@.drop_last() + (seq![ops@.last()] + r2));
                },
                Err(_) => {},
            }
        }
        i = i + 1;
    }
    proof {
        assert(full.subrange(n as int, n as int) =~= Seq::<Sprite>::empty());
        assert(ops@ + Seq::<RenderOp>::empty() =~= ops@);
    }
    Ok(ops)
}

} // verus!
