//! What is drawn where.

use crate::geometry::Rect;
use crate::scene::Scene;
use vstd::prelude::*;

verus! {

/// One texture to draw: the part of it that is used and where that goes.
#[derive(Debug, Clone, Copy, PartialEq, Eq, Structural)]
pub struct DrawCommand {
    pub src: Rect,
    pub dest: Rect,
}

/// The draw commands of a frame, from back to front, given the size of each
/// visual's texture: every texture is drawn whole, unscaled, at the place of
/// its visual.
pub fn render_scene<T>(scene: &Scene<T>, sizes: &Vec<(i32, i32)>) -> (commands: Vec<DrawCommand>)
    requires
        sizes@.len() == scene.visuals@.len(),
    ensures
        commands@.len() == scene.visuals@.len(),
        forall|i: int|
            0 <= i < commands@.len() ==> #[trigger] commands@[i] == (DrawCommand {
                src: Rect { x: 0, y: 0, w: sizes@[i].0, h: sizes@[i].1 },
                dest: Rect {
                    x: scene.visuals@[i].geometry.x,
                    y: scene.visuals@[i].geometry.y,
                    w: sizes@[i].0,
                    h: sizes@[i].1,
                },
            }),
{
    let mut commands: Vec<DrawCommand> = Vec::new();
    let mut i: usize = 0;
    while i < scene.visuals.len()
        invariant
            i <= scene.visuals@.len(),
            sizes@.len() == scene.visuals@.len(),
            commands@.len() == i,
            forall|j: int|
                0 <= j < i ==> #[trigger] commands@[j] == (DrawCommand {
                    src: Rect { x: 0, y: 0, w: sizes@[j].0, h: sizes@[j].1 },
                    dest: Rect {
                        x: scene.visuals@[j].geometry.x,
                        y: scene.visuals@[j].geometry.y,
                        w: sizes@[j].0,
                        h: sizes@[j].1,
                    },
                }),
        decreases scene.visuals@.len() - i,
    {
        let (w, h) = sizes[i];
        let at = &scene.visuals[i].geometry;
        commands.push(
            DrawCommand {
                src: Rect { x: 0, y: 0, w, h },
                dest: Rect { x: at.x, y: at.y, w, h },
            },
        );
        i += 1;
    }
    commands
}

} // verus!
