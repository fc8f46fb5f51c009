//! The discrete state of a viewing session: the viewport size and the solid
//! on show.

use vstd::prelude::*;
use crate::primitive::Primitive;

verus! {

/// A viewport side as it is stored: never less than one pixel.
pub open spec fn at_least_one(n: i32) -> i32 {
    if n < 1 {
        1
    } else {
        n
    }
}

/// Viewport size and current solid of a session.
#[derive(Clone, Copy, Debug, PartialEq, Eq, Structural)]
pub struct Session {
    pub width: i32,
    pub height: i32,
    pub primitive: Primitive,
}

impl Session {
    /// A session over a surface of the given size, showing the triangle. The
    /// size is taken as it is.
    pub fn new(width: i32, height: i32) -> (s: Session)
        ensures
            s == (Session { width, height, primitive: Primitive::Triangle }),
    {
        Session { width, height, primitive: Primitive::Triangle }
    }

    /// Takes a new viewport size; a side below one pixel is stored as one.
    pub fn resize(&mut self, width: i32, height: i32)
        ensures
            final(self).width == at_least_one(width),
            final(self).height == at_least_one(height),
            final(self).primitive == old(self).primitive,
    {
        self.width = if width < 1 {
            1
        } else {
            width
        };
        self.height = if height < 1 {
            1
        } else {
            height
        };
    }

    /// Switches to the solid that `name` selects and returns it, so that the
    /// caller can rebuild the mesh and frame it. An unknown name changes
    /// nothing and returns `None`.
    pub fn set_primitive(&mut self, name: &str) -> (selected: Option<Primitive>)
        ensures
            selected == Primitive::named(name@),
            final(self).primitive == match selected {
                Some(p) => p,
                None => old(self).primitive,
            },
            final(self).width == old(self).width,
            final(self).height == old(self).height,
    {
        let selected = Primitive::from_str(name);
        match selected {
            Some(p) => {
                self.primitive = p;
            },
            None => {},
        }
        selected
    }
}

} // verus!
