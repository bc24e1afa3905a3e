//! What the host reports of a placed item, and how reports are combined into
//! the report of a whole label.
//!
//! Coordinates are integers in the host's layout units. Only their order is
//! used: no length is ever computed from them.

use vstd::prelude::*;

verus! {

/// A point of the screen.
#[derive(Copy, Debug, PartialEq, Eq, Hash, Structural)]
pub struct Pos2 {
    pub x: i32,
    pub y: i32,
}

impl Clone for Pos2 {
    fn clone(&self) -> (copy: Self)
        ensures
            copy == *self,
    {
        *self
    }
}

/// The smaller of two coordinates.
pub open spec fn least(a: i32, b: i32) -> i32 {
    if a <= b {
        a
    } else {
        b
    }
}

/// The larger of two coordinates.
pub open spec fn greatest(a: i32, b: i32) -> i32 {
    if a >= b {
        a
    } else {
        b
    }
}

/// A rectangle of the screen, from its upper left corner to its lower right one.
#[derive(Copy, Debug, PartialEq, Eq, Hash, Structural)]
pub struct Rect {
    pub min: Pos2,
    pub max: Pos2,
}

impl Clone for Rect {
    fn clone(&self) -> (copy: Self)
        ensures
            copy == *self,
    {
        *self
    }
}

impl Rect {
    /// The empty rectangle at the origin.
    pub open spec fn spec_zero() -> Rect {
        Rect { min: Pos2 { x: 0, y: 0 }, max: Pos2 { x: 0, y: 0 } }
    }

    /// The empty rectangle at the origin.
    #[verifier::when_used_as_spec(spec_zero)]
    pub fn zero() -> (rect: Rect)
        ensures
            rect == Self::spec_zero(),
    {
        Rect { min: Pos2 { x: 0, y: 0 }, max: Pos2 { x: 0, y: 0 } }
    }

    /// Whether `inner` lies within this rectangle.
    pub open spec fn covers(self, inner: Rect) -> bool {
        &&& self.min.x <= inner.min.x
        &&& self.min.y <= inner.min.y
        &&& inner.max.x <= self.max.x
        &&& inner.max.y <= self.max.y
    }

    /// The smallest rectangle that holds both.
    pub open spec fn spec_union(self, other: Rect) -> Rect {
        Rect {
            min: Pos2 { x: least(self.min.x, other.min.x), y: least(self.min.y, other.min.y) },
            max: Pos2 {
                x: greatest(self.max.x, other.max.x),
                y: greatest(self.max.y, other.max.y),
            },
        }
    }

    /// The smallest rectangle that holds both.
    #[verifier::when_used_as_spec(spec_union)]
    pub fn union(self, other: Rect) -> (both: Rect)
        ensures
            both == self.spec_union(other),
    {
        Rect {
            min: Pos2 {
                x: if self.min.x <= other.min.x {
                    self.min.x
                } else {
                    other.min.x
                },
                y: if self.min.y <= other.min.y {
                    self.min.y
                } else {
                    other.min.y
                },
            },
            max: Pos2 {
                x: if self.max.x >= other.max.x {
                    self.max.x
                } else {
                    other.max.x
                },
                y: if self.max.y >= other.max.y {
                    self.max.y
                } else {
                    other.max.y
                },
            },
        }
    }
}

/// What a widget listens for.
#[derive(Copy, Debug, PartialEq, Eq, Hash, Structural)]
pub struct Sense {
    pub click: bool,
    pub drag: bool,
    pub focusable: bool,
}

impl Clone for Sense {
    fn clone(&self) -> (copy: Self)
        ensures
            copy == *self,
    {
        *self
    }
}

impl Sense {
    /// Senses no clicks or drags. Only hovering.
    pub open spec fn spec_hover() -> Sense {
        Sense { click: false, drag: false, focusable: false }
    }

    /// Senses no clicks or drags. Only hovering.
    #[verifier::when_used_as_spec(spec_hover)]
    pub fn hover() -> (sense: Sense)
        ensures
            sense == Self::spec_hover(),
    {
        Sense { click: false, drag: false, focusable: false }
    }

    /// Senses clicks, and takes the keyboard focus.
    pub open spec fn spec_click() -> Sense {
        Sense { click: true, drag: false, focusable: true }
    }

    /// Senses clicks, and takes the keyboard focus.
    #[verifier::when_used_as_spec(spec_click)]
    pub fn click() -> (sense: Sense)
        ensures
            sense == Self::spec_click(),
    {
        Sense { click: true, drag: false, focusable: true }
    }

    /// Senses drags, and takes the keyboard focus.
    pub open spec fn spec_drag() -> Sense {
        Sense { click: false, drag: true, focusable: true }
    }

    /// Senses drags, and takes the keyboard focus.
    #[verifier::when_used_as_spec(spec_drag)]
    pub fn drag() -> (sense: Sense)
        ensures
            sense == Self::spec_drag(),
    {
        Sense { click: false, drag: true, focusable: true }
    }

    /// Senses clicks and drags, and takes the keyboard focus.
    pub open spec fn spec_click_and_drag() -> Sense {
        Sense { click: true, drag: true, focusable: true }
    }

    /// Senses clicks and drags, and takes the keyboard focus.
    #[verifier::when_used_as_spec(spec_click_and_drag)]
    pub fn click_and_drag() -> (sense: Sense)
        ensures
            sense == Self::spec_click_and_drag(),
    {
        Sense { click: true, drag: true, focusable: true }
    }

    /// What either listens for.
    pub open spec fn spec_union(self, other: Sense) -> Sense {
        Sense {
            click: self.click || other.click,
            drag: self.drag || other.drag,
            focusable: self.focusable || other.focusable,
        }
    }

    /// What either listens for.
    #[verifier::when_used_as_spec(spec_union)]
    pub fn union(self, other: Sense) -> (both: Sense)
        ensures
            both == self.spec_union(other),
    {
        Sense {
            click: self.click || other.click,
            drag: self.drag || other.drag,
            focusable: self.focusable || other.focusable,
        }
    }
}

/// What happened to a widget in this redraw, one flag for each thing.
#[derive(Copy, Debug, PartialEq, Eq, Hash, Structural)]
pub struct Flags {
    pub enabled: bool,
    pub contains_pointer: bool,
    pub hovered: bool,
    pub highlighted: bool,
    pub clicked: bool,
    pub fake_primary_clicked: bool,
    pub long_touched: bool,
    pub drag_started: bool,
    pub dragged: bool,
    pub drag_stopped: bool,
    pub is_pointer_button_down_on: bool,
    pub changed: bool,
    pub close: bool,
}

impl Clone for Flags {
    fn clone(&self) -> (copy: Self)
        ensures
            copy == *self,
    {
        *self
    }
}

impl Flags {
    /// Nothing happened.
    pub open spec fn spec_empty() -> Flags {
        Flags {
            enabled: false,
            contains_pointer: false,
            hovered: false,
            highlighted: false,
            clicked: false,
            fake_primary_clicked: false,
            long_touched: false,
            drag_started: false,
            dragged: false,
            drag_stopped: false,
            is_pointer_button_down_on: false,
            changed: false,
            close: false,
        }
    }

    /// Nothing happened.
    #[verifier::when_used_as_spec(spec_empty)]
    pub fn empty() -> (flags: Flags)
        ensures
            flags == Self::spec_empty(),
    {
        Flags {
            enabled: false,
            contains_pointer: false,
            hovered: false,
            highlighted: false,
            clicked: false,
            fake_primary_clicked: false,
            long_touched: false,
            drag_started: false,
            dragged: false,
            drag_stopped: false,
            is_pointer_button_down_on: false,
            changed: false,
            close: false,
        }
    }

    /// What happened to either.
    pub open spec fn spec_union(self, other: Flags) -> Flags {
        Flags {
            enabled: self.enabled || other.enabled,
            contains_pointer: self.contains_pointer || other.contains_pointer,
            hovered: self.hovered || other.hovered,
            highlighted: self.highlighted || other.highlighted,
            clicked: self.clicked || other.clicked,
            fake_primary_clicked: self.fake_primary_clicked || other.fake_primary_clicked,
            long_touched: self.long_touched || other.long_touched,
            drag_started: self.drag_started || other.drag_started,
            dragged: self.dragged || other.dragged,
            drag_stopped: self.drag_stopped || other.drag_stopped,
            is_pointer_button_down_on: self.is_pointer_button_down_on
                || other.is_pointer_button_down_on,
            changed: self.changed || other.changed,
            close: self.close || other.close,
        }
    }

    /// What happened to either.
    #[verifier::when_used_as_spec(spec_union)]
    pub fn union(self, other: Flags) -> (both: Flags)
        ensures
            both == self.spec_union(other),
    {
        Flags {
            enabled: self.enabled || other.enabled,
            contains_pointer: self.contains_pointer || other.contains_pointer,
            hovered: self.hovered || other.hovered,
            highlighted: self.highlighted || other.highlighted,
            clicked: self.clicked || other.clicked,
            fake_primary_clicked: self.fake_primary_clicked || other.fake_primary_clicked,
            long_touched: self.long_touched || other.long_touched,
            drag_started: self.drag_started || other.drag_started,
            dragged: self.dragged || other.dragged,
            drag_stopped: self.drag_stopped || other.drag_stopped,
            is_pointer_button_down_on: self.is_pointer_button_down_on
                || other.is_pointer_button_down_on,
            changed: self.changed || other.changed,
            close: self.close || other.close,
        }
    }
}

/// The host's report of one widget, or the combined report of several.
#[derive(Copy, Debug, PartialEq, Eq, Hash, Structural)]
pub struct Response {
    /// The area of the screen that was taken.
    pub rect: Rect,
    /// The area that senses the pointer.
    pub interact_rect: Rect,
    pub sense: Sense,
    pub flags: Flags,
    /// Where the pointer was when the widget was clicked or dragged.
    pub interact_pointer_pos: Option<Pos2>,
}

impl Clone for Response {
    fn clone(&self) -> (copy: Self)
        ensures
            copy == *self,
    {
        *self
    }
}

/// The report of nothing: no area, no event, listening for clicks.
pub open spec fn spec_empty_response() -> Response {
    Response {
        rect: Rect::zero(),
        interact_rect: Rect::zero(),
        sense: Sense::click(),
        flags: Flags::empty(),
        interact_pointer_pos: None,
    }
}

/// The report of nothing: no area, no event, listening for clicks.
#[verifier::when_used_as_spec(spec_empty_response)]
pub fn empty_response() -> (response: Response)
    ensures
        response == spec_empty_response(),
{
    Response {
        rect: Rect::zero(),
        interact_rect: Rect::zero(),
        sense: Sense::click(),
        flags: Flags::empty(),
        interact_pointer_pos: None,
    }
}

impl Response {
    /// The report of two widgets as one: the area that holds both, what either
    /// listens for, what happened to either, and the pointer position of the
    /// first that has one.
    pub open spec fn spec_union(self, other: Response) -> Response {
        Response {
            rect: self.rect.union(other.rect),
            interact_rect: self.interact_rect.union(other.interact_rect),
            sense: self.sense.union(other.sense),
            flags: self.flags.union(other.flags),
            interact_pointer_pos: if self.interact_pointer_pos is Some {
                self.interact_pointer_pos
            } else {
                other.interact_pointer_pos
            },
        }
    }

    /// The report of two widgets as one.
    #[verifier::when_used_as_spec(spec_union)]
    pub fn union(self, other: Response) -> (both: Response)
        ensures
            both == self.spec_union(other),
    {
        Response {
            rect: self.rect.union(other.rect),
            interact_rect: self.interact_rect.union(other.interact_rect),
            sense: self.sense.union(other.sense),
            flags: self.flags.union(other.flags),
            interact_pointer_pos: match self.interact_pointer_pos {
                Some(pos) => Some(pos),
                None => other.interact_pointer_pos,
            },
        }
    }
}

/// Joining rectangles does not depend on how they are grouped.
pub proof fn lemma_rect_union_associative(a: Rect, b: Rect, c: Rect)
    ensures
        a.union(b).union(c) == a.union(b.union(c)),
{
    assert(least(least(a.min.x, b.min.x), c.min.x) == least(a.min.x, least(b.min.x, c.min.x)));
    assert(least(least(a.min.y, b.min.y), c.min.y) == least(a.min.y, least(b.min.y, c.min.y)));
    assert(greatest(greatest(a.max.x, b.max.x), c.max.x) == greatest(
        a.max.x,
        greatest(b.max.x, c.max.x),
    ));
    assert(greatest(greatest(a.max.y, b.max.y), c.max.y) == greatest(
        a.max.y,
        greatest(b.max.y, c.max.y),
    ));
}

/// Joining flags does not depend on how they are grouped.
pub proof fn lemma_flags_union_associative(a: Flags, b: Flags, c: Flags)
    ensures
        a.union(b).union(c) == a.union(b.union(c)),
{
}

/// Combining reports does not depend on how they are grouped.
pub proof fn lemma_union_associative(a: Response, b: Response, c: Response)
    ensures
        a.union(b).union(c) == a.union(b.union(c)),
{
    lemma_rect_union_associative(a.rect, b.rect, c.rect);
    lemma_rect_union_associative(a.interact_rect, b.interact_rect, c.interact_rect);
    lemma_flags_union_associative(a.flags, b.flags, c.flags);
    assert(a.sense.union(b.sense).union(c.sense) == a.sense.union(b.sense.union(c.sense)));
}

/// The combined area holds the area of each part.
pub proof fn lemma_union_covers(a: Response, b: Response)
    ensures
        a.union(b).rect.covers(a.rect),
        a.union(b).rect.covers(b.rect),
        a.union(b).interact_rect.covers(a.interact_rect),
        a.union(b).interact_rect.covers(b.interact_rect),
{
}

} // verus!
