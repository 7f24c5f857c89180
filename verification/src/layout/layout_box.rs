//! Layout boxes and their kinds.

use vstd::prelude::*;
use crate::re_css::value::display::{Display, DisplayInside, DisplayOutside};

verus! {

/// The kind of a layout box.
#[derive(Debug)]
pub enum BoxType {
    BlockBox,
    InlineBox,
    TextSequence,
}

/// A layout box, by its kind.
#[derive(Debug)]
pub struct LayoutBox {
    pub box_type: BoxType,
}

/// The kind of box a node generates: a text node a text sequence; an element
/// by its `display` value, for the values layout supports.
pub open spec fn box_type_of(is_text: bool, display: Display) -> Option<BoxType> {
    if is_text {
        Some(BoxType::TextSequence)
    } else {
        match display {
            Display::Full(DisplayOutside::Block, DisplayInside::Flow) => Some(BoxType::BlockBox),
            Display::Full(DisplayOutside::Inline, DisplayInside::Flow) => Some(BoxType::InlineBox),
            Display::Full(DisplayOutside::Inline, DisplayInside::FlowRoot) => Some(BoxType::InlineBox),
            _ => None,
        }
    }
}

/// Every box is either a block box or a box in inline layout, never both;
/// a box that cannot hold children is in inline layout, and a block box can
/// hold children.
pub proof fn law_box_kinds(b: LayoutBox)
    ensures
        b.spec_is_block() != b.spec_is_inline(),
        !b.spec_can_have_children() ==> b.spec_is_inline(),
        b.spec_is_block() ==> b.spec_can_have_children(),
{
}

impl LayoutBox {
    pub open spec fn spec_is_block(&self) -> bool {
        self.box_type is BlockBox
    }

    pub open spec fn spec_is_inline(&self) -> bool {
        self.box_type is InlineBox || self.box_type is TextSequence
    }

    pub open spec fn spec_can_have_children(&self) -> bool {
        !(self.box_type is TextSequence)
    }

    /// The box a node generates, given whether it is a text node and its
    /// `display` value, which layout must support.
    pub fn new(is_text: bool, display: &Display) -> (res: Self)
        requires
            box_type_of(is_text, *display) is Some,
        ensures
            box_type_of(is_text, *display) == Some(res.box_type),
    {
        Self { box_type: Self::get_box_type(is_text, display) }
    }

    /// A box that no node generates, of the given kind.
    pub fn new_anonymous(box_type: BoxType) -> (res: Self)
        ensures
            res.box_type == box_type,
    {
        LayoutBox { box_type }
    }

    /// The kind of box a node generates.
    fn get_box_type(is_text: bool, display: &Display) -> (res: BoxType)
        requires
            box_type_of(is_text, *display) is Some,
        ensures
            box_type_of(is_text, *display) == Some(res),
    {
        if is_text {
            return BoxType::TextSequence;
        }
        match display {
            Display::Full(outer, inner) => match (outer, inner) {
                (DisplayOutside::Block, DisplayInside::Flow) => BoxType::BlockBox,
                (DisplayOutside::Inline, DisplayInside::Flow) => BoxType::InlineBox,
                (DisplayOutside::Inline, DisplayInside::FlowRoot) => BoxType::InlineBox,
                _ => BoxType::BlockBox,
            },
            _ => BoxType::BlockBox,
        }
    }

    /// Whether the box is a block box.
    pub fn is_block(&self) -> (res: bool)
        ensures
            res == self.spec_is_block(),
    {
        match self.box_type {
            BoxType::BlockBox => true,
            _ => false,
        }
    }

    /// Whether the box takes part in inline layout: an inline box or text.
    pub fn is_inline(&self) -> (res: bool)
        ensures
            res == self.spec_is_inline(),
    {
        match self.box_type {
            BoxType::InlineBox => true,
            BoxType::TextSequence => true,
            _ => false,
        }
    }

    /// Whether the box may hold child boxes: all but text.
    pub fn can_have_children(&self) -> (res: bool)
        ensures
            res == self.spec_can_have_children(),
    {
        match self.box_type {
            BoxType::TextSequence => false,
            _ => true,
        }
    }
}

} // verus!
