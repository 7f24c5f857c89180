use toy_browser::layout::layout_box::{BoxType, LayoutBox};
use toy_browser::layout::primitive::edge::Edge;
use toy_browser::re_css::value::display::{Display, DisplayInside, DisplayOutside};

#[test]
fn box_types() {
    let block = LayoutBox::new(false, &Display::new_block());
    assert!(block.is_block());
    assert!(!block.is_inline());
    assert!(block.can_have_children());
    let inline = LayoutBox::new(false, &Display::new_inline());
    assert!(inline.is_inline());
    assert!(!inline.is_block());
    let inline_block = LayoutBox::new(false, &Display::Full(DisplayOutside::Inline, DisplayInside::FlowRoot));
    assert!(inline_block.is_inline());
    let text = LayoutBox::new(true, &Display::new_block());
    assert!(matches!(text.box_type, BoxType::TextSequence));
    assert!(text.is_inline());
    assert!(!text.can_have_children());
    let anonymous = LayoutBox::new_anonymous(BoxType::BlockBox);
    assert!(anonymous.is_block());
    assert!(matches!(Edge::Top, Edge::Top));
}
