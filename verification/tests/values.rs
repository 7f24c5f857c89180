use toy_browser::layout::layout_box::{BoxType, LayoutBox};
use toy_browser::re_css::parser::parse::component_values;
use toy_browser::re_css::shorthand_property::margin::expand_margin;
use toy_browser::re_css::shorthand_property::utils::expand_four_box_values;
use toy_browser::re_css::value::keyword::{
    eq_ignore_ascii_case, keyword_of, parse_keyword, value_kinds, ValueKind,
};
use toy_browser::re_css::value::property::Property;

#[test]
fn keywords_ignore_ascii_case() {
    assert!(eq_ignore_ascii_case("InHeRiT", "inherit"));
    assert!(eq_ignore_ascii_case("", ""));
    assert!(!eq_ignore_ascii_case("inherits", "inherit"));
    assert!(!eq_ignore_ascii_case("ä", "Ä"));
    let (_, values) = component_values(" AUTO 1px").unwrap();
    assert!(parse_keyword(&values, "auto"));
    assert!(!parse_keyword(&values, "unset"));
    let (_, values) = component_values("1px auto").unwrap();
    assert!(!parse_keyword(&values, "auto"));
    assert!(!parse_keyword(&[], "auto"));
}

#[test]
fn kinds_of_each_property_in_order() {
    assert_eq!(
        value_kinds(&Property::Display),
        vec![ValueKind::Display, ValueKind::Inherit, ValueKind::Initial, ValueKind::Unset]
    );
    assert_eq!(
        value_kinds(&Property::MarginLeft),
        vec![
            ValueKind::Length,
            ValueKind::Percentage,
            ValueKind::Auto,
            ValueKind::Inherit,
            ValueKind::Initial,
            ValueKind::Unset,
        ]
    );
    assert_eq!(
        value_kinds(&Property::FontSize),
        vec![ValueKind::Length, ValueKind::Percentage, ValueKind::Inherit, ValueKind::Initial, ValueKind::Unset]
    );
    assert_eq!(keyword_of(ValueKind::Auto), Some("auto"));
    assert_eq!(keyword_of(ValueKind::Length), None);
}

#[test]
fn every_property_once() {
    let all = Property::all();
    assert_eq!(all.len(), 6);
    assert_eq!(all[0], Property::Display);
    assert_eq!(all[5], Property::FontSize);
    assert!(!all.iter().any(|p| p.inheritable()));
}

#[test]
fn margin_is_the_box_expansion_over_the_margin_sides() {
    for values in [vec![Some(1u8)], vec![Some(1), Some(2)], vec![Some(1), Some(2), Some(3)], vec![Some(1), None]] {
        let sides = (Property::MarginTop, Property::MarginRight, Property::MarginBottom, Property::MarginLeft);
        assert_eq!(expand_margin(values.clone()), expand_four_box_values(values, sides));
    }
}

#[test]
fn box_kinds_are_exclusive() {
    for t in [BoxType::BlockBox, BoxType::InlineBox, BoxType::TextSequence] {
        let b = LayoutBox::new_anonymous(t);
        assert_ne!(b.is_block(), b.is_inline());
        if !b.can_have_children() {
            assert!(b.is_inline());
        }
        if b.is_block() {
            assert!(b.can_have_children());
        }
    }
}
