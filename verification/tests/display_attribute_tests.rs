use rcantonese::display_attributes::{
    attribute_at, display_attribute, AttributeColor, AttributeCursor, AttributeKind, LineStyle,
};

#[test]
fn attributes_of_input_and_converted_text() {
    let input = display_attribute(true);
    assert_eq!(input.text, AttributeColor::ColorRef(0x00CE6700));
    assert_eq!(input.background, AttributeColor::Nothing);
    assert_eq!(input.line_style, LineStyle::Dot);
    assert_eq!(input.kind, AttributeKind::Input);
    let converted = display_attribute(false);
    assert_eq!(converted.background, AttributeColor::ColorRef(0x00FFFF00));
    assert_eq!(converted.line, AttributeColor::Nothing);
    assert_eq!(converted.kind, AttributeKind::TargetConverted);
    assert_eq!(attribute_at(0), Some(true));
    assert_eq!(attribute_at(1), Some(false));
    assert_eq!(attribute_at(2), None);
}

#[test]
fn cursor_hands_out_both_attributes() {
    let mut cursor = AttributeCursor::new();
    assert_eq!(cursor.next(1), (1, true));
    assert_eq!(cursor.next(5), (1, false));
    assert_eq!(cursor.next(1), (0, false));
    assert_eq!(cursor.next(0), (0, true));
    cursor.reset();
    assert_eq!(cursor.position(), 0);
    cursor.skip(1);
    let copy = cursor.duplicate();
    assert_eq!(copy.position(), 1);
    cursor.skip(10);
    assert_eq!(cursor.position(), 2);
    assert_eq!(cursor.next(2), (0, false));
}
