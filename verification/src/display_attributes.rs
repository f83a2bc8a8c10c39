//! How the composition is drawn: the display attributes of text being typed
//! and of converted text, and the cursor that lists them to the text
//! services framework.
use vstd::prelude::*;

verus! {

/// A color of a display attribute: none, or a COLORREF.
#[derive(Clone, Copy, PartialEq, Eq, Structural, Debug)]
pub enum AttributeColor {
    Nothing,
    ColorRef(u32),
}

/// The underline of a display attribute.
#[derive(Clone, Copy, PartialEq, Eq, Structural, Debug)]
pub enum LineStyle {
    Nothing,
    Solid,
    Dot,
    Dash,
    Squiggle,
}

/// What a display attribute marks.
#[derive(Clone, Copy, PartialEq, Eq, Structural, Debug)]
pub enum AttributeKind {
    Input,
    TargetConverted,
}

/// A display attribute: text and background colors, the underline's
/// style, weight and color, and what it marks.
#[derive(Clone, Copy, PartialEq, Eq, Structural, Debug)]
pub struct DisplayAttribute {
    pub text: AttributeColor,
    pub background: AttributeColor,
    pub line_style: LineStyle,
    pub bold_line: bool,
    pub line: AttributeColor,
    pub kind: AttributeKind,
}

/// The blue of text being typed: RGB(0, 103, 206).
pub const INPUT_BLUE: u32 = 0x00CE6700;

/// Text being typed: blue, on no background, with a blue dotted underline.
pub open spec fn input_attribute() -> DisplayAttribute {
    DisplayAttribute {
        text: AttributeColor::ColorRef(INPUT_BLUE),
        background: AttributeColor::Nothing,
        line_style: LineStyle::Dot,
        bold_line: false,
        line: AttributeColor::ColorRef(INPUT_BLUE),
        kind: AttributeKind::Input,
    }
}

/// Converted text: white on cyan, not underlined.
pub open spec fn converted_attribute() -> DisplayAttribute {
    DisplayAttribute {
        text: AttributeColor::ColorRef(0x00FFFFFF),
        background: AttributeColor::ColorRef(0x00FFFF00),
        line_style: LineStyle::Nothing,
        bold_line: false,
        line: AttributeColor::Nothing,
        kind: AttributeKind::TargetConverted,
    }
}

/// The display attribute of text being typed, or of converted text.
pub fn display_attribute(is_input: bool) -> (attribute: DisplayAttribute)
    ensures
        attribute == if is_input { input_attribute() } else { converted_attribute() },
{
    if is_input {
        DisplayAttribute {
            text: AttributeColor::ColorRef(INPUT_BLUE),
            background: AttributeColor::Nothing,
            line_style: LineStyle::Dot,
            bold_line: false,
            line: AttributeColor::ColorRef(INPUT_BLUE),
            kind: AttributeKind::Input,
        }
    } else {
        DisplayAttribute {
            text: AttributeColor::ColorRef(0x00FFFFFF),
            background: AttributeColor::ColorRef(0x00FFFF00),
            line_style: LineStyle::Nothing,
            bold_line: false,
            line: AttributeColor::Nothing,
            kind: AttributeKind::TargetConverted,
        }
    }
}

/// The number of display attributes: the input one, then the converted one.
pub const ATTRIBUTE_COUNT: usize = 2;

/// A cursor over the two display attributes.
pub struct AttributeCursor {
    index: usize,
}

impl View for AttributeCursor {
    type V = nat;

    closed spec fn view(&self) -> nat {
        self.index as nat
    }
}

impl AttributeCursor {
    #[verifier::type_invariant]
    spec fn inv(&self) -> bool {
        self.index <= ATTRIBUTE_COUNT
    }

    /// A cursor at the first attribute.
    pub fn new() -> (cursor: Self)
        ensures
            cursor@ == 0,
    {
        AttributeCursor { index: 0 }
    }

    /// The attributes handed out so far.
    pub fn position(&self) -> (index: usize)
        ensures
            index == self@,
            index <= ATTRIBUTE_COUNT,
    {
        proof {
            use_type_invariant(self);
        }
        self.index
    }

    /// Hands out up to `count` attributes from the cursor on: how many it
    /// handed out (no more than are left), and whether that was all asked
    /// for.
    pub fn next(&mut self, count: u32) -> (r: (usize, bool))
        ensures
            ({
                let left = ATTRIBUTE_COUNT - old(self)@;
                let fetched = if count < left { count as int } else { left };
                &&& r.0 == fetched
                &&& r.1 == (fetched == count)
                &&& final(self)@ == old(self)@ + fetched
            }),
    {
        proof {
            use_type_invariant(&*self);
        }
        let left = ATTRIBUTE_COUNT - self.index;
        let fetched: usize = if (count as usize) < left {
            count as usize
        } else {
            left
        };
        self.index = self.index + fetched;
        (fetched, fetched == count as usize)
    }

    /// Moves the cursor `count` attributes on, at most to the end.
    pub fn skip(&mut self, count: u32)
        ensures
            final(self)@ == if old(self)@ + count < ATTRIBUTE_COUNT { old(self)@ + count } else { ATTRIBUTE_COUNT as int },
    {
        proof {
            use_type_invariant(&*self);
        }
        let room = ATTRIBUTE_COUNT - self.index;
        if (count as usize) < room {
            self.index = self.index + count as usize;
        } else {
            self.index = ATTRIBUTE_COUNT;
        }
    }

    /// Moves the cursor back to the first attribute.
    pub fn reset(&mut self)
        ensures
            final(self)@ == 0,
    {
        self.index = 0;
    }

    /// A second cursor at the same place.
    pub fn duplicate(&self) -> (cursor: Self)
        ensures
            cursor@ == self@,
    {
        proof {
            use_type_invariant(self);
        }
        AttributeCursor { index: self.index }
    }
}

/// Whether the attribute at a cursor position is the input one (position
/// 0) or the converted one (position 1); none past the end.
pub fn attribute_at(index: usize) -> (is_input: Option<bool>)
    ensures
        is_input == if index == 0 {
            Some(true)
        } else if index == 1 {
            Some(false)
        } else {
            None
        },
{
    if index == 0 {
        Some(true)
    } else if index == 1 {
        Some(false)
    } else {
        None
    }
}

} // verus!
