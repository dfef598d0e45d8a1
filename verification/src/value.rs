//! Dynamically typed attribute values and the typed values that output
//! records hold.

use vstd::prelude::*;

verus! {

/// The kind of value a table column is declared to hold.
#[derive(Clone, Copy, Debug, PartialEq, Eq, Structural)]
pub enum ValueKind {
    Text,
    Integer,
    Boolean,
}

/// A value that the evaluation engine attached to a row under some name.
///
/// `Other` stands for every engine value that is neither text, integer nor
/// boolean; it carries the literal form the engine gave it.
#[derive(Clone, Debug, PartialEq, Eq)]
pub enum TypedAttributeValue {
    Text(String),
    Integer(i64),
    Boolean(bool),
    Other(String),
}

/// Mathematical model of a [`TypedAttributeValue`].
pub enum AttributeView {
    Text(Seq<char>),
    Integer(i64),
    Boolean(bool),
    Other(Seq<char>),
}

impl View for TypedAttributeValue {
    type V = AttributeView;

    open spec fn view(&self) -> AttributeView {
        match self {
            TypedAttributeValue::Text(s) => AttributeView::Text(s@),
            TypedAttributeValue::Integer(n) => AttributeView::Integer(*n),
            TypedAttributeValue::Boolean(b) => AttributeView::Boolean(*b),
            TypedAttributeValue::Other(s) => AttributeView::Other(s@),
        }
    }
}

/// A value of an output record: text, integer or boolean.
#[derive(Clone, Debug, PartialEq, Eq)]
pub enum RenderedValue {
    Text(String),
    Integer(i64),
    Boolean(bool),
}

/// Mathematical model of a [`RenderedValue`].
pub enum RenderedView {
    Text(Seq<char>),
    Integer(i64),
    Boolean(bool),
}

impl View for RenderedValue {
    type V = RenderedView;

    open spec fn view(&self) -> RenderedView {
        match self {
            RenderedValue::Text(s) => RenderedView::Text(s@),
            RenderedValue::Integer(n) => RenderedView::Integer(*n),
            RenderedValue::Boolean(b) => RenderedView::Boolean(*b),
        }
    }
}

/// The character that writes the decimal digit `d`.
pub open spec fn digit_char(d: int) -> char {
    if d == 0 {
        '0'
    } else if d == 1 {
        '1'
    } else if d == 2 {
        '2'
    } else if d == 3 {
        '3'
    } else if d == 4 {
        '4'
    } else if d == 5 {
        '5'
    } else if d == 6 {
        '6'
    } else if d == 7 {
        '7'
    } else if d == 8 {
        '8'
    } else {
        '9'
    }
}

/// The decimal digits of `n`, most significant first, without leading zeros.
pub open spec fn decimal_digits(n: nat) -> Seq<char>
    decreases n,
{
    if n < 10 {
        seq![digit_char(n as int)]
    } else {
        decimal_digits(n / 10).push(digit_char((n % 10) as int))
    }
}

/// The decimal writing of `n`: a minus sign if it is negative, then its digits.
pub open spec fn decimal_text(n: int) -> Seq<char> {
    if n < 0 {
        seq!['-'] + decimal_digits((-n) as nat)
    } else {
        decimal_digits(n as nat)
    }
}

/// The writing of a boolean: `true` or `false`.
pub open spec fn boolean_text(b: bool) -> Seq<char> {
    if b {
        seq!['t', 'r', 'u', 'e']
    } else {
        seq!['f', 'a', 'l', 's', 'e']
    }
}

/// The literal form of a value: what it reads as when rendered as text.
pub open spec fn literal_text(value: AttributeView) -> Seq<char> {
    match value {
        AttributeView::Text(s) => s,
        AttributeView::Integer(n) => decimal_text(n as int),
        AttributeView::Boolean(b) => boolean_text(b),
        AttributeView::Other(s) => s,
    }
}

/// What a value becomes when a column of the given kind asks for it, or
/// `None` where the value is not of that kind. A text column takes the
/// literal form of any value; integer and boolean columns take only values
/// of their own kind.
pub open spec fn coerce(kind: ValueKind, value: AttributeView) -> Option<RenderedView> {
    match kind {
        ValueKind::Text => Some(RenderedView::Text(literal_text(value))),
        ValueKind::Integer => match value {
            AttributeView::Integer(n) => Some(RenderedView::Integer(n)),
            _ => None,
        },
        ValueKind::Boolean => match value {
            AttributeView::Boolean(b) => Some(RenderedView::Boolean(b)),
            _ => None,
        },
    }
}

/// Trusted: `gitql_ast::value::Value::literal` on an integer value. The
/// engine writes an integer with `i64`'s `to_string`, which gives its decimal
/// digits, with a leading minus sign for a negative number.
#[verifier::external_body]
fn integer_literal(n: i64) -> (s: String)
    ensures
        s@ == decimal_text(n as int),
{
    gitql_ast::value::Value::Integer(n).literal()
}

/// Trusted: `gitql_ast::value::Value::literal` on a boolean value. The
/// engine writes a boolean with `bool`'s `to_string`: `true` or `false`.
#[verifier::external_body]
fn boolean_literal(b: bool) -> (s: String)
    ensures
        s@ == boolean_text(b),
{
    gitql_ast::value::Value::Boolean(b).literal()
}

impl TypedAttributeValue {
    /// The literal form of the value.
    pub fn literal(&self) -> (s: String)
        ensures
            s@ == literal_text(self@),
    {
        match self {
            TypedAttributeValue::Text(t) => t.clone(),
            TypedAttributeValue::Integer(n) => integer_literal(*n),
            TypedAttributeValue::Boolean(b) => boolean_literal(*b),
            TypedAttributeValue::Other(t) => t.clone(),
        }
    }

    /// The text held, or `None` if the value is not text.
    pub fn as_text(&self) -> (text: Option<String>)
        ensures
            match text {
                Some(t) => self@ == AttributeView::Text(t@),
                None => !(self@ is Text),
            },
    {
        match self {
            TypedAttributeValue::Text(t) => Some(t.clone()),
            _ => None,
        }
    }

    /// The integer held, or `None` if the value is not an integer.
    pub fn as_integer(&self) -> (number: Option<i64>)
        ensures
            match number {
                Some(n) => self@ == AttributeView::Integer(n),
                None => !(self@ is Integer),
            },
    {
        match self {
            TypedAttributeValue::Integer(n) => Some(*n),
            _ => None,
        }
    }

    /// The boolean held, or `None` if the value is not a boolean.
    pub fn as_boolean(&self) -> (flag: Option<bool>)
        ensures
            match flag {
                Some(b) => self@ == AttributeView::Boolean(b),
                None => !(self@ is Boolean),
            },
    {
        match self {
            TypedAttributeValue::Boolean(b) => Some(*b),
            _ => None,
        }
    }

    /// Coerces the value to what a column of kind `kind` holds, or `None`
    /// if the value is not of that kind.
    pub fn coerce_to(&self, kind: ValueKind) -> (rendered: Option<RenderedValue>)
        ensures
            match rendered {
                Some(r) => coerce(kind, self@) == Some(r@),
                None => coerce(kind, self@) is None,
            },
    {
        match kind {
            ValueKind::Text => Some(RenderedValue::Text(self.literal())),
            ValueKind::Integer => match self.as_integer() {
                Some(n) => Some(RenderedValue::Integer(n)),
                None => None,
            },
            ValueKind::Boolean => match self.as_boolean() {
                Some(b) => Some(RenderedValue::Boolean(b)),
                None => None,
            },
        }
    }
}

} // verus!
