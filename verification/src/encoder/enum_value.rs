//! Enum values and their builder.
use vstd::prelude::*;
use vstd::string::StringExecFns;
use crate::encoder::string_value::{rendered, Position, StringValue, StringValueView};

verus! {

/// An enum value seen as a value.
pub struct EnumValueView {
    pub name: Seq<char>,
    pub description: StringValueView,
    pub is_deprecated: bool,
    pub deprecation_reason: StringValueView,
}

/// One of the possible values of an enum.
///
/// *EnumValueDefinition*: Description? EnumValue Directives?
#[derive(Debug, PartialEq, Clone)]
pub struct EnumValue {
    // The name of the value.
    name: String,
    // The description, which may be absent.
    description: StringValue,
    // Whether the value should no longer be used.
    is_deprecated: bool,
    // Why the value should no longer be used; may be absent.
    deprecation_reason: StringValue,
}

/// A builder of enum values seen as a value.
pub struct EnumValueBuilderView {
    pub name: Seq<char>,
    pub description: Option<Seq<char>>,
    pub deprecation_reason: Option<Seq<char>>,
}

/// Builds an enum value from its name, and from a description and a
/// deprecation reason where it has them.
#[derive(Debug, Clone)]
pub struct EnumValueBuilder {
    // The name of the value.
    name: String,
    // The description, which may be absent.
    description: Option<String>,
    // Why the value should no longer be used; may be absent.
    deprecation_reason: Option<String>,
}

/// The text of a string that may be absent.
pub open spec fn text_of(source: Option<String>) -> Option<Seq<char>> {
    match source {
        Some(s) => Some(s@),
        None => None,
    }
}

impl View for EnumValueBuilder {
    type V = EnumValueBuilderView;

    closed spec fn view(&self) -> EnumValueBuilderView {
        EnumValueBuilderView {
            name: self.name@,
            description: text_of(self.description),
            deprecation_reason: text_of(self.deprecation_reason),
        }
    }
}

impl EnumValueBuilder {
    /// Create a new instance of EnumValueBuilder.
    pub fn new(name: &str) -> (b: EnumValueBuilder)
        ensures
            b@ == (EnumValueBuilderView {
                name: name@,
                description: None,
                deprecation_reason: None,
            }),
    {
        EnumValueBuilder { name: name.to_owned(), description: None, deprecation_reason: None }
    }

    /// Set the enum value's description.
    pub fn description(self, description: &str) -> (b: EnumValueBuilder)
        ensures
            b@ == (EnumValueBuilderView {
                name: self@.name,
                description: Some(description@),
                deprecation_reason: self@.deprecation_reason,
            }),
    {
        EnumValueBuilder {
            name: self.name,
            description: Some(description.to_owned()),
            deprecation_reason: self.deprecation_reason,
        }
    }

    /// Set the enum value's deprecation properties.
    pub fn deprecated(self, reason: &str) -> (b: EnumValueBuilder)
        ensures
            b@ == (EnumValueBuilderView {
                name: self@.name,
                description: self@.description,
                deprecation_reason: Some(reason@),
            }),
    {
        EnumValueBuilder {
            name: self.name,
            description: self.description,
            deprecation_reason: Some(reason.to_owned()),
        }
    }

    /// Create a new instance of EnumValue. The value is deprecated where a
    /// reason was given.
    pub fn build(self) -> (v: EnumValue)
        ensures
            v@ == (EnumValueView {
                name: self@.name,
                description: StringValueView {
                    position: Position::Field,
                    source: self@.description,
                },
                is_deprecated: self@.deprecation_reason.is_some(),
                deprecation_reason: StringValueView {
                    position: Position::Reason,
                    source: self@.deprecation_reason,
                },
            }),
    {
        let is_deprecated = self.deprecation_reason.is_some();
        EnumValue {
            name: self.name,
            description: StringValue::Field { source: self.description },
            is_deprecated,
            deprecation_reason: StringValue::Reason { source: self.deprecation_reason },
        }
    }
}

impl View for EnumValue {
    type V = EnumValueView;

    closed spec fn view(&self) -> EnumValueView {
        EnumValueView {
            name: self.name@,
            description: self.description@,
            is_deprecated: self.is_deprecated,
            deprecation_reason: self.deprecation_reason@,
        }
    }
}

/// What is printed for an enum value: its description, its name behind two
/// spaces, and `@deprecated` where it is deprecated, with the reason in
/// parentheses.
pub open spec fn encoded(value: EnumValueView) -> Seq<char> {
    rendered(value.description.position, value.description.source) + "  "@ + value.name + (
    if value.is_deprecated {
        " @deprecated"@ + (if value.deprecation_reason.position == Position::Reason {
            "(reason:"@ + rendered(
                value.deprecation_reason.position,
                value.deprecation_reason.source,
            ) + ")"@
        } else {
            Seq::empty()
        })
    } else {
        Seq::empty()
    })
}

impl EnumValue {
    /// What is printed for the enum value.
    pub fn to_string(&self) -> (s: String)
        ensures
            s@ == encoded(self@),
    {
        let mut out = self.description.to_string();
        out.append("  ");
        out.append(self.name.as_str());
        if self.is_deprecated {
            out.append(" @deprecated");
            match self.deprecation_reason.position() {
                Position::Reason => {
                    out.append("(reason:");
                    let reason = self.deprecation_reason.to_string();
                    out.append(reason.as_str());
                    out.append(")");
                },
                _ => {},
            }
        }
        proof {
            assert(out@ =~= encoded(self@));
        }
        out
    }
}

} // verus!
