//! The type system: schema, types, directives and their extensions.
use vstd::prelude::*;
use crate::grammar::recovery::{at_definition_keyword, at_entry};
use crate::grammar::ty::{named_type, ty};
use crate::grammar::value::{default_value, directives, token_node};
use crate::parser::Parser;
use crate::state::ParserState;
use crate::syntax_kind::SyntaxKind;
use crate::token::TokenKind;

verus! {

impl ParserState {
    /// *Description*: StringValue
    #[verifier::opaque]
    pub open spec fn description(self) -> ParserState {
        self.token_node(SyntaxKind::DESCRIPTION, TokenKind::StringValue, SyntaxKind::STRING)
    }

    /// The head of a definition: its description, if it has one, and its
    /// keyword; the head of an extension: `extend` and its keyword.
    #[verifier::opaque]
    pub open spec fn head(self, extension: bool) -> ParserState {
        let started = if extension {
            self.expect(TokenKind::Name, SyntaxKind::NAME)
        } else if self.at(TokenKind::StringValue) {
            self.description()
        } else {
            self
        };
        started.expect(TokenKind::Name, SyntaxKind::NAME)
    }

    /// A type name behind a `:`; nothing where the `:` was missing.
    pub open spec fn type_name_behind(self, colon: bool) -> ParserState {
        if !colon {
            self
        } else if self.at(TokenKind::Name) {
            self.named_type()
        } else {
            self.err("expected a type name"@)
        }
    }

    /// *RootOperationTypeDefinition*: OperationType `:` NamedType
    #[verifier::opaque]
    pub open spec fn root_operation_type_definition(self) -> ParserState {
        let opened = self.start_node(SyntaxKind::ROOT_OPERATION_TYPE_DEFINITION);
        let typed = if opened.at(TokenKind::Name) {
            opened.token_node(SyntaxKind::OPERATION_TYPE, TokenKind::Name, SyntaxKind::NAME)
        } else {
            opened
        };
        typed.expect(TokenKind::Colon, SyntaxKind::COLON).type_name_behind(
            typed.at(TokenKind::Colon),
        ).finish_node()
    }

    /// The root operation types of a schema: as long as one starts, and as
    /// long as the last one made the parser get on.
    pub open spec fn root_operation_list(self) -> ParserState
        decreases self.fuel(),
    {
        if self.starts_entry(false) {
            let next = self.root_operation_type_definition();
            if next.fuel() < self.fuel() {
                next.root_operation_list()
            } else {
                next
            }
        } else {
            self
        }
    }

    /// The kind of a schema definition or extension.
    pub open spec fn schema_kind(extension: bool) -> SyntaxKind {
        if extension {
            SyntaxKind::SCHEMA_EXTENSION
        } else {
            SyntaxKind::SCHEMA_DEFINITION
        }
    }

    /// The root operation types in their braces, behind the head and the
    /// directives of a schema. A definition without them is an error.
    pub open spec fn schema_body(self, extension: bool) -> ParserState {
        if self.at(TokenKind::LBrace) {
            let braced = self.bump(SyntaxKind::L_BRACE);
            let checked = if braced.starts_entry(false) {
                braced
            } else {
                braced.err("expected a root operation type definition"@)
            };
            checked.root_operation_list().expect(TokenKind::RBrace, SyntaxKind::R_BRACE)
        } else if !extension {
            self.err("expected root operation type definitions"@)
        } else {
            self
        }
    }

    /// *SchemaDefinition*: Description? `schema` Directives? `{`
    /// RootOperationTypeDefinition+ `}`, and *SchemaExtension*: `extend`
    /// `schema` Directives? with or without the braces and what is in them.
    #[verifier::opaque]
    pub open spec fn schema_definition(self, extension: bool) -> ParserState {
        let headed = self.start_node(Self::schema_kind(extension)).head(extension);
        let directed = if headed.at(TokenKind::At) {
            headed.directives()
        } else {
            headed
        };
        directed.schema_body(extension).finish_node()
    }

    /// *ScalarTypeDefinition*: Description? `scalar` Name Directives?, and
    /// *ScalarTypeExtension*: `extend` `scalar` Name Directives
    #[verifier::opaque]
    pub open spec fn scalar_type(self, extension: bool) -> ParserState {
        let named = self.start_node(
            if extension {
                SyntaxKind::SCALAR_TYPE_EXTENSION
            } else {
                SyntaxKind::SCALAR_TYPE_DEFINITION
            },
        ).head(extension).expect(TokenKind::Name, SyntaxKind::NAME);
        let directed = if named.at(TokenKind::At) {
            named.directives()
        } else if extension {
            named.err("expected directives"@)
        } else {
            named
        };
        directed.finish_node()
    }

    /// The interfaces of a list: names, up to one that starts a definition,
    /// and as long as the last one made the parser get on.
    pub open spec fn interface_list(self) -> ParserState
        decreases self.fuel(),
    {
        if self.at(TokenKind::Name) && !self.at_definition_keyword() {
            let next = self.named_type();
            if next.fuel() < self.fuel() {
                next.interface_list()
            } else {
                next
            }
        } else {
            self
        }
    }

    /// *ImplementsInterfaces*: `implements` NamedType+. The list ends before
    /// a name that starts a definition.
    #[verifier::opaque]
    pub open spec fn implements_interfaces(self) -> ParserState {
        let opened = self.start_node(SyntaxKind::IMPLEMENTS_INTERFACES).expect(
            TokenKind::Name,
            SyntaxKind::NAME,
        );
        let checked = if opened.at(TokenKind::Name) {
            opened
        } else {
            opened.err("expected the name of an interface"@)
        };
        checked.interface_list().finish_node()
    }

    /// What follows the name of a field or of an input value: `:` and a
    /// type, and no type where the `:` is missing.
    pub open spec fn typed(self) -> ParserState {
        let colon = self.expect(TokenKind::Colon, SyntaxKind::COLON);
        if self.at(TokenKind::Colon) {
            colon.ty()
        } else {
            colon
        }
    }

    /// *InputValueDefinition*: Description? Name `:` Type DefaultValue?
    /// Directives?
    #[verifier::opaque]
    pub open spec fn input_value_definition(self) -> ParserState {
        let opened = self.start_node(SyntaxKind::INPUT_VALUE_DEFINITION);
        let described = if opened.at(TokenKind::StringValue) {
            opened.description()
        } else {
            opened
        };
        let typed = described.expect(TokenKind::Name, SyntaxKind::NAME).typed();
        let valued = if typed.at(TokenKind::Equal) {
            typed.default_value()
        } else {
            typed
        };
        let directed = if valued.at(TokenKind::At) {
            valued.directives()
        } else {
            valued
        };
        directed.finish_node()
    }

    /// The input values of a list: as long as one starts, and as long as
    /// the last one made the parser get on.
    pub open spec fn input_value_list(self) -> ParserState
        decreases self.fuel(),
    {
        if self.starts_entry(false) || self.at(TokenKind::StringValue) {
            let next = self.input_value_definition();
            if next.fuel() < self.fuel() {
                next.input_value_list()
            } else {
                next
            }
        } else {
            self
        }
    }

    /// The input values between `open` and `close`. A list without an input
    /// value is an error.
    pub open spec fn input_values_between(
        self,
        node: SyntaxKind,
        open: TokenKind,
        open_tag: SyntaxKind,
        close: TokenKind,
        close_tag: SyntaxKind,
    ) -> ParserState {
        let opened = self.start_node(node).expect(open, open_tag);
        let checked = if opened.starts_entry(false) || opened.at(TokenKind::StringValue) {
            opened
        } else {
            opened.err("expected an input value definition"@)
        };
        checked.input_value_list().expect(close, close_tag).finish_node()
    }

    /// *ArgumentsDefinition*: `(` InputValueDefinition+ `)`
    #[verifier::opaque]
    pub open spec fn arguments_definition(self) -> ParserState {
        self.input_values_between(
            SyntaxKind::ARGUMENTS_DEFINITION,
            TokenKind::LParen,
            SyntaxKind::L_PAREN,
            TokenKind::RParen,
            SyntaxKind::R_PAREN,
        )
    }

    /// *InputFieldsDefinition*: `{` InputValueDefinition+ `}`
    #[verifier::opaque]
    pub open spec fn input_fields_definition(self) -> ParserState {
        self.input_values_between(
            SyntaxKind::INPUT_FIELDS_DEFINITION,
            TokenKind::LBrace,
            SyntaxKind::L_BRACE,
            TokenKind::RBrace,
            SyntaxKind::R_BRACE,
        )
    }

    /// *FieldDefinition*: Description? Name ArgumentsDefinition? `:` Type
    /// Directives?
    #[verifier::opaque]
    pub open spec fn field_definition(self) -> ParserState {
        let opened = self.start_node(SyntaxKind::FIELD_DEFINITION);
        let described = if opened.at(TokenKind::StringValue) {
            opened.description()
        } else {
            opened
        };
        let named = described.expect(TokenKind::Name, SyntaxKind::NAME);
        let called = if named.at(TokenKind::LParen) {
            named.arguments_definition()
        } else {
            named
        };
        let typed = called.typed();
        let directed = if typed.at(TokenKind::At) {
            typed.directives()
        } else {
            typed
        };
        directed.finish_node()
    }

    /// The field definitions of a list: as long as one starts, and as long
    /// as the last one made the parser get on.
    pub open spec fn field_definition_list(self) -> ParserState
        decreases self.fuel(),
    {
        if self.starts_entry(true) || self.at(TokenKind::StringValue) {
            let next = self.field_definition();
            if next.fuel() < self.fuel() {
                next.field_definition_list()
            } else {
                next
            }
        } else {
            self
        }
    }

    /// *FieldsDefinition*: `{` FieldDefinition+ `}`. A list without a field
    /// definition is an error.
    #[verifier::opaque]
    pub open spec fn fields_definition(self) -> ParserState {
        let opened = self.start_node(SyntaxKind::FIELDS_DEFINITION).expect(
            TokenKind::LBrace,
            SyntaxKind::L_BRACE,
        );
        let checked = if opened.starts_entry(true) || opened.at(TokenKind::StringValue) {
            opened
        } else {
            opened.err("expected a field definition"@)
        };
        checked.field_definition_list().expect(
            TokenKind::RBrace,
            SyntaxKind::R_BRACE,
        ).finish_node()
    }

    /// The kind of an object or interface type definition or extension.
    pub open spec fn object_kind(interface: bool, extension: bool) -> SyntaxKind {
        if interface {
            if extension {
                SyntaxKind::INTERFACE_TYPE_EXTENSION
            } else {
                SyntaxKind::INTERFACE_TYPE_DEFINITION
            }
        } else {
            if extension {
                SyntaxKind::OBJECT_TYPE_EXTENSION
            } else {
                SyntaxKind::OBJECT_TYPE_DEFINITION
            }
        }
    }

    /// *ObjectTypeDefinition* and *InterfaceTypeDefinition*: Description?
    /// `type` or `interface`, Name ImplementsInterfaces? Directives?
    /// FieldsDefinition?, and their extensions, which start with `extend`
    /// and have no description.
    #[verifier::opaque]
    pub open spec fn object_type(self, interface: bool, extension: bool) -> ParserState {
        let named = self.start_node(Self::object_kind(interface, extension)).head(
            extension,
        ).expect(TokenKind::Name, SyntaxKind::NAME);
        let implemented = if named.at_word("implements"@) {
            named.implements_interfaces()
        } else {
            named
        };
        let directed = if implemented.at(TokenKind::At) {
            implemented.directives()
        } else {
            implemented
        };
        let fielded = if directed.at(TokenKind::LBrace) {
            directed.fields_definition()
        } else {
            directed
        };
        fielded.finish_node()
    }

    /// A member of a union, or an error where none stands.
    pub open spec fn union_member(self) -> ParserState {
        if self.at(TokenKind::Name) {
            self.named_type()
        } else {
            self.err("expected a union member type"@)
        }
    }

    /// The further members of a union: `|` and a member, as long as a `|`
    /// comes and as long as the last one made the parser get on.
    pub open spec fn union_member_list(self) -> ParserState
        decreases self.fuel(),
    {
        if self.at(TokenKind::Pipe) {
            let next = self.bump(SyntaxKind::PIPE).union_member();
            if next.fuel() < self.fuel() {
                next.union_member_list()
            } else {
                next
            }
        } else {
            self
        }
    }

    /// *UnionMemberTypes*: `=` `|`? NamedType, then `|` NamedType as often
    /// as it comes.
    #[verifier::opaque]
    pub open spec fn union_member_types(self) -> ParserState {
        let opened = self.start_node(SyntaxKind::UNION_MEMBER_TYPES).expect(
            TokenKind::Equal,
            SyntaxKind::EQUAL,
        );
        let piped = if opened.at(TokenKind::Pipe) {
            opened.bump(SyntaxKind::PIPE)
        } else {
            opened
        };
        piped.union_member().union_member_list().finish_node()
    }

    /// *UnionTypeDefinition*: Description? `union` Name Directives?
    /// UnionMemberTypes?, and its extension.
    #[verifier::opaque]
    pub open spec fn union_type(self, extension: bool) -> ParserState {
        let named = self.start_node(
            if extension {
                SyntaxKind::UNION_TYPE_EXTENSION
            } else {
                SyntaxKind::UNION_TYPE_DEFINITION
            },
        ).head(extension).expect(TokenKind::Name, SyntaxKind::NAME);
        let directed = if named.at(TokenKind::At) {
            named.directives()
        } else {
            named
        };
        let membered = if directed.at(TokenKind::Equal) {
            directed.union_member_types()
        } else {
            directed
        };
        membered.finish_node()
    }

    /// *EnumValueDefinition*: Description? EnumValue Directives?
    #[verifier::opaque]
    pub open spec fn enum_value_definition(self) -> ParserState {
        let opened = self.start_node(SyntaxKind::ENUM_VALUE_DEFINITION);
        let described = if opened.at(TokenKind::StringValue) {
            opened.description()
        } else {
            opened
        };
        let valued = if described.at(TokenKind::Name) {
            described.token_node(SyntaxKind::ENUM_VALUE, TokenKind::Name, SyntaxKind::NAME)
        } else {
            described.err("expected an enum value"@)
        };
        let directed = if valued.at(TokenKind::At) {
            valued.directives()
        } else {
            valued
        };
        directed.finish_node()
    }

    /// The enum values of a list: as long as one starts, and as long as the
    /// last one made the parser get on.
    pub open spec fn enum_value_list(self) -> ParserState
        decreases self.fuel(),
    {
        if self.at(TokenKind::Name) || self.at(TokenKind::StringValue) {
            let next = self.enum_value_definition();
            if next.fuel() < self.fuel() {
                next.enum_value_list()
            } else {
                next
            }
        } else {
            self
        }
    }

    /// *EnumValuesDefinition*: `{` EnumValueDefinition+ `}`. A list without
    /// an enum value is an error.
    #[verifier::opaque]
    pub open spec fn enum_values_definition(self) -> ParserState {
        let opened = self.start_node(SyntaxKind::ENUM_VALUES_DEFINITION).expect(
            TokenKind::LBrace,
            SyntaxKind::L_BRACE,
        );
        let checked = if opened.at(TokenKind::Name) || opened.at(TokenKind::StringValue) {
            opened
        } else {
            opened.err("expected an enum value definition"@)
        };
        checked.enum_value_list().expect(TokenKind::RBrace, SyntaxKind::R_BRACE).finish_node()
    }

    /// *EnumTypeDefinition*: Description? `enum` Name Directives?
    /// EnumValuesDefinition?, and its extension.
    #[verifier::opaque]
    pub open spec fn enum_type(self, extension: bool) -> ParserState {
        let named = self.start_node(
            if extension {
                SyntaxKind::ENUM_TYPE_EXTENSION
            } else {
                SyntaxKind::ENUM_TYPE_DEFINITION
            },
        ).head(extension).expect(TokenKind::Name, SyntaxKind::NAME);
        let directed = if named.at(TokenKind::At) {
            named.directives()
        } else {
            named
        };
        let valued = if directed.at(TokenKind::LBrace) {
            directed.enum_values_definition()
        } else {
            directed
        };
        valued.finish_node()
    }

    /// *InputObjectTypeDefinition*: Description? `input` Name Directives?
    /// InputFieldsDefinition?, and its extension.
    #[verifier::opaque]
    pub open spec fn input_object_type(self, extension: bool) -> ParserState {
        let named = self.start_node(
            if extension {
                SyntaxKind::INPUT_OBJECT_TYPE_EXTENSION
            } else {
                SyntaxKind::INPUT_OBJECT_TYPE_DEFINITION
            },
        ).head(extension).expect(TokenKind::Name, SyntaxKind::NAME);
        let directed = if named.at(TokenKind::At) {
            named.directives()
        } else {
            named
        };
        let fielded = if directed.at(TokenKind::LBrace) {
            directed.input_fields_definition()
        } else {
            directed
        };
        fielded.finish_node()
    }

    /// A directive location, or an error where none stands.
    pub open spec fn directive_location(self) -> ParserState {
        if self.at(TokenKind::Name) {
            self.token_node(SyntaxKind::DIRECTIVE_LOCATION, TokenKind::Name, SyntaxKind::NAME)
        } else {
            self.err("expected a directive location"@)
        }
    }

    /// The further locations of a directive: `|` and a location, as long
    /// as a `|` comes and as long as the last one made the parser get on.
    pub open spec fn directive_location_list(self) -> ParserState
        decreases self.fuel(),
    {
        if self.at(TokenKind::Pipe) {
            let next = self.bump(SyntaxKind::PIPE).directive_location();
            if next.fuel() < self.fuel() {
                next.directive_location_list()
            } else {
                next
            }
        } else {
            self
        }
    }

    /// *DirectiveLocations*: `|`? DirectiveLocation, then `|`
    /// DirectiveLocation as often as it comes.
    #[verifier::opaque]
    pub open spec fn directive_locations(self) -> ParserState {
        let opened = self.start_node(SyntaxKind::DIRECTIVE_LOCATIONS);
        let piped = if opened.at(TokenKind::Pipe) {
            opened.bump(SyntaxKind::PIPE)
        } else {
            opened
        };
        piped.directive_location().directive_location_list().finish_node()
    }

    /// *DirectiveDefinition*: Description? `directive` `@` Name
    /// ArgumentsDefinition? `repeatable`? `on` DirectiveLocations
    #[verifier::opaque]
    pub open spec fn directive_definition(self) -> ParserState {
        let named = self.start_node(SyntaxKind::DIRECTIVE_DEFINITION).head(false).expect(
            TokenKind::At,
            SyntaxKind::AT,
        ).expect(TokenKind::Name, SyntaxKind::NAME);
        let called = if named.at(TokenKind::LParen) {
            named.arguments_definition()
        } else {
            named
        };
        let repeated = if called.at_word("repeatable"@) {
            called.bump(SyntaxKind::NAME)
        } else {
            called
        };
        let placed = if repeated.at_word("on"@) {
            repeated.bump(SyntaxKind::NAME)
        } else {
            repeated.err("expected `on`"@)
        };
        placed.directive_locations().finish_node()
    }
}

/// *Description*: StringValue
pub(crate) fn description(p: &mut Parser)
    requires
        old(p).ready(),
        old(p).top_kind().admits(SyntaxKind::DESCRIPTION),
        old(p).next_kind() == Some(TokenKind::StringValue),
    ensures
        final(p).state() == old(p).state().description(),
        final(p).ready(),
        final(p).keeps(old(p)),
        final(p).follows(old(p)),
        final(p).fuel() < old(p).fuel(),
{
    proof {
        reveal(ParserState::description);
    }
    token_node(p, SyntaxKind::DESCRIPTION, TokenKind::StringValue, SyntaxKind::STRING);
}

/// The head of a definition: its description, if it has one, and its
/// keyword; the head of an extension: `extend` and its keyword.
pub(crate) fn head(p: &mut Parser, extension: bool)
    requires
        old(p).ready(),
        old(p).top_kind().admits(SyntaxKind::NAME),
        !extension ==> old(p).top_kind().admits(SyntaxKind::DESCRIPTION),
    ensures
        final(p).state() == old(p).state().head(extension),
        final(p).ready(),
        final(p).keeps(old(p)),
        final(p).follows(old(p)),
        old(p).next_kind() == Some(TokenKind::Name) || (!extension && old(p).next_kind() == Some(
            TokenKind::StringValue,
        )) ==> final(p).fuel() < old(p).fuel(),
{
    proof {
        reveal(ParserState::head);
    }
    if extension {
        p.expect(TokenKind::Name, SyntaxKind::NAME);
    } else if p.at(TokenKind::StringValue) {
        description(p);
    }
    p.expect(TokenKind::Name, SyntaxKind::NAME);
}

/// What follows the name of a field or of an input value: `:` and a type.
pub(crate) fn typed(p: &mut Parser)
    requires
        old(p).ready(),
        old(p).top_kind().takes_types(),
        old(p).top_kind().admits(SyntaxKind::COLON),
    ensures
        final(p).state() == old(p).state().typed(),
        final(p).ready(),
        final(p).keeps(old(p)),
        final(p).follows(old(p)),
{
    let colon = p.at(TokenKind::Colon);
    p.expect(TokenKind::Colon, SyntaxKind::COLON);
    if colon {
        ty(p);
    }
}

/// *RootOperationTypeDefinition*: OperationType `:` NamedType
pub(crate) fn root_operation_type_definition(p: &mut Parser)
    requires
        old(p).ready(),
        old(p).top_kind().admits(SyntaxKind::ROOT_OPERATION_TYPE_DEFINITION),
        old(p).next_kind() == Some(TokenKind::Name),
    ensures
        final(p).state() == old(p).state().root_operation_type_definition(),
        final(p).ready(),
        final(p).keeps(old(p)),
        final(p).follows(old(p)),
        final(p).fuel() < old(p).fuel(),
{
    proof {
        reveal(ParserState::root_operation_type_definition);
    }
    let guard = p.start_node(SyntaxKind::ROOT_OPERATION_TYPE_DEFINITION);
    if p.at(TokenKind::Name) {
        token_node(p, SyntaxKind::OPERATION_TYPE, TokenKind::Name, SyntaxKind::NAME);
    }
    let colon = p.at(TokenKind::Colon);
    p.expect(TokenKind::Colon, SyntaxKind::COLON);
    if colon {
        if p.at(TokenKind::Name) {
            named_type(p);
        } else {
            p.err("expected a type name");
        }
    }
    guard.finish_node(p);
}

/// *SchemaDefinition*: Description? `schema` Directives? `{`
/// RootOperationTypeDefinition+ `}`, and *SchemaExtension*: `extend`
/// `schema` Directives? with or without the braces and what is in them.
pub(crate) fn schema_definition(p: &mut Parser, extension: bool)
    requires
        old(p).ready(),
        old(p).top_kind() == SyntaxKind::DOCUMENT,
        old(p).next_kind() == Some(TokenKind::Name) || (!extension && old(p).next_kind() == Some(
            TokenKind::StringValue,
        )),
    ensures
        final(p).state() == old(p).state().schema_definition(extension),
        final(p).ready(),
        final(p).keeps(old(p)),
        final(p).follows(old(p)),
        final(p).fuel() < old(p).fuel(),
{
    proof {
        reveal(ParserState::schema_definition);
    }
    let kind = if extension {
        SyntaxKind::SCHEMA_EXTENSION
    } else {
        SyntaxKind::SCHEMA_DEFINITION
    };
    let guard = p.start_node(kind);
    head(p, extension);
    if p.at(TokenKind::At) {
        directives(p);
    }
    if p.at(TokenKind::LBrace) {
        p.bump(SyntaxKind::L_BRACE);
        if !at_entry(p, false) {
            p.err("expected a root operation type definition");
        }
        let ghost checked = p.state();
        while at_entry(p, false)
            invariant
                p.ready(),
                p.keeps(old(p)),
                p.source() == old(p).source(),
                p.depth() == old(p).depth() + 1,
                p.outer() == old(p).frames(),
                p.top_kind() == kind,
                kind == SyntaxKind::SCHEMA_EXTENSION || kind == SyntaxKind::SCHEMA_DEFINITION,
                p.fuel() < old(p).fuel(),
                p.state().root_operation_list() == checked.root_operation_list(),
            decreases p.fuel(),
        {
            root_operation_type_definition(p);
        }
        p.expect(TokenKind::RBrace, SyntaxKind::R_BRACE);
    } else if !extension {
        p.err("expected root operation type definitions");
    }
    guard.finish_node(p);
}

/// *ScalarTypeDefinition*: Description? `scalar` Name Directives?, and
/// *ScalarTypeExtension*: `extend` `scalar` Name Directives
pub(crate) fn scalar_type(p: &mut Parser, extension: bool)
    requires
        old(p).ready(),
        old(p).top_kind() == SyntaxKind::DOCUMENT,
        old(p).next_kind() == Some(TokenKind::Name) || (!extension && old(p).next_kind() == Some(
            TokenKind::StringValue,
        )),
    ensures
        final(p).state() == old(p).state().scalar_type(extension),
        final(p).ready(),
        final(p).keeps(old(p)),
        final(p).follows(old(p)),
        final(p).fuel() < old(p).fuel(),
{
    proof {
        reveal(ParserState::scalar_type);
    }
    let kind = if extension {
        SyntaxKind::SCALAR_TYPE_EXTENSION
    } else {
        SyntaxKind::SCALAR_TYPE_DEFINITION
    };
    let guard = p.start_node(kind);
    head(p, extension);
    p.expect(TokenKind::Name, SyntaxKind::NAME);
    if p.at(TokenKind::At) {
        directives(p);
    } else if extension {
        p.err("expected directives");
    }
    guard.finish_node(p);
}

/// *ImplementsInterfaces*: `implements` NamedType+. The list ends before a
/// name that starts a definition.
pub(crate) fn implements_interfaces(p: &mut Parser)
    requires
        old(p).ready(),
        old(p).top_kind().admits(SyntaxKind::IMPLEMENTS_INTERFACES),
        old(p).next_kind() == Some(TokenKind::Name),
    ensures
        final(p).state() == old(p).state().implements_interfaces(),
        final(p).ready(),
        final(p).keeps(old(p)),
        final(p).follows(old(p)),
        final(p).fuel() < old(p).fuel(),
{
    proof {
        reveal(ParserState::implements_interfaces);
    }
    let guard = p.start_node(SyntaxKind::IMPLEMENTS_INTERFACES);
    p.expect(TokenKind::Name, SyntaxKind::NAME);
    if !p.at(TokenKind::Name) {
        p.err("expected the name of an interface");
    }
    let ghost checked = p.state();
    while p.at(TokenKind::Name) && !at_definition_keyword(p)
        invariant
            p.ready(),
            p.keeps(old(p)),
            p.source() == old(p).source(),
            p.depth() == old(p).depth() + 1,
            p.outer() == old(p).frames(),
            p.top_kind() == SyntaxKind::IMPLEMENTS_INTERFACES,
            p.fuel() < old(p).fuel(),
            p.state().interface_list() == checked.interface_list(),
        decreases p.fuel(),
    {
        named_type(p);
    }
    guard.finish_node(p);
}

/// *InputValueDefinition*: Description? Name `:` Type DefaultValue?
/// Directives?
pub(crate) fn input_value_definition(p: &mut Parser)
    requires
        old(p).ready(),
        old(p).top_kind().admits(SyntaxKind::INPUT_VALUE_DEFINITION),
        old(p).next_kind() == Some(TokenKind::Name) || old(p).next_kind() == Some(
            TokenKind::StringValue,
        ),
    ensures
        final(p).state() == old(p).state().input_value_definition(),
        final(p).ready(),
        final(p).keeps(old(p)),
        final(p).follows(old(p)),
        final(p).fuel() < old(p).fuel(),
{
    proof {
        reveal(ParserState::input_value_definition);
    }
    let guard = p.start_node(SyntaxKind::INPUT_VALUE_DEFINITION);
    if p.at(TokenKind::StringValue) {
        description(p);
    }
    p.expect(TokenKind::Name, SyntaxKind::NAME);
    typed(p);
    if p.at(TokenKind::Equal) {
        default_value(p);
    }
    if p.at(TokenKind::At) {
        directives(p);
    }
    guard.finish_node(p);
}

/// *ArgumentsDefinition*: `(` InputValueDefinition+ `)`
pub(crate) fn arguments_definition(p: &mut Parser)
    requires
        old(p).ready(),
        old(p).top_kind().admits(SyntaxKind::ARGUMENTS_DEFINITION),
        old(p).next_kind() == Some(TokenKind::LParen),
    ensures
        final(p).state() == old(p).state().arguments_definition(),
        final(p).ready(),
        final(p).keeps(old(p)),
        final(p).follows(old(p)),
        final(p).fuel() < old(p).fuel(),
{
    proof {
        reveal(ParserState::arguments_definition);
    }
    let guard = p.start_node(SyntaxKind::ARGUMENTS_DEFINITION);
    p.expect(TokenKind::LParen, SyntaxKind::L_PAREN);
    if !(at_entry(p, false) || p.at(TokenKind::StringValue)) {
        p.err("expected an input value definition");
    }
    let ghost checked = p.state();
    while at_entry(p, false) || p.at(TokenKind::StringValue)
        invariant
            p.ready(),
            p.keeps(old(p)),
            p.source() == old(p).source(),
            p.depth() == old(p).depth() + 1,
            p.outer() == old(p).frames(),
            p.top_kind() == SyntaxKind::ARGUMENTS_DEFINITION,
            p.fuel() < old(p).fuel(),
            p.state().input_value_list() == checked.input_value_list(),
        decreases p.fuel(),
    {
        input_value_definition(p);
    }
    p.expect(TokenKind::RParen, SyntaxKind::R_PAREN);
    guard.finish_node(p);
}

/// *InputFieldsDefinition*: `{` InputValueDefinition+ `}`
pub(crate) fn input_fields_definition(p: &mut Parser)
    requires
        old(p).ready(),
        old(p).top_kind().admits(SyntaxKind::INPUT_FIELDS_DEFINITION),
        old(p).next_kind() == Some(TokenKind::LBrace),
    ensures
        final(p).state() == old(p).state().input_fields_definition(),
        final(p).ready(),
        final(p).keeps(old(p)),
        final(p).follows(old(p)),
        final(p).fuel() < old(p).fuel(),
{
    proof {
        reveal(ParserState::input_fields_definition);
    }
    let guard = p.start_node(SyntaxKind::INPUT_FIELDS_DEFINITION);
    p.expect(TokenKind::LBrace, SyntaxKind::L_BRACE);
    if !(at_entry(p, false) || p.at(TokenKind::StringValue)) {
        p.err("expected an input value definition");
    }
    let ghost checked = p.state();
    while at_entry(p, false) || p.at(TokenKind::StringValue)
        invariant
            p.ready(),
            p.keeps(old(p)),
            p.source() == old(p).source(),
            p.depth() == old(p).depth() + 1,
            p.outer() == old(p).frames(),
            p.top_kind() == SyntaxKind::INPUT_FIELDS_DEFINITION,
            p.fuel() < old(p).fuel(),
            p.state().input_value_list() == checked.input_value_list(),
        decreases p.fuel(),
    {
        input_value_definition(p);
    }
    p.expect(TokenKind::RBrace, SyntaxKind::R_BRACE);
    guard.finish_node(p);
}

/// *FieldDefinition*: Description? Name ArgumentsDefinition? `:` Type
/// Directives?
pub(crate) fn field_definition(p: &mut Parser)
    requires
        old(p).ready(),
        old(p).top_kind().admits(SyntaxKind::FIELD_DEFINITION),
        old(p).next_kind() == Some(TokenKind::Name) || old(p).next_kind() == Some(
            TokenKind::StringValue,
        ),
    ensures
        final(p).state() == old(p).state().field_definition(),
        final(p).ready(),
        final(p).keeps(old(p)),
        final(p).follows(old(p)),
        final(p).fuel() < old(p).fuel(),
{
    proof {
        reveal(ParserState::field_definition);
    }
    let guard = p.start_node(SyntaxKind::FIELD_DEFINITION);
    if p.at(TokenKind::StringValue) {
        description(p);
    }
    p.expect(TokenKind::Name, SyntaxKind::NAME);
    if p.at(TokenKind::LParen) {
        arguments_definition(p);
    }
    typed(p);
    if p.at(TokenKind::At) {
        directives(p);
    }
    guard.finish_node(p);
}

/// *FieldsDefinition*: `{` FieldDefinition+ `}`
pub(crate) fn fields_definition(p: &mut Parser)
    requires
        old(p).ready(),
        old(p).top_kind().admits(SyntaxKind::FIELDS_DEFINITION),
        old(p).next_kind() == Some(TokenKind::LBrace),
    ensures
        final(p).state() == old(p).state().fields_definition(),
        final(p).ready(),
        final(p).keeps(old(p)),
        final(p).follows(old(p)),
        final(p).fuel() < old(p).fuel(),
{
    proof {
        reveal(ParserState::fields_definition);
    }
    let guard = p.start_node(SyntaxKind::FIELDS_DEFINITION);
    p.expect(TokenKind::LBrace, SyntaxKind::L_BRACE);
    if !(at_entry(p, true) || p.at(TokenKind::StringValue)) {
        p.err("expected a field definition");
    }
    let ghost checked = p.state();
    while at_entry(p, true) || p.at(TokenKind::StringValue)
        invariant
            p.ready(),
            p.keeps(old(p)),
            p.source() == old(p).source(),
            p.depth() == old(p).depth() + 1,
            p.outer() == old(p).frames(),
            p.top_kind() == SyntaxKind::FIELDS_DEFINITION,
            p.fuel() < old(p).fuel(),
            p.state().field_definition_list() == checked.field_definition_list(),
        decreases p.fuel(),
    {
        field_definition(p);
    }
    p.expect(TokenKind::RBrace, SyntaxKind::R_BRACE);
    guard.finish_node(p);
}

/// *ObjectTypeDefinition* and *InterfaceTypeDefinition*: Description? `type`
/// or `interface`, Name ImplementsInterfaces? Directives? FieldsDefinition?,
/// and their extensions, which start with `extend` and have no description.
pub(crate) fn object_type(p: &mut Parser, interface: bool, extension: bool)
    requires
        old(p).ready(),
        old(p).top_kind() == SyntaxKind::DOCUMENT,
        old(p).next_kind() == Some(TokenKind::Name) || (!extension && old(p).next_kind() == Some(
            TokenKind::StringValue,
        )),
    ensures
        final(p).state() == old(p).state().object_type(interface, extension),
        final(p).ready(),
        final(p).keeps(old(p)),
        final(p).follows(old(p)),
        final(p).fuel() < old(p).fuel(),
{
    proof {
        reveal(ParserState::object_type);
    }
    let kind = if interface {
        if extension {
            SyntaxKind::INTERFACE_TYPE_EXTENSION
        } else {
            SyntaxKind::INTERFACE_TYPE_DEFINITION
        }
    } else {
        if extension {
            SyntaxKind::OBJECT_TYPE_EXTENSION
        } else {
            SyntaxKind::OBJECT_TYPE_DEFINITION
        }
    };
    let guard = p.start_node(kind);
    head(p, extension);
    p.expect(TokenKind::Name, SyntaxKind::NAME);
    if p.at_word("implements") {
        implements_interfaces(p);
    }
    if p.at(TokenKind::At) {
        directives(p);
    }
    if p.at(TokenKind::LBrace) {
        fields_definition(p);
    }
    guard.finish_node(p);
}

/// A member of a union, or an error where none stands.
pub(crate) fn union_member(p: &mut Parser)
    requires
        old(p).ready(),
        old(p).top_kind() == SyntaxKind::UNION_MEMBER_TYPES,
    ensures
        final(p).state() == old(p).state().union_member(),
        final(p).ready(),
        final(p).keeps(old(p)),
        final(p).follows(old(p)),
{
    if p.at(TokenKind::Name) {
        named_type(p);
    } else {
        p.err("expected a union member type");
    }
}

/// *UnionMemberTypes*: `=` `|`? NamedType, then `|` NamedType as often as
/// it comes.
pub(crate) fn union_member_types(p: &mut Parser)
    requires
        old(p).ready(),
        old(p).top_kind().admits(SyntaxKind::UNION_MEMBER_TYPES),
        old(p).next_kind() == Some(TokenKind::Equal),
    ensures
        final(p).state() == old(p).state().union_member_types(),
        final(p).ready(),
        final(p).keeps(old(p)),
        final(p).follows(old(p)),
        final(p).fuel() < old(p).fuel(),
{
    proof {
        reveal(ParserState::union_member_types);
    }
    let guard = p.start_node(SyntaxKind::UNION_MEMBER_TYPES);
    p.expect(TokenKind::Equal, SyntaxKind::EQUAL);
    if p.at(TokenKind::Pipe) {
        p.bump(SyntaxKind::PIPE);
    }
    union_member(p);
    let ghost first = p.state();
    while p.at(TokenKind::Pipe)
        invariant
            p.ready(),
            p.keeps(old(p)),
            p.source() == old(p).source(),
            p.depth() == old(p).depth() + 1,
            p.outer() == old(p).frames(),
            p.top_kind() == SyntaxKind::UNION_MEMBER_TYPES,
            p.fuel() < old(p).fuel(),
            p.state().union_member_list() == first.union_member_list(),
        decreases p.fuel(),
    {
        p.bump(SyntaxKind::PIPE);
        union_member(p);
    }
    guard.finish_node(p);
}

/// *UnionTypeDefinition*: Description? `union` Name Directives?
/// UnionMemberTypes?, and its extension.
pub(crate) fn union_type(p: &mut Parser, extension: bool)
    requires
        old(p).ready(),
        old(p).top_kind() == SyntaxKind::DOCUMENT,
        old(p).next_kind() == Some(TokenKind::Name) || (!extension && old(p).next_kind() == Some(
            TokenKind::StringValue,
        )),
    ensures
        final(p).state() == old(p).state().union_type(extension),
        final(p).ready(),
        final(p).keeps(old(p)),
        final(p).follows(old(p)),
        final(p).fuel() < old(p).fuel(),
{
    proof {
        reveal(ParserState::union_type);
    }
    let kind = if extension {
        SyntaxKind::UNION_TYPE_EXTENSION
    } else {
        SyntaxKind::UNION_TYPE_DEFINITION
    };
    let guard = p.start_node(kind);
    head(p, extension);
    p.expect(TokenKind::Name, SyntaxKind::NAME);
    if p.at(TokenKind::At) {
        directives(p);
    }
    if p.at(TokenKind::Equal) {
        union_member_types(p);
    }
    guard.finish_node(p);
}

/// *EnumValueDefinition*: Description? EnumValue Directives?
pub(crate) fn enum_value_definition(p: &mut Parser)
    requires
        old(p).ready(),
        old(p).top_kind().admits(SyntaxKind::ENUM_VALUE_DEFINITION),
        old(p).next_kind() == Some(TokenKind::Name) || old(p).next_kind() == Some(
            TokenKind::StringValue,
        ),
    ensures
        final(p).state() == old(p).state().enum_value_definition(),
        final(p).ready(),
        final(p).keeps(old(p)),
        final(p).follows(old(p)),
        final(p).fuel() < old(p).fuel(),
{
    proof {
        reveal(ParserState::enum_value_definition);
    }
    let guard = p.start_node(SyntaxKind::ENUM_VALUE_DEFINITION);
    if p.at(TokenKind::StringValue) {
        description(p);
    }
    if p.at(TokenKind::Name) {
        token_node(p, SyntaxKind::ENUM_VALUE, TokenKind::Name, SyntaxKind::NAME);
    } else {
        p.err("expected an enum value");
    }
    if p.at(TokenKind::At) {
        directives(p);
    }
    guard.finish_node(p);
}

/// *EnumValuesDefinition*: `{` EnumValueDefinition+ `}`
pub(crate) fn enum_values_definition(p: &mut Parser)
    requires
        old(p).ready(),
        old(p).top_kind().admits(SyntaxKind::ENUM_VALUES_DEFINITION),
        old(p).next_kind() == Some(TokenKind::LBrace),
    ensures
        final(p).state() == old(p).state().enum_values_definition(),
        final(p).ready(),
        final(p).keeps(old(p)),
        final(p).follows(old(p)),
        final(p).fuel() < old(p).fuel(),
{
    proof {
        reveal(ParserState::enum_values_definition);
    }
    let guard = p.start_node(SyntaxKind::ENUM_VALUES_DEFINITION);
    p.expect(TokenKind::LBrace, SyntaxKind::L_BRACE);
    if !(p.at(TokenKind::Name) || p.at(TokenKind::StringValue)) {
        p.err("expected an enum value definition");
    }
    let ghost checked = p.state();
    while p.at(TokenKind::Name) || p.at(TokenKind::StringValue)
        invariant
            p.ready(),
            p.keeps(old(p)),
            p.source() == old(p).source(),
            p.depth() == old(p).depth() + 1,
            p.outer() == old(p).frames(),
            p.top_kind() == SyntaxKind::ENUM_VALUES_DEFINITION,
            p.fuel() < old(p).fuel(),
            p.state().enum_value_list() == checked.enum_value_list(),
        decreases p.fuel(),
    {
        enum_value_definition(p);
    }
    p.expect(TokenKind::RBrace, SyntaxKind::R_BRACE);
    guard.finish_node(p);
}

/// *EnumTypeDefinition*: Description? `enum` Name Directives?
/// EnumValuesDefinition?, and its extension.
pub(crate) fn enum_type(p: &mut Parser, extension: bool)
    requires
        old(p).ready(),
        old(p).top_kind() == SyntaxKind::DOCUMENT,
        old(p).next_kind() == Some(TokenKind::Name) || (!extension && old(p).next_kind() == Some(
            TokenKind::StringValue,
        )),
    ensures
        final(p).state() == old(p).state().enum_type(extension),
        final(p).ready(),
        final(p).keeps(old(p)),
        final(p).follows(old(p)),
        final(p).fuel() < old(p).fuel(),
{
    proof {
        reveal(ParserState::enum_type);
    }
    let kind = if extension {
        SyntaxKind::ENUM_TYPE_EXTENSION
    } else {
        SyntaxKind::ENUM_TYPE_DEFINITION
    };
    let guard = p.start_node(kind);
    head(p, extension);
    p.expect(TokenKind::Name, SyntaxKind::NAME);
    if p.at(TokenKind::At) {
        directives(p);
    }
    if p.at(TokenKind::LBrace) {
        enum_values_definition(p);
    }
    guard.finish_node(p);
}

/// *InputObjectTypeDefinition*: Description? `input` Name Directives?
/// InputFieldsDefinition?, and its extension.
pub(crate) fn input_object_type(p: &mut Parser, extension: bool)
    requires
        old(p).ready(),
        old(p).top_kind() == SyntaxKind::DOCUMENT,
        old(p).next_kind() == Some(TokenKind::Name) || (!extension && old(p).next_kind() == Some(
            TokenKind::StringValue,
        )),
    ensures
        final(p).state() == old(p).state().input_object_type(extension),
        final(p).ready(),
        final(p).keeps(old(p)),
        final(p).follows(old(p)),
        final(p).fuel() < old(p).fuel(),
{
    proof {
        reveal(ParserState::input_object_type);
    }
    let kind = if extension {
        SyntaxKind::INPUT_OBJECT_TYPE_EXTENSION
    } else {
        SyntaxKind::INPUT_OBJECT_TYPE_DEFINITION
    };
    let guard = p.start_node(kind);
    head(p, extension);
    p.expect(TokenKind::Name, SyntaxKind::NAME);
    if p.at(TokenKind::At) {
        directives(p);
    }
    if p.at(TokenKind::LBrace) {
        input_fields_definition(p);
    }
    guard.finish_node(p);
}

/// A directive location, or an error where none stands.
pub(crate) fn directive_location(p: &mut Parser)
    requires
        old(p).ready(),
        old(p).top_kind() == SyntaxKind::DIRECTIVE_LOCATIONS,
    ensures
        final(p).state() == old(p).state().directive_location(),
        final(p).ready(),
        final(p).keeps(old(p)),
        final(p).follows(old(p)),
{
    if p.at(TokenKind::Name) {
        token_node(p, SyntaxKind::DIRECTIVE_LOCATION, TokenKind::Name, SyntaxKind::NAME);
    } else {
        p.err("expected a directive location");
    }
}

/// *DirectiveLocations*: `|`? DirectiveLocation, then `|` DirectiveLocation
/// as often as it comes.
pub(crate) fn directive_locations(p: &mut Parser)
    requires
        old(p).ready(),
        old(p).top_kind().admits(SyntaxKind::DIRECTIVE_LOCATIONS),
    ensures
        final(p).state() == old(p).state().directive_locations(),
        final(p).ready(),
        final(p).keeps(old(p)),
        final(p).follows(old(p)),
{
    proof {
        reveal(ParserState::directive_locations);
    }
    let guard = p.start_node(SyntaxKind::DIRECTIVE_LOCATIONS);
    if p.at(TokenKind::Pipe) {
        p.bump(SyntaxKind::PIPE);
    }
    directive_location(p);
    let ghost first = p.state();
    while p.at(TokenKind::Pipe)
        invariant
            p.ready(),
            p.keeps(old(p)),
            p.source() == old(p).source(),
            p.depth() == old(p).depth() + 1,
            p.outer() == old(p).frames(),
            p.top_kind() == SyntaxKind::DIRECTIVE_LOCATIONS,
            p.fuel() <= old(p).fuel(),
            p.state().directive_location_list() == first.directive_location_list(),
        decreases p.fuel(),
    {
        p.bump(SyntaxKind::PIPE);
        directive_location(p);
    }
    guard.finish_node(p);
}

/// *DirectiveDefinition*: Description? `directive` `@` Name
/// ArgumentsDefinition? `repeatable`? `on` DirectiveLocations
pub(crate) fn directive_definition(p: &mut Parser)
    requires
        old(p).ready(),
        old(p).top_kind() == SyntaxKind::DOCUMENT,
        old(p).next_kind() == Some(TokenKind::Name) || old(p).next_kind() == Some(
            TokenKind::StringValue,
        ),
    ensures
        final(p).state() == old(p).state().directive_definition(),
        final(p).ready(),
        final(p).keeps(old(p)),
        final(p).follows(old(p)),
        final(p).fuel() < old(p).fuel(),
{
    proof {
        reveal(ParserState::directive_definition);
    }
    let guard = p.start_node(SyntaxKind::DIRECTIVE_DEFINITION);
    head(p, false);
    p.expect(TokenKind::At, SyntaxKind::AT);
    p.expect(TokenKind::Name, SyntaxKind::NAME);
    if p.at(TokenKind::LParen) {
        arguments_definition(p);
    }
    if p.at_word("repeatable") {
        p.bump(SyntaxKind::NAME);
    }
    if p.at_word("on") {
        p.bump(SyntaxKind::NAME);
    } else {
        p.err("expected `on`");
    }
    directive_locations(p);
    guard.finish_node(p);
}

} // verus!
