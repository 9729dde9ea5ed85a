//! The kinds that the elements of a syntax tree are tagged with.
use vstd::prelude::*;
use crate::token::TokenKind;

verus! {

/// The kind of an element of the syntax tree. The first kinds are those of
/// tokens, one for each kind of token that the lexer knows; the others are
/// those of nodes, one for each production of the grammar that a reader of
/// the tree has to tell apart.
#[allow(non_camel_case_types)]
#[derive(Clone, Copy, PartialEq, Eq, Structural, Debug, Hash)]
pub enum SyntaxKind {
    /// `!`
    BANG,
    /// `$`
    DOLLAR,
    /// `(`
    L_PAREN,
    /// `)`
    R_PAREN,
    /// `...`
    SPREAD,
    /// `:`
    COLON,
    /// `=`
    EQUAL,
    /// `@`
    AT,
    /// `[`
    L_BRACKET,
    /// `]`
    R_BRACKET,
    /// `{`
    L_BRACE,
    /// `}`
    R_BRACE,
    /// `|`
    PIPE,
    /// A name or a keyword.
    NAME,
    /// A string literal, quotes included.
    STRING,
    /// An integer literal.
    INT,
    /// A floating-point literal.
    FLOAT,
    /// A run of spaces, tabs and line breaks.
    WHITESPACE,
    /// A `#` comment.
    COMMENT,
    /// `,`
    COMMA,
    /// The end of the input.
    EOF,
    DOCUMENT,
    OPERATION_DEFINITION,
    OPERATION_TYPE,
    VARIABLE_DEFINITIONS,
    VARIABLE_DEFINITION,
    DEFAULT_VALUE,
    SELECTION_SET,
    FIELD,
    ALIAS,
    ARGUMENTS,
    ARGUMENT,
    FRAGMENT_SPREAD,
    INLINE_FRAGMENT,
    FRAGMENT_DEFINITION,
    FRAGMENT_NAME,
    TYPE_CONDITION,
    DIRECTIVES,
    DIRECTIVE,
    VARIABLE,
    STRING_VALUE,
    INT_VALUE,
    FLOAT_VALUE,
    BOOLEAN_VALUE,
    NULL_VALUE,
    ENUM_VALUE,
    LIST_VALUE,
    OBJECT_VALUE,
    OBJECT_FIELD,
    NAMED_TYPE,
    LIST_TYPE,
    NON_NULL_TYPE,
    DESCRIPTION,
    SCHEMA_DEFINITION,
    SCHEMA_EXTENSION,
    ROOT_OPERATION_TYPE_DEFINITION,
    SCALAR_TYPE_DEFINITION,
    SCALAR_TYPE_EXTENSION,
    OBJECT_TYPE_DEFINITION,
    OBJECT_TYPE_EXTENSION,
    IMPLEMENTS_INTERFACES,
    FIELDS_DEFINITION,
    FIELD_DEFINITION,
    ARGUMENTS_DEFINITION,
    INPUT_VALUE_DEFINITION,
    INTERFACE_TYPE_DEFINITION,
    INTERFACE_TYPE_EXTENSION,
    UNION_TYPE_DEFINITION,
    UNION_TYPE_EXTENSION,
    UNION_MEMBER_TYPES,
    ENUM_TYPE_DEFINITION,
    ENUM_TYPE_EXTENSION,
    ENUM_VALUES_DEFINITION,
    ENUM_VALUE_DEFINITION,
    INPUT_OBJECT_TYPE_DEFINITION,
    INPUT_OBJECT_TYPE_EXTENSION,
    INPUT_FIELDS_DEFINITION,
    DIRECTIVE_DEFINITION,
    DIRECTIVE_LOCATIONS,
    DIRECTIVE_LOCATION,
    ERROR,
}

impl SyntaxKind {
    /// The kind that a token of kind `kind` has in the tree.
    pub open spec fn of(kind: TokenKind) -> SyntaxKind {
        match kind {
            TokenKind::Bang => SyntaxKind::BANG,
            TokenKind::Dollar => SyntaxKind::DOLLAR,
            TokenKind::LParen => SyntaxKind::L_PAREN,
            TokenKind::RParen => SyntaxKind::R_PAREN,
            TokenKind::Spread => SyntaxKind::SPREAD,
            TokenKind::Colon => SyntaxKind::COLON,
            TokenKind::Equal => SyntaxKind::EQUAL,
            TokenKind::At => SyntaxKind::AT,
            TokenKind::LBracket => SyntaxKind::L_BRACKET,
            TokenKind::RBracket => SyntaxKind::R_BRACKET,
            TokenKind::LBrace => SyntaxKind::L_BRACE,
            TokenKind::RBrace => SyntaxKind::R_BRACE,
            TokenKind::Pipe => SyntaxKind::PIPE,
            TokenKind::Name => SyntaxKind::NAME,
            TokenKind::StringValue => SyntaxKind::STRING,
            TokenKind::Int => SyntaxKind::INT,
            TokenKind::Float => SyntaxKind::FLOAT,
            TokenKind::Whitespace => SyntaxKind::WHITESPACE,
            TokenKind::Comment => SyntaxKind::COMMENT,
            TokenKind::Comma => SyntaxKind::COMMA,
            TokenKind::Eof => SyntaxKind::EOF,
        }
    }

    /// The kind that a token of kind `kind` has in the tree.
    pub fn from_token(kind: TokenKind) -> (k: SyntaxKind)
        ensures
            k == SyntaxKind::of(kind),
    {
        match kind {
            TokenKind::Bang => SyntaxKind::BANG,
            TokenKind::Dollar => SyntaxKind::DOLLAR,
            TokenKind::LParen => SyntaxKind::L_PAREN,
            TokenKind::RParen => SyntaxKind::R_PAREN,
            TokenKind::Spread => SyntaxKind::SPREAD,
            TokenKind::Colon => SyntaxKind::COLON,
            TokenKind::Equal => SyntaxKind::EQUAL,
            TokenKind::At => SyntaxKind::AT,
            TokenKind::LBracket => SyntaxKind::L_BRACKET,
            TokenKind::RBracket => SyntaxKind::R_BRACKET,
            TokenKind::LBrace => SyntaxKind::L_BRACE,
            TokenKind::RBrace => SyntaxKind::R_BRACE,
            TokenKind::Pipe => SyntaxKind::PIPE,
            TokenKind::Name => SyntaxKind::NAME,
            TokenKind::StringValue => SyntaxKind::STRING,
            TokenKind::Int => SyntaxKind::INT,
            TokenKind::Float => SyntaxKind::FLOAT,
            TokenKind::Whitespace => SyntaxKind::WHITESPACE,
            TokenKind::Comment => SyntaxKind::COMMENT,
            TokenKind::Comma => SyntaxKind::COMMA,
            TokenKind::Eof => SyntaxKind::EOF,
        }
    }

    /// Whether this is the kind of a token rather than of a node.
    pub open spec fn is_token(self) -> bool {
        self == SyntaxKind::BANG
            || self == SyntaxKind::DOLLAR
            || self == SyntaxKind::L_PAREN
            || self == SyntaxKind::R_PAREN
            || self == SyntaxKind::SPREAD
            || self == SyntaxKind::COLON
            || self == SyntaxKind::EQUAL
            || self == SyntaxKind::AT
            || self == SyntaxKind::L_BRACKET
            || self == SyntaxKind::R_BRACKET
            || self == SyntaxKind::L_BRACE
            || self == SyntaxKind::R_BRACE
            || self == SyntaxKind::PIPE
            || self == SyntaxKind::NAME
            || self == SyntaxKind::STRING
            || self == SyntaxKind::INT
            || self == SyntaxKind::FLOAT
            || self == SyntaxKind::WHITESPACE
            || self == SyntaxKind::COMMENT
            || self == SyntaxKind::COMMA
            || self == SyntaxKind::EOF
    }

    /// Whether this is the kind of a token rather than of a node.
    pub fn check_is_token(self) -> (r: bool)
        ensures
            r == self.is_token(),
    {
        self == SyntaxKind::BANG
            || self == SyntaxKind::DOLLAR
            || self == SyntaxKind::L_PAREN
            || self == SyntaxKind::R_PAREN
            || self == SyntaxKind::SPREAD
            || self == SyntaxKind::COLON
            || self == SyntaxKind::EQUAL
            || self == SyntaxKind::AT
            || self == SyntaxKind::L_BRACKET
            || self == SyntaxKind::R_BRACKET
            || self == SyntaxKind::L_BRACE
            || self == SyntaxKind::R_BRACE
            || self == SyntaxKind::PIPE
            || self == SyntaxKind::NAME
            || self == SyntaxKind::STRING
            || self == SyntaxKind::INT
            || self == SyntaxKind::FLOAT
            || self == SyntaxKind::WHITESPACE
            || self == SyntaxKind::COMMENT
            || self == SyntaxKind::COMMA
            || self == SyntaxKind::EOF
    }

    /// Whether this is the kind of a value.
    pub open spec fn is_value(self) -> bool {
        self == SyntaxKind::VARIABLE
            || self == SyntaxKind::STRING_VALUE
            || self == SyntaxKind::INT_VALUE
            || self == SyntaxKind::FLOAT_VALUE
            || self == SyntaxKind::BOOLEAN_VALUE
            || self == SyntaxKind::NULL_VALUE
            || self == SyntaxKind::ENUM_VALUE
            || self == SyntaxKind::LIST_VALUE
            || self == SyntaxKind::OBJECT_VALUE
    }

    /// Whether this is the kind of a value.
    pub fn check_is_value(self) -> (r: bool)
        ensures
            r == self.is_value(),
    {
        self == SyntaxKind::VARIABLE
            || self == SyntaxKind::STRING_VALUE
            || self == SyntaxKind::INT_VALUE
            || self == SyntaxKind::FLOAT_VALUE
            || self == SyntaxKind::BOOLEAN_VALUE
            || self == SyntaxKind::NULL_VALUE
            || self == SyntaxKind::ENUM_VALUE
            || self == SyntaxKind::LIST_VALUE
            || self == SyntaxKind::OBJECT_VALUE
    }

    /// Whether this is the kind of a type.
    pub open spec fn is_type(self) -> bool {
        self == SyntaxKind::NAMED_TYPE
            || self == SyntaxKind::LIST_TYPE
            || self == SyntaxKind::NON_NULL_TYPE
    }

    /// Whether this is the kind of a type.
    pub fn check_is_type(self) -> (r: bool)
        ensures
            r == self.is_type(),
    {
        self == SyntaxKind::NAMED_TYPE
            || self == SyntaxKind::LIST_TYPE
            || self == SyntaxKind::NON_NULL_TYPE
    }

    /// Whether this is the kind of a definition, the children of a document.
    pub open spec fn is_definition(self) -> bool {
        self == SyntaxKind::OPERATION_DEFINITION
            || self == SyntaxKind::FRAGMENT_DEFINITION
            || self == SyntaxKind::SCHEMA_DEFINITION
            || self == SyntaxKind::SCHEMA_EXTENSION
            || self == SyntaxKind::SCALAR_TYPE_DEFINITION
            || self == SyntaxKind::SCALAR_TYPE_EXTENSION
            || self == SyntaxKind::OBJECT_TYPE_DEFINITION
            || self == SyntaxKind::OBJECT_TYPE_EXTENSION
            || self == SyntaxKind::INTERFACE_TYPE_DEFINITION
            || self == SyntaxKind::INTERFACE_TYPE_EXTENSION
            || self == SyntaxKind::UNION_TYPE_DEFINITION
            || self == SyntaxKind::UNION_TYPE_EXTENSION
            || self == SyntaxKind::ENUM_TYPE_DEFINITION
            || self == SyntaxKind::ENUM_TYPE_EXTENSION
            || self == SyntaxKind::INPUT_OBJECT_TYPE_DEFINITION
            || self == SyntaxKind::INPUT_OBJECT_TYPE_EXTENSION
            || self == SyntaxKind::DIRECTIVE_DEFINITION
    }

    /// Whether this is the kind of a definition, the children of a document.
    pub fn check_is_definition(self) -> (r: bool)
        ensures
            r == self.is_definition(),
    {
        self == SyntaxKind::OPERATION_DEFINITION
            || self == SyntaxKind::FRAGMENT_DEFINITION
            || self == SyntaxKind::SCHEMA_DEFINITION
            || self == SyntaxKind::SCHEMA_EXTENSION
            || self == SyntaxKind::SCALAR_TYPE_DEFINITION
            || self == SyntaxKind::SCALAR_TYPE_EXTENSION
            || self == SyntaxKind::OBJECT_TYPE_DEFINITION
            || self == SyntaxKind::OBJECT_TYPE_EXTENSION
            || self == SyntaxKind::INTERFACE_TYPE_DEFINITION
            || self == SyntaxKind::INTERFACE_TYPE_EXTENSION
            || self == SyntaxKind::UNION_TYPE_DEFINITION
            || self == SyntaxKind::UNION_TYPE_EXTENSION
            || self == SyntaxKind::ENUM_TYPE_DEFINITION
            || self == SyntaxKind::ENUM_TYPE_EXTENSION
            || self == SyntaxKind::INPUT_OBJECT_TYPE_DEFINITION
            || self == SyntaxKind::INPUT_OBJECT_TYPE_EXTENSION
            || self == SyntaxKind::DIRECTIVE_DEFINITION
    }

    /// Whether this is the kind of a selection.
    pub open spec fn is_selection(self) -> bool {
        self == SyntaxKind::FIELD || self == SyntaxKind::FRAGMENT_SPREAD || self
            == SyntaxKind::INLINE_FRAGMENT
    }

    /// Whether this is the kind of a selection.
    pub fn check_is_selection(self) -> (r: bool)
        ensures
            r == self.is_selection(),
    {
        self == SyntaxKind::FIELD || self == SyntaxKind::FRAGMENT_SPREAD || self
            == SyntaxKind::INLINE_FRAGMENT
    }

    /// Whether a node of this kind may have any value as a child.
    pub open spec fn takes_values(self) -> bool {
        self == SyntaxKind::DEFAULT_VALUE || self == SyntaxKind::ARGUMENT || self
            == SyntaxKind::LIST_VALUE || self == SyntaxKind::OBJECT_FIELD
    }

    /// Whether a node of this kind may have any type as a child.
    pub open spec fn takes_types(self) -> bool {
        self == SyntaxKind::VARIABLE_DEFINITION || self == SyntaxKind::LIST_TYPE || self
            == SyntaxKind::FIELD_DEFINITION || self == SyntaxKind::INPUT_VALUE_DEFINITION
    }

    /// Whether a node of kind `self` may have a child of kind `child`. This
    /// is the shape of the grammar: each node holds what its production
    /// names, and trivia may stand in every node.
    pub open spec fn admits(self, child: SyntaxKind) -> bool {
        child.is_trivia() || match self {
            SyntaxKind::DOCUMENT => {
                child.is_definition()
            },
            SyntaxKind::OPERATION_DEFINITION => {
                child == SyntaxKind::OPERATION_TYPE
                    || child == SyntaxKind::NAME
                    || child == SyntaxKind::VARIABLE_DEFINITIONS
                    || child == SyntaxKind::DIRECTIVES
                    || child == SyntaxKind::SELECTION_SET
            },
            SyntaxKind::OPERATION_TYPE => {
                child == SyntaxKind::NAME
            },
            SyntaxKind::VARIABLE_DEFINITIONS => {
                child == SyntaxKind::L_PAREN
                    || child == SyntaxKind::VARIABLE_DEFINITION
                    || child == SyntaxKind::R_PAREN
            },
            SyntaxKind::VARIABLE_DEFINITION => {
                child == SyntaxKind::VARIABLE
                    || child == SyntaxKind::COLON
                    || child == SyntaxKind::DEFAULT_VALUE
                    || child == SyntaxKind::DIRECTIVES
                    || child.is_type()
            },
            SyntaxKind::DEFAULT_VALUE => {
                child == SyntaxKind::EQUAL
                    || child.is_value()
            },
            SyntaxKind::SELECTION_SET => {
                child == SyntaxKind::L_BRACE
                    || child == SyntaxKind::FIELD
                    || child == SyntaxKind::FRAGMENT_SPREAD
                    || child == SyntaxKind::INLINE_FRAGMENT
                    || child == SyntaxKind::R_BRACE
            },
            SyntaxKind::FIELD => {
                child == SyntaxKind::ALIAS
                    || child == SyntaxKind::NAME
                    || child == SyntaxKind::ARGUMENTS
                    || child == SyntaxKind::DIRECTIVES
                    || child == SyntaxKind::SELECTION_SET
            },
            SyntaxKind::ALIAS => {
                child == SyntaxKind::NAME
                    || child == SyntaxKind::COLON
            },
            SyntaxKind::ARGUMENTS => {
                child == SyntaxKind::L_PAREN
                    || child == SyntaxKind::ARGUMENT
                    || child == SyntaxKind::R_PAREN
            },
            SyntaxKind::ARGUMENT => {
                child == SyntaxKind::NAME
                    || child == SyntaxKind::COLON
                    || child.is_value()
            },
            SyntaxKind::FRAGMENT_SPREAD => {
                child == SyntaxKind::SPREAD
                    || child == SyntaxKind::FRAGMENT_NAME
                    || child == SyntaxKind::DIRECTIVES
            },
            SyntaxKind::INLINE_FRAGMENT => {
                child == SyntaxKind::SPREAD
                    || child == SyntaxKind::TYPE_CONDITION
                    || child == SyntaxKind::DIRECTIVES
                    || child == SyntaxKind::SELECTION_SET
            },
            SyntaxKind::FRAGMENT_DEFINITION => {
                child == SyntaxKind::NAME
                    || child == SyntaxKind::FRAGMENT_NAME
                    || child == SyntaxKind::TYPE_CONDITION
                    || child == SyntaxKind::DIRECTIVES
                    || child == SyntaxKind::SELECTION_SET
            },
            SyntaxKind::FRAGMENT_NAME => {
                child == SyntaxKind::NAME
            },
            SyntaxKind::TYPE_CONDITION => {
                child == SyntaxKind::NAME
                    || child == SyntaxKind::NAMED_TYPE
            },
            SyntaxKind::DIRECTIVES => {
                child == SyntaxKind::DIRECTIVE
            },
            SyntaxKind::DIRECTIVE => {
                child == SyntaxKind::AT
                    || child == SyntaxKind::NAME
                    || child == SyntaxKind::ARGUMENTS
            },
            SyntaxKind::VARIABLE => {
                child == SyntaxKind::DOLLAR
                    || child == SyntaxKind::NAME
            },
            SyntaxKind::STRING_VALUE => {
                child == SyntaxKind::STRING
            },
            SyntaxKind::INT_VALUE => {
                child == SyntaxKind::INT
            },
            SyntaxKind::FLOAT_VALUE => {
                child == SyntaxKind::FLOAT
            },
            SyntaxKind::BOOLEAN_VALUE => {
                child == SyntaxKind::NAME
            },
            SyntaxKind::NULL_VALUE => {
                child == SyntaxKind::NAME
            },
            SyntaxKind::ENUM_VALUE => {
                child == SyntaxKind::NAME
            },
            SyntaxKind::LIST_VALUE => {
                child == SyntaxKind::L_BRACKET
                    || child == SyntaxKind::R_BRACKET
                    || child.is_value()
            },
            SyntaxKind::OBJECT_VALUE => {
                child == SyntaxKind::L_BRACE
                    || child == SyntaxKind::OBJECT_FIELD
                    || child == SyntaxKind::R_BRACE
            },
            SyntaxKind::OBJECT_FIELD => {
                child == SyntaxKind::NAME
                    || child == SyntaxKind::COLON
                    || child.is_value()
            },
            SyntaxKind::NAMED_TYPE => {
                child == SyntaxKind::NAME
            },
            SyntaxKind::LIST_TYPE => {
                child == SyntaxKind::L_BRACKET
                    || child == SyntaxKind::R_BRACKET
                    || child.is_type()
            },
            SyntaxKind::NON_NULL_TYPE => {
                child == SyntaxKind::NAMED_TYPE
                    || child == SyntaxKind::LIST_TYPE
                    || child == SyntaxKind::BANG
            },
            SyntaxKind::DESCRIPTION => {
                child == SyntaxKind::STRING
            },
            SyntaxKind::SCHEMA_DEFINITION => {
                child == SyntaxKind::DESCRIPTION
                    || child == SyntaxKind::NAME
                    || child == SyntaxKind::DIRECTIVES
                    || child == SyntaxKind::L_BRACE
                    || child == SyntaxKind::ROOT_OPERATION_TYPE_DEFINITION
                    || child == SyntaxKind::R_BRACE
            },
            SyntaxKind::SCHEMA_EXTENSION => {
                child == SyntaxKind::NAME
                    || child == SyntaxKind::DIRECTIVES
                    || child == SyntaxKind::L_BRACE
                    || child == SyntaxKind::ROOT_OPERATION_TYPE_DEFINITION
                    || child == SyntaxKind::R_BRACE
            },
            SyntaxKind::ROOT_OPERATION_TYPE_DEFINITION => {
                child == SyntaxKind::OPERATION_TYPE
                    || child == SyntaxKind::COLON
                    || child == SyntaxKind::NAMED_TYPE
            },
            SyntaxKind::SCALAR_TYPE_DEFINITION => {
                child == SyntaxKind::DESCRIPTION
                    || child == SyntaxKind::NAME
                    || child == SyntaxKind::DIRECTIVES
            },
            SyntaxKind::SCALAR_TYPE_EXTENSION => {
                child == SyntaxKind::NAME
                    || child == SyntaxKind::DIRECTIVES
            },
            SyntaxKind::OBJECT_TYPE_DEFINITION => {
                child == SyntaxKind::DESCRIPTION
                    || child == SyntaxKind::NAME
                    || child == SyntaxKind::IMPLEMENTS_INTERFACES
                    || child == SyntaxKind::DIRECTIVES
                    || child == SyntaxKind::FIELDS_DEFINITION
            },
            SyntaxKind::OBJECT_TYPE_EXTENSION => {
                child == SyntaxKind::NAME
                    || child == SyntaxKind::IMPLEMENTS_INTERFACES
                    || child == SyntaxKind::DIRECTIVES
                    || child == SyntaxKind::FIELDS_DEFINITION
            },
            SyntaxKind::IMPLEMENTS_INTERFACES => {
                child == SyntaxKind::NAME
                    || child == SyntaxKind::NAMED_TYPE
            },
            SyntaxKind::FIELDS_DEFINITION => {
                child == SyntaxKind::L_BRACE
                    || child == SyntaxKind::FIELD_DEFINITION
                    || child == SyntaxKind::R_BRACE
            },
            SyntaxKind::FIELD_DEFINITION => {
                child == SyntaxKind::DESCRIPTION
                    || child == SyntaxKind::NAME
                    || child == SyntaxKind::ARGUMENTS_DEFINITION
                    || child == SyntaxKind::COLON
                    || child == SyntaxKind::DIRECTIVES
                    || child.is_type()
            },
            SyntaxKind::ARGUMENTS_DEFINITION => {
                child == SyntaxKind::L_PAREN
                    || child == SyntaxKind::INPUT_VALUE_DEFINITION
                    || child == SyntaxKind::R_PAREN
            },
            SyntaxKind::INPUT_VALUE_DEFINITION => {
                child == SyntaxKind::DESCRIPTION
                    || child == SyntaxKind::NAME
                    || child == SyntaxKind::COLON
                    || child == SyntaxKind::DEFAULT_VALUE
                    || child == SyntaxKind::DIRECTIVES
                    || child.is_type()
            },
            SyntaxKind::INTERFACE_TYPE_DEFINITION => {
                child == SyntaxKind::DESCRIPTION
                    || child == SyntaxKind::NAME
                    || child == SyntaxKind::IMPLEMENTS_INTERFACES
                    || child == SyntaxKind::DIRECTIVES
                    || child == SyntaxKind::FIELDS_DEFINITION
            },
            SyntaxKind::INTERFACE_TYPE_EXTENSION => {
                child == SyntaxKind::NAME
                    || child == SyntaxKind::IMPLEMENTS_INTERFACES
                    || child == SyntaxKind::DIRECTIVES
                    || child == SyntaxKind::FIELDS_DEFINITION
            },
            SyntaxKind::UNION_TYPE_DEFINITION => {
                child == SyntaxKind::DESCRIPTION
                    || child == SyntaxKind::NAME
                    || child == SyntaxKind::DIRECTIVES
                    || child == SyntaxKind::UNION_MEMBER_TYPES
            },
            SyntaxKind::UNION_TYPE_EXTENSION => {
                child == SyntaxKind::NAME
                    || child == SyntaxKind::DIRECTIVES
                    || child == SyntaxKind::UNION_MEMBER_TYPES
            },
            SyntaxKind::UNION_MEMBER_TYPES => {
                child == SyntaxKind::EQUAL
                    || child == SyntaxKind::PIPE
                    || child == SyntaxKind::NAMED_TYPE
            },
            SyntaxKind::ENUM_TYPE_DEFINITION => {
                child == SyntaxKind::DESCRIPTION
                    || child == SyntaxKind::NAME
                    || child == SyntaxKind::DIRECTIVES
                    || child == SyntaxKind::ENUM_VALUES_DEFINITION
            },
            SyntaxKind::ENUM_TYPE_EXTENSION => {
                child == SyntaxKind::NAME
                    || child == SyntaxKind::DIRECTIVES
                    || child == SyntaxKind::ENUM_VALUES_DEFINITION
            },
            SyntaxKind::ENUM_VALUES_DEFINITION => {
                child == SyntaxKind::L_BRACE
                    || child == SyntaxKind::ENUM_VALUE_DEFINITION
                    || child == SyntaxKind::R_BRACE
            },
            SyntaxKind::ENUM_VALUE_DEFINITION => {
                child == SyntaxKind::DESCRIPTION
                    || child == SyntaxKind::ENUM_VALUE
                    || child == SyntaxKind::DIRECTIVES
            },
            SyntaxKind::INPUT_OBJECT_TYPE_DEFINITION => {
                child == SyntaxKind::DESCRIPTION
                    || child == SyntaxKind::NAME
                    || child == SyntaxKind::DIRECTIVES
                    || child == SyntaxKind::INPUT_FIELDS_DEFINITION
            },
            SyntaxKind::INPUT_OBJECT_TYPE_EXTENSION => {
                child == SyntaxKind::NAME
                    || child == SyntaxKind::DIRECTIVES
                    || child == SyntaxKind::INPUT_FIELDS_DEFINITION
            },
            SyntaxKind::INPUT_FIELDS_DEFINITION => {
                child == SyntaxKind::L_BRACE
                    || child == SyntaxKind::INPUT_VALUE_DEFINITION
                    || child == SyntaxKind::R_BRACE
            },
            SyntaxKind::DIRECTIVE_DEFINITION => {
                child == SyntaxKind::DESCRIPTION
                    || child == SyntaxKind::NAME
                    || child == SyntaxKind::AT
                    || child == SyntaxKind::ARGUMENTS_DEFINITION
                    || child == SyntaxKind::DIRECTIVE_LOCATIONS
            },
            SyntaxKind::DIRECTIVE_LOCATIONS => {
                child == SyntaxKind::PIPE
                    || child == SyntaxKind::DIRECTIVE_LOCATION
            },
            SyntaxKind::DIRECTIVE_LOCATION => {
                child == SyntaxKind::NAME
            },
            _ => false,
        }
    }

    /// Whether this is the kind of whitespace, of a comment or of a comma.
    pub open spec fn is_trivia(self) -> bool {
        self == SyntaxKind::WHITESPACE || self == SyntaxKind::COMMENT || self == SyntaxKind::COMMA
    }

    /// Whether this is the kind of whitespace, of a comment or of a comma.
    pub fn trivia(self) -> (r: bool)
        ensures
            r == self.is_trivia(),
    {
        self == SyntaxKind::WHITESPACE || self == SyntaxKind::COMMENT || self == SyntaxKind::COMMA
    }

    /// Whether a token may carry this tag in place of its own kind: trivia
    /// keeps its kind, and nothing else is passed off as trivia.
    pub open spec fn fits(self, kind: TokenKind) -> bool {
        if kind.is_trivia() {
            self == SyntaxKind::of(kind)
        } else {
            !self.is_trivia()
        }
    }

    /// The name of the kind, as it is written in diagnostics.
    pub open spec fn label(self) -> Seq<char> {
        match self {
            SyntaxKind::BANG => "BANG"@,
            SyntaxKind::DOLLAR => "DOLLAR"@,
            SyntaxKind::L_PAREN => "L_PAREN"@,
            SyntaxKind::R_PAREN => "R_PAREN"@,
            SyntaxKind::SPREAD => "SPREAD"@,
            SyntaxKind::COLON => "COLON"@,
            SyntaxKind::EQUAL => "EQUAL"@,
            SyntaxKind::AT => "AT"@,
            SyntaxKind::L_BRACKET => "L_BRACKET"@,
            SyntaxKind::R_BRACKET => "R_BRACKET"@,
            SyntaxKind::L_BRACE => "L_BRACE"@,
            SyntaxKind::R_BRACE => "R_BRACE"@,
            SyntaxKind::PIPE => "PIPE"@,
            SyntaxKind::NAME => "NAME"@,
            SyntaxKind::STRING => "STRING"@,
            SyntaxKind::INT => "INT"@,
            SyntaxKind::FLOAT => "FLOAT"@,
            SyntaxKind::WHITESPACE => "WHITESPACE"@,
            SyntaxKind::COMMENT => "COMMENT"@,
            SyntaxKind::COMMA => "COMMA"@,
            SyntaxKind::EOF => "EOF"@,
            SyntaxKind::DOCUMENT => "DOCUMENT"@,
            SyntaxKind::OPERATION_DEFINITION => "OPERATION_DEFINITION"@,
            SyntaxKind::OPERATION_TYPE => "OPERATION_TYPE"@,
            SyntaxKind::VARIABLE_DEFINITIONS => "VARIABLE_DEFINITIONS"@,
            SyntaxKind::VARIABLE_DEFINITION => "VARIABLE_DEFINITION"@,
            SyntaxKind::DEFAULT_VALUE => "DEFAULT_VALUE"@,
            SyntaxKind::SELECTION_SET => "SELECTION_SET"@,
            SyntaxKind::FIELD => "FIELD"@,
            SyntaxKind::ALIAS => "ALIAS"@,
            SyntaxKind::ARGUMENTS => "ARGUMENTS"@,
            SyntaxKind::ARGUMENT => "ARGUMENT"@,
            SyntaxKind::FRAGMENT_SPREAD => "FRAGMENT_SPREAD"@,
            SyntaxKind::INLINE_FRAGMENT => "INLINE_FRAGMENT"@,
            SyntaxKind::FRAGMENT_DEFINITION => "FRAGMENT_DEFINITION"@,
            SyntaxKind::FRAGMENT_NAME => "FRAGMENT_NAME"@,
            SyntaxKind::TYPE_CONDITION => "TYPE_CONDITION"@,
            SyntaxKind::DIRECTIVES => "DIRECTIVES"@,
            SyntaxKind::DIRECTIVE => "DIRECTIVE"@,
            SyntaxKind::VARIABLE => "VARIABLE"@,
            SyntaxKind::STRING_VALUE => "STRING_VALUE"@,
            SyntaxKind::INT_VALUE => "INT_VALUE"@,
            SyntaxKind::FLOAT_VALUE => "FLOAT_VALUE"@,
            SyntaxKind::BOOLEAN_VALUE => "BOOLEAN_VALUE"@,
            SyntaxKind::NULL_VALUE => "NULL_VALUE"@,
            SyntaxKind::ENUM_VALUE => "ENUM_VALUE"@,
            SyntaxKind::LIST_VALUE => "LIST_VALUE"@,
            SyntaxKind::OBJECT_VALUE => "OBJECT_VALUE"@,
            SyntaxKind::OBJECT_FIELD => "OBJECT_FIELD"@,
            SyntaxKind::NAMED_TYPE => "NAMED_TYPE"@,
            SyntaxKind::LIST_TYPE => "LIST_TYPE"@,
            SyntaxKind::NON_NULL_TYPE => "NON_NULL_TYPE"@,
            SyntaxKind::DESCRIPTION => "DESCRIPTION"@,
            SyntaxKind::SCHEMA_DEFINITION => "SCHEMA_DEFINITION"@,
            SyntaxKind::SCHEMA_EXTENSION => "SCHEMA_EXTENSION"@,
            SyntaxKind::ROOT_OPERATION_TYPE_DEFINITION => "ROOT_OPERATION_TYPE_DEFINITION"@,
            SyntaxKind::SCALAR_TYPE_DEFINITION => "SCALAR_TYPE_DEFINITION"@,
            SyntaxKind::SCALAR_TYPE_EXTENSION => "SCALAR_TYPE_EXTENSION"@,
            SyntaxKind::OBJECT_TYPE_DEFINITION => "OBJECT_TYPE_DEFINITION"@,
            SyntaxKind::OBJECT_TYPE_EXTENSION => "OBJECT_TYPE_EXTENSION"@,
            SyntaxKind::IMPLEMENTS_INTERFACES => "IMPLEMENTS_INTERFACES"@,
            SyntaxKind::FIELDS_DEFINITION => "FIELDS_DEFINITION"@,
            SyntaxKind::FIELD_DEFINITION => "FIELD_DEFINITION"@,
            SyntaxKind::ARGUMENTS_DEFINITION => "ARGUMENTS_DEFINITION"@,
            SyntaxKind::INPUT_VALUE_DEFINITION => "INPUT_VALUE_DEFINITION"@,
            SyntaxKind::INTERFACE_TYPE_DEFINITION => "INTERFACE_TYPE_DEFINITION"@,
            SyntaxKind::INTERFACE_TYPE_EXTENSION => "INTERFACE_TYPE_EXTENSION"@,
            SyntaxKind::UNION_TYPE_DEFINITION => "UNION_TYPE_DEFINITION"@,
            SyntaxKind::UNION_TYPE_EXTENSION => "UNION_TYPE_EXTENSION"@,
            SyntaxKind::UNION_MEMBER_TYPES => "UNION_MEMBER_TYPES"@,
            SyntaxKind::ENUM_TYPE_DEFINITION => "ENUM_TYPE_DEFINITION"@,
            SyntaxKind::ENUM_TYPE_EXTENSION => "ENUM_TYPE_EXTENSION"@,
            SyntaxKind::ENUM_VALUES_DEFINITION => "ENUM_VALUES_DEFINITION"@,
            SyntaxKind::ENUM_VALUE_DEFINITION => "ENUM_VALUE_DEFINITION"@,
            SyntaxKind::INPUT_OBJECT_TYPE_DEFINITION => "INPUT_OBJECT_TYPE_DEFINITION"@,
            SyntaxKind::INPUT_OBJECT_TYPE_EXTENSION => "INPUT_OBJECT_TYPE_EXTENSION"@,
            SyntaxKind::INPUT_FIELDS_DEFINITION => "INPUT_FIELDS_DEFINITION"@,
            SyntaxKind::DIRECTIVE_DEFINITION => "DIRECTIVE_DEFINITION"@,
            SyntaxKind::DIRECTIVE_LOCATIONS => "DIRECTIVE_LOCATIONS"@,
            SyntaxKind::DIRECTIVE_LOCATION => "DIRECTIVE_LOCATION"@,
            SyntaxKind::ERROR => "ERROR"@,
        }
    }

    /// The name of the kind, as it is written in diagnostics.
    pub fn name(self) -> (s: &'static str)
        ensures
            s@ == self.label(),
    {
        match self {
            SyntaxKind::BANG => "BANG",
            SyntaxKind::DOLLAR => "DOLLAR",
            SyntaxKind::L_PAREN => "L_PAREN",
            SyntaxKind::R_PAREN => "R_PAREN",
            SyntaxKind::SPREAD => "SPREAD",
            SyntaxKind::COLON => "COLON",
            SyntaxKind::EQUAL => "EQUAL",
            SyntaxKind::AT => "AT",
            SyntaxKind::L_BRACKET => "L_BRACKET",
            SyntaxKind::R_BRACKET => "R_BRACKET",
            SyntaxKind::L_BRACE => "L_BRACE",
            SyntaxKind::R_BRACE => "R_BRACE",
            SyntaxKind::PIPE => "PIPE",
            SyntaxKind::NAME => "NAME",
            SyntaxKind::STRING => "STRING",
            SyntaxKind::INT => "INT",
            SyntaxKind::FLOAT => "FLOAT",
            SyntaxKind::WHITESPACE => "WHITESPACE",
            SyntaxKind::COMMENT => "COMMENT",
            SyntaxKind::COMMA => "COMMA",
            SyntaxKind::EOF => "EOF",
            SyntaxKind::DOCUMENT => "DOCUMENT",
            SyntaxKind::OPERATION_DEFINITION => "OPERATION_DEFINITION",
            SyntaxKind::OPERATION_TYPE => "OPERATION_TYPE",
            SyntaxKind::VARIABLE_DEFINITIONS => "VARIABLE_DEFINITIONS",
            SyntaxKind::VARIABLE_DEFINITION => "VARIABLE_DEFINITION",
            SyntaxKind::DEFAULT_VALUE => "DEFAULT_VALUE",
            SyntaxKind::SELECTION_SET => "SELECTION_SET",
            SyntaxKind::FIELD => "FIELD",
            SyntaxKind::ALIAS => "ALIAS",
            SyntaxKind::ARGUMENTS => "ARGUMENTS",
            SyntaxKind::ARGUMENT => "ARGUMENT",
            SyntaxKind::FRAGMENT_SPREAD => "FRAGMENT_SPREAD",
            SyntaxKind::INLINE_FRAGMENT => "INLINE_FRAGMENT",
            SyntaxKind::FRAGMENT_DEFINITION => "FRAGMENT_DEFINITION",
            SyntaxKind::FRAGMENT_NAME => "FRAGMENT_NAME",
            SyntaxKind::TYPE_CONDITION => "TYPE_CONDITION",
            SyntaxKind::DIRECTIVES => "DIRECTIVES",
            SyntaxKind::DIRECTIVE => "DIRECTIVE",
            SyntaxKind::VARIABLE => "VARIABLE",
            SyntaxKind::STRING_VALUE => "STRING_VALUE",
            SyntaxKind::INT_VALUE => "INT_VALUE",
            SyntaxKind::FLOAT_VALUE => "FLOAT_VALUE",
            SyntaxKind::BOOLEAN_VALUE => "BOOLEAN_VALUE",
            SyntaxKind::NULL_VALUE => "NULL_VALUE",
            SyntaxKind::ENUM_VALUE => "ENUM_VALUE",
            SyntaxKind::LIST_VALUE => "LIST_VALUE",
            SyntaxKind::OBJECT_VALUE => "OBJECT_VALUE",
            SyntaxKind::OBJECT_FIELD => "OBJECT_FIELD",
            SyntaxKind::NAMED_TYPE => "NAMED_TYPE",
            SyntaxKind::LIST_TYPE => "LIST_TYPE",
            SyntaxKind::NON_NULL_TYPE => "NON_NULL_TYPE",
            SyntaxKind::DESCRIPTION => "DESCRIPTION",
            SyntaxKind::SCHEMA_DEFINITION => "SCHEMA_DEFINITION",
            SyntaxKind::SCHEMA_EXTENSION => "SCHEMA_EXTENSION",
            SyntaxKind::ROOT_OPERATION_TYPE_DEFINITION => "ROOT_OPERATION_TYPE_DEFINITION",
            SyntaxKind::SCALAR_TYPE_DEFINITION => "SCALAR_TYPE_DEFINITION",
            SyntaxKind::SCALAR_TYPE_EXTENSION => "SCALAR_TYPE_EXTENSION",
            SyntaxKind::OBJECT_TYPE_DEFINITION => "OBJECT_TYPE_DEFINITION",
            SyntaxKind::OBJECT_TYPE_EXTENSION => "OBJECT_TYPE_EXTENSION",
            SyntaxKind::IMPLEMENTS_INTERFACES => "IMPLEMENTS_INTERFACES",
            SyntaxKind::FIELDS_DEFINITION => "FIELDS_DEFINITION",
            SyntaxKind::FIELD_DEFINITION => "FIELD_DEFINITION",
            SyntaxKind::ARGUMENTS_DEFINITION => "ARGUMENTS_DEFINITION",
            SyntaxKind::INPUT_VALUE_DEFINITION => "INPUT_VALUE_DEFINITION",
            SyntaxKind::INTERFACE_TYPE_DEFINITION => "INTERFACE_TYPE_DEFINITION",
            SyntaxKind::INTERFACE_TYPE_EXTENSION => "INTERFACE_TYPE_EXTENSION",
            SyntaxKind::UNION_TYPE_DEFINITION => "UNION_TYPE_DEFINITION",
            SyntaxKind::UNION_TYPE_EXTENSION => "UNION_TYPE_EXTENSION",
            SyntaxKind::UNION_MEMBER_TYPES => "UNION_MEMBER_TYPES",
            SyntaxKind::ENUM_TYPE_DEFINITION => "ENUM_TYPE_DEFINITION",
            SyntaxKind::ENUM_TYPE_EXTENSION => "ENUM_TYPE_EXTENSION",
            SyntaxKind::ENUM_VALUES_DEFINITION => "ENUM_VALUES_DEFINITION",
            SyntaxKind::ENUM_VALUE_DEFINITION => "ENUM_VALUE_DEFINITION",
            SyntaxKind::INPUT_OBJECT_TYPE_DEFINITION => "INPUT_OBJECT_TYPE_DEFINITION",
            SyntaxKind::INPUT_OBJECT_TYPE_EXTENSION => "INPUT_OBJECT_TYPE_EXTENSION",
            SyntaxKind::INPUT_FIELDS_DEFINITION => "INPUT_FIELDS_DEFINITION",
            SyntaxKind::DIRECTIVE_DEFINITION => "DIRECTIVE_DEFINITION",
            SyntaxKind::DIRECTIVE_LOCATIONS => "DIRECTIVE_LOCATIONS",
            SyntaxKind::DIRECTIVE_LOCATION => "DIRECTIVE_LOCATION",
            SyntaxKind::ERROR => "ERROR",
        }
    }
}

/// A set of kinds by which the children of a node are picked.
#[derive(Clone, Copy, PartialEq, Eq, Structural, Debug)]
pub enum KindSet {
    /// One kind.
    One(SyntaxKind),
    /// The kinds of values.
    Values,
    /// The kinds of types.
    Types,
    /// The kinds of definitions.
    Definitions,
    /// The kinds of selections.
    Selections,
}

impl KindSet {
    /// Whether `kind` is in the set.
    pub open spec fn contains(self, kind: SyntaxKind) -> bool {
        match self {
            KindSet::One(k) => kind == k,
            KindSet::Values => kind.is_value(),
            KindSet::Types => kind.is_type(),
            KindSet::Definitions => kind.is_definition(),
            KindSet::Selections => kind.is_selection(),
        }
    }

    /// Whether `kind` is in the set.
    pub fn holds(self, kind: SyntaxKind) -> (r: bool)
        ensures
            r == self.contains(kind),
    {
        match self {
            KindSet::One(k) => kind == k,
            KindSet::Values => kind.check_is_value(),
            KindSet::Types => kind.check_is_type(),
            KindSet::Definitions => kind.check_is_definition(),
            KindSet::Selections => kind.check_is_selection(),
        }
    }
}

/// A token is trivia exactly if its kind in the tree is, and its kind in
/// the tree is that of a token.
pub proof fn lemma_trivia_mirrors(kind: TokenKind)
    ensures
        SyntaxKind::of(kind).is_trivia() == kind.is_trivia(),
        SyntaxKind::of(kind).is_token(),
{
}

} // verus!
