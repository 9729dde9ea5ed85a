//! The typed view of a tree: for each kind of node a type with accessors for
//! what the production holds. The view adds nothing to the tree and changes
//! nothing in it; an accessor hands out a child by its kind and place, or
//! nothing where the tree lacks it.
use vstd::prelude::*;
use crate::syntax::{SyntaxNode, SyntaxToken};
use crate::syntax_kind::{KindSet, SyntaxKind};
use crate::tree::node_indices;

verus! {

/// A definition: what a document is made of.
#[derive(Debug)]
pub enum Definition<'a> {
    OperationDefinition(OperationDefinition<'a>),
    FragmentDefinition(FragmentDefinition<'a>),
    SchemaDefinition(SchemaDefinition<'a>),
    SchemaExtension(SchemaExtension<'a>),
    ScalarTypeDefinition(ScalarTypeDefinition<'a>),
    ScalarTypeExtension(ScalarTypeExtension<'a>),
    ObjectTypeDefinition(ObjectTypeDefinition<'a>),
    ObjectTypeExtension(ObjectTypeExtension<'a>),
    InterfaceTypeDefinition(InterfaceTypeDefinition<'a>),
    InterfaceTypeExtension(InterfaceTypeExtension<'a>),
    UnionTypeDefinition(UnionTypeDefinition<'a>),
    UnionTypeExtension(UnionTypeExtension<'a>),
    EnumTypeDefinition(EnumTypeDefinition<'a>),
    EnumTypeExtension(EnumTypeExtension<'a>),
    InputObjectTypeDefinition(InputObjectTypeDefinition<'a>),
    InputObjectTypeExtension(InputObjectTypeExtension<'a>),
    DirectiveDefinition(DirectiveDefinition<'a>),
}

impl<'a> Definition<'a> {
    /// The handle on the node.
    pub open spec fn syntax(&self) -> SyntaxNode<'a> {
        match self {
            Definition::OperationDefinition(n) => n.syntax,
            Definition::FragmentDefinition(n) => n.syntax,
            Definition::SchemaDefinition(n) => n.syntax,
            Definition::SchemaExtension(n) => n.syntax,
            Definition::ScalarTypeDefinition(n) => n.syntax,
            Definition::ScalarTypeExtension(n) => n.syntax,
            Definition::ObjectTypeDefinition(n) => n.syntax,
            Definition::ObjectTypeExtension(n) => n.syntax,
            Definition::InterfaceTypeDefinition(n) => n.syntax,
            Definition::InterfaceTypeExtension(n) => n.syntax,
            Definition::UnionTypeDefinition(n) => n.syntax,
            Definition::UnionTypeExtension(n) => n.syntax,
            Definition::EnumTypeDefinition(n) => n.syntax,
            Definition::EnumTypeExtension(n) => n.syntax,
            Definition::InputObjectTypeDefinition(n) => n.syntax,
            Definition::InputObjectTypeExtension(n) => n.syntax,
            Definition::DirectiveDefinition(n) => n.syntax,
        }
    }

    /// The handle points at a node of the kind that the variant names.
    pub open spec fn wf(&self) -> bool {
        match self {
            Definition::OperationDefinition(n) => n.wf(),
            Definition::FragmentDefinition(n) => n.wf(),
            Definition::SchemaDefinition(n) => n.wf(),
            Definition::SchemaExtension(n) => n.wf(),
            Definition::ScalarTypeDefinition(n) => n.wf(),
            Definition::ScalarTypeExtension(n) => n.wf(),
            Definition::ObjectTypeDefinition(n) => n.wf(),
            Definition::ObjectTypeExtension(n) => n.wf(),
            Definition::InterfaceTypeDefinition(n) => n.wf(),
            Definition::InterfaceTypeExtension(n) => n.wf(),
            Definition::UnionTypeDefinition(n) => n.wf(),
            Definition::UnionTypeExtension(n) => n.wf(),
            Definition::EnumTypeDefinition(n) => n.wf(),
            Definition::EnumTypeExtension(n) => n.wf(),
            Definition::InputObjectTypeDefinition(n) => n.wf(),
            Definition::InputObjectTypeExtension(n) => n.wf(),
            Definition::DirectiveDefinition(n) => n.wf(),
        }
    }

    /// The handle on the node.
    pub fn node(&self) -> (r: &SyntaxNode<'a>)
        ensures
            *r == self.syntax(),
    {
        match self {
            Definition::OperationDefinition(n) => &n.syntax,
            Definition::FragmentDefinition(n) => &n.syntax,
            Definition::SchemaDefinition(n) => &n.syntax,
            Definition::SchemaExtension(n) => &n.syntax,
            Definition::ScalarTypeDefinition(n) => &n.syntax,
            Definition::ScalarTypeExtension(n) => &n.syntax,
            Definition::ObjectTypeDefinition(n) => &n.syntax,
            Definition::ObjectTypeExtension(n) => &n.syntax,
            Definition::InterfaceTypeDefinition(n) => &n.syntax,
            Definition::InterfaceTypeExtension(n) => &n.syntax,
            Definition::UnionTypeDefinition(n) => &n.syntax,
            Definition::UnionTypeExtension(n) => &n.syntax,
            Definition::EnumTypeDefinition(n) => &n.syntax,
            Definition::EnumTypeExtension(n) => &n.syntax,
            Definition::InputObjectTypeDefinition(n) => &n.syntax,
            Definition::InputObjectTypeExtension(n) => &n.syntax,
            Definition::DirectiveDefinition(n) => &n.syntax,
        }
    }

    /// The node as this type, if its kind is among those of the variants.
    pub fn cast(syntax: SyntaxNode<'a>) -> (r: Option<Definition<'a>>)
        ensures
            r.is_some() == KindSet::Definitions.contains(syntax.tree().kind()),
            r matches Some(n) ==> n.syntax() == syntax && (syntax.wf() ==> n.wf()),
    {
        match syntax.kind() {
            SyntaxKind::OPERATION_DEFINITION => Some(
                Definition::OperationDefinition(OperationDefinition { syntax }),
            ),
            SyntaxKind::FRAGMENT_DEFINITION => Some(
                Definition::FragmentDefinition(FragmentDefinition { syntax }),
            ),
            SyntaxKind::SCHEMA_DEFINITION => Some(
                Definition::SchemaDefinition(SchemaDefinition { syntax }),
            ),
            SyntaxKind::SCHEMA_EXTENSION => Some(
                Definition::SchemaExtension(SchemaExtension { syntax }),
            ),
            SyntaxKind::SCALAR_TYPE_DEFINITION => Some(
                Definition::ScalarTypeDefinition(ScalarTypeDefinition { syntax }),
            ),
            SyntaxKind::SCALAR_TYPE_EXTENSION => Some(
                Definition::ScalarTypeExtension(ScalarTypeExtension { syntax }),
            ),
            SyntaxKind::OBJECT_TYPE_DEFINITION => Some(
                Definition::ObjectTypeDefinition(ObjectTypeDefinition { syntax }),
            ),
            SyntaxKind::OBJECT_TYPE_EXTENSION => Some(
                Definition::ObjectTypeExtension(ObjectTypeExtension { syntax }),
            ),
            SyntaxKind::INTERFACE_TYPE_DEFINITION => Some(
                Definition::InterfaceTypeDefinition(InterfaceTypeDefinition { syntax }),
            ),
            SyntaxKind::INTERFACE_TYPE_EXTENSION => Some(
                Definition::InterfaceTypeExtension(InterfaceTypeExtension { syntax }),
            ),
            SyntaxKind::UNION_TYPE_DEFINITION => Some(
                Definition::UnionTypeDefinition(UnionTypeDefinition { syntax }),
            ),
            SyntaxKind::UNION_TYPE_EXTENSION => Some(
                Definition::UnionTypeExtension(UnionTypeExtension { syntax }),
            ),
            SyntaxKind::ENUM_TYPE_DEFINITION => Some(
                Definition::EnumTypeDefinition(EnumTypeDefinition { syntax }),
            ),
            SyntaxKind::ENUM_TYPE_EXTENSION => Some(
                Definition::EnumTypeExtension(EnumTypeExtension { syntax }),
            ),
            SyntaxKind::INPUT_OBJECT_TYPE_DEFINITION => Some(
                Definition::InputObjectTypeDefinition(InputObjectTypeDefinition { syntax }),
            ),
            SyntaxKind::INPUT_OBJECT_TYPE_EXTENSION => Some(
                Definition::InputObjectTypeExtension(InputObjectTypeExtension { syntax }),
            ),
            SyntaxKind::DIRECTIVE_DEFINITION => Some(
                Definition::DirectiveDefinition(DirectiveDefinition { syntax }),
            ),
            _ => None,
        }
    }

    /// The children of `parent` that are nodes of one of these kinds, in
    /// their order.
    pub fn all_in(parent: &SyntaxNode<'a>) -> (r: Vec<Definition<'a>>)
        requires
            parent.wf(),
        ensures
            r@.len() == node_indices(parent.tree().children(), KindSet::Definitions).len(),
            forall|i: int|
                0 <= i < r@.len() ==> (#[trigger] r@[i]).wf() && parent.is_member_node(
                    KindSet::Definitions,
                    &r@[i].syntax(),
                    i,
                ),
    {
        let nodes = parent.nodes_in(KindSet::Definitions);
        let ghost handles = nodes@;
        let mut out: Vec<Definition<'a>> = Vec::new();
        for syntax in it: nodes.into_iter()
            invariant
                it.seq() == handles,
                out@.len() == it.index(),
                forall|j: int|
                    0 <= j < handles.len() ==> (#[trigger] handles[j]).wf()
                        && KindSet::Definitions.contains(handles[j].tree().kind()),
                forall|j: int|
                    0 <= j < out@.len() ==> (#[trigger] out@[j]).syntax() == handles[j]
                        && out@[j].wf(),
        {
            match Definition::cast(syntax) {
                Some(n) => out.push(n),
                None => {},
            }
        }
        out
    }
}

/// A selection: a field, a fragment spread or an inline fragment.
#[derive(Debug)]
pub enum Selection<'a> {
    Field(Field<'a>),
    FragmentSpread(FragmentSpread<'a>),
    InlineFragment(InlineFragment<'a>),
}

impl<'a> Selection<'a> {
    /// The handle on the node.
    pub open spec fn syntax(&self) -> SyntaxNode<'a> {
        match self {
            Selection::Field(n) => n.syntax,
            Selection::FragmentSpread(n) => n.syntax,
            Selection::InlineFragment(n) => n.syntax,
        }
    }

    /// The handle points at a node of the kind that the variant names.
    pub open spec fn wf(&self) -> bool {
        match self {
            Selection::Field(n) => n.wf(),
            Selection::FragmentSpread(n) => n.wf(),
            Selection::InlineFragment(n) => n.wf(),
        }
    }

    /// The handle on the node.
    pub fn node(&self) -> (r: &SyntaxNode<'a>)
        ensures
            *r == self.syntax(),
    {
        match self {
            Selection::Field(n) => &n.syntax,
            Selection::FragmentSpread(n) => &n.syntax,
            Selection::InlineFragment(n) => &n.syntax,
        }
    }

    /// The node as this type, if its kind is among those of the variants.
    pub fn cast(syntax: SyntaxNode<'a>) -> (r: Option<Selection<'a>>)
        ensures
            r.is_some() == KindSet::Selections.contains(syntax.tree().kind()),
            r matches Some(n) ==> n.syntax() == syntax && (syntax.wf() ==> n.wf()),
    {
        match syntax.kind() {
            SyntaxKind::FIELD => Some(
                Selection::Field(Field { syntax }),
            ),
            SyntaxKind::FRAGMENT_SPREAD => Some(
                Selection::FragmentSpread(FragmentSpread { syntax }),
            ),
            SyntaxKind::INLINE_FRAGMENT => Some(
                Selection::InlineFragment(InlineFragment { syntax }),
            ),
            _ => None,
        }
    }

    /// The children of `parent` that are nodes of one of these kinds, in
    /// their order.
    pub fn all_in(parent: &SyntaxNode<'a>) -> (r: Vec<Selection<'a>>)
        requires
            parent.wf(),
        ensures
            r@.len() == node_indices(parent.tree().children(), KindSet::Selections).len(),
            forall|i: int|
                0 <= i < r@.len() ==> (#[trigger] r@[i]).wf() && parent.is_member_node(
                    KindSet::Selections,
                    &r@[i].syntax(),
                    i,
                ),
    {
        let nodes = parent.nodes_in(KindSet::Selections);
        let ghost handles = nodes@;
        let mut out: Vec<Selection<'a>> = Vec::new();
        for syntax in it: nodes.into_iter()
            invariant
                it.seq() == handles,
                out@.len() == it.index(),
                forall|j: int|
                    0 <= j < handles.len() ==> (#[trigger] handles[j]).wf()
                        && KindSet::Selections.contains(handles[j].tree().kind()),
                forall|j: int|
                    0 <= j < out@.len() ==> (#[trigger] out@[j]).syntax() == handles[j]
                        && out@[j].wf(),
        {
            match Selection::cast(syntax) {
                Some(n) => out.push(n),
                None => {},
            }
        }
        out
    }
}

/// A value.
#[derive(Debug)]
pub enum Value<'a> {
    Variable(Variable<'a>),
    StringValue(StringValue<'a>),
    IntValue(IntValue<'a>),
    FloatValue(FloatValue<'a>),
    BooleanValue(BooleanValue<'a>),
    NullValue(NullValue<'a>),
    EnumValue(EnumValue<'a>),
    ListValue(ListValue<'a>),
    ObjectValue(ObjectValue<'a>),
}

impl<'a> Value<'a> {
    /// The handle on the node.
    pub open spec fn syntax(&self) -> SyntaxNode<'a> {
        match self {
            Value::Variable(n) => n.syntax,
            Value::StringValue(n) => n.syntax,
            Value::IntValue(n) => n.syntax,
            Value::FloatValue(n) => n.syntax,
            Value::BooleanValue(n) => n.syntax,
            Value::NullValue(n) => n.syntax,
            Value::EnumValue(n) => n.syntax,
            Value::ListValue(n) => n.syntax,
            Value::ObjectValue(n) => n.syntax,
        }
    }

    /// The handle points at a node of the kind that the variant names.
    pub open spec fn wf(&self) -> bool {
        match self {
            Value::Variable(n) => n.wf(),
            Value::StringValue(n) => n.wf(),
            Value::IntValue(n) => n.wf(),
            Value::FloatValue(n) => n.wf(),
            Value::BooleanValue(n) => n.wf(),
            Value::NullValue(n) => n.wf(),
            Value::EnumValue(n) => n.wf(),
            Value::ListValue(n) => n.wf(),
            Value::ObjectValue(n) => n.wf(),
        }
    }

    /// The handle on the node.
    pub fn node(&self) -> (r: &SyntaxNode<'a>)
        ensures
            *r == self.syntax(),
    {
        match self {
            Value::Variable(n) => &n.syntax,
            Value::StringValue(n) => &n.syntax,
            Value::IntValue(n) => &n.syntax,
            Value::FloatValue(n) => &n.syntax,
            Value::BooleanValue(n) => &n.syntax,
            Value::NullValue(n) => &n.syntax,
            Value::EnumValue(n) => &n.syntax,
            Value::ListValue(n) => &n.syntax,
            Value::ObjectValue(n) => &n.syntax,
        }
    }

    /// The node as this type, if its kind is among those of the variants.
    pub fn cast(syntax: SyntaxNode<'a>) -> (r: Option<Value<'a>>)
        ensures
            r.is_some() == KindSet::Values.contains(syntax.tree().kind()),
            r matches Some(n) ==> n.syntax() == syntax && (syntax.wf() ==> n.wf()),
    {
        match syntax.kind() {
            SyntaxKind::VARIABLE => Some(
                Value::Variable(Variable { syntax }),
            ),
            SyntaxKind::STRING_VALUE => Some(
                Value::StringValue(StringValue { syntax }),
            ),
            SyntaxKind::INT_VALUE => Some(
                Value::IntValue(IntValue { syntax }),
            ),
            SyntaxKind::FLOAT_VALUE => Some(
                Value::FloatValue(FloatValue { syntax }),
            ),
            SyntaxKind::BOOLEAN_VALUE => Some(
                Value::BooleanValue(BooleanValue { syntax }),
            ),
            SyntaxKind::NULL_VALUE => Some(
                Value::NullValue(NullValue { syntax }),
            ),
            SyntaxKind::ENUM_VALUE => Some(
                Value::EnumValue(EnumValue { syntax }),
            ),
            SyntaxKind::LIST_VALUE => Some(
                Value::ListValue(ListValue { syntax }),
            ),
            SyntaxKind::OBJECT_VALUE => Some(
                Value::ObjectValue(ObjectValue { syntax }),
            ),
            _ => None,
        }
    }

    /// The children of `parent` that are nodes of one of these kinds, in
    /// their order.
    pub fn all_in(parent: &SyntaxNode<'a>) -> (r: Vec<Value<'a>>)
        requires
            parent.wf(),
        ensures
            r@.len() == node_indices(parent.tree().children(), KindSet::Values).len(),
            forall|i: int|
                0 <= i < r@.len() ==> (#[trigger] r@[i]).wf() && parent.is_member_node(
                    KindSet::Values,
                    &r@[i].syntax(),
                    i,
                ),
    {
        let nodes = parent.nodes_in(KindSet::Values);
        let ghost handles = nodes@;
        let mut out: Vec<Value<'a>> = Vec::new();
        for syntax in it: nodes.into_iter()
            invariant
                it.seq() == handles,
                out@.len() == it.index(),
                forall|j: int|
                    0 <= j < handles.len() ==> (#[trigger] handles[j]).wf()
                        && KindSet::Values.contains(handles[j].tree().kind()),
                forall|j: int|
                    0 <= j < out@.len() ==> (#[trigger] out@[j]).syntax() == handles[j]
                        && out@[j].wf(),
        {
            match Value::cast(syntax) {
                Some(n) => out.push(n),
                None => {},
            }
        }
        out
    }
}

/// A type: named, list or non-null.
#[derive(Debug)]
pub enum Type<'a> {
    NamedType(NamedType<'a>),
    ListType(ListType<'a>),
    NonNullType(NonNullType<'a>),
}

impl<'a> Type<'a> {
    /// The handle on the node.
    pub open spec fn syntax(&self) -> SyntaxNode<'a> {
        match self {
            Type::NamedType(n) => n.syntax,
            Type::ListType(n) => n.syntax,
            Type::NonNullType(n) => n.syntax,
        }
    }

    /// The handle points at a node of the kind that the variant names.
    pub open spec fn wf(&self) -> bool {
        match self {
            Type::NamedType(n) => n.wf(),
            Type::ListType(n) => n.wf(),
            Type::NonNullType(n) => n.wf(),
        }
    }

    /// The handle on the node.
    pub fn node(&self) -> (r: &SyntaxNode<'a>)
        ensures
            *r == self.syntax(),
    {
        match self {
            Type::NamedType(n) => &n.syntax,
            Type::ListType(n) => &n.syntax,
            Type::NonNullType(n) => &n.syntax,
        }
    }

    /// The node as this type, if its kind is among those of the variants.
    pub fn cast(syntax: SyntaxNode<'a>) -> (r: Option<Type<'a>>)
        ensures
            r.is_some() == KindSet::Types.contains(syntax.tree().kind()),
            r matches Some(n) ==> n.syntax() == syntax && (syntax.wf() ==> n.wf()),
    {
        match syntax.kind() {
            SyntaxKind::NAMED_TYPE => Some(
                Type::NamedType(NamedType { syntax }),
            ),
            SyntaxKind::LIST_TYPE => Some(
                Type::ListType(ListType { syntax }),
            ),
            SyntaxKind::NON_NULL_TYPE => Some(
                Type::NonNullType(NonNullType { syntax }),
            ),
            _ => None,
        }
    }

    /// The children of `parent` that are nodes of one of these kinds, in
    /// their order.
    pub fn all_in(parent: &SyntaxNode<'a>) -> (r: Vec<Type<'a>>)
        requires
            parent.wf(),
        ensures
            r@.len() == node_indices(parent.tree().children(), KindSet::Types).len(),
            forall|i: int|
                0 <= i < r@.len() ==> (#[trigger] r@[i]).wf() && parent.is_member_node(
                    KindSet::Types,
                    &r@[i].syntax(),
                    i,
                ),
    {
        let nodes = parent.nodes_in(KindSet::Types);
        let ghost handles = nodes@;
        let mut out: Vec<Type<'a>> = Vec::new();
        for syntax in it: nodes.into_iter()
            invariant
                it.seq() == handles,
                out@.len() == it.index(),
                forall|j: int|
                    0 <= j < handles.len() ==> (#[trigger] handles[j]).wf()
                        && KindSet::Types.contains(handles[j].tree().kind()),
                forall|j: int|
                    0 <= j < out@.len() ==> (#[trigger] out@[j]).syntax() == handles[j]
                        && out@[j].wf(),
        {
            match Type::cast(syntax) {
                Some(n) => out.push(n),
                None => {},
            }
        }
        out
    }
}

/// A document: the root of every tree.
#[derive(Debug)]
pub struct Document<'a> {
    pub syntax: SyntaxNode<'a>,
}

impl<'a> Document<'a> {
    /// The handle points at a node of kind `DOCUMENT`.
    pub open spec fn wf(&self) -> bool {
        self.syntax.wf() && self.syntax.tree().kind() == SyntaxKind::DOCUMENT
    }

    /// The node as this type, if it is of kind `DOCUMENT`.
    pub fn cast(syntax: SyntaxNode<'a>) -> (r: Option<Document<'a>>)
        ensures
            r.is_some() == (syntax.tree().kind() == SyntaxKind::DOCUMENT),
            r matches Some(n) ==> n.syntax == syntax,
    {
        if syntax.kind() == SyntaxKind::DOCUMENT {
            Some(Document { syntax })
        } else {
            None
        }
    }

    /// The definitions, in their order.
    pub fn definitions(&self) -> (r: Vec<Definition<'a>>)
        requires
            self.wf(),
        ensures
            r@.len() == node_indices(
                self.syntax.tree().children(),
                KindSet::Definitions,
            ).len(),
            forall|i: int|
                0 <= i < r@.len() ==> (#[trigger] r@[i]).wf() && self.syntax.is_member_node(
                    KindSet::Definitions,
                    &r@[i].syntax(),
                    i,
                ),
    {
        Definition::all_in(&self.syntax)
    }
}

/// *OperationDefinition*: OperationType Name? VariableDefinitions? Directives?
/// SelectionSet, or a SelectionSet alone.
#[derive(Debug)]
pub struct OperationDefinition<'a> {
    pub syntax: SyntaxNode<'a>,
}

impl<'a> OperationDefinition<'a> {
    /// The handle points at a node of kind `OPERATION_DEFINITION`.
    pub open spec fn wf(&self) -> bool {
        self.syntax.wf() && self.syntax.tree().kind() == SyntaxKind::OPERATION_DEFINITION
    }

    /// The node as this type, if it is of kind `OPERATION_DEFINITION`.
    pub fn cast(syntax: SyntaxNode<'a>) -> (r: Option<OperationDefinition<'a>>)
        ensures
            r.is_some() == (syntax.tree().kind() == SyntaxKind::OPERATION_DEFINITION),
            r matches Some(n) ==> n.syntax == syntax,
    {
        if syntax.kind() == SyntaxKind::OPERATION_DEFINITION {
            Some(OperationDefinition { syntax })
        } else {
            None
        }
    }

    /// The operation type, if there is one.
    pub fn operation_type(&self) -> (r: Option<OperationType<'a>>)
        requires
            self.wf(),
        ensures
            match r {
                Some(n) => n.wf() && self.syntax.is_nth_node(
                    KindSet::One(SyntaxKind::OPERATION_TYPE),
                    0,
                    Some(n.syntax),
                ),
                None => self.syntax.is_nth_node(
                    KindSet::One(SyntaxKind::OPERATION_TYPE),
                    0,
                    None,
                ),
            },
    {
        match self.syntax.nth_node_in(KindSet::One(SyntaxKind::OPERATION_TYPE), 0) {
            Some(syntax) => Some(OperationType { syntax }),
            None => None,
        }
    }

    /// The name of the operation, if it has one.
    pub fn name(&self) -> (r: Option<SyntaxToken<'a>>)
        requires
            self.wf(),
        ensures
            self.syntax.is_nth_token(KindSet::One(SyntaxKind::NAME), 0, r),
            r matches Some(t) ==> t.wf(),
    {
        self.syntax.nth_token_in(KindSet::One(SyntaxKind::NAME), 0)
    }

    /// The variable definitions, if there is one.
    pub fn variable_definitions(&self) -> (r: Option<VariableDefinitions<'a>>)
        requires
            self.wf(),
        ensures
            match r {
                Some(n) => n.wf() && self.syntax.is_nth_node(
                    KindSet::One(SyntaxKind::VARIABLE_DEFINITIONS),
                    0,
                    Some(n.syntax),
                ),
                None => self.syntax.is_nth_node(
                    KindSet::One(SyntaxKind::VARIABLE_DEFINITIONS),
                    0,
                    None,
                ),
            },
    {
        match self.syntax.nth_node_in(KindSet::One(SyntaxKind::VARIABLE_DEFINITIONS), 0) {
            Some(syntax) => Some(VariableDefinitions { syntax }),
            None => None,
        }
    }

    /// The directives, if there is one.
    pub fn directives(&self) -> (r: Option<Directives<'a>>)
        requires
            self.wf(),
        ensures
            match r {
                Some(n) => n.wf() && self.syntax.is_nth_node(
                    KindSet::One(SyntaxKind::DIRECTIVES),
                    0,
                    Some(n.syntax),
                ),
                None => self.syntax.is_nth_node(
                    KindSet::One(SyntaxKind::DIRECTIVES),
                    0,
                    None,
                ),
            },
    {
        match self.syntax.nth_node_in(KindSet::One(SyntaxKind::DIRECTIVES), 0) {
            Some(syntax) => Some(Directives { syntax }),
            None => None,
        }
    }

    /// The selection set, if there is one.
    pub fn selection_set(&self) -> (r: Option<SelectionSet<'a>>)
        requires
            self.wf(),
        ensures
            match r {
                Some(n) => n.wf() && self.syntax.is_nth_node(
                    KindSet::One(SyntaxKind::SELECTION_SET),
                    0,
                    Some(n.syntax),
                ),
                None => self.syntax.is_nth_node(
                    KindSet::One(SyntaxKind::SELECTION_SET),
                    0,
                    None,
                ),
            },
    {
        match self.syntax.nth_node_in(KindSet::One(SyntaxKind::SELECTION_SET), 0) {
            Some(syntax) => Some(SelectionSet { syntax }),
            None => None,
        }
    }
}

/// *OperationType*: `query`, `mutation` or `subscription`.
#[derive(Debug)]
pub struct OperationType<'a> {
    pub syntax: SyntaxNode<'a>,
}

impl<'a> OperationType<'a> {
    /// The handle points at a node of kind `OPERATION_TYPE`.
    pub open spec fn wf(&self) -> bool {
        self.syntax.wf() && self.syntax.tree().kind() == SyntaxKind::OPERATION_TYPE
    }

    /// The node as this type, if it is of kind `OPERATION_TYPE`.
    pub fn cast(syntax: SyntaxNode<'a>) -> (r: Option<OperationType<'a>>)
        ensures
            r.is_some() == (syntax.tree().kind() == SyntaxKind::OPERATION_TYPE),
            r matches Some(n) ==> n.syntax == syntax,
    {
        if syntax.kind() == SyntaxKind::OPERATION_TYPE {
            Some(OperationType { syntax })
        } else {
            None
        }
    }

    /// The keyword.
    pub fn token(&self) -> (r: Option<SyntaxToken<'a>>)
        requires
            self.wf(),
        ensures
            self.syntax.is_nth_token(KindSet::One(SyntaxKind::NAME), 0, r),
            r matches Some(t) ==> t.wf(),
    {
        self.syntax.nth_token_in(KindSet::One(SyntaxKind::NAME), 0)
    }
}

/// *VariableDefinitions*: `(` VariableDefinition+ `)`
#[derive(Debug)]
pub struct VariableDefinitions<'a> {
    pub syntax: SyntaxNode<'a>,
}

impl<'a> VariableDefinitions<'a> {
    /// The handle points at a node of kind `VARIABLE_DEFINITIONS`.
    pub open spec fn wf(&self) -> bool {
        self.syntax.wf() && self.syntax.tree().kind() == SyntaxKind::VARIABLE_DEFINITIONS
    }

    /// The node as this type, if it is of kind `VARIABLE_DEFINITIONS`.
    pub fn cast(syntax: SyntaxNode<'a>) -> (r: Option<VariableDefinitions<'a>>)
        ensures
            r.is_some() == (syntax.tree().kind() == SyntaxKind::VARIABLE_DEFINITIONS),
            r matches Some(n) ==> n.syntax == syntax,
    {
        if syntax.kind() == SyntaxKind::VARIABLE_DEFINITIONS {
            Some(VariableDefinitions { syntax })
        } else {
            None
        }
    }

    /// The variable definitions, in their order.
    pub fn variable_definitions(&self) -> (r: Vec<VariableDefinition<'a>>)
        requires
            self.wf(),
        ensures
            r@.len() == node_indices(
                self.syntax.tree().children(),
                KindSet::One(SyntaxKind::VARIABLE_DEFINITION),
            ).len(),
            forall|i: int|
                0 <= i < r@.len() ==> (#[trigger] r@[i]).wf() && self.syntax.is_member_node(
                    KindSet::One(SyntaxKind::VARIABLE_DEFINITION),
                    &r@[i].syntax,
                    i,
                ),
    {
        VariableDefinition::all_in(&self.syntax)
    }
}

/// *VariableDefinition*: Variable `:` Type DefaultValue? Directives?
#[derive(Debug)]
pub struct VariableDefinition<'a> {
    pub syntax: SyntaxNode<'a>,
}

impl<'a> VariableDefinition<'a> {
    /// The handle points at a node of kind `VARIABLE_DEFINITION`.
    pub open spec fn wf(&self) -> bool {
        self.syntax.wf() && self.syntax.tree().kind() == SyntaxKind::VARIABLE_DEFINITION
    }

    /// The node as this type, if it is of kind `VARIABLE_DEFINITION`.
    pub fn cast(syntax: SyntaxNode<'a>) -> (r: Option<VariableDefinition<'a>>)
        ensures
            r.is_some() == (syntax.tree().kind() == SyntaxKind::VARIABLE_DEFINITION),
            r matches Some(n) ==> n.syntax == syntax,
    {
        if syntax.kind() == SyntaxKind::VARIABLE_DEFINITION {
            Some(VariableDefinition { syntax })
        } else {
            None
        }
    }

    /// The children of `parent` that are nodes of kind `VARIABLE_DEFINITION`, in their
    /// order.
    pub fn all_in(parent: &SyntaxNode<'a>) -> (r: Vec<VariableDefinition<'a>>)
        requires
            parent.wf(),
        ensures
            r@.len() == node_indices(
                parent.tree().children(),
                KindSet::One(SyntaxKind::VARIABLE_DEFINITION),
            ).len(),
            forall|i: int|
                0 <= i < r@.len() ==> (#[trigger] r@[i]).wf() && parent.is_member_node(
                    KindSet::One(SyntaxKind::VARIABLE_DEFINITION),
                    &r@[i].syntax,
                    i,
                ),
    {
        let nodes = parent.nodes_in(KindSet::One(SyntaxKind::VARIABLE_DEFINITION));
        let ghost handles = nodes@;
        let mut out: Vec<VariableDefinition<'a>> = Vec::new();
        for syntax in it: nodes.into_iter()
            invariant
                it.seq() == handles,
                out@.len() == it.index(),
                forall|j: int| 0 <= j < out@.len() ==> (#[trigger] out@[j]).syntax == handles[j],
        {
            out.push(VariableDefinition { syntax });
        }
        out
    }

    /// The variable, if there is one.
    pub fn variable(&self) -> (r: Option<Variable<'a>>)
        requires
            self.wf(),
        ensures
            match r {
                Some(n) => n.wf() && self.syntax.is_nth_node(
                    KindSet::One(SyntaxKind::VARIABLE),
                    0,
                    Some(n.syntax),
                ),
                None => self.syntax.is_nth_node(
                    KindSet::One(SyntaxKind::VARIABLE),
                    0,
                    None,
                ),
            },
    {
        match self.syntax.nth_node_in(KindSet::One(SyntaxKind::VARIABLE), 0) {
            Some(syntax) => Some(Variable { syntax }),
            None => None,
        }
    }

    /// The type, if there is one.
    pub fn ty(&self) -> (r: Option<Type<'a>>)
        requires
            self.wf(),
        ensures
            match r {
                Some(n) => n.wf() && self.syntax.is_nth_node(
                    KindSet::Types,
                    0,
                    Some(n.syntax()),
                ),
                None => self.syntax.is_nth_node(KindSet::Types, 0, None),
            },
    {
        match self.syntax.nth_node_in(KindSet::Types, 0) {
            Some(syntax) => Type::cast(syntax),
            None => None,
        }
    }

    /// The default value, if there is one.
    pub fn default_value(&self) -> (r: Option<DefaultValue<'a>>)
        requires
            self.wf(),
        ensures
            match r {
                Some(n) => n.wf() && self.syntax.is_nth_node(
                    KindSet::One(SyntaxKind::DEFAULT_VALUE),
                    0,
                    Some(n.syntax),
                ),
                None => self.syntax.is_nth_node(
                    KindSet::One(SyntaxKind::DEFAULT_VALUE),
                    0,
                    None,
                ),
            },
    {
        match self.syntax.nth_node_in(KindSet::One(SyntaxKind::DEFAULT_VALUE), 0) {
            Some(syntax) => Some(DefaultValue { syntax }),
            None => None,
        }
    }

    /// The directives, if there is one.
    pub fn directives(&self) -> (r: Option<Directives<'a>>)
        requires
            self.wf(),
        ensures
            match r {
                Some(n) => n.wf() && self.syntax.is_nth_node(
                    KindSet::One(SyntaxKind::DIRECTIVES),
                    0,
                    Some(n.syntax),
                ),
                None => self.syntax.is_nth_node(
                    KindSet::One(SyntaxKind::DIRECTIVES),
                    0,
                    None,
                ),
            },
    {
        match self.syntax.nth_node_in(KindSet::One(SyntaxKind::DIRECTIVES), 0) {
            Some(syntax) => Some(Directives { syntax }),
            None => None,
        }
    }
}

/// *DefaultValue*: `=` Value
#[derive(Debug)]
pub struct DefaultValue<'a> {
    pub syntax: SyntaxNode<'a>,
}

impl<'a> DefaultValue<'a> {
    /// The handle points at a node of kind `DEFAULT_VALUE`.
    pub open spec fn wf(&self) -> bool {
        self.syntax.wf() && self.syntax.tree().kind() == SyntaxKind::DEFAULT_VALUE
    }

    /// The node as this type, if it is of kind `DEFAULT_VALUE`.
    pub fn cast(syntax: SyntaxNode<'a>) -> (r: Option<DefaultValue<'a>>)
        ensures
            r.is_some() == (syntax.tree().kind() == SyntaxKind::DEFAULT_VALUE),
            r matches Some(n) ==> n.syntax == syntax,
    {
        if syntax.kind() == SyntaxKind::DEFAULT_VALUE {
            Some(DefaultValue { syntax })
        } else {
            None
        }
    }

    /// The value, if there is one.
    pub fn value(&self) -> (r: Option<Value<'a>>)
        requires
            self.wf(),
        ensures
            match r {
                Some(n) => n.wf() && self.syntax.is_nth_node(
                    KindSet::Values,
                    0,
                    Some(n.syntax()),
                ),
                None => self.syntax.is_nth_node(KindSet::Values, 0, None),
            },
    {
        match self.syntax.nth_node_in(KindSet::Values, 0) {
            Some(syntax) => Value::cast(syntax),
            None => None,
        }
    }
}

/// *SelectionSet*: `{` Selection+ `}`
#[derive(Debug)]
pub struct SelectionSet<'a> {
    pub syntax: SyntaxNode<'a>,
}

impl<'a> SelectionSet<'a> {
    /// The handle points at a node of kind `SELECTION_SET`.
    pub open spec fn wf(&self) -> bool {
        self.syntax.wf() && self.syntax.tree().kind() == SyntaxKind::SELECTION_SET
    }

    /// The node as this type, if it is of kind `SELECTION_SET`.
    pub fn cast(syntax: SyntaxNode<'a>) -> (r: Option<SelectionSet<'a>>)
        ensures
            r.is_some() == (syntax.tree().kind() == SyntaxKind::SELECTION_SET),
            r matches Some(n) ==> n.syntax == syntax,
    {
        if syntax.kind() == SyntaxKind::SELECTION_SET {
            Some(SelectionSet { syntax })
        } else {
            None
        }
    }

    /// The selections, in their order.
    pub fn selections(&self) -> (r: Vec<Selection<'a>>)
        requires
            self.wf(),
        ensures
            r@.len() == node_indices(
                self.syntax.tree().children(),
                KindSet::Selections,
            ).len(),
            forall|i: int|
                0 <= i < r@.len() ==> (#[trigger] r@[i]).wf() && self.syntax.is_member_node(
                    KindSet::Selections,
                    &r@[i].syntax(),
                    i,
                ),
    {
        Selection::all_in(&self.syntax)
    }
}

/// *Field*: Alias? Name Arguments? Directives? SelectionSet?
#[derive(Debug)]
pub struct Field<'a> {
    pub syntax: SyntaxNode<'a>,
}

impl<'a> Field<'a> {
    /// The handle points at a node of kind `FIELD`.
    pub open spec fn wf(&self) -> bool {
        self.syntax.wf() && self.syntax.tree().kind() == SyntaxKind::FIELD
    }

    /// The node as this type, if it is of kind `FIELD`.
    pub fn cast(syntax: SyntaxNode<'a>) -> (r: Option<Field<'a>>)
        ensures
            r.is_some() == (syntax.tree().kind() == SyntaxKind::FIELD),
            r matches Some(n) ==> n.syntax == syntax,
    {
        if syntax.kind() == SyntaxKind::FIELD {
            Some(Field { syntax })
        } else {
            None
        }
    }

    /// The alias, if there is one.
    pub fn alias(&self) -> (r: Option<Alias<'a>>)
        requires
            self.wf(),
        ensures
            match r {
                Some(n) => n.wf() && self.syntax.is_nth_node(
                    KindSet::One(SyntaxKind::ALIAS),
                    0,
                    Some(n.syntax),
                ),
                None => self.syntax.is_nth_node(
                    KindSet::One(SyntaxKind::ALIAS),
                    0,
                    None,
                ),
            },
    {
        match self.syntax.nth_node_in(KindSet::One(SyntaxKind::ALIAS), 0) {
            Some(syntax) => Some(Alias { syntax }),
            None => None,
        }
    }

    /// The name of the field.
    pub fn name(&self) -> (r: Option<SyntaxToken<'a>>)
        requires
            self.wf(),
        ensures
            self.syntax.is_nth_token(KindSet::One(SyntaxKind::NAME), 0, r),
            r matches Some(t) ==> t.wf(),
    {
        self.syntax.nth_token_in(KindSet::One(SyntaxKind::NAME), 0)
    }

    /// The arguments, if there is one.
    pub fn arguments(&self) -> (r: Option<Arguments<'a>>)
        requires
            self.wf(),
        ensures
            match r {
                Some(n) => n.wf() && self.syntax.is_nth_node(
                    KindSet::One(SyntaxKind::ARGUMENTS),
                    0,
                    Some(n.syntax),
                ),
                None => self.syntax.is_nth_node(
                    KindSet::One(SyntaxKind::ARGUMENTS),
                    0,
                    None,
                ),
            },
    {
        match self.syntax.nth_node_in(KindSet::One(SyntaxKind::ARGUMENTS), 0) {
            Some(syntax) => Some(Arguments { syntax }),
            None => None,
        }
    }

    /// The directives, if there is one.
    pub fn directives(&self) -> (r: Option<Directives<'a>>)
        requires
            self.wf(),
        ensures
            match r {
                Some(n) => n.wf() && self.syntax.is_nth_node(
                    KindSet::One(SyntaxKind::DIRECTIVES),
                    0,
                    Some(n.syntax),
                ),
                None => self.syntax.is_nth_node(
                    KindSet::One(SyntaxKind::DIRECTIVES),
                    0,
                    None,
                ),
            },
    {
        match self.syntax.nth_node_in(KindSet::One(SyntaxKind::DIRECTIVES), 0) {
            Some(syntax) => Some(Directives { syntax }),
            None => None,
        }
    }

    /// The selection set, if there is one.
    pub fn selection_set(&self) -> (r: Option<SelectionSet<'a>>)
        requires
            self.wf(),
        ensures
            match r {
                Some(n) => n.wf() && self.syntax.is_nth_node(
                    KindSet::One(SyntaxKind::SELECTION_SET),
                    0,
                    Some(n.syntax),
                ),
                None => self.syntax.is_nth_node(
                    KindSet::One(SyntaxKind::SELECTION_SET),
                    0,
                    None,
                ),
            },
    {
        match self.syntax.nth_node_in(KindSet::One(SyntaxKind::SELECTION_SET), 0) {
            Some(syntax) => Some(SelectionSet { syntax }),
            None => None,
        }
    }
}

/// *Alias*: Name `:`
#[derive(Debug)]
pub struct Alias<'a> {
    pub syntax: SyntaxNode<'a>,
}

impl<'a> Alias<'a> {
    /// The handle points at a node of kind `ALIAS`.
    pub open spec fn wf(&self) -> bool {
        self.syntax.wf() && self.syntax.tree().kind() == SyntaxKind::ALIAS
    }

    /// The node as this type, if it is of kind `ALIAS`.
    pub fn cast(syntax: SyntaxNode<'a>) -> (r: Option<Alias<'a>>)
        ensures
            r.is_some() == (syntax.tree().kind() == SyntaxKind::ALIAS),
            r matches Some(n) ==> n.syntax == syntax,
    {
        if syntax.kind() == SyntaxKind::ALIAS {
            Some(Alias { syntax })
        } else {
            None
        }
    }

    /// The name.
    pub fn name(&self) -> (r: Option<SyntaxToken<'a>>)
        requires
            self.wf(),
        ensures
            self.syntax.is_nth_token(KindSet::One(SyntaxKind::NAME), 0, r),
            r matches Some(t) ==> t.wf(),
    {
        self.syntax.nth_token_in(KindSet::One(SyntaxKind::NAME), 0)
    }
}

/// *Arguments*: `(` Argument+ `)`
#[derive(Debug)]
pub struct Arguments<'a> {
    pub syntax: SyntaxNode<'a>,
}

impl<'a> Arguments<'a> {
    /// The handle points at a node of kind `ARGUMENTS`.
    pub open spec fn wf(&self) -> bool {
        self.syntax.wf() && self.syntax.tree().kind() == SyntaxKind::ARGUMENTS
    }

    /// The node as this type, if it is of kind `ARGUMENTS`.
    pub fn cast(syntax: SyntaxNode<'a>) -> (r: Option<Arguments<'a>>)
        ensures
            r.is_some() == (syntax.tree().kind() == SyntaxKind::ARGUMENTS),
            r matches Some(n) ==> n.syntax == syntax,
    {
        if syntax.kind() == SyntaxKind::ARGUMENTS {
            Some(Arguments { syntax })
        } else {
            None
        }
    }

    /// The arguments, in their order.
    pub fn arguments(&self) -> (r: Vec<Argument<'a>>)
        requires
            self.wf(),
        ensures
            r@.len() == node_indices(
                self.syntax.tree().children(),
                KindSet::One(SyntaxKind::ARGUMENT),
            ).len(),
            forall|i: int|
                0 <= i < r@.len() ==> (#[trigger] r@[i]).wf() && self.syntax.is_member_node(
                    KindSet::One(SyntaxKind::ARGUMENT),
                    &r@[i].syntax,
                    i,
                ),
    {
        Argument::all_in(&self.syntax)
    }
}

/// *Argument*: Name `:` Value
#[derive(Debug)]
pub struct Argument<'a> {
    pub syntax: SyntaxNode<'a>,
}

impl<'a> Argument<'a> {
    /// The handle points at a node of kind `ARGUMENT`.
    pub open spec fn wf(&self) -> bool {
        self.syntax.wf() && self.syntax.tree().kind() == SyntaxKind::ARGUMENT
    }

    /// The node as this type, if it is of kind `ARGUMENT`.
    pub fn cast(syntax: SyntaxNode<'a>) -> (r: Option<Argument<'a>>)
        ensures
            r.is_some() == (syntax.tree().kind() == SyntaxKind::ARGUMENT),
            r matches Some(n) ==> n.syntax == syntax,
    {
        if syntax.kind() == SyntaxKind::ARGUMENT {
            Some(Argument { syntax })
        } else {
            None
        }
    }

    /// The children of `parent` that are nodes of kind `ARGUMENT`, in their
    /// order.
    pub fn all_in(parent: &SyntaxNode<'a>) -> (r: Vec<Argument<'a>>)
        requires
            parent.wf(),
        ensures
            r@.len() == node_indices(
                parent.tree().children(),
                KindSet::One(SyntaxKind::ARGUMENT),
            ).len(),
            forall|i: int|
                0 <= i < r@.len() ==> (#[trigger] r@[i]).wf() && parent.is_member_node(
                    KindSet::One(SyntaxKind::ARGUMENT),
                    &r@[i].syntax,
                    i,
                ),
    {
        let nodes = parent.nodes_in(KindSet::One(SyntaxKind::ARGUMENT));
        let ghost handles = nodes@;
        let mut out: Vec<Argument<'a>> = Vec::new();
        for syntax in it: nodes.into_iter()
            invariant
                it.seq() == handles,
                out@.len() == it.index(),
                forall|j: int| 0 <= j < out@.len() ==> (#[trigger] out@[j]).syntax == handles[j],
        {
            out.push(Argument { syntax });
        }
        out
    }

    /// The name.
    pub fn name(&self) -> (r: Option<SyntaxToken<'a>>)
        requires
            self.wf(),
        ensures
            self.syntax.is_nth_token(KindSet::One(SyntaxKind::NAME), 0, r),
            r matches Some(t) ==> t.wf(),
    {
        self.syntax.nth_token_in(KindSet::One(SyntaxKind::NAME), 0)
    }

    /// The value, if there is one.
    pub fn value(&self) -> (r: Option<Value<'a>>)
        requires
            self.wf(),
        ensures
            match r {
                Some(n) => n.wf() && self.syntax.is_nth_node(
                    KindSet::Values,
                    0,
                    Some(n.syntax()),
                ),
                None => self.syntax.is_nth_node(KindSet::Values, 0, None),
            },
    {
        match self.syntax.nth_node_in(KindSet::Values, 0) {
            Some(syntax) => Value::cast(syntax),
            None => None,
        }
    }
}

/// *FragmentSpread*: `...` FragmentName Directives?
#[derive(Debug)]
pub struct FragmentSpread<'a> {
    pub syntax: SyntaxNode<'a>,
}

impl<'a> FragmentSpread<'a> {
    /// The handle points at a node of kind `FRAGMENT_SPREAD`.
    pub open spec fn wf(&self) -> bool {
        self.syntax.wf() && self.syntax.tree().kind() == SyntaxKind::FRAGMENT_SPREAD
    }

    /// The node as this type, if it is of kind `FRAGMENT_SPREAD`.
    pub fn cast(syntax: SyntaxNode<'a>) -> (r: Option<FragmentSpread<'a>>)
        ensures
            r.is_some() == (syntax.tree().kind() == SyntaxKind::FRAGMENT_SPREAD),
            r matches Some(n) ==> n.syntax == syntax,
    {
        if syntax.kind() == SyntaxKind::FRAGMENT_SPREAD {
            Some(FragmentSpread { syntax })
        } else {
            None
        }
    }

    /// The fragment name, if there is one.
    pub fn fragment_name(&self) -> (r: Option<FragmentName<'a>>)
        requires
            self.wf(),
        ensures
            match r {
                Some(n) => n.wf() && self.syntax.is_nth_node(
                    KindSet::One(SyntaxKind::FRAGMENT_NAME),
                    0,
                    Some(n.syntax),
                ),
                None => self.syntax.is_nth_node(
                    KindSet::One(SyntaxKind::FRAGMENT_NAME),
                    0,
                    None,
                ),
            },
    {
        match self.syntax.nth_node_in(KindSet::One(SyntaxKind::FRAGMENT_NAME), 0) {
            Some(syntax) => Some(FragmentName { syntax }),
            None => None,
        }
    }

    /// The directives, if there is one.
    pub fn directives(&self) -> (r: Option<Directives<'a>>)
        requires
            self.wf(),
        ensures
            match r {
                Some(n) => n.wf() && self.syntax.is_nth_node(
                    KindSet::One(SyntaxKind::DIRECTIVES),
                    0,
                    Some(n.syntax),
                ),
                None => self.syntax.is_nth_node(
                    KindSet::One(SyntaxKind::DIRECTIVES),
                    0,
                    None,
                ),
            },
    {
        match self.syntax.nth_node_in(KindSet::One(SyntaxKind::DIRECTIVES), 0) {
            Some(syntax) => Some(Directives { syntax }),
            None => None,
        }
    }
}

/// *InlineFragment*: `...` TypeCondition? Directives? SelectionSet
#[derive(Debug)]
pub struct InlineFragment<'a> {
    pub syntax: SyntaxNode<'a>,
}

impl<'a> InlineFragment<'a> {
    /// The handle points at a node of kind `INLINE_FRAGMENT`.
    pub open spec fn wf(&self) -> bool {
        self.syntax.wf() && self.syntax.tree().kind() == SyntaxKind::INLINE_FRAGMENT
    }

    /// The node as this type, if it is of kind `INLINE_FRAGMENT`.
    pub fn cast(syntax: SyntaxNode<'a>) -> (r: Option<InlineFragment<'a>>)
        ensures
            r.is_some() == (syntax.tree().kind() == SyntaxKind::INLINE_FRAGMENT),
            r matches Some(n) ==> n.syntax == syntax,
    {
        if syntax.kind() == SyntaxKind::INLINE_FRAGMENT {
            Some(InlineFragment { syntax })
        } else {
            None
        }
    }

    /// The type condition, if there is one.
    pub fn type_condition(&self) -> (r: Option<TypeCondition<'a>>)
        requires
            self.wf(),
        ensures
            match r {
                Some(n) => n.wf() && self.syntax.is_nth_node(
                    KindSet::One(SyntaxKind::TYPE_CONDITION),
                    0,
                    Some(n.syntax),
                ),
                None => self.syntax.is_nth_node(
                    KindSet::One(SyntaxKind::TYPE_CONDITION),
                    0,
                    None,
                ),
            },
    {
        match self.syntax.nth_node_in(KindSet::One(SyntaxKind::TYPE_CONDITION), 0) {
            Some(syntax) => Some(TypeCondition { syntax }),
            None => None,
        }
    }

    /// The directives, if there is one.
    pub fn directives(&self) -> (r: Option<Directives<'a>>)
        requires
            self.wf(),
        ensures
            match r {
                Some(n) => n.wf() && self.syntax.is_nth_node(
                    KindSet::One(SyntaxKind::DIRECTIVES),
                    0,
                    Some(n.syntax),
                ),
                None => self.syntax.is_nth_node(
                    KindSet::One(SyntaxKind::DIRECTIVES),
                    0,
                    None,
                ),
            },
    {
        match self.syntax.nth_node_in(KindSet::One(SyntaxKind::DIRECTIVES), 0) {
            Some(syntax) => Some(Directives { syntax }),
            None => None,
        }
    }

    /// The selection set, if there is one.
    pub fn selection_set(&self) -> (r: Option<SelectionSet<'a>>)
        requires
            self.wf(),
        ensures
            match r {
                Some(n) => n.wf() && self.syntax.is_nth_node(
                    KindSet::One(SyntaxKind::SELECTION_SET),
                    0,
                    Some(n.syntax),
                ),
                None => self.syntax.is_nth_node(
                    KindSet::One(SyntaxKind::SELECTION_SET),
                    0,
                    None,
                ),
            },
    {
        match self.syntax.nth_node_in(KindSet::One(SyntaxKind::SELECTION_SET), 0) {
            Some(syntax) => Some(SelectionSet { syntax }),
            None => None,
        }
    }
}

/// *FragmentDefinition*: `fragment` FragmentName TypeCondition Directives?
/// SelectionSet
#[derive(Debug)]
pub struct FragmentDefinition<'a> {
    pub syntax: SyntaxNode<'a>,
}

impl<'a> FragmentDefinition<'a> {
    /// The handle points at a node of kind `FRAGMENT_DEFINITION`.
    pub open spec fn wf(&self) -> bool {
        self.syntax.wf() && self.syntax.tree().kind() == SyntaxKind::FRAGMENT_DEFINITION
    }

    /// The node as this type, if it is of kind `FRAGMENT_DEFINITION`.
    pub fn cast(syntax: SyntaxNode<'a>) -> (r: Option<FragmentDefinition<'a>>)
        ensures
            r.is_some() == (syntax.tree().kind() == SyntaxKind::FRAGMENT_DEFINITION),
            r matches Some(n) ==> n.syntax == syntax,
    {
        if syntax.kind() == SyntaxKind::FRAGMENT_DEFINITION {
            Some(FragmentDefinition { syntax })
        } else {
            None
        }
    }

    /// The fragment name, if there is one.
    pub fn fragment_name(&self) -> (r: Option<FragmentName<'a>>)
        requires
            self.wf(),
        ensures
            match r {
                Some(n) => n.wf() && self.syntax.is_nth_node(
                    KindSet::One(SyntaxKind::FRAGMENT_NAME),
                    0,
                    Some(n.syntax),
                ),
                None => self.syntax.is_nth_node(
                    KindSet::One(SyntaxKind::FRAGMENT_NAME),
                    0,
                    None,
                ),
            },
    {
        match self.syntax.nth_node_in(KindSet::One(SyntaxKind::FRAGMENT_NAME), 0) {
            Some(syntax) => Some(FragmentName { syntax }),
            None => None,
        }
    }

    /// The type condition, if there is one.
    pub fn type_condition(&self) -> (r: Option<TypeCondition<'a>>)
        requires
            self.wf(),
        ensures
            match r {
                Some(n) => n.wf() && self.syntax.is_nth_node(
                    KindSet::One(SyntaxKind::TYPE_CONDITION),
                    0,
                    Some(n.syntax),
                ),
                None => self.syntax.is_nth_node(
                    KindSet::One(SyntaxKind::TYPE_CONDITION),
                    0,
                    None,
                ),
            },
    {
        match self.syntax.nth_node_in(KindSet::One(SyntaxKind::TYPE_CONDITION), 0) {
            Some(syntax) => Some(TypeCondition { syntax }),
            None => None,
        }
    }

    /// The directives, if there is one.
    pub fn directives(&self) -> (r: Option<Directives<'a>>)
        requires
            self.wf(),
        ensures
            match r {
                Some(n) => n.wf() && self.syntax.is_nth_node(
                    KindSet::One(SyntaxKind::DIRECTIVES),
                    0,
                    Some(n.syntax),
                ),
                None => self.syntax.is_nth_node(
                    KindSet::One(SyntaxKind::DIRECTIVES),
                    0,
                    None,
                ),
            },
    {
        match self.syntax.nth_node_in(KindSet::One(SyntaxKind::DIRECTIVES), 0) {
            Some(syntax) => Some(Directives { syntax }),
            None => None,
        }
    }

    /// The selection set, if there is one.
    pub fn selection_set(&self) -> (r: Option<SelectionSet<'a>>)
        requires
            self.wf(),
        ensures
            match r {
                Some(n) => n.wf() && self.syntax.is_nth_node(
                    KindSet::One(SyntaxKind::SELECTION_SET),
                    0,
                    Some(n.syntax),
                ),
                None => self.syntax.is_nth_node(
                    KindSet::One(SyntaxKind::SELECTION_SET),
                    0,
                    None,
                ),
            },
    {
        match self.syntax.nth_node_in(KindSet::One(SyntaxKind::SELECTION_SET), 0) {
            Some(syntax) => Some(SelectionSet { syntax }),
            None => None,
        }
    }
}

/// *FragmentName*: Name, but not `on`.
#[derive(Debug)]
pub struct FragmentName<'a> {
    pub syntax: SyntaxNode<'a>,
}

impl<'a> FragmentName<'a> {
    /// The handle points at a node of kind `FRAGMENT_NAME`.
    pub open spec fn wf(&self) -> bool {
        self.syntax.wf() && self.syntax.tree().kind() == SyntaxKind::FRAGMENT_NAME
    }

    /// The node as this type, if it is of kind `FRAGMENT_NAME`.
    pub fn cast(syntax: SyntaxNode<'a>) -> (r: Option<FragmentName<'a>>)
        ensures
            r.is_some() == (syntax.tree().kind() == SyntaxKind::FRAGMENT_NAME),
            r matches Some(n) ==> n.syntax == syntax,
    {
        if syntax.kind() == SyntaxKind::FRAGMENT_NAME {
            Some(FragmentName { syntax })
        } else {
            None
        }
    }

    /// The name.
    pub fn name(&self) -> (r: Option<SyntaxToken<'a>>)
        requires
            self.wf(),
        ensures
            self.syntax.is_nth_token(KindSet::One(SyntaxKind::NAME), 0, r),
            r matches Some(t) ==> t.wf(),
    {
        self.syntax.nth_token_in(KindSet::One(SyntaxKind::NAME), 0)
    }
}

/// *TypeCondition*: `on` NamedType
#[derive(Debug)]
pub struct TypeCondition<'a> {
    pub syntax: SyntaxNode<'a>,
}

impl<'a> TypeCondition<'a> {
    /// The handle points at a node of kind `TYPE_CONDITION`.
    pub open spec fn wf(&self) -> bool {
        self.syntax.wf() && self.syntax.tree().kind() == SyntaxKind::TYPE_CONDITION
    }

    /// The node as this type, if it is of kind `TYPE_CONDITION`.
    pub fn cast(syntax: SyntaxNode<'a>) -> (r: Option<TypeCondition<'a>>)
        ensures
            r.is_some() == (syntax.tree().kind() == SyntaxKind::TYPE_CONDITION),
            r matches Some(n) ==> n.syntax == syntax,
    {
        if syntax.kind() == SyntaxKind::TYPE_CONDITION {
            Some(TypeCondition { syntax })
        } else {
            None
        }
    }

    /// The named type, if there is one.
    pub fn named_type(&self) -> (r: Option<NamedType<'a>>)
        requires
            self.wf(),
        ensures
            match r {
                Some(n) => n.wf() && self.syntax.is_nth_node(
                    KindSet::One(SyntaxKind::NAMED_TYPE),
                    0,
                    Some(n.syntax),
                ),
                None => self.syntax.is_nth_node(
                    KindSet::One(SyntaxKind::NAMED_TYPE),
                    0,
                    None,
                ),
            },
    {
        match self.syntax.nth_node_in(KindSet::One(SyntaxKind::NAMED_TYPE), 0) {
            Some(syntax) => Some(NamedType { syntax }),
            None => None,
        }
    }
}

/// *Directives*: Directive+
#[derive(Debug)]
pub struct Directives<'a> {
    pub syntax: SyntaxNode<'a>,
}

impl<'a> Directives<'a> {
    /// The handle points at a node of kind `DIRECTIVES`.
    pub open spec fn wf(&self) -> bool {
        self.syntax.wf() && self.syntax.tree().kind() == SyntaxKind::DIRECTIVES
    }

    /// The node as this type, if it is of kind `DIRECTIVES`.
    pub fn cast(syntax: SyntaxNode<'a>) -> (r: Option<Directives<'a>>)
        ensures
            r.is_some() == (syntax.tree().kind() == SyntaxKind::DIRECTIVES),
            r matches Some(n) ==> n.syntax == syntax,
    {
        if syntax.kind() == SyntaxKind::DIRECTIVES {
            Some(Directives { syntax })
        } else {
            None
        }
    }

    /// The directives, in their order.
    pub fn directives(&self) -> (r: Vec<Directive<'a>>)
        requires
            self.wf(),
        ensures
            r@.len() == node_indices(
                self.syntax.tree().children(),
                KindSet::One(SyntaxKind::DIRECTIVE),
            ).len(),
            forall|i: int|
                0 <= i < r@.len() ==> (#[trigger] r@[i]).wf() && self.syntax.is_member_node(
                    KindSet::One(SyntaxKind::DIRECTIVE),
                    &r@[i].syntax,
                    i,
                ),
    {
        Directive::all_in(&self.syntax)
    }
}

/// *Directive*: `@` Name Arguments?
#[derive(Debug)]
pub struct Directive<'a> {
    pub syntax: SyntaxNode<'a>,
}

impl<'a> Directive<'a> {
    /// The handle points at a node of kind `DIRECTIVE`.
    pub open spec fn wf(&self) -> bool {
        self.syntax.wf() && self.syntax.tree().kind() == SyntaxKind::DIRECTIVE
    }

    /// The node as this type, if it is of kind `DIRECTIVE`.
    pub fn cast(syntax: SyntaxNode<'a>) -> (r: Option<Directive<'a>>)
        ensures
            r.is_some() == (syntax.tree().kind() == SyntaxKind::DIRECTIVE),
            r matches Some(n) ==> n.syntax == syntax,
    {
        if syntax.kind() == SyntaxKind::DIRECTIVE {
            Some(Directive { syntax })
        } else {
            None
        }
    }

    /// The children of `parent` that are nodes of kind `DIRECTIVE`, in their
    /// order.
    pub fn all_in(parent: &SyntaxNode<'a>) -> (r: Vec<Directive<'a>>)
        requires
            parent.wf(),
        ensures
            r@.len() == node_indices(
                parent.tree().children(),
                KindSet::One(SyntaxKind::DIRECTIVE),
            ).len(),
            forall|i: int|
                0 <= i < r@.len() ==> (#[trigger] r@[i]).wf() && parent.is_member_node(
                    KindSet::One(SyntaxKind::DIRECTIVE),
                    &r@[i].syntax,
                    i,
                ),
    {
        let nodes = parent.nodes_in(KindSet::One(SyntaxKind::DIRECTIVE));
        let ghost handles = nodes@;
        let mut out: Vec<Directive<'a>> = Vec::new();
        for syntax in it: nodes.into_iter()
            invariant
                it.seq() == handles,
                out@.len() == it.index(),
                forall|j: int| 0 <= j < out@.len() ==> (#[trigger] out@[j]).syntax == handles[j],
        {
            out.push(Directive { syntax });
        }
        out
    }

    /// The name.
    pub fn name(&self) -> (r: Option<SyntaxToken<'a>>)
        requires
            self.wf(),
        ensures
            self.syntax.is_nth_token(KindSet::One(SyntaxKind::NAME), 0, r),
            r matches Some(t) ==> t.wf(),
    {
        self.syntax.nth_token_in(KindSet::One(SyntaxKind::NAME), 0)
    }

    /// The arguments, if there is one.
    pub fn arguments(&self) -> (r: Option<Arguments<'a>>)
        requires
            self.wf(),
        ensures
            match r {
                Some(n) => n.wf() && self.syntax.is_nth_node(
                    KindSet::One(SyntaxKind::ARGUMENTS),
                    0,
                    Some(n.syntax),
                ),
                None => self.syntax.is_nth_node(
                    KindSet::One(SyntaxKind::ARGUMENTS),
                    0,
                    None,
                ),
            },
    {
        match self.syntax.nth_node_in(KindSet::One(SyntaxKind::ARGUMENTS), 0) {
            Some(syntax) => Some(Arguments { syntax }),
            None => None,
        }
    }
}

/// *Variable*: `$` Name
#[derive(Debug)]
pub struct Variable<'a> {
    pub syntax: SyntaxNode<'a>,
}

impl<'a> Variable<'a> {
    /// The handle points at a node of kind `VARIABLE`.
    pub open spec fn wf(&self) -> bool {
        self.syntax.wf() && self.syntax.tree().kind() == SyntaxKind::VARIABLE
    }

    /// The node as this type, if it is of kind `VARIABLE`.
    pub fn cast(syntax: SyntaxNode<'a>) -> (r: Option<Variable<'a>>)
        ensures
            r.is_some() == (syntax.tree().kind() == SyntaxKind::VARIABLE),
            r matches Some(n) ==> n.syntax == syntax,
    {
        if syntax.kind() == SyntaxKind::VARIABLE {
            Some(Variable { syntax })
        } else {
            None
        }
    }

    /// The name.
    pub fn name(&self) -> (r: Option<SyntaxToken<'a>>)
        requires
            self.wf(),
        ensures
            self.syntax.is_nth_token(KindSet::One(SyntaxKind::NAME), 0, r),
            r matches Some(t) ==> t.wf(),
    {
        self.syntax.nth_token_in(KindSet::One(SyntaxKind::NAME), 0)
    }
}

/// *StringValue*: a string literal.
#[derive(Debug)]
pub struct StringValue<'a> {
    pub syntax: SyntaxNode<'a>,
}

impl<'a> StringValue<'a> {
    /// The handle points at a node of kind `STRING_VALUE`.
    pub open spec fn wf(&self) -> bool {
        self.syntax.wf() && self.syntax.tree().kind() == SyntaxKind::STRING_VALUE
    }

    /// The node as this type, if it is of kind `STRING_VALUE`.
    pub fn cast(syntax: SyntaxNode<'a>) -> (r: Option<StringValue<'a>>)
        ensures
            r.is_some() == (syntax.tree().kind() == SyntaxKind::STRING_VALUE),
            r matches Some(n) ==> n.syntax == syntax,
    {
        if syntax.kind() == SyntaxKind::STRING_VALUE {
            Some(StringValue { syntax })
        } else {
            None
        }
    }

    /// The literal, quotes included.
    pub fn token(&self) -> (r: Option<SyntaxToken<'a>>)
        requires
            self.wf(),
        ensures
            self.syntax.is_nth_token(KindSet::One(SyntaxKind::STRING), 0, r),
            r matches Some(t) ==> t.wf(),
    {
        self.syntax.nth_token_in(KindSet::One(SyntaxKind::STRING), 0)
    }
}

/// *IntValue*: an integer literal.
#[derive(Debug)]
pub struct IntValue<'a> {
    pub syntax: SyntaxNode<'a>,
}

impl<'a> IntValue<'a> {
    /// The handle points at a node of kind `INT_VALUE`.
    pub open spec fn wf(&self) -> bool {
        self.syntax.wf() && self.syntax.tree().kind() == SyntaxKind::INT_VALUE
    }

    /// The node as this type, if it is of kind `INT_VALUE`.
    pub fn cast(syntax: SyntaxNode<'a>) -> (r: Option<IntValue<'a>>)
        ensures
            r.is_some() == (syntax.tree().kind() == SyntaxKind::INT_VALUE),
            r matches Some(n) ==> n.syntax == syntax,
    {
        if syntax.kind() == SyntaxKind::INT_VALUE {
            Some(IntValue { syntax })
        } else {
            None
        }
    }

    /// The literal.
    pub fn token(&self) -> (r: Option<SyntaxToken<'a>>)
        requires
            self.wf(),
        ensures
            self.syntax.is_nth_token(KindSet::One(SyntaxKind::INT), 0, r),
            r matches Some(t) ==> t.wf(),
    {
        self.syntax.nth_token_in(KindSet::One(SyntaxKind::INT), 0)
    }
}

/// *FloatValue*: a floating-point literal.
#[derive(Debug)]
pub struct FloatValue<'a> {
    pub syntax: SyntaxNode<'a>,
}

impl<'a> FloatValue<'a> {
    /// The handle points at a node of kind `FLOAT_VALUE`.
    pub open spec fn wf(&self) -> bool {
        self.syntax.wf() && self.syntax.tree().kind() == SyntaxKind::FLOAT_VALUE
    }

    /// The node as this type, if it is of kind `FLOAT_VALUE`.
    pub fn cast(syntax: SyntaxNode<'a>) -> (r: Option<FloatValue<'a>>)
        ensures
            r.is_some() == (syntax.tree().kind() == SyntaxKind::FLOAT_VALUE),
            r matches Some(n) ==> n.syntax == syntax,
    {
        if syntax.kind() == SyntaxKind::FLOAT_VALUE {
            Some(FloatValue { syntax })
        } else {
            None
        }
    }

    /// The literal.
    pub fn token(&self) -> (r: Option<SyntaxToken<'a>>)
        requires
            self.wf(),
        ensures
            self.syntax.is_nth_token(KindSet::One(SyntaxKind::FLOAT), 0, r),
            r matches Some(t) ==> t.wf(),
    {
        self.syntax.nth_token_in(KindSet::One(SyntaxKind::FLOAT), 0)
    }
}

/// *BooleanValue*: `true` or `false`.
#[derive(Debug)]
pub struct BooleanValue<'a> {
    pub syntax: SyntaxNode<'a>,
}

impl<'a> BooleanValue<'a> {
    /// The handle points at a node of kind `BOOLEAN_VALUE`.
    pub open spec fn wf(&self) -> bool {
        self.syntax.wf() && self.syntax.tree().kind() == SyntaxKind::BOOLEAN_VALUE
    }

    /// The node as this type, if it is of kind `BOOLEAN_VALUE`.
    pub fn cast(syntax: SyntaxNode<'a>) -> (r: Option<BooleanValue<'a>>)
        ensures
            r.is_some() == (syntax.tree().kind() == SyntaxKind::BOOLEAN_VALUE),
            r matches Some(n) ==> n.syntax == syntax,
    {
        if syntax.kind() == SyntaxKind::BOOLEAN_VALUE {
            Some(BooleanValue { syntax })
        } else {
            None
        }
    }

    /// The keyword.
    pub fn token(&self) -> (r: Option<SyntaxToken<'a>>)
        requires
            self.wf(),
        ensures
            self.syntax.is_nth_token(KindSet::One(SyntaxKind::NAME), 0, r),
            r matches Some(t) ==> t.wf(),
    {
        self.syntax.nth_token_in(KindSet::One(SyntaxKind::NAME), 0)
    }
}

/// *NullValue*: `null`.
#[derive(Debug)]
pub struct NullValue<'a> {
    pub syntax: SyntaxNode<'a>,
}

impl<'a> NullValue<'a> {
    /// The handle points at a node of kind `NULL_VALUE`.
    pub open spec fn wf(&self) -> bool {
        self.syntax.wf() && self.syntax.tree().kind() == SyntaxKind::NULL_VALUE
    }

    /// The node as this type, if it is of kind `NULL_VALUE`.
    pub fn cast(syntax: SyntaxNode<'a>) -> (r: Option<NullValue<'a>>)
        ensures
            r.is_some() == (syntax.tree().kind() == SyntaxKind::NULL_VALUE),
            r matches Some(n) ==> n.syntax == syntax,
    {
        if syntax.kind() == SyntaxKind::NULL_VALUE {
            Some(NullValue { syntax })
        } else {
            None
        }
    }

    /// The keyword.
    pub fn token(&self) -> (r: Option<SyntaxToken<'a>>)
        requires
            self.wf(),
        ensures
            self.syntax.is_nth_token(KindSet::One(SyntaxKind::NAME), 0, r),
            r matches Some(t) ==> t.wf(),
    {
        self.syntax.nth_token_in(KindSet::One(SyntaxKind::NAME), 0)
    }
}

/// *EnumValue*: Name, but not `true`, `false` or `null`.
#[derive(Debug)]
pub struct EnumValue<'a> {
    pub syntax: SyntaxNode<'a>,
}

impl<'a> EnumValue<'a> {
    /// The handle points at a node of kind `ENUM_VALUE`.
    pub open spec fn wf(&self) -> bool {
        self.syntax.wf() && self.syntax.tree().kind() == SyntaxKind::ENUM_VALUE
    }

    /// The node as this type, if it is of kind `ENUM_VALUE`.
    pub fn cast(syntax: SyntaxNode<'a>) -> (r: Option<EnumValue<'a>>)
        ensures
            r.is_some() == (syntax.tree().kind() == SyntaxKind::ENUM_VALUE),
            r matches Some(n) ==> n.syntax == syntax,
    {
        if syntax.kind() == SyntaxKind::ENUM_VALUE {
            Some(EnumValue { syntax })
        } else {
            None
        }
    }

    /// The name.
    pub fn name(&self) -> (r: Option<SyntaxToken<'a>>)
        requires
            self.wf(),
        ensures
            self.syntax.is_nth_token(KindSet::One(SyntaxKind::NAME), 0, r),
            r matches Some(t) ==> t.wf(),
    {
        self.syntax.nth_token_in(KindSet::One(SyntaxKind::NAME), 0)
    }
}

/// *ListValue*: `[` Value* `]`
#[derive(Debug)]
pub struct ListValue<'a> {
    pub syntax: SyntaxNode<'a>,
}

impl<'a> ListValue<'a> {
    /// The handle points at a node of kind `LIST_VALUE`.
    pub open spec fn wf(&self) -> bool {
        self.syntax.wf() && self.syntax.tree().kind() == SyntaxKind::LIST_VALUE
    }

    /// The node as this type, if it is of kind `LIST_VALUE`.
    pub fn cast(syntax: SyntaxNode<'a>) -> (r: Option<ListValue<'a>>)
        ensures
            r.is_some() == (syntax.tree().kind() == SyntaxKind::LIST_VALUE),
            r matches Some(n) ==> n.syntax == syntax,
    {
        if syntax.kind() == SyntaxKind::LIST_VALUE {
            Some(ListValue { syntax })
        } else {
            None
        }
    }

    /// The values, in their order.
    pub fn values(&self) -> (r: Vec<Value<'a>>)
        requires
            self.wf(),
        ensures
            r@.len() == node_indices(
                self.syntax.tree().children(),
                KindSet::Values,
            ).len(),
            forall|i: int|
                0 <= i < r@.len() ==> (#[trigger] r@[i]).wf() && self.syntax.is_member_node(
                    KindSet::Values,
                    &r@[i].syntax(),
                    i,
                ),
    {
        Value::all_in(&self.syntax)
    }
}

/// *ObjectValue*: `{` ObjectField* `}`
#[derive(Debug)]
pub struct ObjectValue<'a> {
    pub syntax: SyntaxNode<'a>,
}

impl<'a> ObjectValue<'a> {
    /// The handle points at a node of kind `OBJECT_VALUE`.
    pub open spec fn wf(&self) -> bool {
        self.syntax.wf() && self.syntax.tree().kind() == SyntaxKind::OBJECT_VALUE
    }

    /// The node as this type, if it is of kind `OBJECT_VALUE`.
    pub fn cast(syntax: SyntaxNode<'a>) -> (r: Option<ObjectValue<'a>>)
        ensures
            r.is_some() == (syntax.tree().kind() == SyntaxKind::OBJECT_VALUE),
            r matches Some(n) ==> n.syntax == syntax,
    {
        if syntax.kind() == SyntaxKind::OBJECT_VALUE {
            Some(ObjectValue { syntax })
        } else {
            None
        }
    }

    /// The object fields, in their order.
    pub fn object_fields(&self) -> (r: Vec<ObjectField<'a>>)
        requires
            self.wf(),
        ensures
            r@.len() == node_indices(
                self.syntax.tree().children(),
                KindSet::One(SyntaxKind::OBJECT_FIELD),
            ).len(),
            forall|i: int|
                0 <= i < r@.len() ==> (#[trigger] r@[i]).wf() && self.syntax.is_member_node(
                    KindSet::One(SyntaxKind::OBJECT_FIELD),
                    &r@[i].syntax,
                    i,
                ),
    {
        ObjectField::all_in(&self.syntax)
    }
}

/// *ObjectField*: Name `:` Value
#[derive(Debug)]
pub struct ObjectField<'a> {
    pub syntax: SyntaxNode<'a>,
}

impl<'a> ObjectField<'a> {
    /// The handle points at a node of kind `OBJECT_FIELD`.
    pub open spec fn wf(&self) -> bool {
        self.syntax.wf() && self.syntax.tree().kind() == SyntaxKind::OBJECT_FIELD
    }

    /// The node as this type, if it is of kind `OBJECT_FIELD`.
    pub fn cast(syntax: SyntaxNode<'a>) -> (r: Option<ObjectField<'a>>)
        ensures
            r.is_some() == (syntax.tree().kind() == SyntaxKind::OBJECT_FIELD),
            r matches Some(n) ==> n.syntax == syntax,
    {
        if syntax.kind() == SyntaxKind::OBJECT_FIELD {
            Some(ObjectField { syntax })
        } else {
            None
        }
    }

    /// The children of `parent` that are nodes of kind `OBJECT_FIELD`, in their
    /// order.
    pub fn all_in(parent: &SyntaxNode<'a>) -> (r: Vec<ObjectField<'a>>)
        requires
            parent.wf(),
        ensures
            r@.len() == node_indices(
                parent.tree().children(),
                KindSet::One(SyntaxKind::OBJECT_FIELD),
            ).len(),
            forall|i: int|
                0 <= i < r@.len() ==> (#[trigger] r@[i]).wf() && parent.is_member_node(
                    KindSet::One(SyntaxKind::OBJECT_FIELD),
                    &r@[i].syntax,
                    i,
                ),
    {
        let nodes = parent.nodes_in(KindSet::One(SyntaxKind::OBJECT_FIELD));
        let ghost handles = nodes@;
        let mut out: Vec<ObjectField<'a>> = Vec::new();
        for syntax in it: nodes.into_iter()
            invariant
                it.seq() == handles,
                out@.len() == it.index(),
                forall|j: int| 0 <= j < out@.len() ==> (#[trigger] out@[j]).syntax == handles[j],
        {
            out.push(ObjectField { syntax });
        }
        out
    }

    /// The name.
    pub fn name(&self) -> (r: Option<SyntaxToken<'a>>)
        requires
            self.wf(),
        ensures
            self.syntax.is_nth_token(KindSet::One(SyntaxKind::NAME), 0, r),
            r matches Some(t) ==> t.wf(),
    {
        self.syntax.nth_token_in(KindSet::One(SyntaxKind::NAME), 0)
    }

    /// The value, if there is one.
    pub fn value(&self) -> (r: Option<Value<'a>>)
        requires
            self.wf(),
        ensures
            match r {
                Some(n) => n.wf() && self.syntax.is_nth_node(
                    KindSet::Values,
                    0,
                    Some(n.syntax()),
                ),
                None => self.syntax.is_nth_node(KindSet::Values, 0, None),
            },
    {
        match self.syntax.nth_node_in(KindSet::Values, 0) {
            Some(syntax) => Value::cast(syntax),
            None => None,
        }
    }
}

/// *NamedType*: Name
#[derive(Debug)]
pub struct NamedType<'a> {
    pub syntax: SyntaxNode<'a>,
}

impl<'a> NamedType<'a> {
    /// The handle points at a node of kind `NAMED_TYPE`.
    pub open spec fn wf(&self) -> bool {
        self.syntax.wf() && self.syntax.tree().kind() == SyntaxKind::NAMED_TYPE
    }

    /// The node as this type, if it is of kind `NAMED_TYPE`.
    pub fn cast(syntax: SyntaxNode<'a>) -> (r: Option<NamedType<'a>>)
        ensures
            r.is_some() == (syntax.tree().kind() == SyntaxKind::NAMED_TYPE),
            r matches Some(n) ==> n.syntax == syntax,
    {
        if syntax.kind() == SyntaxKind::NAMED_TYPE {
            Some(NamedType { syntax })
        } else {
            None
        }
    }

    /// The children of `parent` that are nodes of kind `NAMED_TYPE`, in their
    /// order.
    pub fn all_in(parent: &SyntaxNode<'a>) -> (r: Vec<NamedType<'a>>)
        requires
            parent.wf(),
        ensures
            r@.len() == node_indices(
                parent.tree().children(),
                KindSet::One(SyntaxKind::NAMED_TYPE),
            ).len(),
            forall|i: int|
                0 <= i < r@.len() ==> (#[trigger] r@[i]).wf() && parent.is_member_node(
                    KindSet::One(SyntaxKind::NAMED_TYPE),
                    &r@[i].syntax,
                    i,
                ),
    {
        let nodes = parent.nodes_in(KindSet::One(SyntaxKind::NAMED_TYPE));
        let ghost handles = nodes@;
        let mut out: Vec<NamedType<'a>> = Vec::new();
        for syntax in it: nodes.into_iter()
            invariant
                it.seq() == handles,
                out@.len() == it.index(),
                forall|j: int| 0 <= j < out@.len() ==> (#[trigger] out@[j]).syntax == handles[j],
        {
            out.push(NamedType { syntax });
        }
        out
    }

    /// The name.
    pub fn name(&self) -> (r: Option<SyntaxToken<'a>>)
        requires
            self.wf(),
        ensures
            self.syntax.is_nth_token(KindSet::One(SyntaxKind::NAME), 0, r),
            r matches Some(t) ==> t.wf(),
    {
        self.syntax.nth_token_in(KindSet::One(SyntaxKind::NAME), 0)
    }
}

/// *ListType*: `[` Type `]`
#[derive(Debug)]
pub struct ListType<'a> {
    pub syntax: SyntaxNode<'a>,
}

impl<'a> ListType<'a> {
    /// The handle points at a node of kind `LIST_TYPE`.
    pub open spec fn wf(&self) -> bool {
        self.syntax.wf() && self.syntax.tree().kind() == SyntaxKind::LIST_TYPE
    }

    /// The node as this type, if it is of kind `LIST_TYPE`.
    pub fn cast(syntax: SyntaxNode<'a>) -> (r: Option<ListType<'a>>)
        ensures
            r.is_some() == (syntax.tree().kind() == SyntaxKind::LIST_TYPE),
            r matches Some(n) ==> n.syntax == syntax,
    {
        if syntax.kind() == SyntaxKind::LIST_TYPE {
            Some(ListType { syntax })
        } else {
            None
        }
    }

    /// The type, if there is one.
    pub fn ty(&self) -> (r: Option<Type<'a>>)
        requires
            self.wf(),
        ensures
            match r {
                Some(n) => n.wf() && self.syntax.is_nth_node(
                    KindSet::Types,
                    0,
                    Some(n.syntax()),
                ),
                None => self.syntax.is_nth_node(KindSet::Types, 0, None),
            },
    {
        match self.syntax.nth_node_in(KindSet::Types, 0) {
            Some(syntax) => Type::cast(syntax),
            None => None,
        }
    }
}

/// *NonNullType*: NamedType `!` or ListType `!`
#[derive(Debug)]
pub struct NonNullType<'a> {
    pub syntax: SyntaxNode<'a>,
}

impl<'a> NonNullType<'a> {
    /// The handle points at a node of kind `NON_NULL_TYPE`.
    pub open spec fn wf(&self) -> bool {
        self.syntax.wf() && self.syntax.tree().kind() == SyntaxKind::NON_NULL_TYPE
    }

    /// The node as this type, if it is of kind `NON_NULL_TYPE`.
    pub fn cast(syntax: SyntaxNode<'a>) -> (r: Option<NonNullType<'a>>)
        ensures
            r.is_some() == (syntax.tree().kind() == SyntaxKind::NON_NULL_TYPE),
            r matches Some(n) ==> n.syntax == syntax,
    {
        if syntax.kind() == SyntaxKind::NON_NULL_TYPE {
            Some(NonNullType { syntax })
        } else {
            None
        }
    }

    /// The named type, if there is one.
    pub fn named_type(&self) -> (r: Option<NamedType<'a>>)
        requires
            self.wf(),
        ensures
            match r {
                Some(n) => n.wf() && self.syntax.is_nth_node(
                    KindSet::One(SyntaxKind::NAMED_TYPE),
                    0,
                    Some(n.syntax),
                ),
                None => self.syntax.is_nth_node(
                    KindSet::One(SyntaxKind::NAMED_TYPE),
                    0,
                    None,
                ),
            },
    {
        match self.syntax.nth_node_in(KindSet::One(SyntaxKind::NAMED_TYPE), 0) {
            Some(syntax) => Some(NamedType { syntax }),
            None => None,
        }
    }

    /// The list type, if there is one.
    pub fn list_type(&self) -> (r: Option<ListType<'a>>)
        requires
            self.wf(),
        ensures
            match r {
                Some(n) => n.wf() && self.syntax.is_nth_node(
                    KindSet::One(SyntaxKind::LIST_TYPE),
                    0,
                    Some(n.syntax),
                ),
                None => self.syntax.is_nth_node(
                    KindSet::One(SyntaxKind::LIST_TYPE),
                    0,
                    None,
                ),
            },
    {
        match self.syntax.nth_node_in(KindSet::One(SyntaxKind::LIST_TYPE), 0) {
            Some(syntax) => Some(ListType { syntax }),
            None => None,
        }
    }
}

/// *Description*: StringValue
#[derive(Debug)]
pub struct Description<'a> {
    pub syntax: SyntaxNode<'a>,
}

impl<'a> Description<'a> {
    /// The handle points at a node of kind `DESCRIPTION`.
    pub open spec fn wf(&self) -> bool {
        self.syntax.wf() && self.syntax.tree().kind() == SyntaxKind::DESCRIPTION
    }

    /// The node as this type, if it is of kind `DESCRIPTION`.
    pub fn cast(syntax: SyntaxNode<'a>) -> (r: Option<Description<'a>>)
        ensures
            r.is_some() == (syntax.tree().kind() == SyntaxKind::DESCRIPTION),
            r matches Some(n) ==> n.syntax == syntax,
    {
        if syntax.kind() == SyntaxKind::DESCRIPTION {
            Some(Description { syntax })
        } else {
            None
        }
    }

    /// The literal, quotes included.
    pub fn token(&self) -> (r: Option<SyntaxToken<'a>>)
        requires
            self.wf(),
        ensures
            self.syntax.is_nth_token(KindSet::One(SyntaxKind::STRING), 0, r),
            r matches Some(t) ==> t.wf(),
    {
        self.syntax.nth_token_in(KindSet::One(SyntaxKind::STRING), 0)
    }
}

/// *SchemaDefinition*: Description? `schema` Directives? `{`
/// RootOperationTypeDefinition+ `}`
#[derive(Debug)]
pub struct SchemaDefinition<'a> {
    pub syntax: SyntaxNode<'a>,
}

impl<'a> SchemaDefinition<'a> {
    /// The handle points at a node of kind `SCHEMA_DEFINITION`.
    pub open spec fn wf(&self) -> bool {
        self.syntax.wf() && self.syntax.tree().kind() == SyntaxKind::SCHEMA_DEFINITION
    }

    /// The node as this type, if it is of kind `SCHEMA_DEFINITION`.
    pub fn cast(syntax: SyntaxNode<'a>) -> (r: Option<SchemaDefinition<'a>>)
        ensures
            r.is_some() == (syntax.tree().kind() == SyntaxKind::SCHEMA_DEFINITION),
            r matches Some(n) ==> n.syntax == syntax,
    {
        if syntax.kind() == SyntaxKind::SCHEMA_DEFINITION {
            Some(SchemaDefinition { syntax })
        } else {
            None
        }
    }

    /// The description, if there is one.
    pub fn description(&self) -> (r: Option<Description<'a>>)
        requires
            self.wf(),
        ensures
            match r {
                Some(n) => n.wf() && self.syntax.is_nth_node(
                    KindSet::One(SyntaxKind::DESCRIPTION),
                    0,
                    Some(n.syntax),
                ),
                None => self.syntax.is_nth_node(
                    KindSet::One(SyntaxKind::DESCRIPTION),
                    0,
                    None,
                ),
            },
    {
        match self.syntax.nth_node_in(KindSet::One(SyntaxKind::DESCRIPTION), 0) {
            Some(syntax) => Some(Description { syntax }),
            None => None,
        }
    }

    /// The directives, if there is one.
    pub fn directives(&self) -> (r: Option<Directives<'a>>)
        requires
            self.wf(),
        ensures
            match r {
                Some(n) => n.wf() && self.syntax.is_nth_node(
                    KindSet::One(SyntaxKind::DIRECTIVES),
                    0,
                    Some(n.syntax),
                ),
                None => self.syntax.is_nth_node(
                    KindSet::One(SyntaxKind::DIRECTIVES),
                    0,
                    None,
                ),
            },
    {
        match self.syntax.nth_node_in(KindSet::One(SyntaxKind::DIRECTIVES), 0) {
            Some(syntax) => Some(Directives { syntax }),
            None => None,
        }
    }

    /// The root operation type definitions, in their order.
    pub fn root_operation_type_definitions(&self) -> (r: Vec<RootOperationTypeDefinition<'a>>)
        requires
            self.wf(),
        ensures
            r@.len() == node_indices(
                self.syntax.tree().children(),
                KindSet::One(SyntaxKind::ROOT_OPERATION_TYPE_DEFINITION),
            ).len(),
            forall|i: int|
                0 <= i < r@.len() ==> (#[trigger] r@[i]).wf() && self.syntax.is_member_node(
                    KindSet::One(SyntaxKind::ROOT_OPERATION_TYPE_DEFINITION),
                    &r@[i].syntax,
                    i,
                ),
    {
        RootOperationTypeDefinition::all_in(&self.syntax)
    }
}

/// *SchemaExtension*: `extend` `schema` Directives? and root operation types
/// in braces, or Directives alone.
#[derive(Debug)]
pub struct SchemaExtension<'a> {
    pub syntax: SyntaxNode<'a>,
}

impl<'a> SchemaExtension<'a> {
    /// The handle points at a node of kind `SCHEMA_EXTENSION`.
    pub open spec fn wf(&self) -> bool {
        self.syntax.wf() && self.syntax.tree().kind() == SyntaxKind::SCHEMA_EXTENSION
    }

    /// The node as this type, if it is of kind `SCHEMA_EXTENSION`.
    pub fn cast(syntax: SyntaxNode<'a>) -> (r: Option<SchemaExtension<'a>>)
        ensures
            r.is_some() == (syntax.tree().kind() == SyntaxKind::SCHEMA_EXTENSION),
            r matches Some(n) ==> n.syntax == syntax,
    {
        if syntax.kind() == SyntaxKind::SCHEMA_EXTENSION {
            Some(SchemaExtension { syntax })
        } else {
            None
        }
    }

    /// The directives, if there is one.
    pub fn directives(&self) -> (r: Option<Directives<'a>>)
        requires
            self.wf(),
        ensures
            match r {
                Some(n) => n.wf() && self.syntax.is_nth_node(
                    KindSet::One(SyntaxKind::DIRECTIVES),
                    0,
                    Some(n.syntax),
                ),
                None => self.syntax.is_nth_node(
                    KindSet::One(SyntaxKind::DIRECTIVES),
                    0,
                    None,
                ),
            },
    {
        match self.syntax.nth_node_in(KindSet::One(SyntaxKind::DIRECTIVES), 0) {
            Some(syntax) => Some(Directives { syntax }),
            None => None,
        }
    }

    /// The root operation type definitions, in their order.
    pub fn root_operation_type_definitions(&self) -> (r: Vec<RootOperationTypeDefinition<'a>>)
        requires
            self.wf(),
        ensures
            r@.len() == node_indices(
                self.syntax.tree().children(),
                KindSet::One(SyntaxKind::ROOT_OPERATION_TYPE_DEFINITION),
            ).len(),
            forall|i: int|
                0 <= i < r@.len() ==> (#[trigger] r@[i]).wf() && self.syntax.is_member_node(
                    KindSet::One(SyntaxKind::ROOT_OPERATION_TYPE_DEFINITION),
                    &r@[i].syntax,
                    i,
                ),
    {
        RootOperationTypeDefinition::all_in(&self.syntax)
    }
}

/// *RootOperationTypeDefinition*: OperationType `:` NamedType
#[derive(Debug)]
pub struct RootOperationTypeDefinition<'a> {
    pub syntax: SyntaxNode<'a>,
}

impl<'a> RootOperationTypeDefinition<'a> {
    /// The handle points at a node of kind `ROOT_OPERATION_TYPE_DEFINITION`.
    pub open spec fn wf(&self) -> bool {
        self.syntax.wf() && self.syntax.tree().kind() == SyntaxKind::ROOT_OPERATION_TYPE_DEFINITION
    }

    /// The node as this type, if it is of kind `ROOT_OPERATION_TYPE_DEFINITION`.
    pub fn cast(syntax: SyntaxNode<'a>) -> (r: Option<RootOperationTypeDefinition<'a>>)
        ensures
            r.is_some() == (syntax.tree().kind() == SyntaxKind::ROOT_OPERATION_TYPE_DEFINITION),
            r matches Some(n) ==> n.syntax == syntax,
    {
        if syntax.kind() == SyntaxKind::ROOT_OPERATION_TYPE_DEFINITION {
            Some(RootOperationTypeDefinition { syntax })
        } else {
            None
        }
    }

    /// The children of `parent` that are nodes of kind `ROOT_OPERATION_TYPE_DEFINITION`, in their
    /// order.
    pub fn all_in(parent: &SyntaxNode<'a>) -> (r: Vec<RootOperationTypeDefinition<'a>>)
        requires
            parent.wf(),
        ensures
            r@.len() == node_indices(
                parent.tree().children(),
                KindSet::One(SyntaxKind::ROOT_OPERATION_TYPE_DEFINITION),
            ).len(),
            forall|i: int|
                0 <= i < r@.len() ==> (#[trigger] r@[i]).wf() && parent.is_member_node(
                    KindSet::One(SyntaxKind::ROOT_OPERATION_TYPE_DEFINITION),
                    &r@[i].syntax,
                    i,
                ),
    {
        let nodes = parent.nodes_in(KindSet::One(SyntaxKind::ROOT_OPERATION_TYPE_DEFINITION));
        let ghost handles = nodes@;
        let mut out: Vec<RootOperationTypeDefinition<'a>> = Vec::new();
        for syntax in it: nodes.into_iter()
            invariant
                it.seq() == handles,
                out@.len() == it.index(),
                forall|j: int| 0 <= j < out@.len() ==> (#[trigger] out@[j]).syntax == handles[j],
        {
            out.push(RootOperationTypeDefinition { syntax });
        }
        out
    }

    /// The operation type, if there is one.
    pub fn operation_type(&self) -> (r: Option<OperationType<'a>>)
        requires
            self.wf(),
        ensures
            match r {
                Some(n) => n.wf() && self.syntax.is_nth_node(
                    KindSet::One(SyntaxKind::OPERATION_TYPE),
                    0,
                    Some(n.syntax),
                ),
                None => self.syntax.is_nth_node(
                    KindSet::One(SyntaxKind::OPERATION_TYPE),
                    0,
                    None,
                ),
            },
    {
        match self.syntax.nth_node_in(KindSet::One(SyntaxKind::OPERATION_TYPE), 0) {
            Some(syntax) => Some(OperationType { syntax }),
            None => None,
        }
    }

    /// The named type, if there is one.
    pub fn named_type(&self) -> (r: Option<NamedType<'a>>)
        requires
            self.wf(),
        ensures
            match r {
                Some(n) => n.wf() && self.syntax.is_nth_node(
                    KindSet::One(SyntaxKind::NAMED_TYPE),
                    0,
                    Some(n.syntax),
                ),
                None => self.syntax.is_nth_node(
                    KindSet::One(SyntaxKind::NAMED_TYPE),
                    0,
                    None,
                ),
            },
    {
        match self.syntax.nth_node_in(KindSet::One(SyntaxKind::NAMED_TYPE), 0) {
            Some(syntax) => Some(NamedType { syntax }),
            None => None,
        }
    }
}

/// *ScalarTypeDefinition*: Description? `scalar` Name Directives?
#[derive(Debug)]
pub struct ScalarTypeDefinition<'a> {
    pub syntax: SyntaxNode<'a>,
}

impl<'a> ScalarTypeDefinition<'a> {
    /// The handle points at a node of kind `SCALAR_TYPE_DEFINITION`.
    pub open spec fn wf(&self) -> bool {
        self.syntax.wf() && self.syntax.tree().kind() == SyntaxKind::SCALAR_TYPE_DEFINITION
    }

    /// The node as this type, if it is of kind `SCALAR_TYPE_DEFINITION`.
    pub fn cast(syntax: SyntaxNode<'a>) -> (r: Option<ScalarTypeDefinition<'a>>)
        ensures
            r.is_some() == (syntax.tree().kind() == SyntaxKind::SCALAR_TYPE_DEFINITION),
            r matches Some(n) ==> n.syntax == syntax,
    {
        if syntax.kind() == SyntaxKind::SCALAR_TYPE_DEFINITION {
            Some(ScalarTypeDefinition { syntax })
        } else {
            None
        }
    }

    /// The description, if there is one.
    pub fn description(&self) -> (r: Option<Description<'a>>)
        requires
            self.wf(),
        ensures
            match r {
                Some(n) => n.wf() && self.syntax.is_nth_node(
                    KindSet::One(SyntaxKind::DESCRIPTION),
                    0,
                    Some(n.syntax),
                ),
                None => self.syntax.is_nth_node(
                    KindSet::One(SyntaxKind::DESCRIPTION),
                    0,
                    None,
                ),
            },
    {
        match self.syntax.nth_node_in(KindSet::One(SyntaxKind::DESCRIPTION), 0) {
            Some(syntax) => Some(Description { syntax }),
            None => None,
        }
    }

    /// The name, which stands behind the keyword.
    pub fn name(&self) -> (r: Option<SyntaxToken<'a>>)
        requires
            self.wf(),
        ensures
            self.syntax.is_nth_token(KindSet::One(SyntaxKind::NAME), 1, r),
            r matches Some(t) ==> t.wf(),
    {
        self.syntax.nth_token_in(KindSet::One(SyntaxKind::NAME), 1)
    }

    /// The directives, if there is one.
    pub fn directives(&self) -> (r: Option<Directives<'a>>)
        requires
            self.wf(),
        ensures
            match r {
                Some(n) => n.wf() && self.syntax.is_nth_node(
                    KindSet::One(SyntaxKind::DIRECTIVES),
                    0,
                    Some(n.syntax),
                ),
                None => self.syntax.is_nth_node(
                    KindSet::One(SyntaxKind::DIRECTIVES),
                    0,
                    None,
                ),
            },
    {
        match self.syntax.nth_node_in(KindSet::One(SyntaxKind::DIRECTIVES), 0) {
            Some(syntax) => Some(Directives { syntax }),
            None => None,
        }
    }
}

/// *ScalarTypeExtension*: `extend` `scalar` Name Directives
#[derive(Debug)]
pub struct ScalarTypeExtension<'a> {
    pub syntax: SyntaxNode<'a>,
}

impl<'a> ScalarTypeExtension<'a> {
    /// The handle points at a node of kind `SCALAR_TYPE_EXTENSION`.
    pub open spec fn wf(&self) -> bool {
        self.syntax.wf() && self.syntax.tree().kind() == SyntaxKind::SCALAR_TYPE_EXTENSION
    }

    /// The node as this type, if it is of kind `SCALAR_TYPE_EXTENSION`.
    pub fn cast(syntax: SyntaxNode<'a>) -> (r: Option<ScalarTypeExtension<'a>>)
        ensures
            r.is_some() == (syntax.tree().kind() == SyntaxKind::SCALAR_TYPE_EXTENSION),
            r matches Some(n) ==> n.syntax == syntax,
    {
        if syntax.kind() == SyntaxKind::SCALAR_TYPE_EXTENSION {
            Some(ScalarTypeExtension { syntax })
        } else {
            None
        }
    }

    /// The name, which stands behind `extend` and the keyword.
    pub fn name(&self) -> (r: Option<SyntaxToken<'a>>)
        requires
            self.wf(),
        ensures
            self.syntax.is_nth_token(KindSet::One(SyntaxKind::NAME), 2, r),
            r matches Some(t) ==> t.wf(),
    {
        self.syntax.nth_token_in(KindSet::One(SyntaxKind::NAME), 2)
    }

    /// The directives, if there is one.
    pub fn directives(&self) -> (r: Option<Directives<'a>>)
        requires
            self.wf(),
        ensures
            match r {
                Some(n) => n.wf() && self.syntax.is_nth_node(
                    KindSet::One(SyntaxKind::DIRECTIVES),
                    0,
                    Some(n.syntax),
                ),
                None => self.syntax.is_nth_node(
                    KindSet::One(SyntaxKind::DIRECTIVES),
                    0,
                    None,
                ),
            },
    {
        match self.syntax.nth_node_in(KindSet::One(SyntaxKind::DIRECTIVES), 0) {
            Some(syntax) => Some(Directives { syntax }),
            None => None,
        }
    }
}

/// *ObjectTypeDefinition*: Description? `type` Name ImplementsInterfaces?
/// Directives? FieldsDefinition?
#[derive(Debug)]
pub struct ObjectTypeDefinition<'a> {
    pub syntax: SyntaxNode<'a>,
}

impl<'a> ObjectTypeDefinition<'a> {
    /// The handle points at a node of kind `OBJECT_TYPE_DEFINITION`.
    pub open spec fn wf(&self) -> bool {
        self.syntax.wf() && self.syntax.tree().kind() == SyntaxKind::OBJECT_TYPE_DEFINITION
    }

    /// The node as this type, if it is of kind `OBJECT_TYPE_DEFINITION`.
    pub fn cast(syntax: SyntaxNode<'a>) -> (r: Option<ObjectTypeDefinition<'a>>)
        ensures
            r.is_some() == (syntax.tree().kind() == SyntaxKind::OBJECT_TYPE_DEFINITION),
            r matches Some(n) ==> n.syntax == syntax,
    {
        if syntax.kind() == SyntaxKind::OBJECT_TYPE_DEFINITION {
            Some(ObjectTypeDefinition { syntax })
        } else {
            None
        }
    }

    /// The description, if there is one.
    pub fn description(&self) -> (r: Option<Description<'a>>)
        requires
            self.wf(),
        ensures
            match r {
                Some(n) => n.wf() && self.syntax.is_nth_node(
                    KindSet::One(SyntaxKind::DESCRIPTION),
                    0,
                    Some(n.syntax),
                ),
                None => self.syntax.is_nth_node(
                    KindSet::One(SyntaxKind::DESCRIPTION),
                    0,
                    None,
                ),
            },
    {
        match self.syntax.nth_node_in(KindSet::One(SyntaxKind::DESCRIPTION), 0) {
            Some(syntax) => Some(Description { syntax }),
            None => None,
        }
    }

    /// The name, which stands behind the keyword.
    pub fn name(&self) -> (r: Option<SyntaxToken<'a>>)
        requires
            self.wf(),
        ensures
            self.syntax.is_nth_token(KindSet::One(SyntaxKind::NAME), 1, r),
            r matches Some(t) ==> t.wf(),
    {
        self.syntax.nth_token_in(KindSet::One(SyntaxKind::NAME), 1)
    }

    /// The implements interfaces, if there is one.
    pub fn implements_interfaces(&self) -> (r: Option<ImplementsInterfaces<'a>>)
        requires
            self.wf(),
        ensures
            match r {
                Some(n) => n.wf() && self.syntax.is_nth_node(
                    KindSet::One(SyntaxKind::IMPLEMENTS_INTERFACES),
                    0,
                    Some(n.syntax),
                ),
                None => self.syntax.is_nth_node(
                    KindSet::One(SyntaxKind::IMPLEMENTS_INTERFACES),
                    0,
                    None,
                ),
            },
    {
        match self.syntax.nth_node_in(KindSet::One(SyntaxKind::IMPLEMENTS_INTERFACES), 0) {
            Some(syntax) => Some(ImplementsInterfaces { syntax }),
            None => None,
        }
    }

    /// The directives, if there is one.
    pub fn directives(&self) -> (r: Option<Directives<'a>>)
        requires
            self.wf(),
        ensures
            match r {
                Some(n) => n.wf() && self.syntax.is_nth_node(
                    KindSet::One(SyntaxKind::DIRECTIVES),
                    0,
                    Some(n.syntax),
                ),
                None => self.syntax.is_nth_node(
                    KindSet::One(SyntaxKind::DIRECTIVES),
                    0,
                    None,
                ),
            },
    {
        match self.syntax.nth_node_in(KindSet::One(SyntaxKind::DIRECTIVES), 0) {
            Some(syntax) => Some(Directives { syntax }),
            None => None,
        }
    }

    /// The fields definition, if there is one.
    pub fn fields_definition(&self) -> (r: Option<FieldsDefinition<'a>>)
        requires
            self.wf(),
        ensures
            match r {
                Some(n) => n.wf() && self.syntax.is_nth_node(
                    KindSet::One(SyntaxKind::FIELDS_DEFINITION),
                    0,
                    Some(n.syntax),
                ),
                None => self.syntax.is_nth_node(
                    KindSet::One(SyntaxKind::FIELDS_DEFINITION),
                    0,
                    None,
                ),
            },
    {
        match self.syntax.nth_node_in(KindSet::One(SyntaxKind::FIELDS_DEFINITION), 0) {
            Some(syntax) => Some(FieldsDefinition { syntax }),
            None => None,
        }
    }
}

/// *ObjectTypeExtension*: `extend` `type` Name ImplementsInterfaces?
/// Directives? FieldsDefinition?
#[derive(Debug)]
pub struct ObjectTypeExtension<'a> {
    pub syntax: SyntaxNode<'a>,
}

impl<'a> ObjectTypeExtension<'a> {
    /// The handle points at a node of kind `OBJECT_TYPE_EXTENSION`.
    pub open spec fn wf(&self) -> bool {
        self.syntax.wf() && self.syntax.tree().kind() == SyntaxKind::OBJECT_TYPE_EXTENSION
    }

    /// The node as this type, if it is of kind `OBJECT_TYPE_EXTENSION`.
    pub fn cast(syntax: SyntaxNode<'a>) -> (r: Option<ObjectTypeExtension<'a>>)
        ensures
            r.is_some() == (syntax.tree().kind() == SyntaxKind::OBJECT_TYPE_EXTENSION),
            r matches Some(n) ==> n.syntax == syntax,
    {
        if syntax.kind() == SyntaxKind::OBJECT_TYPE_EXTENSION {
            Some(ObjectTypeExtension { syntax })
        } else {
            None
        }
    }

    /// The name, which stands behind `extend` and the keyword.
    pub fn name(&self) -> (r: Option<SyntaxToken<'a>>)
        requires
            self.wf(),
        ensures
            self.syntax.is_nth_token(KindSet::One(SyntaxKind::NAME), 2, r),
            r matches Some(t) ==> t.wf(),
    {
        self.syntax.nth_token_in(KindSet::One(SyntaxKind::NAME), 2)
    }

    /// The implements interfaces, if there is one.
    pub fn implements_interfaces(&self) -> (r: Option<ImplementsInterfaces<'a>>)
        requires
            self.wf(),
        ensures
            match r {
                Some(n) => n.wf() && self.syntax.is_nth_node(
                    KindSet::One(SyntaxKind::IMPLEMENTS_INTERFACES),
                    0,
                    Some(n.syntax),
                ),
                None => self.syntax.is_nth_node(
                    KindSet::One(SyntaxKind::IMPLEMENTS_INTERFACES),
                    0,
                    None,
                ),
            },
    {
        match self.syntax.nth_node_in(KindSet::One(SyntaxKind::IMPLEMENTS_INTERFACES), 0) {
            Some(syntax) => Some(ImplementsInterfaces { syntax }),
            None => None,
        }
    }

    /// The directives, if there is one.
    pub fn directives(&self) -> (r: Option<Directives<'a>>)
        requires
            self.wf(),
        ensures
            match r {
                Some(n) => n.wf() && self.syntax.is_nth_node(
                    KindSet::One(SyntaxKind::DIRECTIVES),
                    0,
                    Some(n.syntax),
                ),
                None => self.syntax.is_nth_node(
                    KindSet::One(SyntaxKind::DIRECTIVES),
                    0,
                    None,
                ),
            },
    {
        match self.syntax.nth_node_in(KindSet::One(SyntaxKind::DIRECTIVES), 0) {
            Some(syntax) => Some(Directives { syntax }),
            None => None,
        }
    }

    /// The fields definition, if there is one.
    pub fn fields_definition(&self) -> (r: Option<FieldsDefinition<'a>>)
        requires
            self.wf(),
        ensures
            match r {
                Some(n) => n.wf() && self.syntax.is_nth_node(
                    KindSet::One(SyntaxKind::FIELDS_DEFINITION),
                    0,
                    Some(n.syntax),
                ),
                None => self.syntax.is_nth_node(
                    KindSet::One(SyntaxKind::FIELDS_DEFINITION),
                    0,
                    None,
                ),
            },
    {
        match self.syntax.nth_node_in(KindSet::One(SyntaxKind::FIELDS_DEFINITION), 0) {
            Some(syntax) => Some(FieldsDefinition { syntax }),
            None => None,
        }
    }
}

/// *ImplementsInterfaces*: `implements` NamedType+
#[derive(Debug)]
pub struct ImplementsInterfaces<'a> {
    pub syntax: SyntaxNode<'a>,
}

impl<'a> ImplementsInterfaces<'a> {
    /// The handle points at a node of kind `IMPLEMENTS_INTERFACES`.
    pub open spec fn wf(&self) -> bool {
        self.syntax.wf() && self.syntax.tree().kind() == SyntaxKind::IMPLEMENTS_INTERFACES
    }

    /// The node as this type, if it is of kind `IMPLEMENTS_INTERFACES`.
    pub fn cast(syntax: SyntaxNode<'a>) -> (r: Option<ImplementsInterfaces<'a>>)
        ensures
            r.is_some() == (syntax.tree().kind() == SyntaxKind::IMPLEMENTS_INTERFACES),
            r matches Some(n) ==> n.syntax == syntax,
    {
        if syntax.kind() == SyntaxKind::IMPLEMENTS_INTERFACES {
            Some(ImplementsInterfaces { syntax })
        } else {
            None
        }
    }

    /// The named types, in their order.
    pub fn named_types(&self) -> (r: Vec<NamedType<'a>>)
        requires
            self.wf(),
        ensures
            r@.len() == node_indices(
                self.syntax.tree().children(),
                KindSet::One(SyntaxKind::NAMED_TYPE),
            ).len(),
            forall|i: int|
                0 <= i < r@.len() ==> (#[trigger] r@[i]).wf() && self.syntax.is_member_node(
                    KindSet::One(SyntaxKind::NAMED_TYPE),
                    &r@[i].syntax,
                    i,
                ),
    {
        NamedType::all_in(&self.syntax)
    }
}

/// *FieldsDefinition*: `{` FieldDefinition+ `}`
#[derive(Debug)]
pub struct FieldsDefinition<'a> {
    pub syntax: SyntaxNode<'a>,
}

impl<'a> FieldsDefinition<'a> {
    /// The handle points at a node of kind `FIELDS_DEFINITION`.
    pub open spec fn wf(&self) -> bool {
        self.syntax.wf() && self.syntax.tree().kind() == SyntaxKind::FIELDS_DEFINITION
    }

    /// The node as this type, if it is of kind `FIELDS_DEFINITION`.
    pub fn cast(syntax: SyntaxNode<'a>) -> (r: Option<FieldsDefinition<'a>>)
        ensures
            r.is_some() == (syntax.tree().kind() == SyntaxKind::FIELDS_DEFINITION),
            r matches Some(n) ==> n.syntax == syntax,
    {
        if syntax.kind() == SyntaxKind::FIELDS_DEFINITION {
            Some(FieldsDefinition { syntax })
        } else {
            None
        }
    }

    /// The field definitions, in their order.
    pub fn field_definitions(&self) -> (r: Vec<FieldDefinition<'a>>)
        requires
            self.wf(),
        ensures
            r@.len() == node_indices(
                self.syntax.tree().children(),
                KindSet::One(SyntaxKind::FIELD_DEFINITION),
            ).len(),
            forall|i: int|
                0 <= i < r@.len() ==> (#[trigger] r@[i]).wf() && self.syntax.is_member_node(
                    KindSet::One(SyntaxKind::FIELD_DEFINITION),
                    &r@[i].syntax,
                    i,
                ),
    {
        FieldDefinition::all_in(&self.syntax)
    }
}

/// *FieldDefinition*: Description? Name ArgumentsDefinition? `:` Type
/// Directives?
#[derive(Debug)]
pub struct FieldDefinition<'a> {
    pub syntax: SyntaxNode<'a>,
}

impl<'a> FieldDefinition<'a> {
    /// The handle points at a node of kind `FIELD_DEFINITION`.
    pub open spec fn wf(&self) -> bool {
        self.syntax.wf() && self.syntax.tree().kind() == SyntaxKind::FIELD_DEFINITION
    }

    /// The node as this type, if it is of kind `FIELD_DEFINITION`.
    pub fn cast(syntax: SyntaxNode<'a>) -> (r: Option<FieldDefinition<'a>>)
        ensures
            r.is_some() == (syntax.tree().kind() == SyntaxKind::FIELD_DEFINITION),
            r matches Some(n) ==> n.syntax == syntax,
    {
        if syntax.kind() == SyntaxKind::FIELD_DEFINITION {
            Some(FieldDefinition { syntax })
        } else {
            None
        }
    }

    /// The children of `parent` that are nodes of kind `FIELD_DEFINITION`, in their
    /// order.
    pub fn all_in(parent: &SyntaxNode<'a>) -> (r: Vec<FieldDefinition<'a>>)
        requires
            parent.wf(),
        ensures
            r@.len() == node_indices(
                parent.tree().children(),
                KindSet::One(SyntaxKind::FIELD_DEFINITION),
            ).len(),
            forall|i: int|
                0 <= i < r@.len() ==> (#[trigger] r@[i]).wf() && parent.is_member_node(
                    KindSet::One(SyntaxKind::FIELD_DEFINITION),
                    &r@[i].syntax,
                    i,
                ),
    {
        let nodes = parent.nodes_in(KindSet::One(SyntaxKind::FIELD_DEFINITION));
        let ghost handles = nodes@;
        let mut out: Vec<FieldDefinition<'a>> = Vec::new();
        for syntax in it: nodes.into_iter()
            invariant
                it.seq() == handles,
                out@.len() == it.index(),
                forall|j: int| 0 <= j < out@.len() ==> (#[trigger] out@[j]).syntax == handles[j],
        {
            out.push(FieldDefinition { syntax });
        }
        out
    }

    /// The description, if there is one.
    pub fn description(&self) -> (r: Option<Description<'a>>)
        requires
            self.wf(),
        ensures
            match r {
                Some(n) => n.wf() && self.syntax.is_nth_node(
                    KindSet::One(SyntaxKind::DESCRIPTION),
                    0,
                    Some(n.syntax),
                ),
                None => self.syntax.is_nth_node(
                    KindSet::One(SyntaxKind::DESCRIPTION),
                    0,
                    None,
                ),
            },
    {
        match self.syntax.nth_node_in(KindSet::One(SyntaxKind::DESCRIPTION), 0) {
            Some(syntax) => Some(Description { syntax }),
            None => None,
        }
    }

    /// The name.
    pub fn name(&self) -> (r: Option<SyntaxToken<'a>>)
        requires
            self.wf(),
        ensures
            self.syntax.is_nth_token(KindSet::One(SyntaxKind::NAME), 0, r),
            r matches Some(t) ==> t.wf(),
    {
        self.syntax.nth_token_in(KindSet::One(SyntaxKind::NAME), 0)
    }

    /// The arguments definition, if there is one.
    pub fn arguments_definition(&self) -> (r: Option<ArgumentsDefinition<'a>>)
        requires
            self.wf(),
        ensures
            match r {
                Some(n) => n.wf() && self.syntax.is_nth_node(
                    KindSet::One(SyntaxKind::ARGUMENTS_DEFINITION),
                    0,
                    Some(n.syntax),
                ),
                None => self.syntax.is_nth_node(
                    KindSet::One(SyntaxKind::ARGUMENTS_DEFINITION),
                    0,
                    None,
                ),
            },
    {
        match self.syntax.nth_node_in(KindSet::One(SyntaxKind::ARGUMENTS_DEFINITION), 0) {
            Some(syntax) => Some(ArgumentsDefinition { syntax }),
            None => None,
        }
    }

    /// The type, if there is one.
    pub fn ty(&self) -> (r: Option<Type<'a>>)
        requires
            self.wf(),
        ensures
            match r {
                Some(n) => n.wf() && self.syntax.is_nth_node(
                    KindSet::Types,
                    0,
                    Some(n.syntax()),
                ),
                None => self.syntax.is_nth_node(KindSet::Types, 0, None),
            },
    {
        match self.syntax.nth_node_in(KindSet::Types, 0) {
            Some(syntax) => Type::cast(syntax),
            None => None,
        }
    }

    /// The directives, if there is one.
    pub fn directives(&self) -> (r: Option<Directives<'a>>)
        requires
            self.wf(),
        ensures
            match r {
                Some(n) => n.wf() && self.syntax.is_nth_node(
                    KindSet::One(SyntaxKind::DIRECTIVES),
                    0,
                    Some(n.syntax),
                ),
                None => self.syntax.is_nth_node(
                    KindSet::One(SyntaxKind::DIRECTIVES),
                    0,
                    None,
                ),
            },
    {
        match self.syntax.nth_node_in(KindSet::One(SyntaxKind::DIRECTIVES), 0) {
            Some(syntax) => Some(Directives { syntax }),
            None => None,
        }
    }
}

/// *ArgumentsDefinition*: `(` InputValueDefinition+ `)`
#[derive(Debug)]
pub struct ArgumentsDefinition<'a> {
    pub syntax: SyntaxNode<'a>,
}

impl<'a> ArgumentsDefinition<'a> {
    /// The handle points at a node of kind `ARGUMENTS_DEFINITION`.
    pub open spec fn wf(&self) -> bool {
        self.syntax.wf() && self.syntax.tree().kind() == SyntaxKind::ARGUMENTS_DEFINITION
    }

    /// The node as this type, if it is of kind `ARGUMENTS_DEFINITION`.
    pub fn cast(syntax: SyntaxNode<'a>) -> (r: Option<ArgumentsDefinition<'a>>)
        ensures
            r.is_some() == (syntax.tree().kind() == SyntaxKind::ARGUMENTS_DEFINITION),
            r matches Some(n) ==> n.syntax == syntax,
    {
        if syntax.kind() == SyntaxKind::ARGUMENTS_DEFINITION {
            Some(ArgumentsDefinition { syntax })
        } else {
            None
        }
    }

    /// The input value definitions, in their order.
    pub fn input_value_definitions(&self) -> (r: Vec<InputValueDefinition<'a>>)
        requires
            self.wf(),
        ensures
            r@.len() == node_indices(
                self.syntax.tree().children(),
                KindSet::One(SyntaxKind::INPUT_VALUE_DEFINITION),
            ).len(),
            forall|i: int|
                0 <= i < r@.len() ==> (#[trigger] r@[i]).wf() && self.syntax.is_member_node(
                    KindSet::One(SyntaxKind::INPUT_VALUE_DEFINITION),
                    &r@[i].syntax,
                    i,
                ),
    {
        InputValueDefinition::all_in(&self.syntax)
    }
}

/// *InputValueDefinition*: Description? Name `:` Type DefaultValue?
/// Directives?
#[derive(Debug)]
pub struct InputValueDefinition<'a> {
    pub syntax: SyntaxNode<'a>,
}

impl<'a> InputValueDefinition<'a> {
    /// The handle points at a node of kind `INPUT_VALUE_DEFINITION`.
    pub open spec fn wf(&self) -> bool {
        self.syntax.wf() && self.syntax.tree().kind() == SyntaxKind::INPUT_VALUE_DEFINITION
    }

    /// The node as this type, if it is of kind `INPUT_VALUE_DEFINITION`.
    pub fn cast(syntax: SyntaxNode<'a>) -> (r: Option<InputValueDefinition<'a>>)
        ensures
            r.is_some() == (syntax.tree().kind() == SyntaxKind::INPUT_VALUE_DEFINITION),
            r matches Some(n) ==> n.syntax == syntax,
    {
        if syntax.kind() == SyntaxKind::INPUT_VALUE_DEFINITION {
            Some(InputValueDefinition { syntax })
        } else {
            None
        }
    }

    /// The children of `parent` that are nodes of kind `INPUT_VALUE_DEFINITION`, in their
    /// order.
    pub fn all_in(parent: &SyntaxNode<'a>) -> (r: Vec<InputValueDefinition<'a>>)
        requires
            parent.wf(),
        ensures
            r@.len() == node_indices(
                parent.tree().children(),
                KindSet::One(SyntaxKind::INPUT_VALUE_DEFINITION),
            ).len(),
            forall|i: int|
                0 <= i < r@.len() ==> (#[trigger] r@[i]).wf() && parent.is_member_node(
                    KindSet::One(SyntaxKind::INPUT_VALUE_DEFINITION),
                    &r@[i].syntax,
                    i,
                ),
    {
        let nodes = parent.nodes_in(KindSet::One(SyntaxKind::INPUT_VALUE_DEFINITION));
        let ghost handles = nodes@;
        let mut out: Vec<InputValueDefinition<'a>> = Vec::new();
        for syntax in it: nodes.into_iter()
            invariant
                it.seq() == handles,
                out@.len() == it.index(),
                forall|j: int| 0 <= j < out@.len() ==> (#[trigger] out@[j]).syntax == handles[j],
        {
            out.push(InputValueDefinition { syntax });
        }
        out
    }

    /// The description, if there is one.
    pub fn description(&self) -> (r: Option<Description<'a>>)
        requires
            self.wf(),
        ensures
            match r {
                Some(n) => n.wf() && self.syntax.is_nth_node(
                    KindSet::One(SyntaxKind::DESCRIPTION),
                    0,
                    Some(n.syntax),
                ),
                None => self.syntax.is_nth_node(
                    KindSet::One(SyntaxKind::DESCRIPTION),
                    0,
                    None,
                ),
            },
    {
        match self.syntax.nth_node_in(KindSet::One(SyntaxKind::DESCRIPTION), 0) {
            Some(syntax) => Some(Description { syntax }),
            None => None,
        }
    }

    /// The name.
    pub fn name(&self) -> (r: Option<SyntaxToken<'a>>)
        requires
            self.wf(),
        ensures
            self.syntax.is_nth_token(KindSet::One(SyntaxKind::NAME), 0, r),
            r matches Some(t) ==> t.wf(),
    {
        self.syntax.nth_token_in(KindSet::One(SyntaxKind::NAME), 0)
    }

    /// The type, if there is one.
    pub fn ty(&self) -> (r: Option<Type<'a>>)
        requires
            self.wf(),
        ensures
            match r {
                Some(n) => n.wf() && self.syntax.is_nth_node(
                    KindSet::Types,
                    0,
                    Some(n.syntax()),
                ),
                None => self.syntax.is_nth_node(KindSet::Types, 0, None),
            },
    {
        match self.syntax.nth_node_in(KindSet::Types, 0) {
            Some(syntax) => Type::cast(syntax),
            None => None,
        }
    }

    /// The default value, if there is one.
    pub fn default_value(&self) -> (r: Option<DefaultValue<'a>>)
        requires
            self.wf(),
        ensures
            match r {
                Some(n) => n.wf() && self.syntax.is_nth_node(
                    KindSet::One(SyntaxKind::DEFAULT_VALUE),
                    0,
                    Some(n.syntax),
                ),
                None => self.syntax.is_nth_node(
                    KindSet::One(SyntaxKind::DEFAULT_VALUE),
                    0,
                    None,
                ),
            },
    {
        match self.syntax.nth_node_in(KindSet::One(SyntaxKind::DEFAULT_VALUE), 0) {
            Some(syntax) => Some(DefaultValue { syntax }),
            None => None,
        }
    }

    /// The directives, if there is one.
    pub fn directives(&self) -> (r: Option<Directives<'a>>)
        requires
            self.wf(),
        ensures
            match r {
                Some(n) => n.wf() && self.syntax.is_nth_node(
                    KindSet::One(SyntaxKind::DIRECTIVES),
                    0,
                    Some(n.syntax),
                ),
                None => self.syntax.is_nth_node(
                    KindSet::One(SyntaxKind::DIRECTIVES),
                    0,
                    None,
                ),
            },
    {
        match self.syntax.nth_node_in(KindSet::One(SyntaxKind::DIRECTIVES), 0) {
            Some(syntax) => Some(Directives { syntax }),
            None => None,
        }
    }
}

/// *InterfaceTypeDefinition*: Description? `interface` Name
/// ImplementsInterfaces? Directives? FieldsDefinition?
#[derive(Debug)]
pub struct InterfaceTypeDefinition<'a> {
    pub syntax: SyntaxNode<'a>,
}

impl<'a> InterfaceTypeDefinition<'a> {
    /// The handle points at a node of kind `INTERFACE_TYPE_DEFINITION`.
    pub open spec fn wf(&self) -> bool {
        self.syntax.wf() && self.syntax.tree().kind() == SyntaxKind::INTERFACE_TYPE_DEFINITION
    }

    /// The node as this type, if it is of kind `INTERFACE_TYPE_DEFINITION`.
    pub fn cast(syntax: SyntaxNode<'a>) -> (r: Option<InterfaceTypeDefinition<'a>>)
        ensures
            r.is_some() == (syntax.tree().kind() == SyntaxKind::INTERFACE_TYPE_DEFINITION),
            r matches Some(n) ==> n.syntax == syntax,
    {
        if syntax.kind() == SyntaxKind::INTERFACE_TYPE_DEFINITION {
            Some(InterfaceTypeDefinition { syntax })
        } else {
            None
        }
    }

    /// The description, if there is one.
    pub fn description(&self) -> (r: Option<Description<'a>>)
        requires
            self.wf(),
        ensures
            match r {
                Some(n) => n.wf() && self.syntax.is_nth_node(
                    KindSet::One(SyntaxKind::DESCRIPTION),
                    0,
                    Some(n.syntax),
                ),
                None => self.syntax.is_nth_node(
                    KindSet::One(SyntaxKind::DESCRIPTION),
                    0,
                    None,
                ),
            },
    {
        match self.syntax.nth_node_in(KindSet::One(SyntaxKind::DESCRIPTION), 0) {
            Some(syntax) => Some(Description { syntax }),
            None => None,
        }
    }

    /// The name, which stands behind the keyword.
    pub fn name(&self) -> (r: Option<SyntaxToken<'a>>)
        requires
            self.wf(),
        ensures
            self.syntax.is_nth_token(KindSet::One(SyntaxKind::NAME), 1, r),
            r matches Some(t) ==> t.wf(),
    {
        self.syntax.nth_token_in(KindSet::One(SyntaxKind::NAME), 1)
    }

    /// The implements interfaces, if there is one.
    pub fn implements_interfaces(&self) -> (r: Option<ImplementsInterfaces<'a>>)
        requires
            self.wf(),
        ensures
            match r {
                Some(n) => n.wf() && self.syntax.is_nth_node(
                    KindSet::One(SyntaxKind::IMPLEMENTS_INTERFACES),
                    0,
                    Some(n.syntax),
                ),
                None => self.syntax.is_nth_node(
                    KindSet::One(SyntaxKind::IMPLEMENTS_INTERFACES),
                    0,
                    None,
                ),
            },
    {
        match self.syntax.nth_node_in(KindSet::One(SyntaxKind::IMPLEMENTS_INTERFACES), 0) {
            Some(syntax) => Some(ImplementsInterfaces { syntax }),
            None => None,
        }
    }

    /// The directives, if there is one.
    pub fn directives(&self) -> (r: Option<Directives<'a>>)
        requires
            self.wf(),
        ensures
            match r {
                Some(n) => n.wf() && self.syntax.is_nth_node(
                    KindSet::One(SyntaxKind::DIRECTIVES),
                    0,
                    Some(n.syntax),
                ),
                None => self.syntax.is_nth_node(
                    KindSet::One(SyntaxKind::DIRECTIVES),
                    0,
                    None,
                ),
            },
    {
        match self.syntax.nth_node_in(KindSet::One(SyntaxKind::DIRECTIVES), 0) {
            Some(syntax) => Some(Directives { syntax }),
            None => None,
        }
    }

    /// The fields definition, if there is one.
    pub fn fields_definition(&self) -> (r: Option<FieldsDefinition<'a>>)
        requires
            self.wf(),
        ensures
            match r {
                Some(n) => n.wf() && self.syntax.is_nth_node(
                    KindSet::One(SyntaxKind::FIELDS_DEFINITION),
                    0,
                    Some(n.syntax),
                ),
                None => self.syntax.is_nth_node(
                    KindSet::One(SyntaxKind::FIELDS_DEFINITION),
                    0,
                    None,
                ),
            },
    {
        match self.syntax.nth_node_in(KindSet::One(SyntaxKind::FIELDS_DEFINITION), 0) {
            Some(syntax) => Some(FieldsDefinition { syntax }),
            None => None,
        }
    }
}

/// *InterfaceTypeExtension*: `extend` `interface` Name ImplementsInterfaces?
/// Directives? FieldsDefinition?
#[derive(Debug)]
pub struct InterfaceTypeExtension<'a> {
    pub syntax: SyntaxNode<'a>,
}

impl<'a> InterfaceTypeExtension<'a> {
    /// The handle points at a node of kind `INTERFACE_TYPE_EXTENSION`.
    pub open spec fn wf(&self) -> bool {
        self.syntax.wf() && self.syntax.tree().kind() == SyntaxKind::INTERFACE_TYPE_EXTENSION
    }

    /// The node as this type, if it is of kind `INTERFACE_TYPE_EXTENSION`.
    pub fn cast(syntax: SyntaxNode<'a>) -> (r: Option<InterfaceTypeExtension<'a>>)
        ensures
            r.is_some() == (syntax.tree().kind() == SyntaxKind::INTERFACE_TYPE_EXTENSION),
            r matches Some(n) ==> n.syntax == syntax,
    {
        if syntax.kind() == SyntaxKind::INTERFACE_TYPE_EXTENSION {
            Some(InterfaceTypeExtension { syntax })
        } else {
            None
        }
    }

    /// The name, which stands behind `extend` and the keyword.
    pub fn name(&self) -> (r: Option<SyntaxToken<'a>>)
        requires
            self.wf(),
        ensures
            self.syntax.is_nth_token(KindSet::One(SyntaxKind::NAME), 2, r),
            r matches Some(t) ==> t.wf(),
    {
        self.syntax.nth_token_in(KindSet::One(SyntaxKind::NAME), 2)
    }

    /// The implements interfaces, if there is one.
    pub fn implements_interfaces(&self) -> (r: Option<ImplementsInterfaces<'a>>)
        requires
            self.wf(),
        ensures
            match r {
                Some(n) => n.wf() && self.syntax.is_nth_node(
                    KindSet::One(SyntaxKind::IMPLEMENTS_INTERFACES),
                    0,
                    Some(n.syntax),
                ),
                None => self.syntax.is_nth_node(
                    KindSet::One(SyntaxKind::IMPLEMENTS_INTERFACES),
                    0,
                    None,
                ),
            },
    {
        match self.syntax.nth_node_in(KindSet::One(SyntaxKind::IMPLEMENTS_INTERFACES), 0) {
            Some(syntax) => Some(ImplementsInterfaces { syntax }),
            None => None,
        }
    }

    /// The directives, if there is one.
    pub fn directives(&self) -> (r: Option<Directives<'a>>)
        requires
            self.wf(),
        ensures
            match r {
                Some(n) => n.wf() && self.syntax.is_nth_node(
                    KindSet::One(SyntaxKind::DIRECTIVES),
                    0,
                    Some(n.syntax),
                ),
                None => self.syntax.is_nth_node(
                    KindSet::One(SyntaxKind::DIRECTIVES),
                    0,
                    None,
                ),
            },
    {
        match self.syntax.nth_node_in(KindSet::One(SyntaxKind::DIRECTIVES), 0) {
            Some(syntax) => Some(Directives { syntax }),
            None => None,
        }
    }

    /// The fields definition, if there is one.
    pub fn fields_definition(&self) -> (r: Option<FieldsDefinition<'a>>)
        requires
            self.wf(),
        ensures
            match r {
                Some(n) => n.wf() && self.syntax.is_nth_node(
                    KindSet::One(SyntaxKind::FIELDS_DEFINITION),
                    0,
                    Some(n.syntax),
                ),
                None => self.syntax.is_nth_node(
                    KindSet::One(SyntaxKind::FIELDS_DEFINITION),
                    0,
                    None,
                ),
            },
    {
        match self.syntax.nth_node_in(KindSet::One(SyntaxKind::FIELDS_DEFINITION), 0) {
            Some(syntax) => Some(FieldsDefinition { syntax }),
            None => None,
        }
    }
}

/// *UnionTypeDefinition*: Description? `union` Name Directives?
/// UnionMemberTypes?
#[derive(Debug)]
pub struct UnionTypeDefinition<'a> {
    pub syntax: SyntaxNode<'a>,
}

impl<'a> UnionTypeDefinition<'a> {
    /// The handle points at a node of kind `UNION_TYPE_DEFINITION`.
    pub open spec fn wf(&self) -> bool {
        self.syntax.wf() && self.syntax.tree().kind() == SyntaxKind::UNION_TYPE_DEFINITION
    }

    /// The node as this type, if it is of kind `UNION_TYPE_DEFINITION`.
    pub fn cast(syntax: SyntaxNode<'a>) -> (r: Option<UnionTypeDefinition<'a>>)
        ensures
            r.is_some() == (syntax.tree().kind() == SyntaxKind::UNION_TYPE_DEFINITION),
            r matches Some(n) ==> n.syntax == syntax,
    {
        if syntax.kind() == SyntaxKind::UNION_TYPE_DEFINITION {
            Some(UnionTypeDefinition { syntax })
        } else {
            None
        }
    }

    /// The description, if there is one.
    pub fn description(&self) -> (r: Option<Description<'a>>)
        requires
            self.wf(),
        ensures
            match r {
                Some(n) => n.wf() && self.syntax.is_nth_node(
                    KindSet::One(SyntaxKind::DESCRIPTION),
                    0,
                    Some(n.syntax),
                ),
                None => self.syntax.is_nth_node(
                    KindSet::One(SyntaxKind::DESCRIPTION),
                    0,
                    None,
                ),
            },
    {
        match self.syntax.nth_node_in(KindSet::One(SyntaxKind::DESCRIPTION), 0) {
            Some(syntax) => Some(Description { syntax }),
            None => None,
        }
    }

    /// The name, which stands behind the keyword.
    pub fn name(&self) -> (r: Option<SyntaxToken<'a>>)
        requires
            self.wf(),
        ensures
            self.syntax.is_nth_token(KindSet::One(SyntaxKind::NAME), 1, r),
            r matches Some(t) ==> t.wf(),
    {
        self.syntax.nth_token_in(KindSet::One(SyntaxKind::NAME), 1)
    }

    /// The directives, if there is one.
    pub fn directives(&self) -> (r: Option<Directives<'a>>)
        requires
            self.wf(),
        ensures
            match r {
                Some(n) => n.wf() && self.syntax.is_nth_node(
                    KindSet::One(SyntaxKind::DIRECTIVES),
                    0,
                    Some(n.syntax),
                ),
                None => self.syntax.is_nth_node(
                    KindSet::One(SyntaxKind::DIRECTIVES),
                    0,
                    None,
                ),
            },
    {
        match self.syntax.nth_node_in(KindSet::One(SyntaxKind::DIRECTIVES), 0) {
            Some(syntax) => Some(Directives { syntax }),
            None => None,
        }
    }

    /// The union member types, if there is one.
    pub fn union_member_types(&self) -> (r: Option<UnionMemberTypes<'a>>)
        requires
            self.wf(),
        ensures
            match r {
                Some(n) => n.wf() && self.syntax.is_nth_node(
                    KindSet::One(SyntaxKind::UNION_MEMBER_TYPES),
                    0,
                    Some(n.syntax),
                ),
                None => self.syntax.is_nth_node(
                    KindSet::One(SyntaxKind::UNION_MEMBER_TYPES),
                    0,
                    None,
                ),
            },
    {
        match self.syntax.nth_node_in(KindSet::One(SyntaxKind::UNION_MEMBER_TYPES), 0) {
            Some(syntax) => Some(UnionMemberTypes { syntax }),
            None => None,
        }
    }
}

/// *UnionTypeExtension*: `extend` `union` Name Directives? UnionMemberTypes?
#[derive(Debug)]
pub struct UnionTypeExtension<'a> {
    pub syntax: SyntaxNode<'a>,
}

impl<'a> UnionTypeExtension<'a> {
    /// The handle points at a node of kind `UNION_TYPE_EXTENSION`.
    pub open spec fn wf(&self) -> bool {
        self.syntax.wf() && self.syntax.tree().kind() == SyntaxKind::UNION_TYPE_EXTENSION
    }

    /// The node as this type, if it is of kind `UNION_TYPE_EXTENSION`.
    pub fn cast(syntax: SyntaxNode<'a>) -> (r: Option<UnionTypeExtension<'a>>)
        ensures
            r.is_some() == (syntax.tree().kind() == SyntaxKind::UNION_TYPE_EXTENSION),
            r matches Some(n) ==> n.syntax == syntax,
    {
        if syntax.kind() == SyntaxKind::UNION_TYPE_EXTENSION {
            Some(UnionTypeExtension { syntax })
        } else {
            None
        }
    }

    /// The name, which stands behind `extend` and the keyword.
    pub fn name(&self) -> (r: Option<SyntaxToken<'a>>)
        requires
            self.wf(),
        ensures
            self.syntax.is_nth_token(KindSet::One(SyntaxKind::NAME), 2, r),
            r matches Some(t) ==> t.wf(),
    {
        self.syntax.nth_token_in(KindSet::One(SyntaxKind::NAME), 2)
    }

    /// The directives, if there is one.
    pub fn directives(&self) -> (r: Option<Directives<'a>>)
        requires
            self.wf(),
        ensures
            match r {
                Some(n) => n.wf() && self.syntax.is_nth_node(
                    KindSet::One(SyntaxKind::DIRECTIVES),
                    0,
                    Some(n.syntax),
                ),
                None => self.syntax.is_nth_node(
                    KindSet::One(SyntaxKind::DIRECTIVES),
                    0,
                    None,
                ),
            },
    {
        match self.syntax.nth_node_in(KindSet::One(SyntaxKind::DIRECTIVES), 0) {
            Some(syntax) => Some(Directives { syntax }),
            None => None,
        }
    }

    /// The union member types, if there is one.
    pub fn union_member_types(&self) -> (r: Option<UnionMemberTypes<'a>>)
        requires
            self.wf(),
        ensures
            match r {
                Some(n) => n.wf() && self.syntax.is_nth_node(
                    KindSet::One(SyntaxKind::UNION_MEMBER_TYPES),
                    0,
                    Some(n.syntax),
                ),
                None => self.syntax.is_nth_node(
                    KindSet::One(SyntaxKind::UNION_MEMBER_TYPES),
                    0,
                    None,
                ),
            },
    {
        match self.syntax.nth_node_in(KindSet::One(SyntaxKind::UNION_MEMBER_TYPES), 0) {
            Some(syntax) => Some(UnionMemberTypes { syntax }),
            None => None,
        }
    }
}

/// *UnionMemberTypes*: `=` `|`? NamedType, then `|` NamedType as often as it
/// comes.
#[derive(Debug)]
pub struct UnionMemberTypes<'a> {
    pub syntax: SyntaxNode<'a>,
}

impl<'a> UnionMemberTypes<'a> {
    /// The handle points at a node of kind `UNION_MEMBER_TYPES`.
    pub open spec fn wf(&self) -> bool {
        self.syntax.wf() && self.syntax.tree().kind() == SyntaxKind::UNION_MEMBER_TYPES
    }

    /// The node as this type, if it is of kind `UNION_MEMBER_TYPES`.
    pub fn cast(syntax: SyntaxNode<'a>) -> (r: Option<UnionMemberTypes<'a>>)
        ensures
            r.is_some() == (syntax.tree().kind() == SyntaxKind::UNION_MEMBER_TYPES),
            r matches Some(n) ==> n.syntax == syntax,
    {
        if syntax.kind() == SyntaxKind::UNION_MEMBER_TYPES {
            Some(UnionMemberTypes { syntax })
        } else {
            None
        }
    }

    /// The named types, in their order.
    pub fn named_types(&self) -> (r: Vec<NamedType<'a>>)
        requires
            self.wf(),
        ensures
            r@.len() == node_indices(
                self.syntax.tree().children(),
                KindSet::One(SyntaxKind::NAMED_TYPE),
            ).len(),
            forall|i: int|
                0 <= i < r@.len() ==> (#[trigger] r@[i]).wf() && self.syntax.is_member_node(
                    KindSet::One(SyntaxKind::NAMED_TYPE),
                    &r@[i].syntax,
                    i,
                ),
    {
        NamedType::all_in(&self.syntax)
    }
}

/// *EnumTypeDefinition*: Description? `enum` Name Directives?
/// EnumValuesDefinition?
#[derive(Debug)]
pub struct EnumTypeDefinition<'a> {
    pub syntax: SyntaxNode<'a>,
}

impl<'a> EnumTypeDefinition<'a> {
    /// The handle points at a node of kind `ENUM_TYPE_DEFINITION`.
    pub open spec fn wf(&self) -> bool {
        self.syntax.wf() && self.syntax.tree().kind() == SyntaxKind::ENUM_TYPE_DEFINITION
    }

    /// The node as this type, if it is of kind `ENUM_TYPE_DEFINITION`.
    pub fn cast(syntax: SyntaxNode<'a>) -> (r: Option<EnumTypeDefinition<'a>>)
        ensures
            r.is_some() == (syntax.tree().kind() == SyntaxKind::ENUM_TYPE_DEFINITION),
            r matches Some(n) ==> n.syntax == syntax,
    {
        if syntax.kind() == SyntaxKind::ENUM_TYPE_DEFINITION {
            Some(EnumTypeDefinition { syntax })
        } else {
            None
        }
    }

    /// The description, if there is one.
    pub fn description(&self) -> (r: Option<Description<'a>>)
        requires
            self.wf(),
        ensures
            match r {
                Some(n) => n.wf() && self.syntax.is_nth_node(
                    KindSet::One(SyntaxKind::DESCRIPTION),
                    0,
                    Some(n.syntax),
                ),
                None => self.syntax.is_nth_node(
                    KindSet::One(SyntaxKind::DESCRIPTION),
                    0,
                    None,
                ),
            },
    {
        match self.syntax.nth_node_in(KindSet::One(SyntaxKind::DESCRIPTION), 0) {
            Some(syntax) => Some(Description { syntax }),
            None => None,
        }
    }

    /// The name, which stands behind the keyword.
    pub fn name(&self) -> (r: Option<SyntaxToken<'a>>)
        requires
            self.wf(),
        ensures
            self.syntax.is_nth_token(KindSet::One(SyntaxKind::NAME), 1, r),
            r matches Some(t) ==> t.wf(),
    {
        self.syntax.nth_token_in(KindSet::One(SyntaxKind::NAME), 1)
    }

    /// The directives, if there is one.
    pub fn directives(&self) -> (r: Option<Directives<'a>>)
        requires
            self.wf(),
        ensures
            match r {
                Some(n) => n.wf() && self.syntax.is_nth_node(
                    KindSet::One(SyntaxKind::DIRECTIVES),
                    0,
                    Some(n.syntax),
                ),
                None => self.syntax.is_nth_node(
                    KindSet::One(SyntaxKind::DIRECTIVES),
                    0,
                    None,
                ),
            },
    {
        match self.syntax.nth_node_in(KindSet::One(SyntaxKind::DIRECTIVES), 0) {
            Some(syntax) => Some(Directives { syntax }),
            None => None,
        }
    }

    /// The enum values definition, if there is one.
    pub fn enum_values_definition(&self) -> (r: Option<EnumValuesDefinition<'a>>)
        requires
            self.wf(),
        ensures
            match r {
                Some(n) => n.wf() && self.syntax.is_nth_node(
                    KindSet::One(SyntaxKind::ENUM_VALUES_DEFINITION),
                    0,
                    Some(n.syntax),
                ),
                None => self.syntax.is_nth_node(
                    KindSet::One(SyntaxKind::ENUM_VALUES_DEFINITION),
                    0,
                    None,
                ),
            },
    {
        match self.syntax.nth_node_in(KindSet::One(SyntaxKind::ENUM_VALUES_DEFINITION), 0) {
            Some(syntax) => Some(EnumValuesDefinition { syntax }),
            None => None,
        }
    }
}

/// *EnumTypeExtension*: `extend` `enum` Name Directives? EnumValuesDefinition?
#[derive(Debug)]
pub struct EnumTypeExtension<'a> {
    pub syntax: SyntaxNode<'a>,
}

impl<'a> EnumTypeExtension<'a> {
    /// The handle points at a node of kind `ENUM_TYPE_EXTENSION`.
    pub open spec fn wf(&self) -> bool {
        self.syntax.wf() && self.syntax.tree().kind() == SyntaxKind::ENUM_TYPE_EXTENSION
    }

    /// The node as this type, if it is of kind `ENUM_TYPE_EXTENSION`.
    pub fn cast(syntax: SyntaxNode<'a>) -> (r: Option<EnumTypeExtension<'a>>)
        ensures
            r.is_some() == (syntax.tree().kind() == SyntaxKind::ENUM_TYPE_EXTENSION),
            r matches Some(n) ==> n.syntax == syntax,
    {
        if syntax.kind() == SyntaxKind::ENUM_TYPE_EXTENSION {
            Some(EnumTypeExtension { syntax })
        } else {
            None
        }
    }

    /// The name, which stands behind `extend` and the keyword.
    pub fn name(&self) -> (r: Option<SyntaxToken<'a>>)
        requires
            self.wf(),
        ensures
            self.syntax.is_nth_token(KindSet::One(SyntaxKind::NAME), 2, r),
            r matches Some(t) ==> t.wf(),
    {
        self.syntax.nth_token_in(KindSet::One(SyntaxKind::NAME), 2)
    }

    /// The directives, if there is one.
    pub fn directives(&self) -> (r: Option<Directives<'a>>)
        requires
            self.wf(),
        ensures
            match r {
                Some(n) => n.wf() && self.syntax.is_nth_node(
                    KindSet::One(SyntaxKind::DIRECTIVES),
                    0,
                    Some(n.syntax),
                ),
                None => self.syntax.is_nth_node(
                    KindSet::One(SyntaxKind::DIRECTIVES),
                    0,
                    None,
                ),
            },
    {
        match self.syntax.nth_node_in(KindSet::One(SyntaxKind::DIRECTIVES), 0) {
            Some(syntax) => Some(Directives { syntax }),
            None => None,
        }
    }

    /// The enum values definition, if there is one.
    pub fn enum_values_definition(&self) -> (r: Option<EnumValuesDefinition<'a>>)
        requires
            self.wf(),
        ensures
            match r {
                Some(n) => n.wf() && self.syntax.is_nth_node(
                    KindSet::One(SyntaxKind::ENUM_VALUES_DEFINITION),
                    0,
                    Some(n.syntax),
                ),
                None => self.syntax.is_nth_node(
                    KindSet::One(SyntaxKind::ENUM_VALUES_DEFINITION),
                    0,
                    None,
                ),
            },
    {
        match self.syntax.nth_node_in(KindSet::One(SyntaxKind::ENUM_VALUES_DEFINITION), 0) {
            Some(syntax) => Some(EnumValuesDefinition { syntax }),
            None => None,
        }
    }
}

/// *EnumValuesDefinition*: `{` EnumValueDefinition+ `}`
#[derive(Debug)]
pub struct EnumValuesDefinition<'a> {
    pub syntax: SyntaxNode<'a>,
}

impl<'a> EnumValuesDefinition<'a> {
    /// The handle points at a node of kind `ENUM_VALUES_DEFINITION`.
    pub open spec fn wf(&self) -> bool {
        self.syntax.wf() && self.syntax.tree().kind() == SyntaxKind::ENUM_VALUES_DEFINITION
    }

    /// The node as this type, if it is of kind `ENUM_VALUES_DEFINITION`.
    pub fn cast(syntax: SyntaxNode<'a>) -> (r: Option<EnumValuesDefinition<'a>>)
        ensures
            r.is_some() == (syntax.tree().kind() == SyntaxKind::ENUM_VALUES_DEFINITION),
            r matches Some(n) ==> n.syntax == syntax,
    {
        if syntax.kind() == SyntaxKind::ENUM_VALUES_DEFINITION {
            Some(EnumValuesDefinition { syntax })
        } else {
            None
        }
    }

    /// The enum value definitions, in their order.
    pub fn enum_value_definitions(&self) -> (r: Vec<EnumValueDefinition<'a>>)
        requires
            self.wf(),
        ensures
            r@.len() == node_indices(
                self.syntax.tree().children(),
                KindSet::One(SyntaxKind::ENUM_VALUE_DEFINITION),
            ).len(),
            forall|i: int|
                0 <= i < r@.len() ==> (#[trigger] r@[i]).wf() && self.syntax.is_member_node(
                    KindSet::One(SyntaxKind::ENUM_VALUE_DEFINITION),
                    &r@[i].syntax,
                    i,
                ),
    {
        EnumValueDefinition::all_in(&self.syntax)
    }
}

/// *EnumValueDefinition*: Description? EnumValue Directives?
#[derive(Debug)]
pub struct EnumValueDefinition<'a> {
    pub syntax: SyntaxNode<'a>,
}

impl<'a> EnumValueDefinition<'a> {
    /// The handle points at a node of kind `ENUM_VALUE_DEFINITION`.
    pub open spec fn wf(&self) -> bool {
        self.syntax.wf() && self.syntax.tree().kind() == SyntaxKind::ENUM_VALUE_DEFINITION
    }

    /// The node as this type, if it is of kind `ENUM_VALUE_DEFINITION`.
    pub fn cast(syntax: SyntaxNode<'a>) -> (r: Option<EnumValueDefinition<'a>>)
        ensures
            r.is_some() == (syntax.tree().kind() == SyntaxKind::ENUM_VALUE_DEFINITION),
            r matches Some(n) ==> n.syntax == syntax,
    {
        if syntax.kind() == SyntaxKind::ENUM_VALUE_DEFINITION {
            Some(EnumValueDefinition { syntax })
        } else {
            None
        }
    }

    /// The children of `parent` that are nodes of kind `ENUM_VALUE_DEFINITION`, in their
    /// order.
    pub fn all_in(parent: &SyntaxNode<'a>) -> (r: Vec<EnumValueDefinition<'a>>)
        requires
            parent.wf(),
        ensures
            r@.len() == node_indices(
                parent.tree().children(),
                KindSet::One(SyntaxKind::ENUM_VALUE_DEFINITION),
            ).len(),
            forall|i: int|
                0 <= i < r@.len() ==> (#[trigger] r@[i]).wf() && parent.is_member_node(
                    KindSet::One(SyntaxKind::ENUM_VALUE_DEFINITION),
                    &r@[i].syntax,
                    i,
                ),
    {
        let nodes = parent.nodes_in(KindSet::One(SyntaxKind::ENUM_VALUE_DEFINITION));
        let ghost handles = nodes@;
        let mut out: Vec<EnumValueDefinition<'a>> = Vec::new();
        for syntax in it: nodes.into_iter()
            invariant
                it.seq() == handles,
                out@.len() == it.index(),
                forall|j: int| 0 <= j < out@.len() ==> (#[trigger] out@[j]).syntax == handles[j],
        {
            out.push(EnumValueDefinition { syntax });
        }
        out
    }

    /// The description, if there is one.
    pub fn description(&self) -> (r: Option<Description<'a>>)
        requires
            self.wf(),
        ensures
            match r {
                Some(n) => n.wf() && self.syntax.is_nth_node(
                    KindSet::One(SyntaxKind::DESCRIPTION),
                    0,
                    Some(n.syntax),
                ),
                None => self.syntax.is_nth_node(
                    KindSet::One(SyntaxKind::DESCRIPTION),
                    0,
                    None,
                ),
            },
    {
        match self.syntax.nth_node_in(KindSet::One(SyntaxKind::DESCRIPTION), 0) {
            Some(syntax) => Some(Description { syntax }),
            None => None,
        }
    }

    /// The enum value, if there is one.
    pub fn enum_value(&self) -> (r: Option<EnumValue<'a>>)
        requires
            self.wf(),
        ensures
            match r {
                Some(n) => n.wf() && self.syntax.is_nth_node(
                    KindSet::One(SyntaxKind::ENUM_VALUE),
                    0,
                    Some(n.syntax),
                ),
                None => self.syntax.is_nth_node(
                    KindSet::One(SyntaxKind::ENUM_VALUE),
                    0,
                    None,
                ),
            },
    {
        match self.syntax.nth_node_in(KindSet::One(SyntaxKind::ENUM_VALUE), 0) {
            Some(syntax) => Some(EnumValue { syntax }),
            None => None,
        }
    }

    /// The directives, if there is one.
    pub fn directives(&self) -> (r: Option<Directives<'a>>)
        requires
            self.wf(),
        ensures
            match r {
                Some(n) => n.wf() && self.syntax.is_nth_node(
                    KindSet::One(SyntaxKind::DIRECTIVES),
                    0,
                    Some(n.syntax),
                ),
                None => self.syntax.is_nth_node(
                    KindSet::One(SyntaxKind::DIRECTIVES),
                    0,
                    None,
                ),
            },
    {
        match self.syntax.nth_node_in(KindSet::One(SyntaxKind::DIRECTIVES), 0) {
            Some(syntax) => Some(Directives { syntax }),
            None => None,
        }
    }
}

/// *InputObjectTypeDefinition*: Description? `input` Name Directives?
/// InputFieldsDefinition?
#[derive(Debug)]
pub struct InputObjectTypeDefinition<'a> {
    pub syntax: SyntaxNode<'a>,
}

impl<'a> InputObjectTypeDefinition<'a> {
    /// The handle points at a node of kind `INPUT_OBJECT_TYPE_DEFINITION`.
    pub open spec fn wf(&self) -> bool {
        self.syntax.wf() && self.syntax.tree().kind() == SyntaxKind::INPUT_OBJECT_TYPE_DEFINITION
    }

    /// The node as this type, if it is of kind `INPUT_OBJECT_TYPE_DEFINITION`.
    pub fn cast(syntax: SyntaxNode<'a>) -> (r: Option<InputObjectTypeDefinition<'a>>)
        ensures
            r.is_some() == (syntax.tree().kind() == SyntaxKind::INPUT_OBJECT_TYPE_DEFINITION),
            r matches Some(n) ==> n.syntax == syntax,
    {
        if syntax.kind() == SyntaxKind::INPUT_OBJECT_TYPE_DEFINITION {
            Some(InputObjectTypeDefinition { syntax })
        } else {
            None
        }
    }

    /// The description, if there is one.
    pub fn description(&self) -> (r: Option<Description<'a>>)
        requires
            self.wf(),
        ensures
            match r {
                Some(n) => n.wf() && self.syntax.is_nth_node(
                    KindSet::One(SyntaxKind::DESCRIPTION),
                    0,
                    Some(n.syntax),
                ),
                None => self.syntax.is_nth_node(
                    KindSet::One(SyntaxKind::DESCRIPTION),
                    0,
                    None,
                ),
            },
    {
        match self.syntax.nth_node_in(KindSet::One(SyntaxKind::DESCRIPTION), 0) {
            Some(syntax) => Some(Description { syntax }),
            None => None,
        }
    }

    /// The name, which stands behind the keyword.
    pub fn name(&self) -> (r: Option<SyntaxToken<'a>>)
        requires
            self.wf(),
        ensures
            self.syntax.is_nth_token(KindSet::One(SyntaxKind::NAME), 1, r),
            r matches Some(t) ==> t.wf(),
    {
        self.syntax.nth_token_in(KindSet::One(SyntaxKind::NAME), 1)
    }

    /// The directives, if there is one.
    pub fn directives(&self) -> (r: Option<Directives<'a>>)
        requires
            self.wf(),
        ensures
            match r {
                Some(n) => n.wf() && self.syntax.is_nth_node(
                    KindSet::One(SyntaxKind::DIRECTIVES),
                    0,
                    Some(n.syntax),
                ),
                None => self.syntax.is_nth_node(
                    KindSet::One(SyntaxKind::DIRECTIVES),
                    0,
                    None,
                ),
            },
    {
        match self.syntax.nth_node_in(KindSet::One(SyntaxKind::DIRECTIVES), 0) {
            Some(syntax) => Some(Directives { syntax }),
            None => None,
        }
    }

    /// The input fields definition, if there is one.
    pub fn input_fields_definition(&self) -> (r: Option<InputFieldsDefinition<'a>>)
        requires
            self.wf(),
        ensures
            match r {
                Some(n) => n.wf() && self.syntax.is_nth_node(
                    KindSet::One(SyntaxKind::INPUT_FIELDS_DEFINITION),
                    0,
                    Some(n.syntax),
                ),
                None => self.syntax.is_nth_node(
                    KindSet::One(SyntaxKind::INPUT_FIELDS_DEFINITION),
                    0,
                    None,
                ),
            },
    {
        match self.syntax.nth_node_in(KindSet::One(SyntaxKind::INPUT_FIELDS_DEFINITION), 0) {
            Some(syntax) => Some(InputFieldsDefinition { syntax }),
            None => None,
        }
    }
}

/// *InputObjectTypeExtension*: `extend` `input` Name Directives?
/// InputFieldsDefinition?
#[derive(Debug)]
pub struct InputObjectTypeExtension<'a> {
    pub syntax: SyntaxNode<'a>,
}

impl<'a> InputObjectTypeExtension<'a> {
    /// The handle points at a node of kind `INPUT_OBJECT_TYPE_EXTENSION`.
    pub open spec fn wf(&self) -> bool {
        self.syntax.wf() && self.syntax.tree().kind() == SyntaxKind::INPUT_OBJECT_TYPE_EXTENSION
    }

    /// The node as this type, if it is of kind `INPUT_OBJECT_TYPE_EXTENSION`.
    pub fn cast(syntax: SyntaxNode<'a>) -> (r: Option<InputObjectTypeExtension<'a>>)
        ensures
            r.is_some() == (syntax.tree().kind() == SyntaxKind::INPUT_OBJECT_TYPE_EXTENSION),
            r matches Some(n) ==> n.syntax == syntax,
    {
        if syntax.kind() == SyntaxKind::INPUT_OBJECT_TYPE_EXTENSION {
            Some(InputObjectTypeExtension { syntax })
        } else {
            None
        }
    }

    /// The name, which stands behind `extend` and the keyword.
    pub fn name(&self) -> (r: Option<SyntaxToken<'a>>)
        requires
            self.wf(),
        ensures
            self.syntax.is_nth_token(KindSet::One(SyntaxKind::NAME), 2, r),
            r matches Some(t) ==> t.wf(),
    {
        self.syntax.nth_token_in(KindSet::One(SyntaxKind::NAME), 2)
    }

    /// The directives, if there is one.
    pub fn directives(&self) -> (r: Option<Directives<'a>>)
        requires
            self.wf(),
        ensures
            match r {
                Some(n) => n.wf() && self.syntax.is_nth_node(
                    KindSet::One(SyntaxKind::DIRECTIVES),
                    0,
                    Some(n.syntax),
                ),
                None => self.syntax.is_nth_node(
                    KindSet::One(SyntaxKind::DIRECTIVES),
                    0,
                    None,
                ),
            },
    {
        match self.syntax.nth_node_in(KindSet::One(SyntaxKind::DIRECTIVES), 0) {
            Some(syntax) => Some(Directives { syntax }),
            None => None,
        }
    }

    /// The input fields definition, if there is one.
    pub fn input_fields_definition(&self) -> (r: Option<InputFieldsDefinition<'a>>)
        requires
            self.wf(),
        ensures
            match r {
                Some(n) => n.wf() && self.syntax.is_nth_node(
                    KindSet::One(SyntaxKind::INPUT_FIELDS_DEFINITION),
                    0,
                    Some(n.syntax),
                ),
                None => self.syntax.is_nth_node(
                    KindSet::One(SyntaxKind::INPUT_FIELDS_DEFINITION),
                    0,
                    None,
                ),
            },
    {
        match self.syntax.nth_node_in(KindSet::One(SyntaxKind::INPUT_FIELDS_DEFINITION), 0) {
            Some(syntax) => Some(InputFieldsDefinition { syntax }),
            None => None,
        }
    }
}

/// *InputFieldsDefinition*: `{` InputValueDefinition+ `}`
#[derive(Debug)]
pub struct InputFieldsDefinition<'a> {
    pub syntax: SyntaxNode<'a>,
}

impl<'a> InputFieldsDefinition<'a> {
    /// The handle points at a node of kind `INPUT_FIELDS_DEFINITION`.
    pub open spec fn wf(&self) -> bool {
        self.syntax.wf() && self.syntax.tree().kind() == SyntaxKind::INPUT_FIELDS_DEFINITION
    }

    /// The node as this type, if it is of kind `INPUT_FIELDS_DEFINITION`.
    pub fn cast(syntax: SyntaxNode<'a>) -> (r: Option<InputFieldsDefinition<'a>>)
        ensures
            r.is_some() == (syntax.tree().kind() == SyntaxKind::INPUT_FIELDS_DEFINITION),
            r matches Some(n) ==> n.syntax == syntax,
    {
        if syntax.kind() == SyntaxKind::INPUT_FIELDS_DEFINITION {
            Some(InputFieldsDefinition { syntax })
        } else {
            None
        }
    }

    /// The input value definitions, in their order.
    pub fn input_value_definitions(&self) -> (r: Vec<InputValueDefinition<'a>>)
        requires
            self.wf(),
        ensures
            r@.len() == node_indices(
                self.syntax.tree().children(),
                KindSet::One(SyntaxKind::INPUT_VALUE_DEFINITION),
            ).len(),
            forall|i: int|
                0 <= i < r@.len() ==> (#[trigger] r@[i]).wf() && self.syntax.is_member_node(
                    KindSet::One(SyntaxKind::INPUT_VALUE_DEFINITION),
                    &r@[i].syntax,
                    i,
                ),
    {
        InputValueDefinition::all_in(&self.syntax)
    }
}

/// *DirectiveDefinition*: Description? `directive` `@` Name
/// ArgumentsDefinition? `repeatable`? `on` DirectiveLocations
#[derive(Debug)]
pub struct DirectiveDefinition<'a> {
    pub syntax: SyntaxNode<'a>,
}

impl<'a> DirectiveDefinition<'a> {
    /// The handle points at a node of kind `DIRECTIVE_DEFINITION`.
    pub open spec fn wf(&self) -> bool {
        self.syntax.wf() && self.syntax.tree().kind() == SyntaxKind::DIRECTIVE_DEFINITION
    }

    /// The node as this type, if it is of kind `DIRECTIVE_DEFINITION`.
    pub fn cast(syntax: SyntaxNode<'a>) -> (r: Option<DirectiveDefinition<'a>>)
        ensures
            r.is_some() == (syntax.tree().kind() == SyntaxKind::DIRECTIVE_DEFINITION),
            r matches Some(n) ==> n.syntax == syntax,
    {
        if syntax.kind() == SyntaxKind::DIRECTIVE_DEFINITION {
            Some(DirectiveDefinition { syntax })
        } else {
            None
        }
    }

    /// The description, if there is one.
    pub fn description(&self) -> (r: Option<Description<'a>>)
        requires
            self.wf(),
        ensures
            match r {
                Some(n) => n.wf() && self.syntax.is_nth_node(
                    KindSet::One(SyntaxKind::DESCRIPTION),
                    0,
                    Some(n.syntax),
                ),
                None => self.syntax.is_nth_node(
                    KindSet::One(SyntaxKind::DESCRIPTION),
                    0,
                    None,
                ),
            },
    {
        match self.syntax.nth_node_in(KindSet::One(SyntaxKind::DESCRIPTION), 0) {
            Some(syntax) => Some(Description { syntax }),
            None => None,
        }
    }

    /// The name, which stands behind the keyword.
    pub fn name(&self) -> (r: Option<SyntaxToken<'a>>)
        requires
            self.wf(),
        ensures
            self.syntax.is_nth_token(KindSet::One(SyntaxKind::NAME), 1, r),
            r matches Some(t) ==> t.wf(),
    {
        self.syntax.nth_token_in(KindSet::One(SyntaxKind::NAME), 1)
    }

    /// The arguments definition, if there is one.
    pub fn arguments_definition(&self) -> (r: Option<ArgumentsDefinition<'a>>)
        requires
            self.wf(),
        ensures
            match r {
                Some(n) => n.wf() && self.syntax.is_nth_node(
                    KindSet::One(SyntaxKind::ARGUMENTS_DEFINITION),
                    0,
                    Some(n.syntax),
                ),
                None => self.syntax.is_nth_node(
                    KindSet::One(SyntaxKind::ARGUMENTS_DEFINITION),
                    0,
                    None,
                ),
            },
    {
        match self.syntax.nth_node_in(KindSet::One(SyntaxKind::ARGUMENTS_DEFINITION), 0) {
            Some(syntax) => Some(ArgumentsDefinition { syntax }),
            None => None,
        }
    }

    /// The directive locations, if there is one.
    pub fn directive_locations(&self) -> (r: Option<DirectiveLocations<'a>>)
        requires
            self.wf(),
        ensures
            match r {
                Some(n) => n.wf() && self.syntax.is_nth_node(
                    KindSet::One(SyntaxKind::DIRECTIVE_LOCATIONS),
                    0,
                    Some(n.syntax),
                ),
                None => self.syntax.is_nth_node(
                    KindSet::One(SyntaxKind::DIRECTIVE_LOCATIONS),
                    0,
                    None,
                ),
            },
    {
        match self.syntax.nth_node_in(KindSet::One(SyntaxKind::DIRECTIVE_LOCATIONS), 0) {
            Some(syntax) => Some(DirectiveLocations { syntax }),
            None => None,
        }
    }
}

/// *DirectiveLocations*: `|`? DirectiveLocation, then `|` DirectiveLocation as
/// often as it comes.
#[derive(Debug)]
pub struct DirectiveLocations<'a> {
    pub syntax: SyntaxNode<'a>,
}

impl<'a> DirectiveLocations<'a> {
    /// The handle points at a node of kind `DIRECTIVE_LOCATIONS`.
    pub open spec fn wf(&self) -> bool {
        self.syntax.wf() && self.syntax.tree().kind() == SyntaxKind::DIRECTIVE_LOCATIONS
    }

    /// The node as this type, if it is of kind `DIRECTIVE_LOCATIONS`.
    pub fn cast(syntax: SyntaxNode<'a>) -> (r: Option<DirectiveLocations<'a>>)
        ensures
            r.is_some() == (syntax.tree().kind() == SyntaxKind::DIRECTIVE_LOCATIONS),
            r matches Some(n) ==> n.syntax == syntax,
    {
        if syntax.kind() == SyntaxKind::DIRECTIVE_LOCATIONS {
            Some(DirectiveLocations { syntax })
        } else {
            None
        }
    }

    /// The directive locations, in their order.
    pub fn directive_locations(&self) -> (r: Vec<DirectiveLocation<'a>>)
        requires
            self.wf(),
        ensures
            r@.len() == node_indices(
                self.syntax.tree().children(),
                KindSet::One(SyntaxKind::DIRECTIVE_LOCATION),
            ).len(),
            forall|i: int|
                0 <= i < r@.len() ==> (#[trigger] r@[i]).wf() && self.syntax.is_member_node(
                    KindSet::One(SyntaxKind::DIRECTIVE_LOCATION),
                    &r@[i].syntax,
                    i,
                ),
    {
        DirectiveLocation::all_in(&self.syntax)
    }
}

/// *DirectiveLocation*: the name of a place in which a directive may stand.
#[derive(Debug)]
pub struct DirectiveLocation<'a> {
    pub syntax: SyntaxNode<'a>,
}

impl<'a> DirectiveLocation<'a> {
    /// The handle points at a node of kind `DIRECTIVE_LOCATION`.
    pub open spec fn wf(&self) -> bool {
        self.syntax.wf() && self.syntax.tree().kind() == SyntaxKind::DIRECTIVE_LOCATION
    }

    /// The node as this type, if it is of kind `DIRECTIVE_LOCATION`.
    pub fn cast(syntax: SyntaxNode<'a>) -> (r: Option<DirectiveLocation<'a>>)
        ensures
            r.is_some() == (syntax.tree().kind() == SyntaxKind::DIRECTIVE_LOCATION),
            r matches Some(n) ==> n.syntax == syntax,
    {
        if syntax.kind() == SyntaxKind::DIRECTIVE_LOCATION {
            Some(DirectiveLocation { syntax })
        } else {
            None
        }
    }

    /// The children of `parent` that are nodes of kind `DIRECTIVE_LOCATION`, in their
    /// order.
    pub fn all_in(parent: &SyntaxNode<'a>) -> (r: Vec<DirectiveLocation<'a>>)
        requires
            parent.wf(),
        ensures
            r@.len() == node_indices(
                parent.tree().children(),
                KindSet::One(SyntaxKind::DIRECTIVE_LOCATION),
            ).len(),
            forall|i: int|
                0 <= i < r@.len() ==> (#[trigger] r@[i]).wf() && parent.is_member_node(
                    KindSet::One(SyntaxKind::DIRECTIVE_LOCATION),
                    &r@[i].syntax,
                    i,
                ),
    {
        let nodes = parent.nodes_in(KindSet::One(SyntaxKind::DIRECTIVE_LOCATION));
        let ghost handles = nodes@;
        let mut out: Vec<DirectiveLocation<'a>> = Vec::new();
        for syntax in it: nodes.into_iter()
            invariant
                it.seq() == handles,
                out@.len() == it.index(),
                forall|j: int| 0 <= j < out@.len() ==> (#[trigger] out@[j]).syntax == handles[j],
        {
            out.push(DirectiveLocation { syntax });
        }
        out
    }

    /// The name.
    pub fn name(&self) -> (r: Option<SyntaxToken<'a>>)
        requires
            self.wf(),
        ensures
            self.syntax.is_nth_token(KindSet::One(SyntaxKind::NAME), 0, r),
            r matches Some(t) ==> t.wf(),
    {
        self.syntax.nth_token_in(KindSet::One(SyntaxKind::NAME), 0)
    }
}

} // verus!
