use apollo_parser::ast::{Definition, Selection, Type, Value};
use apollo_parser::laws::{walk_of, WalkEvent};
use apollo_parser::state::RECURSION_LIMIT;
use apollo_parser::syntax::{SyntaxElement, SyntaxNode};
use apollo_parser::tree::{GreenChild, GreenNode};
use apollo_parser::{Parser, SyntaxKind, SyntaxTree, TokenKind};

fn parse(input: &str) -> SyntaxTree {
    Parser::new(input).parse()
}

fn node<'a>(parent: &'a GreenNode, kind: SyntaxKind) -> &'a GreenNode {
    match parent.first_child_of_kind(kind) {
        Some(GreenChild::Node(n)) => n,
        _ => panic!("no node of kind {:?} in {:?}", kind, parent.kind()),
    }
}

fn token_text(parent: &GreenNode, kind: SyntaxKind) -> String {
    match parent.first_child_of_kind(kind) {
        Some(GreenChild::Token(t)) => t.text().to_string(),
        _ => panic!("no token of kind {:?} in {:?}", kind, parent.kind()),
    }
}

fn dump(n: &GreenNode, depth: usize, out: &mut String) {
    out.push_str(&format!("{}{:?}\n", "  ".repeat(depth), n.kind()));
    for i in 0..n.child_count() {
        match n.child(i) {
            GreenChild::Node(c) => dump(c, depth + 1, out),
            GreenChild::Token(t) => {
                out.push_str(&format!("{}{:?} {:?}\n", "  ".repeat(depth + 1), t.kind(), t.text()))
            }
        }
    }
}

fn show(tree: &SyntaxTree) -> String {
    let mut out = String::new();
    dump(tree.root(), 0, &mut out);
    for e in tree.errors() {
        out.push_str(&format!("error at {}: {} ({:?})\n", e.index(), e.message(), e.data()));
    }
    out
}

fn leaves(n: &GreenNode, out: &mut Vec<(SyntaxKind, String)>) {
    for i in 0..n.child_count() {
        match n.child(i) {
            GreenChild::Node(c) => leaves(c, out),
            GreenChild::Token(t) => out.push((t.kind(), t.text().to_string())),
        }
    }
}

fn count_nodes(n: &GreenNode, kind: SyntaxKind) -> usize {
    let mut count = if n.kind() == kind { 1 } else { 0 };
    for i in 0..n.child_count() {
        if let GreenChild::Node(c) = n.child(i) {
            count += count_nodes(c, kind);
        }
    }
    count
}

#[test]
fn shorthand_query() {
    let input = "{ hero { name } }";
    let tree = parse(input);
    println!("{}", show(&tree));
    assert_eq!(tree.errors().len(), 0);
    let root = tree.root();
    assert_eq!(root.kind(), SyntaxKind::DOCUMENT);
    assert_eq!(root.text(), input);
    let operation = node(root, SyntaxKind::OPERATION_DEFINITION);
    assert!(operation.first_child_of_kind(SyntaxKind::OPERATION_TYPE).is_none());
    assert!(operation.first_child_of_kind(SyntaxKind::NAME).is_none());
    let set = node(operation, SyntaxKind::SELECTION_SET);
    let hero = node(set, SyntaxKind::FIELD);
    assert_eq!(token_text(hero, SyntaxKind::NAME), "hero");
    let inner = node(hero, SyntaxKind::SELECTION_SET);
    let name = node(inner, SyntaxKind::FIELD);
    assert_eq!(token_text(name, SyntaxKind::NAME), "name");
    assert!(name.first_child_of_kind(SyntaxKind::SELECTION_SET).is_none());
}

#[test]
fn named_query_with_variables() {
    let input = "query Q($x: Int!) { a(b: $x) }";
    let tree = parse(input);
    println!("{}", show(&tree));
    assert_eq!(tree.errors().len(), 0);
    let document = tree.document();
    let definitions = document.definitions();
    assert_eq!(definitions.len(), 1);
    let operation = match &definitions[0] {
        Definition::OperationDefinition(operation) => operation,
        other => panic!("not an operation: {:?}", other),
    };
    let operation_type = operation.operation_type().unwrap();
    assert_eq!(operation_type.token().unwrap().text(), "query");
    assert_eq!(operation.name().unwrap().text(), "Q");
    let variables = operation.variable_definitions().unwrap().variable_definitions();
    assert_eq!(variables.len(), 1);
    assert_eq!(variables[0].variable().unwrap().name().unwrap().text(), "x");
    match variables[0].ty().unwrap() {
        Type::NonNullType(non_null) => {
            assert!(non_null.list_type().is_none());
            assert_eq!(non_null.named_type().unwrap().name().unwrap().text(), "Int");
            assert_eq!(non_null.syntax.text(), "Int!");
        }
        other => panic!("not a non-null type: {:?}", other),
    }
    let selections = operation.selection_set().unwrap().selections();
    assert_eq!(selections.len(), 1);
    let field = match &selections[0] {
        Selection::Field(field) => field,
        other => panic!("not a field: {:?}", other),
    };
    assert_eq!(field.name().unwrap().text(), "a");
    let arguments = field.arguments().unwrap();
    assert_eq!(arguments.syntax.text(), "(b: $x) ");
    let list = arguments.arguments();
    assert_eq!(list.len(), 1);
    assert_eq!(list[0].name().unwrap().text(), "b");
    match list[0].value().unwrap() {
        Value::Variable(variable) => assert_eq!(variable.name().unwrap().text(), "x"),
        other => panic!("not a variable: {:?}", other),
    }
}

#[test]
fn fragment_spread_and_inline_fragment() {
    let input = "{ ...F ... on T { x } }";
    let tree = parse(input);
    println!("{}", show(&tree));
    assert_eq!(tree.errors().len(), 0);
    let definitions = tree.document().definitions();
    let operation = match &definitions[0] {
        Definition::OperationDefinition(operation) => operation,
        other => panic!("not an operation: {:?}", other),
    };
    let selections = operation.selection_set().unwrap().selections();
    assert_eq!(selections.len(), 2);
    match &selections[0] {
        Selection::FragmentSpread(spread) => {
            assert_eq!(spread.fragment_name().unwrap().name().unwrap().text(), "F");
        }
        other => panic!("not a fragment spread: {:?}", other),
    }
    match &selections[1] {
        Selection::InlineFragment(inline) => {
            let condition = inline.type_condition().unwrap();
            assert_eq!(condition.named_type().unwrap().name().unwrap().text(), "T");
            let inner = inline.selection_set().unwrap().selections();
            assert_eq!(inner.len(), 1);
        }
        other => panic!("not an inline fragment: {:?}", other),
    }
}

#[test]
fn recovery_on_a_stray_token() {
    let input = "ø directive @d on FIELD";
    let tree = parse(input);
    println!("{}", show(&tree));
    assert_eq!(tree.errors().len(), 1);
    assert_eq!(tree.errors()[0].index(), 0);
    assert_eq!(tree.errors()[0].data(), "ø");
    assert_eq!(tree.errors()[0].message(), "unexpected character");
    let definition = node(tree.root(), SyntaxKind::DIRECTIVE_DEFINITION);
    assert_eq!(definition.text(), "directive @d on FIELD");
    // the stray character is in the error, everything else in the document
    assert_eq!(tree.root().text(), " directive @d on FIELD");
    let definitions = tree.document().definitions();
    assert_eq!(definitions.len(), 1);
    match &definitions[0] {
        Definition::DirectiveDefinition(directive) => {
            assert_eq!(directive.name().unwrap().text(), "d");
            let locations = directive.directive_locations().unwrap().directive_locations();
            assert_eq!(locations.len(), 1);
            assert_eq!(locations[0].name().unwrap().text(), "FIELD");
        }
        other => panic!("not a directive definition: {:?}", other),
    }
}

#[test]
fn a_description_stands_before_a_definition() {
    let input = "\"\"\"He said \"hi\".\"\"\"";
    let tree = parse(input);
    println!("{}", show(&tree));
    let mut tokens = Vec::new();
    leaves(tree.root(), &mut tokens);
    // the description stands before no definition: the parser drops it
    assert_eq!(tokens.len(), 0);
    assert_eq!(tree.errors().len(), 1);
    assert_eq!(tree.errors()[0].data(), input);
    assert_eq!(tree.errors()[0].index(), 0);

    let described = "\"\"\"He said \"hi\".\"\"\" scalar Quote";
    let tree = parse(described);
    println!("{}", show(&tree));
    assert_eq!(tree.errors().len(), 0);
    let mut tokens = Vec::new();
    leaves(tree.root(), &mut tokens);
    assert_eq!(tokens[0], (SyntaxKind::STRING, input.to_string()));
    assert_eq!(tree.root().text(), described);
}

#[test]
fn unterminated_string() {
    let input = "{ a(b: \"oops }";
    let tree = parse(input);
    println!("{}", show(&tree));
    let errors = tree.errors();
    assert!(errors.len() >= 1);
    assert!(errors
        .iter()
        .any(|e| e.index() == 7
            && e.message() == "unterminated string value"
            && e.data() == "\"oops }"));
    assert_eq!(tree.root().kind(), SyntaxKind::DOCUMENT);
    assert_eq!(tree.root().text(), "{ a(b: ");
    let events = walk_of(tree.root());
    assert_eq!(events.first(), Some(&WalkEvent::Enter(SyntaxKind::DOCUMENT)));
    assert_eq!(events.last(), Some(&WalkEvent::Leave(SyntaxKind::DOCUMENT)));
}

#[test]
fn empty_input_gives_an_empty_document() {
    let tree = parse("");
    assert_eq!(tree.errors().len(), 0);
    assert_eq!(tree.root().kind(), SyntaxKind::DOCUMENT);
    assert_eq!(tree.root().child_count(), 0);
    assert_eq!(tree.root().text(), "");
    assert_eq!(tree.document().definitions().len(), 0);
}

#[test]
fn wholly_invalid_input_gives_a_document() {
    let input = ") ] !";
    let tree = parse(input);
    println!("{}", show(&tree));
    assert_eq!(tree.root().kind(), SyntaxKind::DOCUMENT);
    assert_eq!(tree.errors().len(), 3);
    assert_eq!(tree.errors()[0].index(), 0);
    assert_eq!(tree.errors()[1].index(), 2);
    assert_eq!(tree.errors()[2].index(), 4);
    assert_eq!(tree.errors()[0].message(), "expected a definition");
    assert_eq!(tree.errors()[0].data(), ")");
    // the trivia behind each dropped token stays
    assert_eq!(tree.root().text(), "  ");
}

#[test]
fn round_trip_of_a_schema() {
    let input = r#"
"The schema"
schema @core(feature: "https://specs.apollo.dev/join/v0.1") {
  query: Query
  mutation: Mutation
}

# a scalar
scalar Date @specifiedBy(url: "https://example.com")

type Query implements Node Entity @key(fields: "id") {
  "The id"
  id: ID!
  pets(first: Int = 10, after: String, kinds: [Kind!]! = [CAT, DOG]): [Pet]
  config(input: ConfigInput = {depth: 1.5e3, name: "x", on: true, off: null}): Config
}

interface Node { id: ID! }

union Pet = | Cat | Dog

enum Kind { CAT, DOG @deprecated(reason: "no dogs") }

input ConfigInput { depth: Float = 1.0, name: String }

directive @key(fields: String!) repeatable on OBJECT | INTERFACE

extend schema @link
extend scalar Date @tag
extend type Query { more: Int }
extend interface Node @tag
extend union Pet = Bird
extend enum Kind { BIRD }
extend input ConfigInput { extra: Boolean }
"#;
    let tree = parse(input);
    println!("{}", show(&tree));
    assert_eq!(tree.errors().len(), 0);
    assert_eq!(tree.root().text(), input);
    let definitions = tree.document().definitions();
    assert_eq!(definitions.len(), 15);
    assert!(matches!(definitions[0], Definition::SchemaDefinition(_)));
    assert!(matches!(definitions[1], Definition::ScalarTypeDefinition(_)));
    assert!(matches!(definitions[2], Definition::ObjectTypeDefinition(_)));
    assert!(matches!(definitions[3], Definition::InterfaceTypeDefinition(_)));
    assert!(matches!(definitions[4], Definition::UnionTypeDefinition(_)));
    assert!(matches!(definitions[5], Definition::EnumTypeDefinition(_)));
    assert!(matches!(definitions[6], Definition::InputObjectTypeDefinition(_)));
    assert!(matches!(definitions[7], Definition::DirectiveDefinition(_)));
    assert!(matches!(definitions[8], Definition::SchemaExtension(_)));
    assert!(matches!(definitions[9], Definition::ScalarTypeExtension(_)));
    assert!(matches!(definitions[10], Definition::ObjectTypeExtension(_)));
    assert!(matches!(definitions[11], Definition::InterfaceTypeExtension(_)));
    assert!(matches!(definitions[12], Definition::UnionTypeExtension(_)));
    assert!(matches!(definitions[13], Definition::EnumTypeExtension(_)));
    assert!(matches!(definitions[14], Definition::InputObjectTypeExtension(_)));
    match &definitions[0] {
        Definition::SchemaDefinition(schema) => {
            let text = schema.description().unwrap().token().unwrap().text();
            assert_eq!(text, "\"The schema\"");
            assert_eq!(schema.root_operation_type_definitions().len(), 2);
        }
        _ => unreachable!(),
    }
    match &definitions[2] {
        Definition::ObjectTypeDefinition(object) => {
            assert_eq!(object.name().unwrap().text(), "Query");
            assert_eq!(object.implements_interfaces().unwrap().named_types().len(), 2);
            let fields = object.fields_definition().unwrap().field_definitions();
            assert_eq!(fields.len(), 3);
            assert_eq!(fields[1].name().unwrap().text(), "pets");
            let arguments = fields[1].arguments_definition().unwrap().input_value_definitions();
            assert_eq!(arguments.len(), 3);
            match arguments[2].ty().unwrap() {
                Type::NonNullType(outer) => {
                    let list = outer.list_type().unwrap();
                    assert!(matches!(list.ty().unwrap(), Type::NonNullType(_)));
                }
                other => panic!("not a non-null type: {:?}", other),
            }
            match arguments[2].default_value().unwrap().value().unwrap() {
                Value::ListValue(list) => assert_eq!(list.values().len(), 2),
                other => panic!("not a list: {:?}", other),
            }
            assert!(matches!(fields[1].ty().unwrap(), Type::ListType(_)));
        }
        _ => unreachable!(),
    }
    match &definitions[10] {
        Definition::ObjectTypeExtension(object) => {
            assert_eq!(object.name().unwrap().text(), "Query");
        }
        _ => unreachable!(),
    }
}

#[test]
fn values_of_every_kind() {
    let input = "{ f(a: $v, b: 1, c: -2.5, d: \"s\", e: true, f: false, g: null, h: RED, \
                 i: [1 2], j: {k: 1}) }";
    let tree = parse(input);
    println!("{}", show(&tree));
    assert_eq!(tree.errors().len(), 0);
    assert_eq!(tree.root().text(), input);
    let root = tree.root();
    for kind in [
        SyntaxKind::VARIABLE,
        SyntaxKind::FLOAT_VALUE,
        SyntaxKind::STRING_VALUE,
        SyntaxKind::NULL_VALUE,
        SyntaxKind::ENUM_VALUE,
        SyntaxKind::LIST_VALUE,
        SyntaxKind::OBJECT_VALUE,
        SyntaxKind::OBJECT_FIELD,
    ] {
        assert_eq!(count_nodes(root, kind), 1, "{:?}", kind);
    }
    assert_eq!(count_nodes(root, SyntaxKind::BOOLEAN_VALUE), 2);
    assert_eq!(count_nodes(root, SyntaxKind::INT_VALUE), 4);
    assert_eq!(count_nodes(root, SyntaxKind::ARGUMENT), 10);
}

#[test]
fn alias_needs_a_colon_behind_the_name() {
    let tree = parse("{ small: pic(size: 1), pic }");
    println!("{}", show(&tree));
    assert_eq!(tree.errors().len(), 0);
    let definitions = tree.document().definitions();
    let operation = match &definitions[0] {
        Definition::OperationDefinition(operation) => operation,
        _ => unreachable!(),
    };
    let selections = operation.selection_set().unwrap().selections();
    assert_eq!(selections.len(), 2);
    match (&selections[0], &selections[1]) {
        (Selection::Field(first), Selection::Field(second)) => {
            assert_eq!(first.alias().unwrap().name().unwrap().text(), "small");
            assert_eq!(first.name().unwrap().text(), "pic");
            assert!(second.alias().is_none());
            assert_eq!(second.name().unwrap().text(), "pic");
        }
        _ => panic!("not fields"),
    }
}

#[test]
fn empty_selection_set_is_an_error() {
    let input = "{ }";
    let tree = parse(input);
    println!("{}", show(&tree));
    assert_eq!(tree.errors().len(), 1);
    assert_eq!(tree.errors()[0].message(), "expected at least one selection in a selection set");
    assert_eq!(tree.errors()[0].index(), 2);
    assert_eq!(tree.errors()[0].data(), "}");
    // nothing was dropped: the text is still the input
    assert_eq!(tree.root().text(), input);
}

#[test]
fn expect_names_the_kind_and_the_text() {
    let input = "{ a(b: 1 }";
    let tree = parse(input);
    println!("{}", show(&tree));
    assert_eq!(tree.errors().len(), 1);
    assert_eq!(tree.errors()[0].message(), "expected R_PAREN, got }");
    assert_eq!(tree.errors()[0].data(), "}");
    assert_eq!(tree.errors()[0].index(), 9);
    assert_eq!(tree.root().text(), input);
}

#[test]
fn missing_closer_at_the_end_of_input() {
    let input = "{ a";
    let tree = parse(input);
    println!("{}", show(&tree));
    assert_eq!(tree.errors().len(), 1);
    assert_eq!(tree.errors()[0].message(), "expected R_BRACE, got ");
    assert_eq!(tree.errors()[0].data(), "");
    assert_eq!(tree.errors()[0].index(), 3);
    assert_eq!(tree.root().text(), input);
}

#[test]
fn two_bangs_are_an_error() {
    let input = "query($a: Int!!) { a }";
    let tree = parse(input);
    println!("{}", show(&tree));
    assert_eq!(tree.errors().len(), 1);
    assert_eq!(tree.errors()[0].index(), 14);
    assert_eq!(tree.errors()[0].data(), "!");
    assert_eq!(tree.errors()[0].message(), "expected a type to be non-null only once");
    assert_eq!(count_nodes(tree.root(), SyntaxKind::NON_NULL_TYPE), 1);
    assert_eq!(tree.root().text(), "query($a: Int!) { a }");
}

#[test]
fn spread_without_a_fragment_is_an_error() {
    let tree = parse("{ ... 1 a }");
    println!("{}", show(&tree));
    assert!(tree.errors().len() >= 1);
    assert_eq!(tree.errors()[0].index(), 2);
    assert_eq!(tree.errors()[0].data(), "...");
    assert_eq!(
        tree.errors()[0].message(),
        "expected a fragment name, a type condition or a selection set"
    );
}

#[test]
fn description_before_no_definition_is_an_error() {
    let tree = parse("\"lonely\" { a }");
    println!("{}", show(&tree));
    assert_eq!(tree.errors().len(), 1);
    assert_eq!(tree.errors()[0].message(), "expected a definition after the description");
    assert_eq!(tree.errors()[0].index(), 0);
    assert_eq!(tree.document().definitions().len(), 1);
}

#[test]
fn errors_stand_in_source_order() {
    // the lexer meets `?` and `%`, the parser `)`: all three in one list
    let input = "? ) % { a }";
    let tree = parse(input);
    println!("{}", show(&tree));
    let indices: Vec<usize> = tree.errors().iter().map(|e| e.index()).collect();
    assert_eq!(indices, vec![0, 2, 4]);
    assert_eq!(tree.errors()[0].message(), "unexpected character");
    assert_eq!(tree.errors()[1].message(), "expected a definition");
    assert_eq!(tree.errors()[2].message(), "unexpected character");
    for e in tree.errors() {
        assert!(e.index() <= input.len());
    }
}

#[test]
fn error_indices_are_byte_offsets() {
    let input = "# é\n{ a } ø";
    let tree = parse(input);
    println!("{}", show(&tree));
    assert_eq!(tree.errors().len(), 1);
    assert_eq!(tree.errors()[0].index(), 11);
    assert_eq!(tree.errors()[0].data(), "ø");
    assert!(tree.errors()[0].index() <= input.len());
}

#[test]
fn trivia_is_kept_as_trivia() {
    let input = " # a comment\n{ a, b ,, }\t# the end";
    let tree = parse(input);
    println!("{}", show(&tree));
    assert_eq!(tree.errors().len(), 0);
    let mut tokens = Vec::new();
    leaves(tree.root(), &mut tokens);
    let trivia: Vec<(SyntaxKind, String)> = tokens
        .iter()
        .filter(|(kind, _)| {
            matches!(kind, SyntaxKind::WHITESPACE | SyntaxKind::COMMENT | SyntaxKind::COMMA)
        })
        .cloned()
        .collect();
    let expected = vec![
        (SyntaxKind::WHITESPACE, " ".to_string()),
        (SyntaxKind::COMMENT, "# a comment".to_string()),
        (SyntaxKind::WHITESPACE, "\n".to_string()),
        (SyntaxKind::WHITESPACE, " ".to_string()),
        (SyntaxKind::COMMA, ",".to_string()),
        (SyntaxKind::WHITESPACE, " ".to_string()),
        (SyntaxKind::WHITESPACE, " ".to_string()),
        (SyntaxKind::COMMA, ",".to_string()),
        (SyntaxKind::COMMA, ",".to_string()),
        (SyntaxKind::WHITESPACE, " ".to_string()),
        (SyntaxKind::WHITESPACE, "\t".to_string()),
        (SyntaxKind::COMMENT, "# the end".to_string()),
    ];
    assert_eq!(trivia, expected);
    // what the accessors hand out is never trivia
    let definitions = tree.document().definitions();
    let operation = match &definitions[0] {
        Definition::OperationDefinition(operation) => operation,
        _ => unreachable!(),
    };
    for selection in operation.selection_set().unwrap().selections() {
        match selection {
            Selection::Field(field) => {
                let name = field.name().unwrap();
                assert_eq!(name.kind(), SyntaxKind::NAME);
                assert!(name.text() == "a" || name.text() == "b");
            }
            _ => panic!("not a field"),
        }
    }
}

#[test]
fn commas_are_skipped_in_lookahead() {
    // the alias is found although a comma stands between the name and the colon
    let tree = parse("{ a , : b }");
    println!("{}", show(&tree));
    assert_eq!(tree.errors().len(), 0);
    assert_eq!(count_nodes(tree.root(), SyntaxKind::ALIAS), 1);
}

#[test]
fn the_typed_view_gives_the_same_on_every_traversal() {
    let tree = parse("query Q { a { b } ...F }");
    let first: Vec<String> = tree
        .document()
        .definitions()
        .iter()
        .map(|d| format!("{:?}", d))
        .collect();
    let second: Vec<String> = tree
        .document()
        .definitions()
        .iter()
        .map(|d| format!("{:?}", d))
        .collect();
    assert_eq!(first, second);
    let a = tree.document();
    let b = tree.document();
    assert!(a.syntax.same_place(&b.syntax));
    assert_eq!(a.syntax.text(), b.syntax.text());
}

#[test]
fn more_text_keeps_the_definitions_that_are_complete() {
    let shorter = parse("{ a } fragment F on T { b }");
    let longer = parse("{ a } fragment F on T { b } scalar S");
    assert_eq!(shorter.document().definitions().len(), 2);
    assert_eq!(longer.document().definitions().len(), 3);
    // a definition that is not complete may be lost to what follows
    let before = parse("scalar A scalar");
    let after = parse("scalar A scalars");
    assert_eq!(before.document().definitions().len(), 2);
    assert_eq!(after.document().definitions().len(), 1);
}

#[test]
fn the_walk_closes_every_node() {
    let inputs =
        ["", "{ a { b } }", "type T { f(a: [Int!]! = [1]): T }", "{ a(b: \"oops }", ")))"];
    for input in inputs {
        let tree = parse(input);
        let events = walk_of(tree.root());
        let mut depth: i64 = 0;
        for event in &events {
            match event {
                WalkEvent::Enter(_) => depth += 1,
                WalkEvent::Leave(_) => depth -= 1,
                WalkEvent::Token(_) => {}
            }
            assert!(depth >= 0);
        }
        assert_eq!(depth, 0);
    }
}

#[test]
fn deep_nesting_halts_the_parser() {
    let depth = 400;
    let mut input = String::new();
    for _ in 0..depth {
        input.push_str("{ a ");
    }
    for _ in 0..depth {
        input.push_str("} ");
    }
    let tree = parse(&input);
    let limit = tree.recursion_limit();
    assert_eq!(limit.limit, RECURSION_LIMIT);
    assert_eq!(limit.limit, 500);
    assert!(limit.limited());
    assert_eq!(limit.high, 501);
    assert_eq!(tree.errors().len(), 1);
    assert_eq!(tree.errors()[0].message(), "parser recursion limit reached");
    assert_eq!(tree.root().kind(), SyntaxKind::DOCUMENT);
    // every node that was opened is closed
    let events = walk_of(tree.root());
    let enters = events.iter().filter(|e| matches!(e, WalkEvent::Enter(_))).count();
    let leaves = events.iter().filter(|e| matches!(e, WalkEvent::Leave(_))).count();
    assert_eq!(enters, leaves);
    assert_eq!(enters, 502);
    assert!(input.starts_with(&tree.root().text()));

    let shallow = "{ a { b { c } } }";
    let tree = parse(shallow);
    let limit = tree.recursion_limit();
    assert!(!limit.limited());
    assert_eq!(limit.high, 7);
}

#[test]
fn navigation_knows_ranges_parents_and_children() {
    let input = "# é\n{ hero { name } }";
    let tree = parse(input);
    let root = SyntaxNode::new_root(tree.root());
    assert_eq!(root.kind(), SyntaxKind::DOCUMENT);
    assert_eq!(root.text_range(), (0, input.len()));
    assert!(root.parent().is_none());
    assert!(root.index_in_parent().is_none());
    let children = root.children();
    assert_eq!(children.len(), 3);
    assert_eq!(children[0].kind(), SyntaxKind::COMMENT);
    assert_eq!(children[0].text_range(), (0, 4));
    assert_eq!(children[1].kind(), SyntaxKind::WHITESPACE);
    assert_eq!(children[1].text_range(), (4, 5));
    assert_eq!(children[2].text_range(), (5, input.len()));
    let operation = match root.first_child_of_kind(SyntaxKind::OPERATION_DEFINITION) {
        Some(SyntaxElement::Node(n)) => n,
        _ => panic!("no operation"),
    };
    assert_eq!(operation.index_in_parent(), Some(2));
    let set = root.child(2).into_node().unwrap().child(0).into_node().unwrap();
    assert_eq!(set.kind(), SyntaxKind::SELECTION_SET);
    let fields = set.children_of_kind(SyntaxKind::FIELD);
    assert_eq!(fields.len(), 1);
    let hero = match &fields[0] {
        SyntaxElement::Node(n) => n,
        _ => panic!("not a node"),
    };
    assert_eq!(hero.text(), "hero { name } ");
    assert_eq!(hero.text_range(), (7, 21));
    let name = match hero.first_child_of_kind(SyntaxKind::NAME) {
        Some(SyntaxElement::Token(t)) => t,
        _ => panic!("no name"),
    };
    assert_eq!(name.text(), "hero");
    assert_eq!(name.text_range(), (7, 11));
    let parent = hero.parent().unwrap();
    assert!(parent.same_place(&set));
    assert!(!parent.same_place(hero));
    assert_eq!(parent.kind(), SyntaxKind::SELECTION_SET);
    assert_eq!(parent.text_range(), set.text_range());
    let grandparent = parent.parent().unwrap();
    assert!(grandparent.same_place(&operation));
    assert!(grandparent.parent().unwrap().same_place(&root));
}

#[test]
fn the_operations_of_the_parser() {
    let mut p = Parser::new("  query , Q { a }");
    assert_eq!(p.peek(), Some(TokenKind::Whitespace));
    assert_eq!(p.peek_n(1), Some(TokenKind::Name));
    assert_eq!(p.peek_n(2), Some(TokenKind::Name));
    assert_eq!(p.peek_n(3), Some(TokenKind::LBrace));
    assert_eq!(p.peek_data_n(2), Some("Q".to_string()));
    assert_eq!(p.peek_data(), Some("  ".to_string()));
    p.bump_ignored();
    assert!(p.at(TokenKind::Name));
    assert!(p.at_word("query"));
    assert_eq!(p.current().data(), "query");
    assert_eq!(p.current().index(), 2);
    let guard = p.start_node(SyntaxKind::OPERATION_DEFINITION);
    p.expect(TokenKind::LBrace, SyntaxKind::L_BRACE);
    p.err("just a note");
    p.bump(SyntaxKind::NAME);
    assert_eq!(p.peek_token().unwrap().data(), "Q");
    let token = p.pop();
    assert_eq!(token.data(), "Q");
    assert_eq!(token.kind(), TokenKind::Name);
    assert_eq!(p.peek(), Some(TokenKind::Whitespace));
    p.push_ast(SyntaxKind::NAME, token);
    p.bump_ignored();
    p.err_and_pop("no brace here");
    guard.finish_node(&mut p);
    let tree = p.parse();
    println!("{}", show(&tree));
    let messages: Vec<&str> = tree.errors().iter().map(|e| e.message()).collect();
    assert_eq!(
        messages,
        vec![
            "expected L_BRACE, got query",
            "just a note",
            "no brace here",
            "expected a definition",
            "expected a definition"
        ]
    );
    assert_eq!(tree.errors()[2].data(), "{");
    assert_eq!(tree.errors()[3].data(), "a");
    assert_eq!(tree.errors()[4].data(), "}");
    let operation = node(tree.root(), SyntaxKind::OPERATION_DEFINITION);
    assert_eq!(operation.text(), "query , Q  ");
    assert_eq!(tree.root().text(), "  query , Q   ");
}

#[test]
fn a_definition_keyword_ends_a_list_that_went_wrong() {
    let input = "type A { f(a: Int type B { g: Int }";
    let tree = parse(input);
    println!("{}", show(&tree));
    let definitions = tree.document().definitions();
    assert_eq!(definitions.len(), 2);
    match (&definitions[0], &definitions[1]) {
        (Definition::ObjectTypeDefinition(a), Definition::ObjectTypeDefinition(b)) => {
            assert_eq!(a.name().unwrap().text(), "A");
            assert_eq!(b.name().unwrap().text(), "B");
            assert_eq!(b.fields_definition().unwrap().field_definitions().len(), 1);
        }
        _ => panic!("not two object types"),
    }
    assert!(tree.errors().len() >= 1);
    assert_eq!(tree.errors()[0].message(), "expected R_PAREN, got type");
    assert_eq!(tree.root().text(), input);
    // a keyword is a name like any other where an entry starts with it
    let tree = parse("type A { type: Int, input(type: Int): Int } { a(type: 1, b: {input: 2}) }");
    println!("{}", show(&tree));
    assert_eq!(tree.errors().len(), 0);
    assert_eq!(tree.document().definitions().len(), 2);
}

#[test]
fn line_and_column_of_an_offset() {
    let input = "{\n  é b\n}";
    assert_eq!(apollo_parser::text::line_column(input, 0), (0, 0));
    assert_eq!(apollo_parser::text::line_column(input, 1), (0, 1));
    assert_eq!(apollo_parser::text::line_column(input, 2), (1, 0));
    assert_eq!(apollo_parser::text::line_column(input, 4), (1, 2));
    // an offset inside `é` counts as its start
    assert_eq!(apollo_parser::text::line_column(input, 5), (1, 2));
    assert_eq!(apollo_parser::text::line_column(input, 6), (1, 3));
    assert_eq!(apollo_parser::text::line_column(input, 7), (1, 4));
    assert_eq!(apollo_parser::text::line_column(input, 9), (2, 0));
    assert_eq!(apollo_parser::text::line_column(input, 10), (2, 1));
    assert_eq!(apollo_parser::text::line_column(input, 1000), (2, 1));
    assert_eq!(apollo_parser::text::line_column("", 0), (0, 0));
}

#[test]
fn parsing_twice_gives_the_same_tree() {
    for input in ["{ a(b: [1, {c: $d}]) }", "type T @a { f: [T!]! } ) extend type", "\"", ""] {
        let first = parse(input);
        let second = parse(input);
        assert_eq!(show(&first), show(&second));
        assert_eq!(first.recursion_limit(), second.recursion_limit());
    }
}

#[test]
fn non_null_lists_are_found_behind_nested_brackets() {
    let tree = parse("type T { f: [[Int!]]! g: [ [ Int ] , ] h: [Int]\n! }");
    println!("{}", show(&tree));
    assert_eq!(tree.errors().len(), 0);
    assert_eq!(count_nodes(tree.root(), SyntaxKind::NON_NULL_TYPE), 3);
    assert_eq!(count_nodes(tree.root(), SyntaxKind::LIST_TYPE), 5);
    // a `!` behind something that is no part of the type does not count
    let tree = parse("type T { f: [Int = 1]! }");
    println!("{}", show(&tree));
    assert!(tree.errors().len() >= 1);
    assert_eq!(count_nodes(tree.root(), SyntaxKind::NON_NULL_TYPE), 0);
}

#[test]
fn expect_stays_where_the_token_is_another() {
    let mut p = Parser::new("a");
    p.expect(TokenKind::Colon, SyntaxKind::COLON);
    assert_eq!(p.peek(), Some(TokenKind::Name));
    assert_eq!(p.peek_data(), Some("a".to_string()));
    assert_eq!(p.current().index(), 0);
    // a tag that no node admits and a kind that no token has are accepted too
    p.expect(TokenKind::Eof, SyntaxKind::DOCUMENT);
    p.expect(TokenKind::Whitespace, SyntaxKind::WHITESPACE);
    assert_eq!(p.peek_data(), Some("a".to_string()));
    let tree = p.parse();
    println!("{}", show(&tree));
    let errors: Vec<(&str, &str, usize)> =
        tree.errors().iter().map(|e| (e.message(), e.data(), e.index())).collect();
    assert_eq!(
        errors,
        vec![
            ("expected COLON, got a", "a", 0),
            ("expected DOCUMENT, got a", "a", 0),
            ("expected WHITESPACE, got a", "a", 0),
            ("expected a definition", "a", 0),
        ]
    );
    assert_eq!(tree.root().child_count(), 0);
}

#[test]
fn expect_does_one_of_two_things() {
    // the token is there: it is consumed with the trivia behind it, no error
    let mut p = Parser::new("{ a }");
    let guard = p.start_node(SyntaxKind::OPERATION_DEFINITION);
    let inner = p.start_node(SyntaxKind::SELECTION_SET);
    p.expect(TokenKind::LBrace, SyntaxKind::L_BRACE);
    assert_eq!(p.peek_data(), Some("a".to_string()));
    // the token is another: one error, no move
    p.expect(TokenKind::RBrace, SyntaxKind::R_BRACE);
    assert_eq!(p.peek_data(), Some("a".to_string()));
    inner.finish_node(&mut p);
    guard.finish_node(&mut p);
    let tree = p.parse();
    println!("{}", show(&tree));
    assert_eq!(tree.errors().len(), 3);
    assert_eq!(tree.errors()[0].message(), "expected R_BRACE, got a");
    assert_eq!(tree.errors()[0].index(), 2);
    let set = node(node(tree.root(), SyntaxKind::OPERATION_DEFINITION), SyntaxKind::SELECTION_SET);
    assert_eq!(set.text(), "{ ");
    assert_eq!(set.child_count(), 2);
}

#[test]
fn handles_on_equal_children_stand_at_their_own_places() {
    let input = "{ a a a }";
    let tree = parse(input);
    assert_eq!(tree.errors().len(), 0);
    let root = SyntaxNode::new_root(tree.root());
    let set = root.child(0).into_node().unwrap().child(0).into_node().unwrap();
    let fields = set.children_of_kind(SyntaxKind::FIELD);
    let ranges: Vec<(usize, usize)> = fields.iter().map(|f| f.text_range()).collect();
    assert_eq!(ranges, vec![(2, 4), (4, 6), (6, 8)]);
    let places: Vec<Option<usize>> = fields
        .iter()
        .map(|f| match f {
            SyntaxElement::Node(n) => n.index_in_parent(),
            SyntaxElement::Token(_) => None,
        })
        .collect();
    assert_eq!(places, vec![Some(2), Some(3), Some(4)]);
    let nodes = set.nodes_in(apollo_parser::syntax_kind::KindSet::Selections);
    let ranges: Vec<(usize, usize)> = nodes.iter().map(|n| n.text_range()).collect();
    assert_eq!(ranges, vec![(2, 4), (4, 6), (6, 8)]);
    let definitions = tree.document().definitions();
    let operation = match &definitions[0] {
        Definition::OperationDefinition(operation) => operation,
        _ => unreachable!(),
    };
    let selections = operation.selection_set().unwrap().selections();
    let ranges: Vec<(usize, usize)> =
        selections.iter().map(|s| s.node().text_range()).collect();
    assert_eq!(ranges, vec![(2, 4), (4, 6), (6, 8)]);
    for (i, selection) in selections.iter().enumerate() {
        assert_eq!(selection.node().index_in_parent(), Some(i + 2));
        assert!(selection.node().parent().unwrap().same_place(&set));
    }
}

#[test]
fn ranges_count_the_text_of_the_tree() {
    // nothing is left out: the ranges are ranges of the input
    let input = "# é\n{ a }";
    let tree = parse(input);
    let root = SyntaxNode::new_root(tree.root());
    let operation = root.children_of_kind(SyntaxKind::OPERATION_DEFINITION);
    let (start, end) = operation[0].text_range();
    assert_eq!(&input[start..end], "{ a }");
    // `ø` is left out: what stands behind it is two bytes further on in the input
    let input = "ø { a }";
    let tree = parse(input);
    let text = tree.root().text();
    assert_eq!(text, " { a }");
    let root = SyntaxNode::new_root(tree.root());
    assert_eq!(root.text_range(), (0, 6));
    let operation = root.children_of_kind(SyntaxKind::OPERATION_DEFINITION);
    let (start, end) = operation[0].text_range();
    assert_eq!((start, end), (1, 6));
    assert_eq!(&text[start..end], "{ a }");
    assert_eq!(&input[start + 2..end + 2], "{ a }");
}

#[test]
fn the_operations_accept_every_tag() {
    let input = "a , b c";
    let mut p = Parser::new(input);
    // a token under the kind of a node, in a document that admits no name
    p.eat(SyntaxKind::FIELD);
    // the trivia behind it is still in the stream
    assert_eq!(p.peek(), Some(TokenKind::Whitespace));
    p.bump_ignored();
    // a node under the kind of a token
    let guard = p.start_node(SyntaxKind::COLON);
    p.bump(SyntaxKind::WHITESPACE);
    guard.finish_node(&mut p);
    assert_eq!(p.peek_data(), Some("c".to_string()));
    let tree = p.parse();
    println!("{}", show(&tree));
    let root = tree.root();
    assert_eq!(root.child_count(), 5);
    match root.child(0) {
        GreenChild::Token(t) => {
            assert_eq!(t.kind(), SyntaxKind::FIELD);
            assert_eq!(t.text(), "a");
        }
        _ => panic!("not a token"),
    }
    match root.child(4) {
        GreenChild::Node(n) => {
            assert_eq!(n.kind(), SyntaxKind::COLON);
            assert_eq!(n.child_count(), 2);
            assert_eq!(n.text(), "b ");
        }
        _ => panic!("not a node"),
    }
    // nothing was dropped before the parser took over
    assert_eq!(tree.errors().len(), 1);
    assert_eq!(tree.errors()[0].data(), "c");
    assert_eq!(root.text(), "a , b ");
}

#[test]
fn eat_takes_one_token_and_leaves_the_rest() {
    let mut p = Parser::new("{ a");
    let guard = p.start_node(SyntaxKind::SELECTION_SET);
    p.eat(SyntaxKind::L_BRACE);
    assert_eq!(p.peek(), Some(TokenKind::Whitespace));
    assert_eq!(p.current().index(), 1);
    p.eat(SyntaxKind::WHITESPACE);
    assert_eq!(p.peek_data(), Some("a".to_string()));
    guard.finish_node(&mut p);
    let tree = p.parse();
    let set = node(tree.root(), SyntaxKind::SELECTION_SET);
    assert_eq!(set.child_count(), 2);
    assert_eq!(set.text(), "{ ");
    assert_eq!(tree.errors().len(), 1);
}
