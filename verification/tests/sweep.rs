use apollo_parser::laws::{walk_of, WalkEvent};
use apollo_parser::lexer::Lexer;
use apollo_parser::syntax::{SyntaxElement, SyntaxNode};
use apollo_parser::tree::{GreenChild, GreenNode};
use apollo_parser::{Parser, SyntaxKind, TokenKind};

const PIECES: [&str; 24] = [
    "{", "}", "(", ")", "[", "]", ":", "!", "$", "@", "=", "|", "...", " ", ",", "# c\n", "a", "on",
    "type", "extend", "1", "\"s\"", "\"", "ø",
];

fn leaves(n: &GreenNode, out: &mut Vec<(SyntaxKind, String)>) {
    for i in 0..n.child_count() {
        match n.child(i) {
            GreenChild::Node(c) => leaves(c, out),
            GreenChild::Token(t) => out.push((t.kind(), t.text().to_string())),
        }
    }
}

fn is_trivia(kind: SyntaxKind) -> bool {
    matches!(kind, SyntaxKind::WHITESPACE | SyntaxKind::COMMENT | SyntaxKind::COMMA)
}

fn check_ranges(node: &SyntaxNode, text: &str) {
    let (start, end) = node.text_range();
    assert_eq!(&text[start..end], node.text());
    let mut at = start;
    for child in node.children() {
        let (from, to) = child.text_range();
        assert_eq!(from, at);
        at = to;
        if let SyntaxElement::Node(inner) = &child {
            assert!(inner.parent().unwrap().same_place(node));
            check_ranges(inner, text);
        }
    }
    assert_eq!(at, end);
}

fn check(input: &str) {
    let lexer = Lexer::new(input);
    let tree = Parser::new(input).parse();
    let root = tree.root();
    assert_eq!(root.kind(), SyntaxKind::DOCUMENT, "{:?}", input);

    // the errors stand in source order and point into the input
    let mut last = 0;
    for e in tree.errors() {
        assert!(e.index() >= last, "{:?}", input);
        assert!(e.index() <= input.len(), "{:?}", input);
        last = e.index();
    }
    assert!(tree.errors().len() >= lexer.errors().len(), "{:?}", input);

    // the tokens of the tree are tokens of the input, in their order
    let mut kept = Vec::new();
    leaves(root, &mut kept);
    let tokens = lexer.tokens();
    let mut next = 0;
    for (_, text) in &kept {
        while next < tokens.len() && tokens[next].data() != text {
            next += 1;
        }
        assert!(next < tokens.len(), "{:?}", input);
        next += 1;
    }

    // the text of the tree is the input exactly if nothing was left out
    let whole = lexer.errors().is_empty() && kept.len() == tokens.len() - 1;
    assert_eq!(root.text() == input, whole, "{:?}", input);
    if tree.errors().is_empty() {
        assert_eq!(root.text(), input);
    }

    // all trivia is in the tree, as trivia
    let trivia_in_tree: Vec<String> =
        kept.iter().filter(|(k, _)| is_trivia(*k)).map(|(_, t)| t.clone()).collect();
    let trivia_in_input: Vec<String> = tokens
        .iter()
        .filter(|t| {
            matches!(t.kind(), TokenKind::Whitespace | TokenKind::Comment | TokenKind::Comma)
        })
        .map(|t| t.data().to_string())
        .collect();
    assert_eq!(trivia_in_tree, trivia_in_input, "{:?}", input);

    // every node that is entered is left
    let mut depth = 0i64;
    for event in walk_of(root) {
        match event {
            WalkEvent::Enter(_) => depth += 1,
            WalkEvent::Leave(_) => depth -= 1,
            WalkEvent::Token(_) => {}
        }
        assert!(depth >= 0);
    }
    assert_eq!(depth, 0, "{:?}", input);

    // the children of the document are definitions and trivia
    let definitions = tree.document().definitions();
    let nodes = (0..root.child_count())
        .filter(|i| matches!(root.child(*i), GreenChild::Node(_)))
        .count();
    assert_eq!(definitions.len(), nodes, "{:?}", input);
    for i in 0..root.child_count() {
        if let GreenChild::Token(t) = root.child(i) {
            assert!(is_trivia(t.kind()), "{:?}", input);
        }
    }

    // ranges lie one behind the other and cover the text
    let text = root.text();
    check_ranges(&SyntaxNode::new_root(root), &text);
}

#[test]
fn every_input_of_up_to_three_pieces() {
    check("");
    for a in PIECES {
        check(a);
        for b in PIECES {
            let two = format!("{}{}", a, b);
            check(&two);
            for c in PIECES {
                check(&format!("{}{}", two, c));
            }
        }
    }
}

#[test]
fn inputs_of_four_pieces_around_definitions() {
    let heads =
        ["type T ", "{ a ", "query Q(", "extend type T ", "\"d\" enum E ", "fragment F on T "];
    for head in heads {
        for a in PIECES {
            for b in PIECES {
                for c in PIECES {
                    check(&format!("{}{}{}{}", head, a, b, c));
                }
            }
        }
    }
}
