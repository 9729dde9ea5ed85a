use apollo_parser::{EnumValueBuilder, StringValue, UnionDef};

fn top(s: &str) -> String {
    StringValue::Top { source: Some(s.to_string()) }.to_string()
}

#[test]
fn an_absent_string_prints_nothing() {
    assert_eq!(StringValue::Top { source: None }.to_string(), "");
    assert_eq!(StringValue::Field { source: None }.to_string(), "");
    assert_eq!(StringValue::Input { source: None }.to_string(), "");
    assert_eq!(StringValue::Reason { source: None }.to_string(), "");
}

#[test]
fn a_plain_string_is_quoted_at_each_position() {
    let source = Some("plain".to_string());
    assert_eq!(StringValue::Top { source: source.clone() }.to_string(), "\"plain\"\n");
    assert_eq!(StringValue::Field { source: source.clone() }.to_string(), "  \"plain\"\n");
    assert_eq!(StringValue::Input { source: source.clone() }.to_string(), "\"plain\" ");
    assert_eq!(StringValue::Reason { source }.to_string(), " \"plain\"");
}

#[test]
fn a_block_string_is_indented_at_each_position() {
    let source = Some("one\ntwo".to_string());
    assert_eq!(
        StringValue::Top { source: source.clone() }.to_string(),
        "\"\"\"\none\ntwo\n\"\"\"\n"
    );
    assert_eq!(
        StringValue::Field { source: source.clone() }.to_string(),
        "  \"\"\"\n  one\n  two\n  \"\"\"\n"
    );
    assert_eq!(
        StringValue::Input { source: source.clone() }.to_string(),
        "\"\"\"\none\ntwo\n\"\"\" "
    );
    assert_eq!(
        StringValue::Reason { source }.to_string(),
        "\n  \"\"\"\n  one\n  two\n  \"\"\"\n  "
    );
}

#[test]
fn a_quote_makes_a_block_string() {
    assert_eq!(top("say \"hi\""), "\"\"\"\nsay \"hi\"\n\"\"\"\n");
}

#[test]
fn a_control_character_makes_a_block_string() {
    assert_eq!(top("a\tb"), "\"\"\"\na\tb\n\"\"\"\n");
    assert_eq!(top("a\rb"), "\"\"\"\na\rb\n\"\"\"\n");
}

#[test]
fn eighty_characters_make_a_block_string() {
    let short = "x".repeat(79);
    let long = "x".repeat(80);
    assert_eq!(top(&short), format!("\"{}\"\n", short));
    assert_eq!(top(&long), format!("\"\"\"\n{}\n\"\"\"\n", long));
    // characters are counted, not bytes
    let wide = "é".repeat(79);
    assert_eq!(top(&wide), format!("\"{}\"\n", wide));
}

#[test]
fn a_backslash_is_escaped_between_quotes() {
    assert_eq!(top("a\\b"), "\"a\\\\b\"\n");
    assert_eq!(top("a\\b\nc"), "\"\"\"\na\\b\nc\n\"\"\"\n");
}

#[test]
fn an_empty_string_is_quoted() {
    assert_eq!(top(""), "\"\"\n");
}

#[test]
fn the_builder_keeps_the_last_description() {
    let value = EnumValueBuilder::new("A").description("one").description("two").build();
    assert_eq!(value.to_string(), "  \"two\"\n  A");
}

#[test]
fn a_deprecated_value_without_description() {
    let value = EnumValueBuilder::new("OLD").deprecated("gone").build();
    assert_eq!(value.to_string(), "  OLD @deprecated(reason: \"gone\")");
}

#[test]
fn a_union_without_description_and_members() {
    let def = UnionDef::new("Empty");
    assert_eq!(def.to_string(), "union Empty = \n");
    let mut def = UnionDef::new("One");
    def.member("A");
    assert_eq!(def.to_string(), "union One = A\n");
    def.member("B");
    def.member("C");
    assert_eq!(def.to_string(), "union One = A | B | C\n");
    def.description("two\nlines");
    assert_eq!(def.to_string(), "\"\"\"\ntwo\nlines\n\"\"\"\nunion One = A | B | C\n");
}

#[test]
fn printing_twice_gives_the_same() {
    let mut def = UnionDef::new("Pet");
    def.member("Cat");
    assert_eq!(def.to_string(), def.to_string());
    let copy = def.clone();
    assert_eq!(copy, def);
    assert_eq!(copy.to_string(), def.to_string());
}
