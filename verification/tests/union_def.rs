use apollo_parser::UnionDef;

#[test]
fn it_encodes_union_with_description() {
    let mut union_ = UnionDef::new("Pet");
    union_.description("A union of all animals in a household.");
    union_.member("Cat");
    union_.member("Dog");

    assert_eq!(
        union_.to_string(),
        r#""A union of all animals in a household."
union Pet = Cat | Dog
"#
    );
}
