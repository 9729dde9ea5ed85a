use apollo_parser::EnumValueBuilder;

#[test]
fn it_encodes_an_enum_value() {
    let enum_value = EnumValueBuilder::new("CAT_TREE").build();

    assert_eq!(enum_value.to_string(), "  CAT_TREE");
}

#[test]
fn it_encodes_an_enum_value_with_desciption() {
    let enum_value = EnumValueBuilder::new("CAT_TREE")
        .description("Top bunk of a cat tree.")
        .build();

    assert_eq!(
        enum_value.to_string(),
        r#"  "Top bunk of a cat tree."
  CAT_TREE"#
    );
}

#[test]
fn it_encodes_an_enum_value_with_deprecated() {
    let enum_value = EnumValueBuilder::new("CARDBOARD_BOX")
        .description("Box nap\nspot.")
        .deprecated("Box was recycled.")
        .build();

    assert_eq!(
        enum_value.to_string(),
        r#"  """
  Box nap
  spot.
  """
  CARDBOARD_BOX @deprecated(reason: "Box was recycled.")"#
    );
}

#[test]
fn it_encodes_an_enum_value_with_deprecated_block_string_value() {
    let enum_value = EnumValueBuilder::new("CARDBOARD_BOX")
        .description("Box nap\nspot.")
        .deprecated("Box was \"recycled\".")
        .build();

    assert_eq!(
        enum_value.to_string(),
        r#"  """
  Box nap
  spot.
  """
  CARDBOARD_BOX @deprecated(reason:
  """
  Box was "recycled".
  """
  )"#
    );
}
