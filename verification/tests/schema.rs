use snapshot::descriptors::{compute_version, EnumDescriptor, StructDescriptor, VariantDeclaration};
use snapshot::fields::{
    exists_at, get_end_version, get_start_version, Discriminant, EnumVariant, FieldAttributes,
    FieldDeserializer, FieldSerializer, FieldType, SchemaError, StructField, VariantSerializer,
};

fn attrs(start: Option<u16>, end: Option<u16>) -> FieldAttributes {
    FieldAttributes { start, end, ..FieldAttributes::none() }
}

fn field(name: &str, ty: FieldType, start: Option<u16>, end: Option<u16>) -> StructField {
    StructField::new(1, name.to_string(), ty, attrs(start, end))
}

#[test]
fn a_member_exists_from_its_start_to_before_its_end() {
    // Open-ended from version 2.
    assert!(!exists_at(2, 0, 1));
    assert!(exists_at(2, 0, 2));
    assert!(exists_at(2, 0, 3));
    assert!(exists_at(2, 0, u16::MAX));
    // From version 1 to before version 3.
    assert!(!exists_at(1, 3, 0));
    assert!(exists_at(1, 3, 1));
    assert!(exists_at(1, 3, 2));
    assert!(!exists_at(1, 3, 3));
    assert!(!exists_at(1, 3, 4));
}

#[test]
fn a_field_takes_its_range_from_its_declaration_or_from_the_base_version() {
    let plain = StructField::new(3, "a".to_string(), FieldType::Path, FieldAttributes::none());
    assert_eq!((plain.start_version(), plain.end_version()), (3, 0));
    assert_eq!(plain.ty(), FieldType::Path);
    assert_eq!(plain.name, "a");
    let ranged = StructField::new(3, "b".to_string(), FieldType::Reference, attrs(Some(2), Some(5)));
    assert_eq!((ranged.start_version(), ranged.end_version()), (2, 5));
    assert!(ranged.exists_at(4));
    assert!(!ranged.exists_at(5));
    assert_eq!(get_start_version(&attrs(None, None), 7), 7);
    assert_eq!(get_start_version(&attrs(Some(2), None), 7), 2);
    assert_eq!(get_end_version(&attrs(None, None)), 0);
    assert_eq!(get_end_version(&attrs(None, Some(4))), 4);
}

#[test]
fn a_field_is_written_only_where_it_exists() {
    let late = field("y", FieldType::Path, Some(2), None);
    assert_eq!(late.generate_serializer(1), Ok(FieldSerializer::Omitted));
    assert_eq!(late.generate_serializer(2), Ok(FieldSerializer::Direct));
    assert_eq!(late.generate_serializer(3), Ok(FieldSerializer::Direct));

    let array = field("a", FieldType::Array { element_is_path: false, len: None }, None, Some(3));
    assert_eq!(array.generate_serializer(2), Ok(FieldSerializer::AsSequence));
    assert_eq!(array.generate_serializer(3), Ok(FieldSerializer::Omitted));

    let reference = field("r", FieldType::Reference, None, None);
    assert_eq!(reference.generate_serializer(1), Ok(FieldSerializer::Direct));

    let other = field("o", FieldType::Other, Some(2), None);
    assert_eq!(other.generate_serializer(1), Ok(FieldSerializer::Omitted));
    assert_eq!(other.generate_serializer(2), Err(SchemaError::UnsupportedFieldType));
}

#[test]
fn a_field_that_did_not_exist_gets_a_default() {
    let mut with_fn = field("y", FieldType::Path, Some(2), None);
    with_fn.attrs.default_fn = Some("default_y".to_string());
    assert_eq!(with_fn.generate_deserializer(1), Ok(FieldDeserializer::DefaultFn));
    assert_eq!(with_fn.generate_deserializer(2), Ok(FieldDeserializer::Resolved));

    let without = field("y", FieldType::Other, Some(2), None);
    assert_eq!(without.generate_deserializer(1), Ok(FieldDeserializer::DefaultValue));
    assert_eq!(without.generate_deserializer(2), Err(SchemaError::UnsupportedFieldType));
}

#[test]
fn a_field_is_read_according_to_its_type() {
    let array = |element_is_path, len| field("a", FieldType::Array { element_is_path, len }, None, None);
    assert_eq!(
        array(true, Some(4)).generate_deserializer(1),
        Ok(FieldDeserializer::FromSequence { len: 4 })
    );
    assert_eq!(
        array(false, Some(4)).generate_deserializer(1),
        Err(SchemaError::UnsupportedArrayType)
    );
    assert_eq!(array(true, None).generate_deserializer(1), Err(SchemaError::UnsupportedArrayLen));
    assert_eq!(
        field("p", FieldType::Path, None, None).generate_deserializer(9),
        Ok(FieldDeserializer::Resolved)
    );
    assert_eq!(
        field("r", FieldType::Reference, None, None).generate_deserializer(9),
        Ok(FieldDeserializer::Direct)
    );
}

#[test]
fn semantic_functions_are_called_for_fields_that_do_not_exist() {
    let mut gone = field("bonus", FieldType::Path, None, Some(2));
    gone.attrs.semantic_ser_fn = Some("fold".to_string());
    gone.attrs.semantic_de_fn = Some("unfold".to_string());
    assert_eq!(gone.generate_semantic_serializer(1), None);
    assert_eq!(gone.generate_semantic_serializer(2), Some(&"fold".to_string()));
    assert_eq!(gone.generate_semantic_deserializer(1), None);
    assert_eq!(gone.generate_semantic_deserializer(3), Some(&"unfold".to_string()));

    let plain = field("count", FieldType::Path, Some(2), None);
    assert_eq!(plain.generate_semantic_serializer(1), None);
    assert_eq!(plain.generate_semantic_deserializer(1), None);
}

#[test]
fn a_variant_needs_a_tag_of_16_bits() {
    let new = |discriminant| EnumVariant::new(1, "V".to_string(), discriminant, attrs(None, None));
    assert_eq!(new(Discriminant::Missing), Err(SchemaError::DiscriminantRequired));
    assert_eq!(new(Discriminant::Expression), Err(SchemaError::DiscriminantRequired));
    assert_eq!(
        new(Discriminant::Literal(65536)),
        Err(SchemaError::DiscriminantOutOfRange(65536))
    );
    let variant = new(Discriminant::Literal(65535)).unwrap();
    assert_eq!(variant.discriminant, 65535);
    assert_eq!(variant.ident, "V");
    assert_eq!((variant.start_version(), variant.end_version()), (1, 0));
    let ranged =
        EnumVariant::new(4, "W".to_string(), Discriminant::Literal(0), attrs(None, Some(6))).unwrap();
    assert_eq!((ranged.start_version(), ranged.end_version()), (4, 6));
    assert!(ranged.exists_at(5) && !ranged.exists_at(6) && !ranged.exists_at(3));
}

#[test]
fn a_variant_that_does_not_exist_needs_a_stand_in() {
    let mut variant =
        EnumVariant::new(1, "V".to_string(), Discriminant::Literal(1), attrs(Some(2), Some(4)))
            .unwrap();
    assert_eq!(variant.generate_serializer(1), Err(SchemaError::MissingDefault(1)));
    assert_eq!(variant.generate_serializer(2), Ok(VariantSerializer::Direct));
    assert_eq!(variant.generate_serializer(3), Ok(VariantSerializer::Direct));
    assert_eq!(variant.generate_serializer(4), Err(SchemaError::MissingDefault(4)));
    variant.attrs.default_fn = Some("stand_in".to_string());
    assert_eq!(variant.generate_serializer(1), Ok(VariantSerializer::Substitute));
    assert_eq!(variant.generate_serializer(2), Ok(VariantSerializer::Direct));
    assert_eq!(variant.generate_serializer(4), Ok(VariantSerializer::Substitute));
}

fn declaration(
    ident: &str,
    tag: u64,
    start: Option<u16>,
    end: Option<u16>,
    default_fn: Option<&str>,
) -> VariantDeclaration {
    VariantDeclaration {
        ident: ident.to_string(),
        discriminant: Discriminant::Literal(tag),
        attrs: FieldAttributes {
            default_fn: default_fn.map(|s| s.to_string()),
            ..attrs(start, end)
        },
    }
}

#[test]
fn a_variant_type_has_the_highest_boundary_as_its_version() {
    let descriptor = EnumDescriptor::new(
        vec![
            declaration("A", 0, None, None, None),
            declaration("B", 1, Some(2), None, Some("as_a")),
            declaration("C", 2, None, Some(3), Some("as_a")),
        ],
        "Kind".to_string(),
    )
    .unwrap();
    assert_eq!(descriptor.version(), 3);
    assert_eq!(descriptor.ty(), "Kind");
    assert_eq!(descriptor.fields.len(), 3);
    assert_eq!(descriptor.fields[1].ident, "B");
    assert_eq!(descriptor.fields[2].discriminant, 2);
    assert_eq!(descriptor.generate_deserializer(), FieldDeserializer::Direct);

    let direct = VariantSerializer::Direct;
    let substitute = VariantSerializer::Substitute;
    assert_eq!(
        descriptor.generate_serializer(),
        Ok(vec![
            vec![direct, substitute, direct],
            vec![direct, direct, direct],
            vec![direct, direct, substitute],
        ])
    );
}

#[test]
fn a_variant_type_without_a_stand_in_is_turned_down() {
    let descriptor = EnumDescriptor::new(
        vec![
            declaration("A", 0, None, None, None),
            declaration("B", 1, None, Some(3), None),
            declaration("C", 2, Some(2), None, None),
        ],
        "Kind".to_string(),
    )
    .unwrap();
    // At version 1 the variant `C` does not exist yet and has no stand-in.
    assert_eq!(descriptor.generate_serializer(), Err(SchemaError::MissingDefault(1)));

    let descriptor = EnumDescriptor::new(
        vec![declaration("A", 0, None, None, None), declaration("B", 1, None, Some(3), None)],
        "Kind".to_string(),
    )
    .unwrap();
    assert_eq!(descriptor.generate_serializer(), Err(SchemaError::MissingDefault(3)));
}

#[test]
fn the_first_variant_without_a_tag_has_the_type_turned_down() {
    let mut second = declaration("B", 1, None, None, None);
    second.discriminant = Discriminant::Missing;
    let third = declaration("C", 70000, None, None, None);
    assert_eq!(
        EnumDescriptor::new(
            vec![declaration("A", 0, None, None, None), second.clone(), third.clone()],
            "Kind".to_string()
        ),
        Err(SchemaError::DiscriminantRequired)
    );
    assert_eq!(
        EnumDescriptor::new(vec![third, second], "Kind".to_string()),
        Err(SchemaError::DiscriminantOutOfRange(70000))
    );
    let empty = EnumDescriptor::new(vec![], "Kind".to_string()).unwrap();
    assert_eq!(empty.version(), 1);
    assert_eq!(empty.generate_serializer(), Ok(vec![vec![]]));
}

#[test]
fn the_version_of_a_type_is_its_highest_boundary() {
    assert_eq!(compute_version::<StructField>(&vec![]), 1);
    assert_eq!(compute_version(&vec![field("a", FieldType::Path, None, None)]), 1);
    assert_eq!(
        compute_version(&vec![
            field("a", FieldType::Path, None, None),
            field("b", FieldType::Path, Some(3), None),
            field("c", FieldType::Path, Some(2), Some(5)),
            field("d", FieldType::Path, None, Some(4)),
        ]),
        5
    );
}

#[test]
fn an_aggregate_with_a_faulty_field_is_turned_down() {
    let good = || field("a", FieldType::Path, None, None);
    let new = |fields| StructDescriptor::new(fields, "T".to_string());
    let descriptor = new(vec![good(), field("b", FieldType::Reference, Some(2), Some(4))]).unwrap();
    assert_eq!(descriptor.version(), 4);
    assert_eq!(descriptor.ty(), "T");
    assert_eq!(descriptor.fields.len(), 2);

    assert_eq!(
        new(vec![good(), field("b", FieldType::Path, Some(0), None)]),
        Err(SchemaError::InvalidRange)
    );
    assert_eq!(
        new(vec![good(), field("b", FieldType::Path, Some(3), Some(3))]),
        Err(SchemaError::InvalidRange)
    );
    assert_eq!(
        new(vec![good(), field("b", FieldType::Path, Some(3), Some(2))]),
        Err(SchemaError::InvalidRange)
    );
    assert_eq!(
        new(vec![field("b", FieldType::Other, None, None), good()]),
        Err(SchemaError::UnsupportedFieldType)
    );
    assert_eq!(
        new(vec![field("b", FieldType::Array { element_is_path: false, len: Some(1) }, None, None)]),
        Err(SchemaError::UnsupportedArrayType)
    );
    // The first fault counts.
    assert_eq!(
        new(vec![
            field("b", FieldType::Array { element_is_path: true, len: None }, None, None),
            field("c", FieldType::Other, None, None),
        ]),
        Err(SchemaError::UnsupportedArrayLen)
    );
    assert_eq!(new(vec![]).unwrap().version(), 1);
}
