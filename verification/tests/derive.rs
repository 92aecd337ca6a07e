use byten::{
    apply_step, build_codec_expr, build_codec_schema, build_pipeline, codec_expr, decimal_text,
    derive_decode, derive_decode_owned, derive_default_codec, derive_encode, derive_measure,
    derive_measure_fixed, enum_schema, interpret_derive_schema, interpret_fields, modifier_groups,
    repr_type, AttrError, AttrInput, CodecSchema, DataInput, DecodeContext, DeriveSchema,
    EncodeContext, FieldInput, FieldsInput, FieldsSchema, MeasureContext, NamedField, Operand,
    ReprInput, SchemaError, Step, VariantInput, VariantSchema,
};

fn s(text: &str) -> String {
    text.to_string()
}

fn ty(name: &str) -> Step {
    Step::Type(s(name))
}

fn modifier(name: &str, groups: Vec<Operand>) -> Step {
    Step::Modifier(s(name), groups)
}

#[test]
fn modifier_groups_of_each_modifier() {
    assert_eq!(modifier_groups(&s("bytes")), 1);
    assert_eq!(modifier_groups(&s("vec")), 1);
    assert_eq!(modifier_groups(&s("arr")), 0);
    assert_eq!(modifier_groups(&s("be")), 0);
    assert_eq!(modifier_groups(&s("nope")), 0);
}

#[test]
fn pipeline_endian_type() {
    let op = build_pipeline(Operand::Default, vec![ty("u16"), modifier("be", vec![])]).ok().unwrap();
    assert_eq!(codec_expr(&op), "::byten::EndianCodec::<u16>::new(::byten::Endianness::Big)");
    let op = build_pipeline(Operand::Type(s("u32")), vec![modifier("le", vec![])]).ok().unwrap();
    assert_eq!(codec_expr(&op), "::byten::EndianCodec::<u32>::new(::byten::Endianness::Little)");
}

#[test]
fn pipeline_wrapping_modifiers() {
    let length = build_pipeline(Operand::Default, vec![ty("u8")]).ok().unwrap();
    let steps = vec![modifier("bytes", vec![length]), modifier("utf8", vec![]), modifier("own", vec![])];
    let op = build_pipeline(Operand::Type(s("String")), steps).ok().unwrap();
    assert_eq!(
        codec_expr(&op),
        "::byten::OwnedCodec::new(::byten::UTF8Codec::new(::byten::BytesCodec::new(<u8 as ::byten::DefaultCodec>::default_codec())))"
    );
}

#[test]
fn pipeline_vec_arr_opt_and_rest() {
    let length = build_pipeline(Operand::Default, vec![ty("u16"), modifier("be", vec![])]).ok().unwrap();
    let op = apply_step(Operand::Type(s("Entry")), modifier("vec", vec![length])).ok().unwrap();
    assert_eq!(
        codec_expr(&op),
        "::byten::VecCodec::new(<Entry as ::byten::DefaultCodec>::default_codec(), ::byten::EndianCodec::<u16>::new(::byten::Endianness::Big))"
    );
    let length = build_pipeline(Operand::Default, vec![ty("u16"), modifier("be", vec![])]).ok().unwrap();
    let op = build_pipeline(Operand::Type(s("u8")), vec![modifier("vec", vec![length])]).ok().unwrap();
    assert_eq!(
        codec_expr(&op),
        "::byten::VecCodec::new(<u8 as ::byten::DefaultCodec>::default_codec(), ::byten::EndianCodec::<u16>::new(::byten::Endianness::Big))"
    );
    let op = build_pipeline(Operand::Type(s("u16")), vec![modifier("arr", vec![])]).ok().unwrap();
    assert_eq!(codec_expr(&op), "::byten::ArrayCodec::new(<u16 as ::byten::DefaultCodec>::default_codec())");
    let op = build_pipeline(Operand::Type(s("u16")), vec![modifier("uvarbe", vec![]), modifier("arr", vec![])])
        .ok()
        .unwrap();
    assert_eq!(codec_expr(&op), "::byten::ArrayCodec::new(::byten::UVarBECodec::<u16>::new())");
    let op = build_pipeline(Operand::Type(s("u32")), vec![modifier("be", vec![]), modifier("opt", vec![])]).ok().unwrap();
    assert_eq!(
        codec_expr(&op),
        "::byten::OptionCodec::new(::byten::EndianCodec::<u32>::new(::byten::Endianness::Big))"
    );
    let op = build_pipeline(Operand::Default, vec![Step::Rest, modifier("utf8", vec![])]).ok().unwrap();
    assert_eq!(codec_expr(&op), "::byten::UTF8Codec::new(::byten::RemainingCodec::new())");
    let op = build_pipeline(Operand::Type(s("u16")), vec![modifier("uvarbe", vec![])]).ok().unwrap();
    assert_eq!(codec_expr(&op), "::byten::UVarBECodec::<u16>::new()");
}

#[test]
fn pipeline_box_and_constant() {
    let op = build_pipeline(Operand::Type(s("Entry")), vec![Step::Boxed]).ok().unwrap();
    assert_eq!(codec_expr(&op), "::byten::BoxCodec::new(<Entry as ::byten::DefaultCodec>::default_codec())");
    let length = build_pipeline(Operand::Default, vec![ty("u16"), modifier("be", vec![])]).ok().unwrap();
    let op = build_pipeline(Operand::Type(s("Entry")), vec![Step::Boxed, modifier("vec", vec![length])]).ok().unwrap();
    assert_eq!(
        codec_expr(&op),
        "::byten::VecCodec::new(::byten::BoxCodec::new(<Entry as ::byten::DefaultCodec>::default_codec()), ::byten::EndianCodec::<u16>::new(::byten::Endianness::Big))"
    );
    let op = build_pipeline(Operand::Type(s("u32")), vec![Step::Constant(s("42"))]).ok().unwrap();
    assert_eq!(codec_expr(&op), "::byten::PhantomCodec::new(42)");
}

#[test]
fn pipeline_braced_expression_replaces() {
    let op = build_pipeline(
        Operand::Type(s("u8")),
        vec![Step::Braced(s("SelfCoded :: < T > :: new ()"))],
    )
    .ok()
    .unwrap();
    assert_eq!(codec_expr(&op), "SelfCoded :: < T > :: new ()");
    assert_eq!(codec_expr(&Operand::Default), "::byten::DefaultCodec::default_codec()");
}

#[test]
fn pipeline_errors() {
    let r = build_pipeline(Operand::Default, vec![modifier("foo", vec![]), ty("u8")]);
    assert!(matches!(r, Err(AttrError::UnknownModifier(name)) if name == "foo"));
    let r = build_pipeline(Operand::Default, vec![modifier("be", vec![])]);
    assert!(matches!(r, Err(AttrError::NotAType)));
    let r = build_pipeline(Operand::Type(s("u8")), vec![modifier("own", vec![]), modifier("le", vec![])]);
    assert!(matches!(r, Err(AttrError::NotAType)));
    assert!(matches!(build_codec_expr(vec![modifier("bogus", vec![])]), Err(AttrError::UnknownModifier(_))));
}

#[test]
fn inline_codec_expression() {
    let length = build_pipeline(Operand::Default, vec![ty("u32"), modifier("be", vec![])]).ok().unwrap();
    let expr = build_codec_expr(vec![modifier("bytes", vec![length]), modifier("utf8", vec![])]).ok().unwrap();
    assert_eq!(
        expr,
        "::byten::UTF8Codec::new(::byten::BytesCodec::new(::byten::EndianCodec::<u32>::new(::byten::Endianness::Big)))"
    );
}

#[test]
fn codec_schema_from_attributes() {
    let attrs = vec![AttrInput::Other, AttrInput::List(vec![modifier("be", vec![])]), AttrInput::Other];
    let codec = build_codec_schema(Some(s("u32")), attrs).ok().unwrap();
    assert_eq!(codec.expr, "::byten::EndianCodec::<u32>::new(::byten::Endianness::Big)");
    let codec = build_codec_schema(Some(s("u8")), vec![]).ok().unwrap();
    assert_eq!(codec.expr, "<u8 as ::byten::DefaultCodec>::default_codec()");
    let codec = build_codec_schema(None, vec![]).ok().unwrap();
    assert_eq!(codec.expr, "::byten::DefaultCodec::default_codec()");
    let r = build_codec_schema(Some(s("u8")), vec![AttrInput::Invalid, AttrInput::List(vec![modifier("x", vec![])])]);
    assert!(matches!(r, Err(SchemaError::InvalidAttribute)));
    let r = build_codec_schema(Some(s("u8")), vec![AttrInput::List(vec![modifier("x", vec![])]), AttrInput::Invalid]);
    assert!(matches!(r, Err(SchemaError::Attr(AttrError::UnknownModifier(_)))));
}

#[test]
fn codec_schema_code() {
    let codec = CodecSchema { expr: s("C") };
    let dctx = DecodeContext { encoded: s("encoded"), offset: s("offset") };
    assert_eq!(codec.decode(&dctx), "::byten::Decoder::decode(&C, encoded, offset)?");
    let ectx = EncodeContext { wrapper: s(""), decoded: s("v"), encoded: s("encoded"), offset: s("offset") };
    assert_eq!(codec.encode(&ectx), "::byten::Encoder::encode(&C, v, encoded, offset)?");
    let mctx = MeasureContext { wrapper: s(""), decoded: s("v") };
    assert_eq!(codec.measure(&mctx), "::byten::Measurer::measure(&C, v)?");
    assert_eq!(codec.measure_fixed(), "::byten::FixedMeasurer::measure_fixed(&C)");
}

#[test]
fn decimal_text_values() {
    assert_eq!(decimal_text(0), "0");
    assert_eq!(decimal_text(7), "7");
    assert_eq!(decimal_text(10), "10");
    assert_eq!(decimal_text(1234), "1234");
    assert_eq!(decimal_text(usize::MAX), usize::MAX.to_string());
}

fn person() -> DeriveSchema {
    DeriveSchema::Struct {
        ident: s("Person"),
        fields: FieldsSchema::Named(vec![
            NamedField { ident: s("id"), codec: CodecSchema { expr: s("A") } },
            NamedField { ident: s("age"), codec: CodecSchema { expr: s("B") } },
        ]),
    }
}

#[test]
fn named_struct_code() {
    let schema = person();
    let dctx = DecodeContext { encoded: s("encoded"), offset: s("offset") };
    assert_eq!(
        schema.decode(&dctx),
        "Person { id: ::byten::Decoder::decode(&A, encoded, offset)?, age: ::byten::Decoder::decode(&B, encoded, offset)? }"
    );
    let ectx = EncodeContext { wrapper: s("Self"), decoded: s("self"), encoded: s("encoded"), offset: s("offset") };
    assert_eq!(
        schema.encode(&ectx),
        "let Self { id: variant_id, age: variant_age, } = self else { unreachable!() }; ::byten::Encoder::encode(&A, variant_id, encoded, offset)?; ::byten::Encoder::encode(&B, variant_age, encoded, offset)?; "
    );
    let mctx = MeasureContext { wrapper: s("Self"), decoded: s("self") };
    assert_eq!(
        schema.measure(&mctx),
        "{ let Self { id: variant_id, age: variant_age, } = self else { unreachable!() }; 0 + ::byten::Measurer::measure(&A, variant_id)? + ::byten::Measurer::measure(&B, variant_age)? }"
    );
    assert_eq!(
        schema.measure_fixed().ok().unwrap(),
        "0 + ::byten::FixedMeasurer::measure_fixed(&A) + ::byten::FixedMeasurer::measure_fixed(&B)"
    );
}

#[test]
fn unnamed_and_unit_fields_code() {
    let fields = FieldsSchema::Unnamed(vec![CodecSchema { expr: s("A") }, CodecSchema { expr: s("B") }]);
    let dctx = DecodeContext { encoded: s("e"), offset: s("o") };
    assert_eq!(
        fields.decode(&dctx),
        "( ::byten::Decoder::decode(&A, e, o)?, ::byten::Decoder::decode(&B, e, o)? )"
    );
    let ectx = EncodeContext { wrapper: s("Pair"), decoded: s("x"), encoded: s("e"), offset: s("o") };
    assert_eq!(
        fields.encode(&ectx),
        "let Pair ( variant_0, variant_1 ) = x else { unreachable!() }; ::byten::Encoder::encode(&A, variant_0, e, o)?; ::byten::Encoder::encode(&B, variant_1, e, o)?; "
    );
    let mctx = MeasureContext { wrapper: s("Pair"), decoded: s("x") };
    assert_eq!(
        fields.measure(&mctx),
        "{ let Pair ( variant_0, variant_1 ) = x else { unreachable!() }; 0 + ::byten::Measurer::measure(&A, variant_0)? + ::byten::Measurer::measure(&B, variant_1)? }"
    );
    assert_eq!(fields.wildcard_pattern(), "( .. )");
    let unit = FieldsSchema::Unit;
    assert_eq!(unit.decode(&dctx), "");
    assert_eq!(unit.encode(&ectx), "");
    assert_eq!(unit.measure(&mctx), "0");
    assert_eq!(unit.measure_fixed(), "0");
    assert_eq!(unit.wildcard_pattern(), "");
}

fn color() -> DeriveSchema {
    DeriveSchema::Enum {
        ident: s("Color"),
        discriminator: CodecSchema { expr: s("D") },
        variants: vec![
            VariantSchema { ident: s("Red"), fields: FieldsSchema::Unit, discriminant: s("1") },
            VariantSchema {
                ident: s("Gray"),
                fields: FieldsSchema::Unnamed(vec![CodecSchema { expr: s("G") }]),
                discriminant: s("4"),
            },
        ],
    }
}

#[test]
fn enum_code() {
    let schema = color();
    let dctx = DecodeContext { encoded: s("encoded"), offset: s("offset") };
    assert_eq!(
        schema.decode(&dctx),
        "{ let discriminant = ::byten::Decoder::decode(&D, encoded, offset)?; match discriminant { 1 => { Ok(Color::Red ) }, 4 => { Ok(Color::Gray ( ::byten::Decoder::decode(&G, encoded, offset)? )) }, _ => Err(::byten::DecodeError::InvalidDiscriminant), }? }"
    );
    let ectx = EncodeContext { wrapper: s("Self"), decoded: s("self"), encoded: s("encoded"), offset: s("offset") };
    assert_eq!(
        schema.encode(&ectx),
        "match self { variant @ Color::Red  => { ::byten::Encoder::encode(&D, (&1), encoded, offset)?;  }, variant @ Color::Gray ( .. ) => { ::byten::Encoder::encode(&D, (&4), encoded, offset)?; let Color::Gray ( variant_0 ) = variant else { unreachable!() }; ::byten::Encoder::encode(&G, variant_0, encoded, offset)?;  } }"
    );
    let mctx = MeasureContext { wrapper: s("Self"), decoded: s("self") };
    assert_eq!(
        schema.measure(&mctx),
        "match self { variant @ Color::Red  => { ::byten::Measurer::measure(&D, (&1))? + 0 }, variant @ Color::Gray ( .. ) => { ::byten::Measurer::measure(&D, (&4))? + { let Color::Gray ( variant_0 ) = variant else { unreachable!() }; 0 + ::byten::Measurer::measure(&G, variant_0)? } } }"
    );
    assert!(matches!(schema.measure_fixed(), Err(SchemaError::FixedEnum)));
}

fn field(ident: Option<&str>, typ: &str, attrs: Vec<AttrInput>) -> FieldInput {
    FieldInput { ident: ident.map(s), typ: s(typ), attrs }
}

#[test]
fn enum_interpretation_errors() {
    assert!(matches!(repr_type(vec![]), Err(SchemaError::MissingRepr)));
    assert!(matches!(repr_type(vec![ReprInput::Invalid, ReprInput::Type(s("u8"))]), Err(SchemaError::InvalidRepr)));
    assert!(matches!(repr_type(vec![ReprInput::Malformed(s("expected type"))]), Err(SchemaError::Syntax(m)) if m == "expected type"));
    assert_eq!(repr_type(vec![ReprInput::Type(s("u16")), ReprInput::Invalid]).ok().unwrap(), "u16");

    let red = || VariantInput { ident: s("Red"), fields: FieldsInput::Unit, discriminant: Some(s("1")) };
    let r = enum_schema(s("Color"), vec![], vec![], vec![red()]);
    assert!(matches!(r, Err(SchemaError::MissingRepr)));
    let no_disc = VariantInput { ident: s("Blue"), fields: FieldsInput::Unit, discriminant: None };
    let r = enum_schema(s("Color"), vec![ReprInput::Type(s("u8"))], vec![], vec![red(), no_disc]);
    assert!(matches!(r, Err(SchemaError::MissingDiscriminant)));
    let bad_field = VariantInput {
        ident: s("Gray"),
        fields: FieldsInput::Unnamed(vec![field(None, "u16", vec![AttrInput::List(vec![modifier("nope", vec![])])])]),
        discriminant: Some(s("4")),
    };
    let no_disc = VariantInput { ident: s("Blue"), fields: FieldsInput::Unit, discriminant: None };
    let r = enum_schema(s("Color"), vec![ReprInput::Type(s("u8"))], vec![], vec![bad_field, no_disc]);
    assert!(matches!(r, Err(SchemaError::Attr(AttrError::UnknownModifier(n))) if n == "nope"));
    let r = enum_schema(s("Color"), vec![ReprInput::Type(s("u8"))], vec![AttrInput::Invalid], vec![red()]);
    assert!(matches!(r, Err(SchemaError::InvalidAttribute)));
}

#[test]
fn enum_interpretation() {
    let gray = VariantInput {
        ident: s("Gray"),
        fields: FieldsInput::Unnamed(vec![field(None, "u16", vec![AttrInput::List(vec![modifier("be", vec![])])])]),
        discriminant: Some(s("4")),
    };
    let red = VariantInput { ident: s("Red"), fields: FieldsInput::Unit, discriminant: Some(s("1")) };
    let schema = enum_schema(
        s("Color"),
        vec![ReprInput::Type(s("u16"))],
        vec![AttrInput::Other, AttrInput::List(vec![modifier("le", vec![])])],
        vec![red, gray],
    )
    .ok()
    .unwrap();
    let DeriveSchema::Enum { ident, discriminator, variants } = schema else { panic!("not an enum") };
    assert_eq!(ident, "Color");
    assert_eq!(discriminator.expr, "::byten::EndianCodec::<u16>::new(::byten::Endianness::Little)");
    assert_eq!(variants.len(), 2);
    assert_eq!(variants[0].ident, "Red");
    assert_eq!(variants[0].discriminant, "1");
    assert!(matches!(variants[0].fields, FieldsSchema::Unit));
    assert_eq!(variants[1].discriminant, "4");
    let FieldsSchema::Unnamed(cs) = &variants[1].fields else { panic!("not unnamed") };
    assert_eq!(cs[0].expr, "::byten::EndianCodec::<u16>::new(::byten::Endianness::Big)");
}

#[test]
fn struct_interpretation() {
    let fields = FieldsInput::Named(vec![
        field(Some("id"), "u32", vec![AttrInput::List(vec![modifier("be", vec![])])]),
        field(Some("age"), "u8", vec![]),
    ]);
    let schema = interpret_derive_schema(s("Person"), vec![], vec![], DataInput::Struct(fields)).ok().unwrap();
    let DeriveSchema::Struct { ident, fields } = schema else { panic!("not a struct") };
    assert_eq!(ident, "Person");
    let FieldsSchema::Named(fs) = fields else { panic!("not named") };
    assert_eq!(fs[0].ident, "id");
    assert_eq!(fs[0].codec.expr, "::byten::EndianCodec::<u32>::new(::byten::Endianness::Big)");
    assert_eq!(fs[1].codec.expr, "<u8 as ::byten::DefaultCodec>::default_codec()");
    assert!(matches!(
        interpret_derive_schema(s("U"), vec![], vec![], DataInput::Union),
        Err(SchemaError::Unsupported)
    ));
    assert!(matches!(
        interpret_fields(FieldsInput::Named(vec![field(None, "u8", vec![])])),
        Err(SchemaError::MissingFieldName)
    ));
    assert!(matches!(
        interpret_fields(FieldsInput::Unnamed(vec![field(Some("x"), "u8", vec![])])),
        Err(SchemaError::UnexpectedFieldName)
    ));
}

#[test]
fn error_messages() {
    assert_eq!(AttrError::UnknownModifier(s("foo")).message(), "Unknown codec modifier: foo");
    assert_eq!(AttrError::NotAType.message(), "Operand does not support type extraction");
    assert_eq!(SchemaError::Attr(AttrError::NotAType).message(), "Operand does not support type extraction");
    assert_eq!(SchemaError::InvalidAttribute.message(), "Invalid byten attribute format");
    assert_eq!(SchemaError::FixedEnum.message(), "Fixed measure is not yet supported for enums");
    assert_eq!(SchemaError::Unsupported.message(), "Only structs and enums are supported");
    assert_eq!(SchemaError::MissingRepr.message(), "Enum must have a repr attribute");
    assert_eq!(SchemaError::InvalidRepr.message(), "Invalid repr attribute format");
    assert_eq!(SchemaError::MissingDiscriminant.message(), "Enum variants must have discriminants");
    assert_eq!(SchemaError::Syntax(s("bad")).message(), "bad");
    assert_eq!(SchemaError::MissingFieldName.message(), "Named field must have an identifier");
    assert_eq!(SchemaError::UnexpectedFieldName.message(), "Unnamed field must not have an identifier");
}

#[test]
fn derived_impls() {
    let schema = person();
    let ident = s("Person");
    let generics = s("");
    assert_eq!(
        derive_default_codec(&ident, &generics),
        "impl  ::byten::DefaultCodec for Person  { type Codec = ::byten::SelfCoded<Self>; fn spec_default_codec() -> ::byten::SelfCoded<Self> { ::byten::SelfCoded::<Self>::new() } fn default_codec() -> ::byten::SelfCoded<Self> { ::byten::SelfCoded::<Self>::new() } } impl  ::byten::Model for Person  { type M = Self; fn model(&self) -> Self { unreachable!() } } impl  ::byten::SelfSpec for Person  { type Codec = ::byten::SelfCoded<Self>; fn spec_codec() -> ::byten::SelfCoded<Self> { ::byten::SelfCoded::<Self>::new() } }"
    );
    assert!(derive_decode_owned(&ident, &generics, &schema).starts_with(
        "impl  ::byten::Decode<'_> for Person  { fn decode(encoded: &'_ [u8], offset: &mut usize) -> Result<Self, ::byten::DecodeError> { Ok(Person { id: "
    ));
    assert!(derive_decode(&ident, &generics, &schema).ends_with(
        "age: ::byten::Decoder::decode(&B, encoded, offset)? }) } }"
    ));
    assert!(derive_encode(&ident, &generics, &schema).ends_with("variant_age, encoded, offset)?;  Ok(()) } }"));
    assert!(derive_measure(&ident, &generics, &schema).starts_with(
        "impl  ::byten::Measure for Person  { fn measure(&self) -> Result<usize, ::byten::EncodeError> { Ok({ let Self { id: variant_id"
    ));
    assert_eq!(
        derive_measure_fixed(&ident, &generics, &schema).ok().unwrap(),
        "impl  ::byten::MeasureFixed for Person  { fn spec_fixed_size() -> usize { Self::measure_fixed() } fn measure_fixed() -> usize { 0 + ::byten::FixedMeasurer::measure_fixed(&A) + ::byten::FixedMeasurer::measure_fixed(&B) } fn lemma_fixed_size(_v: <Self as ::byten::Model>::M) {} } impl  ::byten::Measure for Person  { fn measure(&self) -> Result<usize, ::byten::EncodeError> { Ok(Self::measure_fixed()) } }"
    );
    assert!(matches!(derive_measure_fixed(&s("Color"), &generics, &color()), Err(SchemaError::FixedEnum)));
}

#[test]
fn law_pipeline_concat_on_steps() {
    let whole = build_pipeline(Operand::Type(s("u32")), vec![modifier("le", vec![]), modifier("opt", vec![])])
        .ok()
        .unwrap();
    let first = build_pipeline(Operand::Type(s("u32")), vec![modifier("le", vec![])]).ok().unwrap();
    let parts = build_pipeline(first, vec![modifier("opt", vec![])]).ok().unwrap();
    assert_eq!(codec_expr(&whole), codec_expr(&parts));
}

#[test]
fn law_attributes_chain_on_fields() {
    let split = build_codec_schema(
        Some(s("u16")),
        vec![
            AttrInput::List(vec![modifier("be", vec![])]),
            AttrInput::Other,
            AttrInput::List(vec![modifier("opt", vec![])]),
        ],
    )
    .ok()
    .unwrap();
    let joined = build_codec_schema(
        Some(s("u16")),
        vec![AttrInput::List(vec![modifier("be", vec![]), modifier("opt", vec![])])],
    )
    .ok()
    .unwrap();
    assert_eq!(split.expr, joined.expr);
    assert_eq!(split.expr, "::byten::OptionCodec::new(::byten::EndianCodec::<u16>::new(::byten::Endianness::Big))");
}
