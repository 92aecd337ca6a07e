//! The impl blocks that the derive macros generate, as Rust source text,
//! around the code of [`crate::schema`].
use vstd::prelude::*;

use vstd::string::StringExecFns;

use crate::schema::{
    spec_schema_decode, spec_schema_encode, spec_schema_measure, spec_schema_measure_fixed,
    DecodeContext, DeriveSchema, EncodeContext, MeasureContext, SchemaError,
};

verus! {

/// `impl<generics> <trait> for <ident><generics>`.
pub open spec fn impl_header(generics: Seq<char>, trait_path: Seq<char>, ident: Seq<char>) -> Seq<
    char,
> {
    "impl "@ + generics + " "@ + trait_path + " for "@ + ident + " "@ + generics
}

/// The `DefaultCodec` impl: a type codes itself. With it come the `Model`
/// and `SelfSpec` impls that the self-coding traits build on: the type is
/// its own model, and its meaning is that of `SelfCoded<Self>`, which the
/// derived, unverified impls do not pin down further.
pub open spec fn spec_derive_default_codec(ident: Seq<char>, generics: Seq<char>) -> Seq<char> {
    impl_header(generics, "::byten::DefaultCodec"@, ident)
        + " { type Codec = ::byten::SelfCoded<Self>; fn spec_default_codec() -> ::byten::SelfCoded<Self> { ::byten::SelfCoded::<Self>::new() } fn default_codec() -> ::byten::SelfCoded<Self> { ::byten::SelfCoded::<Self>::new() } } "@
        + impl_header(generics, "::byten::Model"@, ident)
        + " { type M = Self; fn model(&self) -> Self { unreachable!() } } "@
        + impl_header(generics, "::byten::SelfSpec"@, ident)
        + " { type Codec = ::byten::SelfCoded<Self>; fn spec_codec() -> ::byten::SelfCoded<Self> { ::byten::SelfCoded::<Self>::new() } }"@
}

/// The `Decode` impl for input of any lifetime.
pub open spec fn spec_derive_decode_owned(
    ident: Seq<char>,
    generics: Seq<char>,
    schema: DeriveSchema,
) -> Seq<char> {
    impl_header(generics, "::byten::Decode<'_>"@, ident)
        + " { fn decode(encoded: &'_ [u8], offset: &mut usize) -> Result<Self, ::byten::DecodeError> { Ok("@
        + spec_schema_decode(schema, "encoded"@, "offset"@) + ") } }"@
}

/// The `Decode` impl for input of the lifetime `'encoded`.
pub open spec fn spec_derive_decode(ident: Seq<char>, generics: Seq<char>, schema: DeriveSchema) -> Seq<
    char,
> {
    impl_header(generics, "::byten::Decode<'encoded>"@, ident)
        + " { fn decode(encoded: &'encoded [u8], offset: &mut usize) -> Result<Self, ::byten::DecodeError> { Ok("@
        + spec_schema_decode(schema, "encoded"@, "offset"@) + ") } }"@
}

/// The `Encode` impl.
pub open spec fn spec_derive_encode(ident: Seq<char>, generics: Seq<char>, schema: DeriveSchema) -> Seq<
    char,
> {
    impl_header(generics, "::byten::Encode"@, ident)
        + " { fn encode(&self, encoded: &mut [u8], offset: &mut usize) -> Result<(), ::byten::EncodeError> { "@
        + spec_schema_encode(schema, "Self"@, "self"@, "encoded"@, "offset"@) + " Ok(()) } }"@
}

/// The `Measure` impl.
pub open spec fn spec_derive_measure(ident: Seq<char>, generics: Seq<char>, schema: DeriveSchema) -> Seq<
    char,
> {
    impl_header(generics, "::byten::Measure"@, ident)
        + " { fn measure(&self) -> Result<usize, ::byten::EncodeError> { Ok("@ + spec_schema_measure(
        schema,
        "Self"@,
        "self"@,
    ) + ") } }"@
}

/// The `MeasureFixed` impl and the `Measure` impl that answers with the
/// fixed size; an enum has no fixed size.
pub open spec fn spec_derive_measure_fixed(
    ident: Seq<char>,
    generics: Seq<char>,
    schema: DeriveSchema,
) -> Result<Seq<char>, SchemaError> {
    match spec_schema_measure_fixed(schema) {
        Ok(fixed) => Ok(
            impl_header(generics, "::byten::MeasureFixed"@, ident)
                + " { fn spec_fixed_size() -> usize { Self::measure_fixed() } fn measure_fixed() -> usize { "@
                + fixed + " } fn lemma_fixed_size(_v: <Self as ::byten::Model>::M) {} } "@ + impl_header(
                generics,
                "::byten::Measure"@,
                ident,
            )
                + " { fn measure(&self) -> Result<usize, ::byten::EncodeError> { Ok(Self::measure_fixed()) } }"@,
        ),
        Err(e) => Err(e),
    }
}

/// Appends `impl<generics> <trait> for <ident><generics>`.
fn append_impl_header(s: &mut String, generics: &String, trait_path: &str, ident: &String)
    ensures
        final(s)@ == old(s)@ + impl_header(generics@, trait_path@, ident@),
{
    s.append("impl ");
    s.append(generics.as_str());
    s.append(" ");
    s.append(trait_path);
    s.append(" for ");
    s.append(ident.as_str());
    s.append(" ");
    s.append(generics.as_str());
    proof {
        assert(final(s)@ =~= old(s)@ + impl_header(generics@, trait_path@, ident@));
    }
}

/// The decoding context of the generated `decode`.
fn decode_context() -> (r: DecodeContext)
    ensures
        r.encoded@ == "encoded"@,
        r.offset@ == "offset"@,
{
    DecodeContext { encoded: String::from_str("encoded"), offset: String::from_str("offset") }
}

/// The `DefaultCodec` impl of a type: it codes itself.
pub fn derive_default_codec(ident: &String, generics: &String) -> (r: String)
    ensures
        r@ == spec_derive_default_codec(ident@, generics@),
{
    let mut s = String::new();
    append_impl_header(&mut s, generics, "::byten::DefaultCodec", ident);
    s.append(
        " { type Codec = ::byten::SelfCoded<Self>; fn spec_default_codec() -> ::byten::SelfCoded<Self> { ::byten::SelfCoded::<Self>::new() } fn default_codec() -> ::byten::SelfCoded<Self> { ::byten::SelfCoded::<Self>::new() } } ",
    );
    append_impl_header(&mut s, generics, "::byten::Model", ident);
    s.append(" { type M = Self; fn model(&self) -> Self { unreachable!() } } ");
    append_impl_header(&mut s, generics, "::byten::SelfSpec", ident);
    s.append(
        " { type Codec = ::byten::SelfCoded<Self>; fn spec_codec() -> ::byten::SelfCoded<Self> { ::byten::SelfCoded::<Self>::new() } }",
    );
    s
}

/// The `Decode` impl of a type, for input of any lifetime.
pub fn derive_decode_owned(ident: &String, generics: &String, schema: &DeriveSchema) -> (r: String)
    ensures
        r@ == spec_derive_decode_owned(ident@, generics@, *schema),
{
    let mut s = String::new();
    append_impl_header(&mut s, generics, "::byten::Decode<'_>", ident);
    s.append(
        " { fn decode(encoded: &'_ [u8], offset: &mut usize) -> Result<Self, ::byten::DecodeError> { Ok(",
    );
    let decoded = schema.decode(&decode_context());
    s.append(decoded.as_str());
    s.append(") } }");
    s
}

/// The `Decode` impl of a type, for input of the lifetime `'encoded`.
pub fn derive_decode(ident: &String, generics: &String, schema: &DeriveSchema) -> (r: String)
    ensures
        r@ == spec_derive_decode(ident@, generics@, *schema),
{
    let mut s = String::new();
    append_impl_header(&mut s, generics, "::byten::Decode<'encoded>", ident);
    s.append(
        " { fn decode(encoded: &'encoded [u8], offset: &mut usize) -> Result<Self, ::byten::DecodeError> { Ok(",
    );
    let decoded = schema.decode(&decode_context());
    s.append(decoded.as_str());
    s.append(") } }");
    s
}

/// The `Encode` impl of a type.
pub fn derive_encode(ident: &String, generics: &String, schema: &DeriveSchema) -> (r: String)
    ensures
        r@ == spec_derive_encode(ident@, generics@, *schema),
{
    let mut s = String::new();
    append_impl_header(&mut s, generics, "::byten::Encode", ident);
    s.append(
        " { fn encode(&self, encoded: &mut [u8], offset: &mut usize) -> Result<(), ::byten::EncodeError> { ",
    );
    let ctx = EncodeContext {
        wrapper: String::from_str("Self"),
        decoded: String::from_str("self"),
        encoded: String::from_str("encoded"),
        offset: String::from_str("offset"),
    };
    let encoded = schema.encode(&ctx);
    s.append(encoded.as_str());
    s.append(" Ok(()) } }");
    s
}

/// The `Measure` impl of a type.
pub fn derive_measure(ident: &String, generics: &String, schema: &DeriveSchema) -> (r: String)
    ensures
        r@ == spec_derive_measure(ident@, generics@, *schema),
{
    let mut s = String::new();
    append_impl_header(&mut s, generics, "::byten::Measure", ident);
    s.append(" { fn measure(&self) -> Result<usize, ::byten::EncodeError> { Ok(");
    let ctx = MeasureContext { wrapper: String::from_str("Self"), decoded: String::from_str("self") };
    let measured = schema.measure(&ctx);
    s.append(measured.as_str());
    s.append(") } }");
    s
}

/// The `MeasureFixed` impl of a type, with the `Measure` impl that answers
/// with the fixed size; an enum has no fixed size.
pub fn derive_measure_fixed(ident: &String, generics: &String, schema: &DeriveSchema) -> (r: Result<
    String,
    SchemaError,
>)
    ensures
        match r {
            Ok(text) => spec_derive_measure_fixed(ident@, generics@, *schema) == Ok::<
                Seq<char>,
                SchemaError,
            >(text@),
            Err(e) => spec_derive_measure_fixed(ident@, generics@, *schema) == Err::<
                Seq<char>,
                SchemaError,
            >(e),
        },
{
    let fixed = match schema.measure_fixed() {
        Ok(fixed) => fixed,
        Err(e) => return Err(e),
    };
    let mut s = String::new();
    append_impl_header(&mut s, generics, "::byten::MeasureFixed", ident);
    s.append(" { fn spec_fixed_size() -> usize { Self::measure_fixed() } fn measure_fixed() -> usize { ");
    s.append(fixed.as_str());
    s.append(" } fn lemma_fixed_size(_v: <Self as ::byten::Model>::M) {} } ");
    append_impl_header(&mut s, generics, "::byten::Measure", ident);
    s.append(
        " { fn measure(&self) -> Result<usize, ::byten::EncodeError> { Ok(Self::measure_fixed()) } }",
    );
    Ok(s)
}

} // verus!
