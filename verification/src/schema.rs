//! The code that the derive macros generate for a struct or an enum: Rust
//! source text for decoding, encoding and measuring it field by field with
//! the codecs that its `#[byten(...)]` attributes build.
use vstd::prelude::*;

use vstd::string::StringExecFns;

use crate::attr::{
    spec_attr_message, apply_step, codec_expr, spec_codec_expr, spec_pipeline, step_wf, AttrError, Operand, Step,
};

verus! {

/// The text of the decimal digit `d`.
pub open spec fn digit_text(d: nat) -> Seq<char> {
    if d == 0 {
        "0"@
    } else if d == 1 {
        "1"@
    } else if d == 2 {
        "2"@
    } else if d == 3 {
        "3"@
    } else if d == 4 {
        "4"@
    } else if d == 5 {
        "5"@
    } else if d == 6 {
        "6"@
    } else if d == 7 {
        "7"@
    } else if d == 8 {
        "8"@
    } else {
        "9"@
    }
}

/// The decimal text of `n`.
pub open spec fn decimal(n: nat) -> Seq<char>
    decreases n,
{
    if n < 10 {
        digit_text(n)
    } else {
        decimal(n / 10) + digit_text(n % 10)
    }
}

/// The pieces `f(0)`, ..., `f(n - 1)` one after the other.
pub open spec fn concat_range(n: nat, f: spec_fn(nat) -> Seq<char>) -> Seq<char>
    decreases n,
{
    if n == 0 {
        Seq::empty()
    } else {
        concat_range((n - 1) as nat, f) + f((n - 1) as nat)
    }
}

/// The pieces `f(0)`, ..., `f(n - 1)` with `sep` between each two.
pub open spec fn join_range(n: nat, sep: Seq<char>, f: spec_fn(nat) -> Seq<char>) -> Seq<char>
    decreases n,
{
    if n == 0 {
        Seq::empty()
    } else if n == 1 {
        f(0)
    } else {
        join_range((n - 1) as nat, sep, f) + sep + f((n - 1) as nat)
    }
}

/// Where the generated decoding reads from: the expressions of the input
/// bytes and of the offset.
pub struct DecodeContext {
    pub encoded: String,
    pub offset: String,
}

/// What the generated encoding writes: the path of the value's type or
/// variant, the expression of the value, of the output bytes and of the
/// offset.
pub struct EncodeContext {
    pub wrapper: String,
    pub decoded: String,
    pub encoded: String,
    pub offset: String,
}

/// What the generated measuring reads: the path of the value's type or
/// variant and the expression of the value.
pub struct MeasureContext {
    pub wrapper: String,
    pub decoded: String,
}

/// Why code could not be generated.
pub enum SchemaError {
    /// A pipeline of an attribute could not be built.
    Attr(AttrError),
    /// A `byten` attribute is not of the form `#[byten(...)]`.
    InvalidAttribute,
    /// Enums have no fixed size.
    FixedEnum,
    /// Only structs and enums can be derived for.
    Unsupported,
    /// An enum needs a `#[repr(...)]` attribute.
    MissingRepr,
    /// The `repr` attribute is not of the form `#[repr(...)]`.
    InvalidRepr,
    /// Every variant of an enum needs a discriminant.
    MissingDiscriminant,
    /// The type in a `#[repr(...)]` attribute could not be read; the
    /// parser's message.
    Syntax(String),
    /// A field of a struct with named fields has no name.
    MissingFieldName,
    /// A field of a tuple struct has a name.
    UnexpectedFieldName,
}

/// The decimal digit `d` as text.
fn digit_str(d: usize) -> (r: &'static str)
    requires
        d < 10,
    ensures
        r@ == digit_text(d as nat),
{
    if d == 0 {
        "0"
    } else if d == 1 {
        "1"
    } else if d == 2 {
        "2"
    } else if d == 3 {
        "3"
    } else if d == 4 {
        "4"
    } else if d == 5 {
        "5"
    } else if d == 6 {
        "6"
    } else if d == 7 {
        "7"
    } else if d == 8 {
        "8"
    } else {
        "9"
    }
}

/// The decimal text of `n`.
pub fn decimal_text(n: usize) -> (r: String)
    ensures
        r@ == decimal(n as nat),
    decreases n,
{
    if n < 10 {
        let mut s = String::new();
        s.append(digit_str(n));
        s
    } else {
        let mut s = decimal_text(n / 10);
        s.append(digit_str(n % 10));
        s
    }
}

/// The generated code that decodes with the codec `expr`.
pub open spec fn spec_codec_decode(expr: Seq<char>, encoded: Seq<char>, offset: Seq<char>) -> Seq<
    char,
> {
    "::byten::Decoder::decode(&"@ + expr + ", "@ + encoded + ", "@ + offset + ")?"@
}

/// The generated code that encodes `decoded` with the codec `expr`.
pub open spec fn spec_codec_encode(
    expr: Seq<char>,
    decoded: Seq<char>,
    encoded: Seq<char>,
    offset: Seq<char>,
) -> Seq<char> {
    "::byten::Encoder::encode(&"@ + expr + ", "@ + decoded + ", "@ + encoded + ", "@ + offset
        + ")?"@
}

/// The generated code that measures `decoded` with the codec `expr`.
pub open spec fn spec_codec_measure(expr: Seq<char>, decoded: Seq<char>) -> Seq<char> {
    "::byten::Measurer::measure(&"@ + expr + ", "@ + decoded + ")?"@
}

/// The generated code that gives the fixed size of the codec `expr`.
pub open spec fn spec_codec_measure_fixed(expr: Seq<char>) -> Seq<char> {
    "::byten::FixedMeasurer::measure_fixed(&"@ + expr + ")"@
}

/// The code of one field or discriminant: the expression of its codec.
pub struct CodecSchema {
    pub expr: String,
}

impl CodecSchema {
    /// Decodes with the codec, passing errors on.
    pub fn decode(&self, ctx: &DecodeContext) -> (r: String)
        ensures
            r@ == spec_codec_decode(self.expr@, ctx.encoded@, ctx.offset@),
    {
        let mut s = String::new();
        s.append("::byten::Decoder::decode(&");
        s.append(self.expr.as_str());
        s.append(", ");
        s.append(ctx.encoded.as_str());
        s.append(", ");
        s.append(ctx.offset.as_str());
        s.append(")?");
        s
    }

    /// Encodes the value in context with the codec, passing errors on.
    pub fn encode(&self, ctx: &EncodeContext) -> (r: String)
        ensures
            r@ == spec_codec_encode(self.expr@, ctx.decoded@, ctx.encoded@, ctx.offset@),
    {
        let mut s = String::new();
        s.append("::byten::Encoder::encode(&");
        s.append(self.expr.as_str());
        s.append(", ");
        s.append(ctx.decoded.as_str());
        s.append(", ");
        s.append(ctx.encoded.as_str());
        s.append(", ");
        s.append(ctx.offset.as_str());
        s.append(")?");
        s
    }

    /// The fixed size of the codec.
    pub fn measure_fixed(&self) -> (r: String)
        ensures
            r@ == spec_codec_measure_fixed(self.expr@),
    {
        let mut s = String::new();
        s.append("::byten::FixedMeasurer::measure_fixed(&");
        s.append(self.expr.as_str());
        s.append(")");
        s
    }

    /// Measures the value in context with the codec, passing errors on.
    pub fn measure(&self, ctx: &MeasureContext) -> (r: String)
        ensures
            r@ == spec_codec_measure(self.expr@, ctx.decoded@),
    {
        let mut s = String::new();
        s.append("::byten::Measurer::measure(&");
        s.append(self.expr.as_str());
        s.append(", ");
        s.append(ctx.decoded.as_str());
        s.append(")?");
        s
    }
}

/// A named field and its codec.
pub struct NamedField {
    pub ident: String,
    pub codec: CodecSchema,
}

/// The fields of a struct or of an enum variant, each with its codec.
pub enum FieldsSchema {
    /// `{ a: A, b: B }`
    Named(Vec<NamedField>),
    /// `(A, B)`
    Unnamed(Vec<CodecSchema>),
    /// No fields.
    Unit,
}

/// The variable that holds the named field `ident` while encoding.
pub open spec fn named_var(ident: Seq<char>) -> Seq<char> {
    "variant_"@ + ident
}

/// The variable that holds the `k`-th unnamed field while encoding.
pub open spec fn index_var(k: nat) -> Seq<char> {
    "variant_"@ + decimal(k)
}

/// `ident: <decode>` for the `k`-th named field.
pub open spec fn named_decode_piece(fs: Seq<NamedField>, encoded: Seq<char>, offset: Seq<char>) -> spec_fn(
    nat,
) -> Seq<char> {
    |k: nat| fs[k as int].ident@ + ": "@ + spec_codec_decode(fs[k as int].codec.expr@, encoded, offset)
}

/// `ident: variant_ident, ` for the `k`-th named field.
pub open spec fn named_bind_piece(fs: Seq<NamedField>) -> spec_fn(nat) -> Seq<char> {
    |k: nat| fs[k as int].ident@ + ": "@ + named_var(fs[k as int].ident@) + ", "@
}

/// `<encode>; ` for the `k`-th named field, held in its variable.
pub open spec fn named_encode_piece(fs: Seq<NamedField>, encoded: Seq<char>, offset: Seq<char>) -> spec_fn(
    nat,
) -> Seq<char> {
    |k: nat|
        spec_codec_encode(fs[k as int].codec.expr@, named_var(fs[k as int].ident@), encoded, offset)
            + "; "@
}

/// ` + <measure>` for the `k`-th named field, held in its variable.
pub open spec fn named_measure_piece(fs: Seq<NamedField>) -> spec_fn(nat) -> Seq<char> {
    |k: nat| " + "@ + spec_codec_measure(fs[k as int].codec.expr@, named_var(fs[k as int].ident@))
}

/// ` + <fixed size>` for the `k`-th named field.
pub open spec fn named_fixed_piece(fs: Seq<NamedField>) -> spec_fn(nat) -> Seq<char> {
    |k: nat| " + "@ + spec_codec_measure_fixed(fs[k as int].codec.expr@)
}

/// `<decode>` for the `k`-th unnamed field.
pub open spec fn unnamed_decode_piece(cs: Seq<CodecSchema>, encoded: Seq<char>, offset: Seq<char>) -> spec_fn(
    nat,
) -> Seq<char> {
    |k: nat| spec_codec_decode(cs[k as int].expr@, encoded, offset)
}

/// `variant_k` for the `k`-th unnamed field.
pub open spec fn unnamed_bind_piece() -> spec_fn(nat) -> Seq<char> {
    |k: nat| index_var(k)
}

/// `<encode>; ` for the `k`-th unnamed field, held in its variable.
pub open spec fn unnamed_encode_piece(cs: Seq<CodecSchema>, encoded: Seq<char>, offset: Seq<char>) -> spec_fn(
    nat,
) -> Seq<char> {
    |k: nat| spec_codec_encode(cs[k as int].expr@, index_var(k), encoded, offset) + "; "@
}

/// ` + <measure>` for the `k`-th unnamed field, held in its variable.
pub open spec fn unnamed_measure_piece(cs: Seq<CodecSchema>) -> spec_fn(nat) -> Seq<char> {
    |k: nat| " + "@ + spec_codec_measure(cs[k as int].expr@, index_var(k))
}

/// ` + <fixed size>` for the `k`-th unnamed field.
pub open spec fn unnamed_fixed_piece(cs: Seq<CodecSchema>) -> spec_fn(nat) -> Seq<char> {
    |k: nat| " + "@ + spec_codec_measure_fixed(cs[k as int].expr@)
}

/// The generated expression that decodes the fields, to follow the path
/// of the struct or variant.
pub open spec fn spec_fields_decode(fields: FieldsSchema, encoded: Seq<char>, offset: Seq<char>) -> Seq<
    char,
> {
    match fields {
        FieldsSchema::Named(fs) => "{ "@ + join_range(
            fs@.len(),
            ", "@,
            named_decode_piece(fs@, encoded, offset),
        ) + " }"@,
        FieldsSchema::Unnamed(cs) => "( "@ + join_range(
            cs@.len(),
            ", "@,
            unnamed_decode_piece(cs@, encoded, offset),
        ) + " )"@,
        FieldsSchema::Unit => Seq::empty(),
    }
}

/// The generated statements that take the value in context apart by the
/// path `wrapper` and encode each field.
pub open spec fn spec_fields_encode(
    fields: FieldsSchema,
    wrapper: Seq<char>,
    decoded: Seq<char>,
    encoded: Seq<char>,
    offset: Seq<char>,
) -> Seq<char> {
    match fields {
        FieldsSchema::Named(fs) => "let "@ + wrapper + " { "@ + concat_range(
            fs@.len(),
            named_bind_piece(fs@),
        ) + "} = "@ + decoded + " else { unreachable!() }; "@ + concat_range(
            fs@.len(),
            named_encode_piece(fs@, encoded, offset),
        ),
        FieldsSchema::Unnamed(cs) => "let "@ + wrapper + " ( "@ + join_range(
            cs@.len(),
            ", "@,
            unnamed_bind_piece(),
        ) + " ) = "@ + decoded + " else { unreachable!() }; "@ + concat_range(
            cs@.len(),
            unnamed_encode_piece(cs@, encoded, offset),
        ),
        FieldsSchema::Unit => Seq::empty(),
    }
}

/// The generated expression that takes the value in context apart by the
/// path `wrapper` and adds up the sizes of the fields.
pub open spec fn spec_fields_measure(fields: FieldsSchema, wrapper: Seq<char>, decoded: Seq<char>) -> Seq<
    char,
> {
    match fields {
        FieldsSchema::Named(fs) => "{ let "@ + wrapper + " { "@ + concat_range(
            fs@.len(),
            named_bind_piece(fs@),
        ) + "} = "@ + decoded + " else { unreachable!() }; 0"@ + concat_range(
            fs@.len(),
            named_measure_piece(fs@),
        ) + " }"@,
        FieldsSchema::Unnamed(cs) => "{ let "@ + wrapper + " ( "@ + join_range(
            cs@.len(),
            ", "@,
            unnamed_bind_piece(),
        ) + " ) = "@ + decoded + " else { unreachable!() }; 0"@ + concat_range(
            cs@.len(),
            unnamed_measure_piece(cs@),
        ) + " }"@,
        FieldsSchema::Unit => "0"@,
    }
}

/// The generated expression that adds up the fixed sizes of the fields.
pub open spec fn spec_fields_measure_fixed(fields: FieldsSchema) -> Seq<char> {
    match fields {
        FieldsSchema::Named(fs) => "0"@ + concat_range(fs@.len(), named_fixed_piece(fs@)),
        FieldsSchema::Unnamed(cs) => "0"@ + concat_range(cs@.len(), unnamed_fixed_piece(cs@)),
        FieldsSchema::Unit => "0"@,
    }
}

/// The pattern that matches the fields whatever they hold.
pub open spec fn spec_wildcard_pattern(fields: FieldsSchema) -> Seq<char> {
    match fields {
        FieldsSchema::Named(_) => "{ .. }"@,
        FieldsSchema::Unnamed(_) => "( .. )"@,
        FieldsSchema::Unit => Seq::empty(),
    }
}

impl FieldsSchema {
    /// Decodes each field, to follow the path of the struct or variant.
    pub fn decode(&self, ctx: &DecodeContext) -> (r: String)
        ensures
            r@ == spec_fields_decode(*self, ctx.encoded@, ctx.offset@),
    {
        let mut s = String::new();
        match self {
            FieldsSchema::Named(fs) => {
                let ghost f = named_decode_piece(fs@, ctx.encoded@, ctx.offset@);
                s.append("{ ");
                let mut i: usize = 0;
                while i < fs.len()
                    invariant
                        i <= fs@.len(),
                        f == named_decode_piece(fs@, ctx.encoded@, ctx.offset@),
                        s@ == "{ "@ + join_range(i as nat, ", "@, f),
                    decreases fs@.len() - i,
                {
                    if i > 0 {
                        s.append(", ");
                    }
                    s.append(fs[i].ident.as_str());
                    s.append(": ");
                    let piece = fs[i].codec.decode(ctx);
                    s.append(piece.as_str());
                    proof {
                        assert(f(i as nat) == fs@[i as int].ident@ + ": "@ + piece@);
                        if i > 0 {
                            assert(s@ =~= "{ "@ + (join_range(i as nat, ", "@, f) + ", "@ + f(
                                i as nat,
                            )));
                        } else {
                            assert(s@ =~= "{ "@ + f(0));
                        }
                    }
                    i = i + 1;
                }
                s.append(" }");
            },
            FieldsSchema::Unnamed(cs) => {
                let ghost f = unnamed_decode_piece(cs@, ctx.encoded@, ctx.offset@);
                s.append("( ");
                let mut i: usize = 0;
                while i < cs.len()
                    invariant
                        i <= cs@.len(),
                        f == unnamed_decode_piece(cs@, ctx.encoded@, ctx.offset@),
                        s@ == "( "@ + join_range(i as nat, ", "@, f),
                    decreases cs@.len() - i,
                {
                    if i > 0 {
                        s.append(", ");
                    }
                    let piece = cs[i].decode(ctx);
                    s.append(piece.as_str());
                    proof {
                        assert(f(i as nat) == piece@);
                        if i > 0 {
                            assert(s@ =~= "( "@ + (join_range(i as nat, ", "@, f) + ", "@ + f(
                                i as nat,
                            )));
                        } else {
                            assert(s@ =~= "( "@ + f(0));
                        }
                    }
                    i = i + 1;
                }
                s.append(" )");
            },
            FieldsSchema::Unit => {},
        }
        s
    }
}

/// Appends `ident: variant_ident, ` for each named field.
fn append_named_binds(s: &mut String, fs: &Vec<NamedField>)
    ensures
        final(s)@ == old(s)@ + concat_range(fs@.len(), named_bind_piece(fs@)),
{
    let ghost s0 = s@;
    let ghost f = named_bind_piece(fs@);
    let mut i: usize = 0;
    while i < fs.len()
        invariant
            i <= fs@.len(),
            f == named_bind_piece(fs@),
            s@ == s0 + concat_range(i as nat, f),
            s0 == old(s)@,
        decreases fs@.len() - i,
    {
        s.append(fs[i].ident.as_str());
        s.append(": ");
        s.append("variant_");
        s.append(fs[i].ident.as_str());
        s.append(", ");
        proof {
            assert(f(i as nat) =~= fs@[i as int].ident@ + ": "@ + ("variant_"@ + fs@[i as int].ident@)
                + ", "@);
            assert(s@ =~= s0 + (concat_range(i as nat, f) + f(i as nat)));
        }
        i = i + 1;
    }
}

/// Appends `<encode>; ` for each named field, held in its variable.
fn append_named_encodes(s: &mut String, fs: &Vec<NamedField>, ctx: &EncodeContext)
    ensures
        final(s)@ == old(s)@ + concat_range(
            fs@.len(),
            named_encode_piece(fs@, ctx.encoded@, ctx.offset@),
        ),
{
    let ghost s0 = s@;
    let ghost f = named_encode_piece(fs@, ctx.encoded@, ctx.offset@);
    let mut i: usize = 0;
    while i < fs.len()
        invariant
            i <= fs@.len(),
            f == named_encode_piece(fs@, ctx.encoded@, ctx.offset@),
            s@ == s0 + concat_range(i as nat, f),
            s0 == old(s)@,
        decreases fs@.len() - i,
    {
        let mut var = String::new();
        var.append("variant_");
        var.append(fs[i].ident.as_str());
        let field_ctx = EncodeContext {
            wrapper: String::new(),
            decoded: var,
            encoded: ctx.encoded.clone(),
            offset: ctx.offset.clone(),
        };
        let piece = fs[i].codec.encode(&field_ctx);
        s.append(piece.as_str());
        s.append("; ");
        proof {
            assert(f(i as nat) =~= piece@ + "; "@);
            assert(s@ =~= s0 + (concat_range(i as nat, f) + f(i as nat)));
        }
        i = i + 1;
    }
}

/// Appends ` + <measure>` for each named field, held in its variable.
fn append_named_measures(s: &mut String, fs: &Vec<NamedField>)
    ensures
        final(s)@ == old(s)@ + concat_range(fs@.len(), named_measure_piece(fs@)),
{
    let ghost s0 = s@;
    let ghost f = named_measure_piece(fs@);
    let mut i: usize = 0;
    while i < fs.len()
        invariant
            i <= fs@.len(),
            f == named_measure_piece(fs@),
            s@ == s0 + concat_range(i as nat, f),
            s0 == old(s)@,
        decreases fs@.len() - i,
    {
        let mut var = String::new();
        var.append("variant_");
        var.append(fs[i].ident.as_str());
        let field_ctx = MeasureContext { wrapper: String::new(), decoded: var };
        let piece = fs[i].codec.measure(&field_ctx);
        s.append(" + ");
        s.append(piece.as_str());
        proof {
            assert(f(i as nat) =~= " + "@ + piece@);
            assert(s@ =~= s0 + (concat_range(i as nat, f) + f(i as nat)));
        }
        i = i + 1;
    }
}

/// Appends ` + <fixed size>` for each named field.
fn append_named_fixed(s: &mut String, fs: &Vec<NamedField>)
    ensures
        final(s)@ == old(s)@ + concat_range(fs@.len(), named_fixed_piece(fs@)),
{
    let ghost s0 = s@;
    let ghost f = named_fixed_piece(fs@);
    let mut i: usize = 0;
    while i < fs.len()
        invariant
            i <= fs@.len(),
            f == named_fixed_piece(fs@),
            s@ == s0 + concat_range(i as nat, f),
            s0 == old(s)@,
        decreases fs@.len() - i,
    {
        let piece = fs[i].codec.measure_fixed();
        s.append(" + ");
        s.append(piece.as_str());
        proof {
            assert(f(i as nat) =~= " + "@ + piece@);
            assert(s@ =~= s0 + (concat_range(i as nat, f) + f(i as nat)));
        }
        i = i + 1;
    }
}

/// Appends `variant_0, variant_1, ...` for `n` unnamed fields.
fn append_index_binds(s: &mut String, n: usize)
    ensures
        final(s)@ == old(s)@ + join_range(n as nat, ", "@, unnamed_bind_piece()),
{
    let ghost s0 = s@;
    let ghost f = unnamed_bind_piece();
    let mut i: usize = 0;
    while i < n
        invariant
            i <= n,
            f == unnamed_bind_piece(),
            s@ == s0 + join_range(i as nat, ", "@, f),
            s0 == old(s)@,
        decreases n - i,
    {
        if i > 0 {
            s.append(", ");
        }
        s.append("variant_");
        let digits = decimal_text(i);
        s.append(digits.as_str());
        proof {
            assert(f(i as nat) =~= "variant_"@ + digits@);
            if i > 0 {
                assert(s@ =~= s0 + (join_range(i as nat, ", "@, f) + ", "@ + f(i as nat)));
            } else {
                assert(s@ =~= s0 + f(0));
            }
        }
        i = i + 1;
    }
}

/// The variable that holds the `k`-th unnamed field.
fn index_var_text(k: usize) -> (r: String)
    ensures
        r@ == index_var(k as nat),
{
    let mut var = String::new();
    var.append("variant_");
    let digits = decimal_text(k);
    var.append(digits.as_str());
    var
}

/// Appends `<encode>; ` for each unnamed field, held in its variable.
fn append_unnamed_encodes(s: &mut String, cs: &Vec<CodecSchema>, ctx: &EncodeContext)
    ensures
        final(s)@ == old(s)@ + concat_range(
            cs@.len(),
            unnamed_encode_piece(cs@, ctx.encoded@, ctx.offset@),
        ),
{
    let ghost s0 = s@;
    let ghost f = unnamed_encode_piece(cs@, ctx.encoded@, ctx.offset@);
    let mut i: usize = 0;
    while i < cs.len()
        invariant
            i <= cs@.len(),
            f == unnamed_encode_piece(cs@, ctx.encoded@, ctx.offset@),
            s@ == s0 + concat_range(i as nat, f),
            s0 == old(s)@,
        decreases cs@.len() - i,
    {
        let field_ctx = EncodeContext {
            wrapper: String::new(),
            decoded: index_var_text(i),
            encoded: ctx.encoded.clone(),
            offset: ctx.offset.clone(),
        };
        let piece = cs[i].encode(&field_ctx);
        s.append(piece.as_str());
        s.append("; ");
        proof {
            assert(f(i as nat) =~= piece@ + "; "@);
            assert(s@ =~= s0 + (concat_range(i as nat, f) + f(i as nat)));
        }
        i = i + 1;
    }
}

/// Appends ` + <measure>` for each unnamed field, held in its variable.
fn append_unnamed_measures(s: &mut String, cs: &Vec<CodecSchema>)
    ensures
        final(s)@ == old(s)@ + concat_range(cs@.len(), unnamed_measure_piece(cs@)),
{
    let ghost s0 = s@;
    let ghost f = unnamed_measure_piece(cs@);
    let mut i: usize = 0;
    while i < cs.len()
        invariant
            i <= cs@.len(),
            f == unnamed_measure_piece(cs@),
            s@ == s0 + concat_range(i as nat, f),
            s0 == old(s)@,
        decreases cs@.len() - i,
    {
        let field_ctx = MeasureContext { wrapper: String::new(), decoded: index_var_text(i) };
        let piece = cs[i].measure(&field_ctx);
        s.append(" + ");
        s.append(piece.as_str());
        proof {
            assert(f(i as nat) =~= " + "@ + piece@);
            assert(s@ =~= s0 + (concat_range(i as nat, f) + f(i as nat)));
        }
        i = i + 1;
    }
}

/// Appends ` + <fixed size>` for each unnamed field.
fn append_unnamed_fixed(s: &mut String, cs: &Vec<CodecSchema>)
    ensures
        final(s)@ == old(s)@ + concat_range(cs@.len(), unnamed_fixed_piece(cs@)),
{
    let ghost s0 = s@;
    let ghost f = unnamed_fixed_piece(cs@);
    let mut i: usize = 0;
    while i < cs.len()
        invariant
            i <= cs@.len(),
            f == unnamed_fixed_piece(cs@),
            s@ == s0 + concat_range(i as nat, f),
            s0 == old(s)@,
        decreases cs@.len() - i,
    {
        let piece = cs[i].measure_fixed();
        s.append(" + ");
        s.append(piece.as_str());
        proof {
            assert(f(i as nat) =~= " + "@ + piece@);
            assert(s@ =~= s0 + (concat_range(i as nat, f) + f(i as nat)));
        }
        i = i + 1;
    }
}

impl FieldsSchema {
    /// Takes the value in context apart by the path `ctx.wrapper` and
    /// encodes each field.
    pub fn encode(&self, ctx: &EncodeContext) -> (r: String)
        ensures
            r@ == spec_fields_encode(*self, ctx.wrapper@, ctx.decoded@, ctx.encoded@, ctx.offset@),
    {
        let mut s = String::new();
        match self {
            FieldsSchema::Named(fs) => {
                s.append("let ");
                s.append(ctx.wrapper.as_str());
                s.append(" { ");
                append_named_binds(&mut s, fs);
                s.append("} = ");
                s.append(ctx.decoded.as_str());
                s.append(" else { unreachable!() }; ");
                append_named_encodes(&mut s, fs, ctx);
            },
            FieldsSchema::Unnamed(cs) => {
                s.append("let ");
                s.append(ctx.wrapper.as_str());
                s.append(" ( ");
                append_index_binds(&mut s, cs.len());
                s.append(" ) = ");
                s.append(ctx.decoded.as_str());
                s.append(" else { unreachable!() }; ");
                append_unnamed_encodes(&mut s, cs, ctx);
            },
            FieldsSchema::Unit => {},
        }
        s
    }

    /// Takes the value in context apart by the path `ctx.wrapper` and adds
    /// up the sizes of the fields.
    pub fn measure(&self, ctx: &MeasureContext) -> (r: String)
        ensures
            r@ == spec_fields_measure(*self, ctx.wrapper@, ctx.decoded@),
    {
        let mut s = String::new();
        match self {
            FieldsSchema::Named(fs) => {
                s.append("{ let ");
                s.append(ctx.wrapper.as_str());
                s.append(" { ");
                append_named_binds(&mut s, fs);
                s.append("} = ");
                s.append(ctx.decoded.as_str());
                s.append(" else { unreachable!() }; 0");
                append_named_measures(&mut s, fs);
                s.append(" }");
            },
            FieldsSchema::Unnamed(cs) => {
                s.append("{ let ");
                s.append(ctx.wrapper.as_str());
                s.append(" ( ");
                append_index_binds(&mut s, cs.len());
                s.append(" ) = ");
                s.append(ctx.decoded.as_str());
                s.append(" else { unreachable!() }; 0");
                append_unnamed_measures(&mut s, cs);
                s.append(" }");
            },
            FieldsSchema::Unit => {
                s.append("0");
            },
        }
        s
    }

    /// Adds up the fixed sizes of the fields.
    pub fn measure_fixed(&self) -> (r: String)
        ensures
            r@ == spec_fields_measure_fixed(*self),
    {
        let mut s = String::new();
        s.append("0");
        match self {
            FieldsSchema::Named(fs) => {
                append_named_fixed(&mut s, fs);
            },
            FieldsSchema::Unnamed(cs) => {
                append_unnamed_fixed(&mut s, cs);
            },
            FieldsSchema::Unit => {},
        }
        s
    }

    /// The pattern that matches the fields whatever they hold.
    pub fn wildcard_pattern(&self) -> (r: String)
        ensures
            r@ == spec_wildcard_pattern(*self),
    {
        let mut s = String::new();
        match self {
            FieldsSchema::Named(_) => {
                s.append("{ .. }");
            },
            FieldsSchema::Unnamed(_) => {
                s.append("( .. )");
            },
            FieldsSchema::Unit => {},
        }
        s
    }
}

/// A variant of an enum: its name, its fields and its discriminant
/// expression.
pub struct VariantSchema {
    pub ident: String,
    pub fields: FieldsSchema,
    pub discriminant: String,
}

/// What the derive macros generate code for.
pub enum DeriveSchema {
    /// A struct and its fields.
    Struct { ident: String, fields: FieldsSchema },
    /// An enum, the codec of its discriminant and its variants.
    Enum { ident: String, discriminator: CodecSchema, variants: Vec<VariantSchema> },
}

/// The path of a variant.
pub open spec fn variant_path(ident: Seq<char>, variant: Seq<char>) -> Seq<char> {
    ident + "::"@ + variant
}

/// The discriminant of a variant, borrowed.
pub open spec fn discriminant_ref(discriminant: Seq<char>) -> Seq<char> {
    "(&"@ + discriminant + ")"@
}

/// `<discriminant> => { Ok(<variant> <fields>) }` for the `k`-th variant.
pub open spec fn variant_decode_piece(
    ident: Seq<char>,
    vs: Seq<VariantSchema>,
    encoded: Seq<char>,
    offset: Seq<char>,
) -> spec_fn(nat) -> Seq<char> {
    |k: nat|
        vs[k as int].discriminant@ + " => { Ok("@ + variant_path(ident, vs[k as int].ident@) + " "@
            + spec_fields_decode(vs[k as int].fields, encoded, offset) + ") }"@
}

/// `variant @ <variant> <pattern> => { <discriminant>; <fields> }` for the
/// `k`-th variant.
pub open spec fn variant_encode_piece(
    ident: Seq<char>,
    discriminator: Seq<char>,
    vs: Seq<VariantSchema>,
    encoded: Seq<char>,
    offset: Seq<char>,
) -> spec_fn(nat) -> Seq<char> {
    |k: nat|
        "variant @ "@ + variant_path(ident, vs[k as int].ident@) + " "@ + spec_wildcard_pattern(
            vs[k as int].fields,
        ) + " => { "@ + spec_codec_encode(
            discriminator,
            discriminant_ref(vs[k as int].discriminant@),
            encoded,
            offset,
        ) + "; "@ + spec_fields_encode(
            vs[k as int].fields,
            variant_path(ident, vs[k as int].ident@),
            "variant"@,
            encoded,
            offset,
        ) + " }"@
}

/// `variant @ <variant> <pattern> => { <discriminant> + <fields> }` for the
/// `k`-th variant.
pub open spec fn variant_measure_piece(
    ident: Seq<char>,
    discriminator: Seq<char>,
    vs: Seq<VariantSchema>,
) -> spec_fn(nat) -> Seq<char> {
    |k: nat|
        "variant @ "@ + variant_path(ident, vs[k as int].ident@) + " "@ + spec_wildcard_pattern(
            vs[k as int].fields,
        ) + " => { "@ + spec_codec_measure(
            discriminator,
            discriminant_ref(vs[k as int].discriminant@),
        ) + " + "@ + spec_fields_measure(
            vs[k as int].fields,
            variant_path(ident, vs[k as int].ident@),
            "variant"@,
        ) + " }"@
}

/// The generated expression that decodes the struct or enum.
pub open spec fn spec_schema_decode(schema: DeriveSchema, encoded: Seq<char>, offset: Seq<char>) -> Seq<
    char,
> {
    match schema {
        DeriveSchema::Struct { ident, fields } => ident@ + " "@ + spec_fields_decode(
            fields,
            encoded,
            offset,
        ),
        DeriveSchema::Enum { ident, discriminator, variants } => "{ let discriminant = "@
            + spec_codec_decode(discriminator.expr@, encoded, offset)
            + "; match discriminant { "@ + join_range(
            variants@.len(),
            ", "@,
            variant_decode_piece(ident@, variants@, encoded, offset),
        ) + ", _ => Err(::byten::DecodeError::InvalidDiscriminant), }? }"@,
    }
}

/// The generated statements that encode the struct or enum.
pub open spec fn spec_schema_encode(
    schema: DeriveSchema,
    wrapper: Seq<char>,
    decoded: Seq<char>,
    encoded: Seq<char>,
    offset: Seq<char>,
) -> Seq<char> {
    match schema {
        DeriveSchema::Struct { ident, fields } => spec_fields_encode(
            fields,
            wrapper,
            decoded,
            encoded,
            offset,
        ),
        DeriveSchema::Enum { ident, discriminator, variants } => "match "@ + decoded + " { "@
            + join_range(
            variants@.len(),
            ", "@,
            variant_encode_piece(ident@, discriminator.expr@, variants@, encoded, offset),
        ) + " }"@,
    }
}

/// The generated expression that measures the struct or enum.
pub open spec fn spec_schema_measure(schema: DeriveSchema, wrapper: Seq<char>, decoded: Seq<char>) -> Seq<
    char,
> {
    match schema {
        DeriveSchema::Struct { ident, fields } => spec_fields_measure(fields, wrapper, decoded),
        DeriveSchema::Enum { ident, discriminator, variants } => "match "@ + decoded + " { "@
            + join_range(
            variants@.len(),
            ", "@,
            variant_measure_piece(ident@, discriminator.expr@, variants@),
        ) + " }"@,
    }
}

/// The generated expression of the fixed size of a struct; an enum has
/// none.
pub open spec fn spec_schema_measure_fixed(schema: DeriveSchema) -> Result<Seq<char>, SchemaError> {
    match schema {
        DeriveSchema::Struct { ident, fields } => Ok(spec_fields_measure_fixed(fields)),
        DeriveSchema::Enum { .. } => Err(SchemaError::FixedEnum),
    }
}

/// The path of a variant as text.
fn variant_path_text(ident: &String, variant: &String) -> (r: String)
    ensures
        r@ == variant_path(ident@, variant@),
{
    let mut s = String::new();
    s.append(ident.as_str());
    s.append("::");
    s.append(variant.as_str());
    s
}

/// The discriminant of a variant, borrowed, as text.
fn discriminant_ref_text(discriminant: &String) -> (r: String)
    ensures
        r@ == discriminant_ref(discriminant@),
{
    let mut s = String::new();
    s.append("(&");
    s.append(discriminant.as_str());
    s.append(")");
    s
}

/// The text `variant`.
fn variant_text() -> (r: String)
    ensures
        r@ == "variant"@,
{
    let mut s = String::new();
    s.append("variant");
    s
}

/// Appends the decoding arm of each variant, separated by commas.
fn append_decode_arms(
    s: &mut String,
    ident: &String,
    vs: &Vec<VariantSchema>,
    ctx: &DecodeContext,
)
    ensures
        final(s)@ == old(s)@ + join_range(
            vs@.len(),
            ", "@,
            variant_decode_piece(ident@, vs@, ctx.encoded@, ctx.offset@),
        ),
{
    let ghost s0 = s@;
    let ghost f = variant_decode_piece(ident@, vs@, ctx.encoded@, ctx.offset@);
    let mut i: usize = 0;
    while i < vs.len()
        invariant
            i <= vs@.len(),
            f == variant_decode_piece(ident@, vs@, ctx.encoded@, ctx.offset@),
            s@ == s0 + join_range(i as nat, ", "@, f),
            s0 == old(s)@,
        decreases vs@.len() - i,
    {
        if i > 0 {
            s.append(", ");
        }
        let path = variant_path_text(ident, &vs[i].ident);
        let fields = vs[i].fields.decode(ctx);
        let mut piece = String::new();
        piece.append(vs[i].discriminant.as_str());
        piece.append(" => { Ok(");
        piece.append(path.as_str());
        piece.append(" ");
        piece.append(fields.as_str());
        piece.append(") }");
        s.append(piece.as_str());
        proof {
            assert(f(i as nat) =~= piece@);
            if i > 0 {
                assert(s@ =~= s0 + (join_range(i as nat, ", "@, f) + ", "@ + f(i as nat)));
            } else {
                assert(s@ =~= s0 + f(0));
            }
        }
        i = i + 1;
    }
}

/// Appends the encoding arm of each variant, separated by commas.
fn append_encode_arms(
    s: &mut String,
    ident: &String,
    discriminator: &CodecSchema,
    vs: &Vec<VariantSchema>,
    ctx: &EncodeContext,
)
    ensures
        final(s)@ == old(s)@ + join_range(
            vs@.len(),
            ", "@,
            variant_encode_piece(ident@, discriminator.expr@, vs@, ctx.encoded@, ctx.offset@),
        ),
{
    let ghost s0 = s@;
    let ghost f = variant_encode_piece(ident@, discriminator.expr@, vs@, ctx.encoded@, ctx.offset@);
    let mut i: usize = 0;
    while i < vs.len()
        invariant
            i <= vs@.len(),
            f == variant_encode_piece(ident@, discriminator.expr@, vs@, ctx.encoded@, ctx.offset@),
            s@ == s0 + join_range(i as nat, ", "@, f),
            s0 == old(s)@,
        decreases vs@.len() - i,
    {
        if i > 0 {
            s.append(", ");
        }
        let path = variant_path_text(ident, &vs[i].ident);
        let pattern = vs[i].fields.wildcard_pattern();
        let discriminant_ctx = EncodeContext {
            wrapper: String::new(),
            decoded: discriminant_ref_text(&vs[i].discriminant),
            encoded: ctx.encoded.clone(),
            offset: ctx.offset.clone(),
        };
        let discriminant = discriminator.encode(&discriminant_ctx);
        let fields_ctx = EncodeContext {
            wrapper: path.clone(),
            decoded: variant_text(),
            encoded: ctx.encoded.clone(),
            offset: ctx.offset.clone(),
        };
        let fields = vs[i].fields.encode(&fields_ctx);
        let mut piece = String::new();
        piece.append("variant @ ");
        piece.append(path.as_str());
        piece.append(" ");
        piece.append(pattern.as_str());
        piece.append(" => { ");
        piece.append(discriminant.as_str());
        piece.append("; ");
        piece.append(fields.as_str());
        piece.append(" }");
        s.append(piece.as_str());
        proof {
            assert(f(i as nat) =~= piece@);
            if i > 0 {
                assert(s@ =~= s0 + (join_range(i as nat, ", "@, f) + ", "@ + f(i as nat)));
            } else {
                assert(s@ =~= s0 + f(0));
            }
        }
        i = i + 1;
    }
}

/// Appends the measuring arm of each variant, separated by commas.
fn append_measure_arms(
    s: &mut String,
    ident: &String,
    discriminator: &CodecSchema,
    vs: &Vec<VariantSchema>,
)
    ensures
        final(s)@ == old(s)@ + join_range(
            vs@.len(),
            ", "@,
            variant_measure_piece(ident@, discriminator.expr@, vs@),
        ),
{
    let ghost s0 = s@;
    let ghost f = variant_measure_piece(ident@, discriminator.expr@, vs@);
    let mut i: usize = 0;
    while i < vs.len()
        invariant
            i <= vs@.len(),
            f == variant_measure_piece(ident@, discriminator.expr@, vs@),
            s@ == s0 + join_range(i as nat, ", "@, f),
            s0 == old(s)@,
        decreases vs@.len() - i,
    {
        if i > 0 {
            s.append(", ");
        }
        let path = variant_path_text(ident, &vs[i].ident);
        let pattern = vs[i].fields.wildcard_pattern();
        let discriminant_ctx = MeasureContext {
            wrapper: String::new(),
            decoded: discriminant_ref_text(&vs[i].discriminant),
        };
        let discriminant = discriminator.measure(&discriminant_ctx);
        let fields_ctx = MeasureContext { wrapper: path.clone(), decoded: variant_text() };
        let fields = vs[i].fields.measure(&fields_ctx);
        let mut piece = String::new();
        piece.append("variant @ ");
        piece.append(path.as_str());
        piece.append(" ");
        piece.append(pattern.as_str());
        piece.append(" => { ");
        piece.append(discriminant.as_str());
        piece.append(" + ");
        piece.append(fields.as_str());
        piece.append(" }");
        s.append(piece.as_str());
        proof {
            assert(f(i as nat) =~= piece@);
            if i > 0 {
                assert(s@ =~= s0 + (join_range(i as nat, ", "@, f) + ", "@ + f(i as nat)));
            } else {
                assert(s@ =~= s0 + f(0));
            }
        }
        i = i + 1;
    }
}

impl DeriveSchema {
    /// The expression that decodes the struct or enum.
    pub fn decode(&self, ctx: &DecodeContext) -> (r: String)
        ensures
            r@ == spec_schema_decode(*self, ctx.encoded@, ctx.offset@),
    {
        let mut s = String::new();
        match self {
            DeriveSchema::Struct { ident, fields } => {
                s.append(ident.as_str());
                s.append(" ");
                let decoded = fields.decode(ctx);
                s.append(decoded.as_str());
            },
            DeriveSchema::Enum { ident, discriminator, variants } => {
                s.append("{ let discriminant = ");
                let discriminant = discriminator.decode(ctx);
                s.append(discriminant.as_str());
                s.append("; match discriminant { ");
                append_decode_arms(&mut s, ident, variants, ctx);
                s.append(", _ => Err(::byten::DecodeError::InvalidDiscriminant), }? }");
            },
        }
        s
    }

    /// The statements that encode the struct or enum.
    pub fn encode(&self, ctx: &EncodeContext) -> (r: String)
        ensures
            r@ == spec_schema_encode(*self, ctx.wrapper@, ctx.decoded@, ctx.encoded@, ctx.offset@),
    {
        match self {
            DeriveSchema::Struct { ident, fields } => fields.encode(ctx),
            DeriveSchema::Enum { ident, discriminator, variants } => {
                let mut s = String::new();
                s.append("match ");
                s.append(ctx.decoded.as_str());
                s.append(" { ");
                append_encode_arms(&mut s, ident, discriminator, variants, ctx);
                s.append(" }");
                s
            },
        }
    }

    /// The expression that measures the struct or enum.
    pub fn measure(&self, ctx: &MeasureContext) -> (r: String)
        ensures
            r@ == spec_schema_measure(*self, ctx.wrapper@, ctx.decoded@),
    {
        match self {
            DeriveSchema::Struct { ident, fields } => fields.measure(ctx),
            DeriveSchema::Enum { ident, discriminator, variants } => {
                let mut s = String::new();
                s.append("match ");
                s.append(ctx.decoded.as_str());
                s.append(" { ");
                append_measure_arms(&mut s, ident, discriminator, variants);
                s.append(" }");
                s
            },
        }
    }

    /// The expression of the fixed size of a struct; enums have none.
    pub fn measure_fixed(&self) -> (r: Result<String, SchemaError>)
        ensures
            match r {
                Ok(text) => spec_schema_measure_fixed(*self) == Ok::<Seq<char>, SchemaError>(text@),
                Err(e) => spec_schema_measure_fixed(*self) == Err::<Seq<char>, SchemaError>(e),
            },
    {
        match self {
            DeriveSchema::Struct { ident, fields } => Ok(fields.measure_fixed()),
            DeriveSchema::Enum { .. } => Err(SchemaError::FixedEnum),
        }
    }
}

/// An attribute of a field, a variant or a type, as far as the pipelines
/// are concerned.
pub enum AttrInput {
    /// An attribute other than `byten`.
    Other,
    /// `#[byten(...)]`, with the steps of its pipeline.
    List(Vec<Step>),
    /// A `byten` attribute of another form.
    Invalid,
}

/// The steps of every `#[byten(...)]` attribute come with their groups.
pub open spec fn attrs_wf(attrs: Seq<AttrInput>) -> bool {
    forall|i: int, j: int|
        0 <= i < attrs.len() && attrs[i] is List ==> (0 <= j < attrs[i]->List_0@.len() ==> step_wf(
            #[trigger] attrs[i]->List_0@[j],
        ))
}

/// What one attribute makes of the codec built so far.
pub open spec fn spec_apply_attribute(op: Operand, attr: AttrInput) -> Result<Operand, SchemaError> {
    match attr {
        AttrInput::Other => Ok(op),
        AttrInput::List(steps) => match spec_pipeline(op, steps@) {
            Ok(next) => Ok(next),
            Err(e) => Err(SchemaError::Attr(e)),
        },
        AttrInput::Invalid => Err(SchemaError::InvalidAttribute),
    }
}

/// The attributes applied one after the other, stopping at the first error.
pub open spec fn spec_apply_attributes(start: Operand, attrs: Seq<AttrInput>) -> Result<
    Operand,
    SchemaError,
>
    decreases attrs.len(),
{
    if attrs.len() == 0 {
        Ok(start)
    } else {
        match spec_apply_attributes(start, attrs.drop_last()) {
            Ok(op) => spec_apply_attribute(op, attrs.last()),
            Err(e) => Err(e),
        }
    }
}

/// The codec a field or discriminant starts from: its type's default codec,
/// or the default codec of the type in context.
pub open spec fn start_operand(typ: Option<String>) -> Operand {
    match typ {
        Some(t) => Operand::Type(t),
        None => Operand::Default,
    }
}

/// The codec of a field or discriminant, from its type and its attributes.
pub open spec fn spec_codec_schema(typ: Option<String>, attrs: Seq<AttrInput>) -> Result<
    Seq<char>,
    SchemaError,
> {
    match spec_apply_attributes(start_operand(typ), attrs) {
        Ok(op) => Ok(spec_codec_expr(op)),
        Err(e) => Err(e),
    }
}

/// Applies one attribute to the codec built so far.
pub fn apply_attribute(op: Operand, attr: AttrInput) -> (r: Result<Operand, SchemaError>)
    requires
        attr is List ==> forall|j: int|
            0 <= j < attr->List_0@.len() ==> step_wf(#[trigger] attr->List_0@[j]),
    ensures
        r == spec_apply_attribute(op, attr),
{
    match attr {
        AttrInput::Other => Ok(op),
        AttrInput::List(steps) => match crate::attr::build_pipeline(op, steps) {
            Ok(next) => Ok(next),
            Err(e) => Err(SchemaError::Attr(e)),
        },
        AttrInput::Invalid => Err(SchemaError::InvalidAttribute),
    }
}

/// Builds the codec of a field or discriminant: it starts from the default
/// codec of `typ` (or of the type in context when there is none), and the
/// `#[byten(...)]` attributes are applied in order; other attributes are
/// passed over, and a `byten` attribute of another form is an error.
pub fn build_codec_schema(typ: Option<String>, attrs: Vec<AttrInput>) -> (r: Result<
    CodecSchema,
    SchemaError,
>)
    requires
        attrs_wf(attrs@),
    ensures
        match r {
            Ok(c) => spec_codec_schema(typ, attrs@) == Ok::<Seq<char>, SchemaError>(c.expr@),
            Err(e) => spec_codec_schema(typ, attrs@) == Err::<Seq<char>, SchemaError>(e),
        },
{
    let ghost all = attrs@;
    let mut op = match typ {
        Some(t) => Operand::Type(t),
        None => Operand::Default,
    };
    let ghost start = op;
    let mut rest = attrs;
    let n = rest.len();
    let mut i: usize = 0;
    assert(all.take(0) =~= Seq::<AttrInput>::empty());
    assert(all.subrange(0, n as int) =~= all);
    while i < n
        invariant
            all == attrs@,
            start == start_operand(typ),
            n == all.len(),
            i <= n,
            rest@ == all.subrange(i as int, n as int),
            attrs_wf(all),
            spec_apply_attributes(start, all.take(i as int)) == Ok::<Operand, SchemaError>(op),
        decreases n - i,
    {
        let attr = rest.remove(0);
        assert(attr == all[i as int]);
        assert(rest@ =~= all.subrange(i + 1, n as int));
        assert(all.take(i + 1).drop_last() =~= all.take(i as int));
        assert(all.take(i + 1).last() == attr);
        let ghost prev = op;
        match apply_attribute(op, attr) {
            Ok(next) => {
                op = next;
            },
            Err(e) => {
                proof {
                    assert(spec_apply_attributes(start, all.take(i + 1)) == spec_apply_attribute(
                        prev,
                        attr,
                    ));
                    lemma_attributes_err(start, all, i + 1);
                }
                return Err(e);
            },
        }
        i = i + 1;
    }
    assert(all.take(n as int) =~= all);
    Ok(CodecSchema { expr: codec_expr(&op) })
}

/// Once a prefix of the attributes fails, all of them fail the same way.
pub proof fn lemma_attributes_err(start: Operand, attrs: Seq<AttrInput>, k: int)
    requires
        0 <= k <= attrs.len(),
        spec_apply_attributes(start, attrs.take(k)) is Err,
    ensures
        spec_apply_attributes(start, attrs) == spec_apply_attributes(start, attrs.take(k)),
    decreases attrs.len(),
{
    if k == attrs.len() {
        assert(attrs.take(k) =~= attrs);
    } else {
        assert(attrs.drop_last().take(k) =~= attrs.take(k));
        lemma_attributes_err(start, attrs.drop_last(), k);
    }
}

/// The codec expression of an inline `byten!(...)`: its pipeline, starting
/// from the default codec of the type in context.
pub fn build_codec_expr(steps: Vec<Step>) -> (r: Result<String, AttrError>)
    requires
        forall|i: int| 0 <= i < steps@.len() ==> step_wf(#[trigger] steps@[i]),
    ensures
        match r {
            Ok(text) => spec_pipeline(Operand::Default, steps@) is Ok && text@ == spec_codec_expr(
                spec_pipeline(Operand::Default, steps@)->Ok_0,
            ),
            Err(e) => spec_pipeline(Operand::Default, steps@) == Err::<Operand, AttrError>(e),
        },
{
    match crate::attr::build_pipeline(Operand::Default, steps) {
        Ok(op) => Ok(codec_expr(&op)),
        Err(e) => Err(e),
    }
}

/// An enum's `repr` attribute, as it was written.
pub enum ReprInput {
    /// `#[repr(T)]`, with the type `T`.
    Type(String),
    /// `#[repr(...)]` whose contents are no type, with the parser's message.
    Malformed(String),
    /// Another form.
    Invalid,
}

/// The type of an enum's discriminants: the first `repr` attribute must
/// give one.
pub open spec fn spec_repr(reprs: Seq<ReprInput>) -> Result<String, SchemaError> {
    if reprs.len() == 0 {
        Err(SchemaError::MissingRepr)
    } else {
        match reprs[0] {
            ReprInput::Type(t) => Ok(t),
            ReprInput::Malformed(m) => Err(SchemaError::Syntax(m)),
            ReprInput::Invalid => Err(SchemaError::InvalidRepr),
        }
    }
}

/// The type of an enum's discriminants, from its `repr` attributes in
/// order: the first one must be `#[repr(T)]`.
pub fn repr_type(reprs: Vec<ReprInput>) -> (r: Result<String, SchemaError>)
    ensures
        r == spec_repr(reprs@),
{
    let mut reprs = reprs;
    if reprs.len() == 0 {
        return Err(SchemaError::MissingRepr);
    }
    match reprs.remove(0) {
        ReprInput::Type(t) => Ok(t),
        ReprInput::Malformed(m) => Err(SchemaError::Syntax(m)),
        ReprInput::Invalid => Err(SchemaError::InvalidRepr),
    }
}

/// A field of a struct or variant: its name, if it has one, its type and
/// its attributes.
pub struct FieldInput {
    pub ident: Option<String>,
    pub typ: String,
    pub attrs: Vec<AttrInput>,
}

/// The fields of a struct or variant, as they were written.
pub enum FieldsInput {
    /// `{ a: A, b: B }`
    Named(Vec<FieldInput>),
    /// `(A, B)`
    Unnamed(Vec<FieldInput>),
    /// No fields.
    Unit,
}

/// A variant of an enum, as it was written.
pub struct VariantInput {
    pub ident: String,
    pub fields: FieldsInput,
    pub discriminant: Option<String>,
}

/// A struct, an enum or another kind of type, as it was written.
pub enum DataInput {
    Struct(FieldsInput),
    Enum(Vec<VariantInput>),
    Union,
}

/// The first error among `f(0)`, ..., `f(n - 1)`.
pub open spec fn first_error(n: nat, f: spec_fn(nat) -> Option<SchemaError>) -> Option<SchemaError>
    decreases n,
{
    if n == 0 {
        None
    } else {
        match first_error((n - 1) as nat, f) {
            Some(e) => Some(e),
            None => f((n - 1) as nat),
        }
    }
}

/// Once some of the first items have an error, it stays the first one.
pub proof fn lemma_first_error(m: nat, n: nat, f: spec_fn(nat) -> Option<SchemaError>)
    requires
        m <= n,
        first_error(m, f) is Some,
    ensures
        first_error(n, f) == first_error(m, f),
    decreases n,
{
    if m < n {
        lemma_first_error(m, (n - 1) as nat, f);
    }
}

/// The codec of a field of a struct with named fields (`named`) or of a
/// tuple struct: a named field must have a name, an unnamed one none.
pub open spec fn spec_field(named: bool, f: FieldInput) -> Result<Seq<char>, SchemaError> {
    if named && f.ident is None {
        Err(SchemaError::MissingFieldName)
    } else if !named && f.ident is Some {
        Err(SchemaError::UnexpectedFieldName)
    } else {
        spec_codec_schema(Some(f.typ), f.attrs@)
    }
}

/// The error of the `k`-th field, if it has one.
pub open spec fn field_error(named: bool, fs: Seq<FieldInput>) -> spec_fn(nat) -> Option<SchemaError> {
    |k: nat|
        match spec_field(named, fs[k as int]) {
            Err(e) => Some(e),
            Ok(_) => None,
        }
}

/// The first error among the fields.
pub open spec fn spec_fields_error(input: FieldsInput) -> Option<SchemaError> {
    match input {
        FieldsInput::Named(fs) => first_error(fs@.len(), field_error(true, fs@)),
        FieldsInput::Unnamed(fs) => first_error(fs@.len(), field_error(false, fs@)),
        FieldsInput::Unit => None,
    }
}

/// The attributes of every field come with their groups.
pub open spec fn fields_input_wf(input: FieldsInput) -> bool {
    match input {
        FieldsInput::Named(fs) => forall|k: int| 0 <= k < fs@.len() ==> attrs_wf(#[trigger] fs@[k].attrs@),
        FieldsInput::Unnamed(fs) => forall|k: int|
            0 <= k < fs@.len() ==> attrs_wf(#[trigger] fs@[k].attrs@),
        FieldsInput::Unit => true,
    }
}

/// `out` holds the fields of `input`, in order, each with the codec that
/// its type and attributes build.
pub open spec fn fields_built(input: FieldsInput, out: FieldsSchema) -> bool {
    match input {
        FieldsInput::Named(fs) => match out {
            FieldsSchema::Named(os) => {
                &&& os@.len() == fs@.len()
                &&& forall|k: int|
                    0 <= k < fs@.len() ==> {
                        &&& #[trigger] os@[k].ident == fs@[k].ident->Some_0
                        &&& spec_field(true, fs@[k]) == Ok::<Seq<char>, SchemaError>(
                            os@[k].codec.expr@,
                        )
                    }
            },
            _ => false,
        },
        FieldsInput::Unnamed(fs) => match out {
            FieldsSchema::Unnamed(cs) => {
                &&& cs@.len() == fs@.len()
                &&& forall|k: int|
                    0 <= k < fs@.len() ==> spec_field(false, fs@[k]) == Ok::<Seq<char>, SchemaError>(
                        (#[trigger] cs@[k]).expr@,
                    )
            },
            _ => false,
        },
        FieldsInput::Unit => out is Unit,
    }
}

/// The codec of one field, checking its name first.
fn field_codec(named: bool, f: FieldInput) -> (r: Result<(Option<String>, CodecSchema), SchemaError>)
    requires
        attrs_wf(f.attrs@),
    ensures
        match spec_field(named, f) {
            Err(e) => r == Err::<(Option<String>, CodecSchema), SchemaError>(e),
            Ok(text) => r is Ok && r->Ok_0.0 == f.ident && r->Ok_0.1.expr@ == text,
        },
{
    if named && f.ident.is_none() {
        return Err(SchemaError::MissingFieldName);
    }
    if !named && f.ident.is_some() {
        return Err(SchemaError::UnexpectedFieldName);
    }
    let FieldInput { ident, typ, attrs } = f;
    match build_codec_schema(Some(typ), attrs) {
        Ok(codec) => Ok((ident, codec)),
        Err(e) => Err(e),
    }
}

/// The named fields, each with the codec that its type and attributes
/// build; fails with the first field's error.
fn named_fields(fs: Vec<FieldInput>) -> (r: Result<Vec<NamedField>, SchemaError>)
    requires
        forall|k: int| 0 <= k < fs@.len() ==> attrs_wf(#[trigger] fs@[k].attrs@),
    ensures
        match first_error(fs@.len(), field_error(true, fs@)) {
            Some(e) => r == Err::<Vec<NamedField>, SchemaError>(e),
            None => r is Ok && r->Ok_0@.len() == fs@.len() && forall|k: int|
                0 <= k < fs@.len() ==> {
                    &&& #[trigger] r->Ok_0@[k].ident == fs@[k].ident->Some_0
                    &&& spec_field(true, fs@[k]) == Ok::<Seq<char>, SchemaError>(
                        r->Ok_0@[k].codec.expr@,
                    )
                },
        },
{
    let ghost all = fs@;
    let ghost f = field_error(true, all);
    let mut rest = fs;
    let n = rest.len();
    let mut out: Vec<NamedField> = Vec::new();
    let mut i: usize = 0;
    assert(all.subrange(0, n as int) =~= all);
    while i < n
        invariant
            all == fs@,
            n == all.len(),
            i <= n,
            f == field_error(true, all),
            rest@ == all.subrange(i as int, n as int),
            forall|k: int| 0 <= k < all.len() ==> attrs_wf(#[trigger] all[k].attrs@),
            first_error(i as nat, f) is None,
            out@.len() == i,
            forall|k: int|
                0 <= k < i ==> {
                    &&& #[trigger] out@[k].ident == all[k].ident->Some_0
                    &&& spec_field(true, all[k]) == Ok::<Seq<char>, SchemaError>(
                        out@[k].codec.expr@,
                    )
                },
        decreases n - i,
    {
        let field = rest.remove(0);
        assert(field == all[i as int]);
        assert(rest@ =~= all.subrange(i + 1, n as int));
        match field_codec(true, field) {
            Ok((ident, codec)) => {
                let ident = ident.unwrap();
                out.push(NamedField { ident, codec });
            },
            Err(e) => {
                proof {
                    assert(f(i as nat) == Some(e));
                    assert(first_error((i + 1) as nat, f) == Some(e));
                    lemma_first_error((i + 1) as nat, n as nat, f);
                }
                return Err(e);
            },
        }
        i = i + 1;
    }
    Ok(out)
}

/// The unnamed fields, each with the codec that its type and attributes
/// build; fails with the first field's error.
fn unnamed_fields(fs: Vec<FieldInput>) -> (r: Result<Vec<CodecSchema>, SchemaError>)
    requires
        forall|k: int| 0 <= k < fs@.len() ==> attrs_wf(#[trigger] fs@[k].attrs@),
    ensures
        match first_error(fs@.len(), field_error(false, fs@)) {
            Some(e) => r == Err::<Vec<CodecSchema>, SchemaError>(e),
            None => r is Ok && r->Ok_0@.len() == fs@.len() && forall|k: int|
                0 <= k < fs@.len() ==> spec_field(false, fs@[k]) == Ok::<Seq<char>, SchemaError>(
                    (#[trigger] r->Ok_0@[k]).expr@,
                ),
        },
{
    let ghost all = fs@;
    let ghost f = field_error(false, all);
    let mut rest = fs;
    let n = rest.len();
    let mut out: Vec<CodecSchema> = Vec::new();
    let mut i: usize = 0;
    assert(all.subrange(0, n as int) =~= all);
    while i < n
        invariant
            all == fs@,
            n == all.len(),
            i <= n,
            f == field_error(false, all),
            rest@ == all.subrange(i as int, n as int),
            forall|k: int| 0 <= k < all.len() ==> attrs_wf(#[trigger] all[k].attrs@),
            first_error(i as nat, f) is None,
            out@.len() == i,
            forall|k: int|
                0 <= k < i ==> spec_field(false, all[k]) == Ok::<Seq<char>, SchemaError>(
                    (#[trigger] out@[k]).expr@,
                ),
        decreases n - i,
    {
        let field = rest.remove(0);
        assert(field == all[i as int]);
        assert(rest@ =~= all.subrange(i + 1, n as int));
        match field_codec(false, field) {
            Ok((_, codec)) => {
                out.push(codec);
            },
            Err(e) => {
                proof {
                    assert(f(i as nat) == Some(e));
                    assert(first_error((i + 1) as nat, f) == Some(e));
                    lemma_first_error((i + 1) as nat, n as nat, f);
                }
                return Err(e);
            },
        }
        i = i + 1;
    }
    Ok(out)
}

/// The fields of a struct or variant, each with the codec that its type and
/// attributes build; fails with the first field's error.
pub fn interpret_fields(input: FieldsInput) -> (r: Result<FieldsSchema, SchemaError>)
    requires
        fields_input_wf(input),
    ensures
        match spec_fields_error(input) {
            Some(e) => r == Err::<FieldsSchema, SchemaError>(e),
            None => r is Ok && fields_built(input, r->Ok_0),
        },
{
    match input {
        FieldsInput::Named(fs) => match named_fields(fs) {
            Ok(out) => Ok(FieldsSchema::Named(out)),
            Err(e) => Err(e),
        },
        FieldsInput::Unnamed(fs) => match unnamed_fields(fs) {
            Ok(out) => Ok(FieldsSchema::Unnamed(out)),
            Err(e) => Err(e),
        },
        FieldsInput::Unit => Ok(FieldsSchema::Unit),
    }
}

/// The error of the `k`-th variant, if it has one: that of its fields, or
/// a missing discriminant.
pub open spec fn variant_error(vs: Seq<VariantInput>) -> spec_fn(nat) -> Option<SchemaError> {
    |k: nat|
        match spec_fields_error(vs[k as int].fields) {
            Some(e) => Some(e),
            None => if vs[k as int].discriminant is None {
                Some(SchemaError::MissingDiscriminant)
            } else {
                None
            },
        }
}

/// `out` is the variant `v`: its name, its discriminant and its fields.
pub open spec fn variant_built(v: VariantInput, out: VariantSchema) -> bool {
    &&& out.ident == v.ident
    &&& v.discriminant == Some(out.discriminant)
    &&& fields_built(v.fields, out.fields)
}

/// `out` is the enum `ident` whose discriminants the codec `discriminator`
/// codes, with the variants `vs` in order.
pub open spec fn enum_built(
    ident: String,
    discriminator: Seq<char>,
    vs: Seq<VariantInput>,
    out: DeriveSchema,
) -> bool {
    match out {
        DeriveSchema::Enum { ident: i, discriminator: d, variants } => {
            &&& i == ident
            &&& d.expr@ == discriminator
            &&& variants@.len() == vs.len()
            &&& forall|k: int| 0 <= k < vs.len() ==> variant_built(vs[k], #[trigger] variants@[k])
        },
        _ => false,
    }
}

/// `out` is the struct `ident` with the fields `fields`.
pub open spec fn struct_built(ident: String, fields: FieldsInput, out: DeriveSchema) -> bool {
    match out {
        DeriveSchema::Struct { ident: i, fields: f } => i == ident && fields_built(fields, f),
        _ => false,
    }
}

/// What interpreting an enum gives: the first `repr` attribute must give the
/// discriminant type, the enum's attributes build the discriminant codec
/// from it, and then each variant's fields must build and each variant must
/// have a discriminant, in order.
pub open spec fn enum_outcome(
    ident: String,
    reprs: Seq<ReprInput>,
    attrs: Seq<AttrInput>,
    vs: Seq<VariantInput>,
    r: Result<DeriveSchema, SchemaError>,
) -> bool {
    match spec_repr(reprs) {
        Err(e) => r == Err::<DeriveSchema, SchemaError>(e),
        Ok(t) => match spec_codec_schema(Some(t), attrs) {
            Err(e) => r == Err::<DeriveSchema, SchemaError>(e),
            Ok(d) => match first_error(vs.len(), variant_error(vs)) {
                Some(e) => r == Err::<DeriveSchema, SchemaError>(e),
                None => r is Ok && enum_built(ident, d, vs, r->Ok_0),
            },
        },
    }
}

/// The fields of every variant come with their groups.
pub open spec fn variants_wf(vs: Seq<VariantInput>) -> bool {
    forall|k: int| 0 <= k < vs.len() ==> fields_input_wf(#[trigger] vs[k].fields)
}

/// One variant: its fields, then its discriminant.
fn variant(v: VariantInput) -> (r: Result<VariantSchema, SchemaError>)
    requires
        fields_input_wf(v.fields),
    ensures
        match variant_error(seq![v])(0) {
            Some(e) => r == Err::<VariantSchema, SchemaError>(e),
            None => r is Ok && variant_built(v, r->Ok_0),
        },
{
    let VariantInput { ident, fields, discriminant } = v;
    let fields = match interpret_fields(fields) {
        Ok(fields) => fields,
        Err(e) => return Err(e),
    };
    match discriminant {
        Some(d) => Ok(VariantSchema { ident, fields, discriminant: d }),
        None => Err(SchemaError::MissingDiscriminant),
    }
}

/// The variants in order; fails with the first variant's error.
fn variants_schema(vs: Vec<VariantInput>) -> (r: Result<Vec<VariantSchema>, SchemaError>)
    requires
        variants_wf(vs@),
    ensures
        match first_error(vs@.len(), variant_error(vs@)) {
            Some(e) => r == Err::<Vec<VariantSchema>, SchemaError>(e),
            None => r is Ok && r->Ok_0@.len() == vs@.len() && forall|k: int|
                0 <= k < vs@.len() ==> variant_built(vs@[k], #[trigger] r->Ok_0@[k]),
        },
{
    let ghost all = vs@;
    let ghost f = variant_error(all);
    let mut rest = vs;
    let n = rest.len();
    let mut out: Vec<VariantSchema> = Vec::new();
    let mut i: usize = 0;
    assert(all.subrange(0, n as int) =~= all);
    while i < n
        invariant
            all == vs@,
            n == all.len(),
            i <= n,
            f == variant_error(all),
            rest@ == all.subrange(i as int, n as int),
            variants_wf(all),
            first_error(i as nat, f) is None,
            out@.len() == i,
            forall|k: int| 0 <= k < i ==> variant_built(all[k], #[trigger] out@[k]),
        decreases n - i,
    {
        let v = rest.remove(0);
        assert(v == all[i as int]);
        assert(rest@ =~= all.subrange(i + 1, n as int));
        assert(variant_error(seq![v])(0) == f(i as nat));
        match variant(v) {
            Ok(schema) => {
                out.push(schema);
            },
            Err(e) => {
                proof {
                    assert(first_error((i + 1) as nat, f) == Some(e));
                    lemma_first_error((i + 1) as nat, n as nat, f);
                }
                return Err(e);
            },
        }
        i = i + 1;
    }
    Ok(out)
}

/// Interprets an enum: the discriminant type from its first `repr`
/// attribute, the discriminant codec from its attributes, then its variants.
pub fn enum_schema(
    ident: String,
    reprs: Vec<ReprInput>,
    attrs: Vec<AttrInput>,
    variants: Vec<VariantInput>,
) -> (r: Result<DeriveSchema, SchemaError>)
    requires
        attrs_wf(attrs@),
        variants_wf(variants@),
    ensures
        enum_outcome(ident, reprs@, attrs@, variants@, r),
{
    let repr = match repr_type(reprs) {
        Ok(t) => t,
        Err(e) => return Err(e),
    };
    let discriminator = match build_codec_schema(Some(repr), attrs) {
        Ok(codec) => codec,
        Err(e) => return Err(e),
    };
    match variants_schema(variants) {
        Ok(vs) => Ok(DeriveSchema::Enum { ident, discriminator, variants: vs }),
        Err(e) => Err(e),
    }
}

/// Interprets the type that a derive macro is applied to: a struct by its
/// fields, an enum as [`enum_schema`] does; other kinds are refused.
pub fn interpret_derive_schema(
    ident: String,
    reprs: Vec<ReprInput>,
    attrs: Vec<AttrInput>,
    data: DataInput,
) -> (r: Result<DeriveSchema, SchemaError>)
    requires
        attrs_wf(attrs@),
        match data {
            DataInput::Struct(fields) => fields_input_wf(fields),
            DataInput::Enum(vs) => variants_wf(vs@),
            DataInput::Union => true,
        },
    ensures
        match data {
            DataInput::Struct(fields) => match spec_fields_error(fields) {
                Some(e) => r == Err::<DeriveSchema, SchemaError>(e),
                None => r is Ok && struct_built(ident, fields, r->Ok_0),
            },
            DataInput::Enum(vs) => enum_outcome(ident, reprs@, attrs@, vs@, r),
            DataInput::Union => r == Err::<DeriveSchema, SchemaError>(SchemaError::Unsupported),
        },
{
    match data {
        DataInput::Struct(fields) => match interpret_fields(fields) {
            Ok(fields) => Ok(DeriveSchema::Struct { ident, fields }),
            Err(e) => Err(e),
        },
        DataInput::Enum(vs) => enum_schema(ident, reprs, attrs, vs),
        DataInput::Union => Err(SchemaError::Unsupported),
    }
}

/// The message that reports a code generation error.
pub open spec fn spec_schema_message(e: SchemaError) -> Seq<char> {
    match e {
        SchemaError::Attr(e) => spec_attr_message(e),
        SchemaError::InvalidAttribute => "Invalid byten attribute format"@,
        SchemaError::FixedEnum => "Fixed measure is not yet supported for enums"@,
        SchemaError::Unsupported => "Only structs and enums are supported"@,
        SchemaError::MissingRepr => "Enum must have a repr attribute"@,
        SchemaError::InvalidRepr => "Invalid repr attribute format"@,
        SchemaError::MissingDiscriminant => "Enum variants must have discriminants"@,
        SchemaError::Syntax(m) => m@,
        SchemaError::MissingFieldName => "Named field must have an identifier"@,
        SchemaError::UnexpectedFieldName => "Unnamed field must not have an identifier"@,
    }
}

impl SchemaError {
    /// The message that reports the error.
    pub fn message(&self) -> (r: String)
        ensures
            r@ == spec_schema_message(*self),
    {
        let mut s = String::new();
        match self {
            SchemaError::Attr(e) => {
                s = e.message();
            },
            SchemaError::InvalidAttribute => {
                s.append("Invalid byten attribute format");
            },
            SchemaError::FixedEnum => {
                s.append("Fixed measure is not yet supported for enums");
            },
            SchemaError::Unsupported => {
                s.append("Only structs and enums are supported");
            },
            SchemaError::MissingRepr => {
                s.append("Enum must have a repr attribute");
            },
            SchemaError::InvalidRepr => {
                s.append("Invalid repr attribute format");
            },
            SchemaError::MissingDiscriminant => {
                s.append("Enum variants must have discriminants");
            },
            SchemaError::Syntax(m) => {
                s.append(m.as_str());
            },
            SchemaError::MissingFieldName => {
                s.append("Named field must have an identifier");
            },
            SchemaError::UnexpectedFieldName => {
                s.append("Unnamed field must not have an identifier");
            },
        }
        s
    }
}

} // verus!
