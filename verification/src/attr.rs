//! The `#[byten(...)]` attribute language: a pipeline of steps that builds
//! the codec expression of a field, a type or an inline `byten!(...)`.
//!
//! A pipeline is read left to right. Each step either replaces the codec
//! built so far (a type, `{ expr }`, `= expr`, `..`, `$bytes[length]`) or
//! wraps it (`$own`, `$opt`, `$utf8`, `box`, `$arr`, `$vec[length]`, and
//! `$be`, `$le`, `$uvarbe` on a type). The bracketed groups hold nested
//! pipelines.
//! Types and expressions are carried as the source text of their tokens.
use vstd::prelude::*;

use vstd::string::StringExecFns;

verus! {

/// The codec built so far by a pipeline.
pub enum Operand {
    /// The default codec of the type in context.
    Default,
    /// The default codec of a type.
    Type(String),
    /// A big-endian codec of an integer type.
    BigEndian(String),
    /// A little-endian codec of an integer type.
    LittleEndian(String),
    /// A vector codec from an item codec and a length codec.
    Vec(Box<Operand>, Box<Operand>),
    /// A boxed-value codec around a codec.
    Boxed(Box<Operand>),
    /// A codec of a constant value with no bytes, given as an expression.
    Phantom(String),
    /// An owned-data codec around a codec.
    Own(Box<Operand>),
    /// An optional-value codec around a codec.
    Opt(Box<Operand>),
    /// A UTF-8 string codec around a bytes codec.
    Utf8(Box<Operand>),
    /// A codec given as an expression.
    Custom(String),
    /// A variable-length big-endian codec of an unsigned integer type.
    UVarBE(String),
    /// A length-prefixed bytes codec from a length codec.
    Bytes(Box<Operand>),
    /// The codec of all remaining bytes.
    Remaining,
    /// A fixed-size array codec from an item codec.
    Arr(Box<Operand>),
}

/// One step of a pipeline, as it was read from the tokens.
pub enum Step {
    /// `{ expr }`: the expression is the codec.
    Braced(String),
    /// `..`: the codec of all remaining bytes.
    Rest,
    /// `box`: the codec built so far, for boxed values.
    Boxed,
    /// `= expr`: the constant value, coded with no bytes.
    Constant(String),
    /// `$name`, with the codecs of the nested pipelines in the bracketed
    /// groups that follow it (see [`modifier_groups`]).
    Modifier(String, Vec<Operand>),
    /// A type: its default codec.
    Type(String),
}

/// Why a pipeline could not be built.
pub enum AttrError {
    /// `$name` names no modifier.
    UnknownModifier(String),
    /// A modifier that needs a type follows a codec that is no type.
    NotAType,
}

/// The number of bracketed groups that the modifier `name` reads.
pub open spec fn spec_modifier_groups(name: Seq<char>) -> nat {
    if name == "bytes"@ || name == "vec"@ {
        1
    } else {
        0
    }
}

/// The type of a codec that is a type's default codec.
pub open spec fn operand_type(op: Operand) -> Result<String, AttrError> {
    match op {
        Operand::Type(t) => Ok(t),
        _ => Err(AttrError::NotAType),
    }
}

/// What the modifier `name` makes of the codec built so far and of the
/// codecs in its groups.
pub open spec fn spec_modifier(op: Operand, name: String, groups: Seq<Operand>) -> Result<
    Operand,
    AttrError,
> {
    if name@ == "own"@ {
        Ok(Operand::Own(Box::new(op)))
    } else if name@ == "be"@ {
        match operand_type(op) {
            Ok(t) => Ok(Operand::BigEndian(t)),
            Err(e) => Err(e),
        }
    } else if name@ == "le"@ {
        match operand_type(op) {
            Ok(t) => Ok(Operand::LittleEndian(t)),
            Err(e) => Err(e),
        }
    } else if name@ == "uvarbe"@ {
        match operand_type(op) {
            Ok(t) => Ok(Operand::UVarBE(t)),
            Err(e) => Err(e),
        }
    } else if name@ == "bytes"@ {
        Ok(Operand::Bytes(Box::new(groups[0])))
    } else if name@ == "vec"@ {
        Ok(Operand::Vec(Box::new(op), Box::new(groups[0])))
    } else if name@ == "arr"@ {
        Ok(Operand::Arr(Box::new(op)))
    } else if name@ == "opt"@ {
        Ok(Operand::Opt(Box::new(op)))
    } else if name@ == "utf8"@ {
        Ok(Operand::Utf8(Box::new(op)))
    } else {
        Err(AttrError::UnknownModifier(name))
    }
}

/// What one step makes of the codec built so far.
pub open spec fn spec_step(op: Operand, step: Step) -> Result<Operand, AttrError> {
    match step {
        Step::Braced(e) => Ok(Operand::Custom(e)),
        Step::Rest => Ok(Operand::Remaining),
        Step::Boxed => Ok(Operand::Boxed(Box::new(op))),
        Step::Constant(e) => Ok(Operand::Phantom(e)),
        Step::Modifier(name, groups) => spec_modifier(op, name, groups@),
        Step::Type(t) => Ok(Operand::Type(t)),
    }
}

/// A step whose modifier comes with the groups that it reads.
pub open spec fn step_wf(step: Step) -> bool {
    match step {
        Step::Modifier(name, groups) => groups@.len() == spec_modifier_groups(name@),
        _ => true,
    }
}

/// The steps applied one after the other, stopping at the first error.
pub open spec fn spec_pipeline(start: Operand, steps: Seq<Step>) -> Result<Operand, AttrError>
    decreases steps.len(),
{
    if steps.len() == 0 {
        Ok(start)
    } else {
        match spec_pipeline(start, steps.drop_last()) {
            Ok(op) => spec_step(op, steps.last()),
            Err(e) => Err(e),
        }
    }
}

/// The Rust expression, as source text, that builds the codec.
pub open spec fn spec_codec_expr(op: Operand) -> Seq<char>
    decreases op,
{
    match op {
        Operand::Default => "::byten::DefaultCodec::default_codec()"@,
        Operand::Type(t) => "<"@ + t@ + " as ::byten::DefaultCodec>::default_codec()"@,
        Operand::BigEndian(t) => "::byten::EndianCodec::<"@ + t@
            + ">::new(::byten::Endianness::Big)"@,
        Operand::LittleEndian(t) => "::byten::EndianCodec::<"@ + t@
            + ">::new(::byten::Endianness::Little)"@,
        Operand::Vec(item, length) => "::byten::VecCodec::new("@ + spec_codec_expr(*item) + ", "@
            + spec_codec_expr(*length) + ")"@,
        Operand::Boxed(base) => "::byten::BoxCodec::new("@ + spec_codec_expr(*base) + ")"@,
        Operand::Phantom(e) => "::byten::PhantomCodec::new("@ + e@ + ")"@,
        Operand::Own(base) => "::byten::OwnedCodec::new("@ + spec_codec_expr(*base) + ")"@,
        Operand::Opt(base) => "::byten::OptionCodec::new("@ + spec_codec_expr(*base) + ")"@,
        Operand::Utf8(base) => "::byten::UTF8Codec::new("@ + spec_codec_expr(*base) + ")"@,
        Operand::Custom(e) => e@,
        Operand::UVarBE(t) => "::byten::UVarBECodec::<"@ + t@ + ">::new()"@,
        Operand::Bytes(length) => "::byten::BytesCodec::new("@ + spec_codec_expr(*length) + ")"@,
        Operand::Remaining => "::byten::RemainingCodec::new()"@,
        Operand::Arr(item) => "::byten::ArrayCodec::new("@ + spec_codec_expr(*item) + ")"@,
    }
}

/// Whether two strings hold the same characters.
fn same_text(a: &String, b: &str) -> (r: bool)
    ensures
        r == (a@ == b@),
{
    let b_owned = String::from_str(b);
    *a == b_owned
}

/// The number of bracketed groups that the modifier `name` reads after its
/// name: `$bytes[length]` and `$vec[length]` one, every other modifier none.
pub fn modifier_groups(name: &String) -> (r: usize)
    ensures
        r == spec_modifier_groups(name@),
{
    if same_text(name, "bytes") || same_text(name, "vec") {
        1
    } else {
        0
    }
}

/// The type of the codec built so far, which must be a type's default codec.
fn take_type(op: Operand) -> (r: Result<String, AttrError>)
    ensures
        r == operand_type(op),
{
    match op {
        Operand::Type(t) => Ok(t),
        _ => Err(AttrError::NotAType),
    }
}

/// Applies the modifier `name` to the codec built so far.
fn apply_modifier(op: Operand, name: String, groups: Vec<Operand>) -> (r: Result<
    Operand,
    AttrError,
>)
    requires
        groups@.len() == spec_modifier_groups(name@),
    ensures
        r == spec_modifier(op, name, groups@),
{
    let mut groups = groups;
    if same_text(&name, "own") {
        Ok(Operand::Own(Box::new(op)))
    } else if same_text(&name, "be") {
        match take_type(op) {
            Ok(t) => Ok(Operand::BigEndian(t)),
            Err(e) => Err(e),
        }
    } else if same_text(&name, "le") {
        match take_type(op) {
            Ok(t) => Ok(Operand::LittleEndian(t)),
            Err(e) => Err(e),
        }
    } else if same_text(&name, "uvarbe") {
        match take_type(op) {
            Ok(t) => Ok(Operand::UVarBE(t)),
            Err(e) => Err(e),
        }
    } else if same_text(&name, "bytes") {
        let length = groups.remove(0);
        Ok(Operand::Bytes(Box::new(length)))
    } else if same_text(&name, "vec") {
        let length = groups.remove(0);
        Ok(Operand::Vec(Box::new(op), Box::new(length)))
    } else if same_text(&name, "arr") {
        Ok(Operand::Arr(Box::new(op)))
    } else if same_text(&name, "opt") {
        Ok(Operand::Opt(Box::new(op)))
    } else if same_text(&name, "utf8") {
        Ok(Operand::Utf8(Box::new(op)))
    } else {
        Err(AttrError::UnknownModifier(name))
    }
}

/// Applies one step of a pipeline to the codec built so far.
pub fn apply_step(op: Operand, step: Step) -> (r: Result<Operand, AttrError>)
    requires
        step_wf(step),
    ensures
        r == spec_step(op, step),
{
    match step {
        Step::Braced(e) => Ok(Operand::Custom(e)),
        Step::Rest => Ok(Operand::Remaining),
        Step::Boxed => Ok(Operand::Boxed(Box::new(op))),
        Step::Constant(e) => Ok(Operand::Phantom(e)),
        Step::Modifier(name, groups) => apply_modifier(op, name, groups),
        Step::Type(t) => Ok(Operand::Type(t)),
    }
}

/// Applies the steps of a pipeline one after the other, starting from
/// `start`, and stops at the first error.
pub fn build_pipeline(start: Operand, steps: Vec<Step>) -> (r: Result<Operand, AttrError>)
    requires
        forall|i: int| 0 <= i < steps@.len() ==> step_wf(#[trigger] steps@[i]),
    ensures
        r == spec_pipeline(start, steps@),
{
    let ghost all = steps@;
    let mut op = start;
    let mut rest = steps;
    let n = rest.len();
    let mut i: usize = 0;
    assert(all.take(0) =~= Seq::<Step>::empty());
    assert(all.subrange(0, n as int) =~= all);
    while i < n
        invariant
            all == steps@,
            n == all.len(),
            i <= n,
            rest@ == all.subrange(i as int, n as int),
            forall|k: int| 0 <= k < all.len() ==> step_wf(#[trigger] all[k]),
            spec_pipeline(start, all.take(i as int)) == Ok::<Operand, AttrError>(op),
        decreases n - i,
    {
        let step = rest.remove(0);
        assert(step == all[i as int]);
        assert(rest@ =~= all.subrange(i + 1, n as int));
        assert(all.take(i + 1).drop_last() =~= all.take(i as int));
        let ghost prev = op;
        assert(all.take(i + 1).last() == step);
        match apply_step(op, step) {
            Ok(next) => {
                op = next;
            },
            Err(e) => {
                proof {
                    assert(spec_pipeline(start, all.take(i + 1)) == spec_step(prev, step));
                    lemma_pipeline_err(start, all, i + 1);
                }
                return Err(e);
            },
        }
        i = i + 1;
    }
    assert(all.take(n as int) =~= all);
    Ok(op)
}

/// Once a prefix of the steps fails, the whole pipeline fails the same way.
pub proof fn lemma_pipeline_err(start: Operand, steps: Seq<Step>, k: int)
    requires
        0 <= k <= steps.len(),
        spec_pipeline(start, steps.take(k)) is Err,
    ensures
        spec_pipeline(start, steps) == spec_pipeline(start, steps.take(k)),
    decreases steps.len(),
{
    if k == steps.len() {
        assert(steps.take(k) =~= steps);
    } else {
        assert(steps.drop_last().take(k) =~= steps.take(k));
        lemma_pipeline_err(start, steps.drop_last(), k);
    }
}

/// The Rust expression, as source text, that builds the codec.
pub fn codec_expr(op: &Operand) -> (r: String)
    ensures
        r@ == spec_codec_expr(*op),
    decreases op,
{
    let mut s = String::new();
    match op {
        Operand::Default => {
            s.append("::byten::DefaultCodec::default_codec()");
        },
        Operand::Type(t) => {
            s.append("<");
            s.append(t.as_str());
            s.append(" as ::byten::DefaultCodec>::default_codec()");
        },
        Operand::BigEndian(t) => {
            s.append("::byten::EndianCodec::<");
            s.append(t.as_str());
            s.append(">::new(::byten::Endianness::Big)");
        },
        Operand::LittleEndian(t) => {
            s.append("::byten::EndianCodec::<");
            s.append(t.as_str());
            s.append(">::new(::byten::Endianness::Little)");
        },
        Operand::Vec(item, length) => {
            s.append("::byten::VecCodec::new(");
            let item_text = codec_expr(&**item);
            s.append(item_text.as_str());
            s.append(", ");
            let length_text = codec_expr(&**length);
            s.append(length_text.as_str());
            s.append(")");
        },
        Operand::Boxed(base) => {
            s.append("::byten::BoxCodec::new(");
            let base_text = codec_expr(&**base);
            s.append(base_text.as_str());
            s.append(")");
        },
        Operand::Phantom(e) => {
            s.append("::byten::PhantomCodec::new(");
            s.append(e.as_str());
            s.append(")");
        },
        Operand::Own(base) => {
            s.append("::byten::OwnedCodec::new(");
            let base_text = codec_expr(&**base);
            s.append(base_text.as_str());
            s.append(")");
        },
        Operand::Opt(base) => {
            s.append("::byten::OptionCodec::new(");
            let base_text = codec_expr(&**base);
            s.append(base_text.as_str());
            s.append(")");
        },
        Operand::Utf8(base) => {
            s.append("::byten::UTF8Codec::new(");
            let base_text = codec_expr(&**base);
            s.append(base_text.as_str());
            s.append(")");
        },
        Operand::Custom(e) => {
            s.append(e.as_str());
        },
        Operand::UVarBE(t) => {
            s.append("::byten::UVarBECodec::<");
            s.append(t.as_str());
            s.append(">::new()");
        },
        Operand::Bytes(length) => {
            s.append("::byten::BytesCodec::new(");
            let length_text = codec_expr(&**length);
            s.append(length_text.as_str());
            s.append(")");
        },
        Operand::Remaining => {
            s.append("::byten::RemainingCodec::new()");
        },
        Operand::Arr(item) => {
            s.append("::byten::ArrayCodec::new(");
            let item_text = codec_expr(&**item);
            s.append(item_text.as_str());
            s.append(")");
        },
    }
    s
}

/// The message that reports an attribute error.
pub open spec fn spec_attr_message(e: AttrError) -> Seq<char> {
    match e {
        AttrError::UnknownModifier(name) => "Unknown codec modifier: "@ + name@,
        AttrError::NotAType => "Operand does not support type extraction"@,
    }
}

impl AttrError {
    /// The message that reports the error.
    pub fn message(&self) -> (r: String)
        ensures
            r@ == spec_attr_message(*self),
    {
        let mut s = String::new();
        match self {
            AttrError::UnknownModifier(name) => {
                s.append("Unknown codec modifier: ");
                s.append(name.as_str());
            },
            AttrError::NotAType => {
                s.append("Operand does not support type extraction");
            },
        }
        s
    }
}

} // verus!
