//! Entry blocks: the shapes of blocks, their names, and their JSON form.

use vstd::prelude::*;

use crate::ir::{BinOp, UnaryOp};
use crate::var::VarKind;
use crate::text::str_is;

verus! {

/// Palette category of a block.
#[derive(Debug, Clone, Copy, PartialEq, Eq, Structural)]
pub enum Category {
    General,
    Flow,
    Judgment,
    Calc,
    String,
    Variable,
    Data,
    Start,
    Looks,
    Sound,
    Pen,
    Define,
    Hardware,
    Movement,
    Text,
    Unknown,
}

/// Speech bubble or thought bubble.
#[derive(Debug, Clone, Copy, PartialEq, Eq, Structural)]
pub enum DialogMode {
    Say,
    Think,
}

/// Quotient or remainder.
#[derive(Debug, Clone, Copy, PartialEq, Eq, Structural)]
pub enum QamMethod {
    Quotient,
    Mod,
}

/// Width or height.
#[derive(Debug, Clone, Copy, PartialEq, Eq, Structural)]
pub enum Dimension {
    Width,
    Height,
}

/// One-argument math functions of the calculation palette.
#[derive(Debug, Clone, Copy, PartialEq, Eq, Structural)]
pub enum MathOperation {
    Abs,
    Sqrt,
    Sin,
    Cos,
    Tan,
    Asin,
    Acos,
    Atan,
    Ln,
    Log,
    Exp,
    Pow10,
}

/// Graphic effects of an object.
#[derive(Debug, Clone, Copy, PartialEq, Eq, Structural)]
pub enum EffectType {
    Color,
    Brightness,
    GhostEffect,
    Fisheye,
    Whirl,
    Pixelate,
    Mosaic,
    Negative,
}

/// Text effects of a text box.
#[derive(Debug, Clone, Copy, PartialEq, Eq, Structural)]
pub enum TextEffect {
    Strike,
    UnderLine,
    FontItalic,
    FontBlold,
}

/// Entry name of a graphic effect.
pub open spec fn effect_name(e: EffectType) -> Seq<char> {
    match e {
        EffectType::Color => "color"@,
        EffectType::Brightness => "brightness"@,
        EffectType::GhostEffect => "ghost"@,
        EffectType::Fisheye => "fisheye"@,
        EffectType::Whirl => "whirl"@,
        EffectType::Pixelate => "pixelate"@,
        EffectType::Mosaic => "mosaic"@,
        EffectType::Negative => "negative"@,
    }
}

/// Entry name of a graphic effect.
pub fn effect_to_str(e: EffectType) -> (r: &'static str)
    ensures
        r@ == effect_name(e),
{
    match e {
        EffectType::Color => "color",
        EffectType::Brightness => "brightness",
        EffectType::GhostEffect => "ghost",
        EffectType::Fisheye => "fisheye",
        EffectType::Whirl => "whirl",
        EffectType::Pixelate => "pixelate",
        EffectType::Mosaic => "mosaic",
        EffectType::Negative => "negative",
    }
}

/// Graphic effect with the given Entry name.
pub open spec fn effect_named(s: Seq<char>) -> Option<EffectType> {
    if s == "color"@ {
        Some(EffectType::Color)
    } else if s == "brightness"@ {
        Some(EffectType::Brightness)
    } else if s == "ghost"@ {
        Some(EffectType::GhostEffect)
    } else if s == "fisheye"@ {
        Some(EffectType::Fisheye)
    } else if s == "whirl"@ {
        Some(EffectType::Whirl)
    } else if s == "pixelate"@ {
        Some(EffectType::Pixelate)
    } else if s == "mosaic"@ {
        Some(EffectType::Mosaic)
    } else if s == "negative"@ {
        Some(EffectType::Negative)
    } else {
        None
    }
}

/// Graphic effect with the given Entry name.
pub fn str_to_effect(s: &str) -> (r: Option<EffectType>)
    ensures
        r == effect_named(s@),
{
    if crate::text::str_is(s, "color") {
        Some(EffectType::Color)
    } else if crate::text::str_is(s, "brightness") {
        Some(EffectType::Brightness)
    } else if crate::text::str_is(s, "ghost") {
        Some(EffectType::GhostEffect)
    } else if crate::text::str_is(s, "fisheye") {
        Some(EffectType::Fisheye)
    } else if crate::text::str_is(s, "whirl") {
        Some(EffectType::Whirl)
    } else if crate::text::str_is(s, "pixelate") {
        Some(EffectType::Pixelate)
    } else if crate::text::str_is(s, "mosaic") {
        Some(EffectType::Mosaic)
    } else if crate::text::str_is(s, "negative") {
        Some(EffectType::Negative)
    } else {
        None
    }
}

/// Reading back the name of a value gives the value.
pub proof fn lemma_effect_name_roundtrip(e: EffectType)
    ensures
        effect_named(effect_name(e)) == Some(e),
{
    reveal_strlit("color");
    reveal_strlit("brightness");
    reveal_strlit("ghost");
    reveal_strlit("fisheye");
    reveal_strlit("whirl");
    reveal_strlit("pixelate");
    reveal_strlit("mosaic");
    reveal_strlit("negative");
    assert("color"@.len() == 5 && "color"@[0] == 'c' && "color"@[1] == 'o' && "color"@[2] == 'l' && "color"@[3] == 'o' && "color"@[4] == 'r');
    assert("brightness"@.len() == 10 && "brightness"@[0] == 'b' && "brightness"@[1] == 'r' && "brightness"@[2] == 'i' && "brightness"@[3] == 'g' && "brightness"@[4] == 'h' && "brightness"@[5] == 't' && "brightness"@[6] == 'n' && "brightness"@[7] == 'e' && "brightness"@[8] == 's' && "brightness"@[9] == 's');
    assert("ghost"@.len() == 5 && "ghost"@[0] == 'g' && "ghost"@[1] == 'h' && "ghost"@[2] == 'o' && "ghost"@[3] == 's' && "ghost"@[4] == 't');
    assert("fisheye"@.len() == 7 && "fisheye"@[0] == 'f' && "fisheye"@[1] == 'i' && "fisheye"@[2] == 's' && "fisheye"@[3] == 'h' && "fisheye"@[4] == 'e' && "fisheye"@[5] == 'y' && "fisheye"@[6] == 'e');
    assert("whirl"@.len() == 5 && "whirl"@[0] == 'w' && "whirl"@[1] == 'h' && "whirl"@[2] == 'i' && "whirl"@[3] == 'r' && "whirl"@[4] == 'l');
    assert("pixelate"@.len() == 8 && "pixelate"@[0] == 'p' && "pixelate"@[1] == 'i' && "pixelate"@[2] == 'x' && "pixelate"@[3] == 'e' && "pixelate"@[4] == 'l' && "pixelate"@[5] == 'a' && "pixelate"@[6] == 't' && "pixelate"@[7] == 'e');
    assert("mosaic"@.len() == 6 && "mosaic"@[0] == 'm' && "mosaic"@[1] == 'o' && "mosaic"@[2] == 's' && "mosaic"@[3] == 'a' && "mosaic"@[4] == 'i' && "mosaic"@[5] == 'c');
    assert("negative"@.len() == 8 && "negative"@[0] == 'n' && "negative"@[1] == 'e' && "negative"@[2] == 'g' && "negative"@[3] == 'a' && "negative"@[4] == 't' && "negative"@[5] == 'i' && "negative"@[6] == 'v' && "negative"@[7] == 'e');
}

/// Entry name of a text effect.
pub open spec fn text_effect_name(e: TextEffect) -> Seq<char> {
    match e {
        TextEffect::Strike => "strike"@,
        TextEffect::UnderLine => "underLine"@,
        TextEffect::FontItalic => "fontItalic"@,
        TextEffect::FontBlold => "fontBold"@,
    }
}

/// Entry name of a text effect.
pub fn text_effect_to_str(e: TextEffect) -> (r: &'static str)
    ensures
        r@ == text_effect_name(e),
{
    match e {
        TextEffect::Strike => "strike",
        TextEffect::UnderLine => "underLine",
        TextEffect::FontItalic => "fontItalic",
        TextEffect::FontBlold => "fontBold",
    }
}

/// Text effect with the given Entry name.
pub open spec fn text_effect_named(s: Seq<char>) -> Option<TextEffect> {
    if s == "strike"@ {
        Some(TextEffect::Strike)
    } else if s == "underLine"@ {
        Some(TextEffect::UnderLine)
    } else if s == "fontItalic"@ {
        Some(TextEffect::FontItalic)
    } else if s == "fontBold"@ {
        Some(TextEffect::FontBlold)
    } else {
        None
    }
}

/// Text effect with the given Entry name.
pub fn str_to_text_effect(s: &str) -> (r: Option<TextEffect>)
    ensures
        r == text_effect_named(s@),
{
    if crate::text::str_is(s, "strike") {
        Some(TextEffect::Strike)
    } else if crate::text::str_is(s, "underLine") {
        Some(TextEffect::UnderLine)
    } else if crate::text::str_is(s, "fontItalic") {
        Some(TextEffect::FontItalic)
    } else if crate::text::str_is(s, "fontBold") {
        Some(TextEffect::FontBlold)
    } else {
        None
    }
}

/// Reading back the name of a value gives the value.
pub proof fn lemma_text_effect_name_roundtrip(e: TextEffect)
    ensures
        text_effect_named(text_effect_name(e)) == Some(e),
{
    reveal_strlit("strike");
    reveal_strlit("underLine");
    reveal_strlit("fontItalic");
    reveal_strlit("fontBold");
    assert("strike"@.len() == 6 && "strike"@[0] == 's' && "strike"@[1] == 't' && "strike"@[2] == 'r' && "strike"@[3] == 'i' && "strike"@[4] == 'k' && "strike"@[5] == 'e');
    assert("underLine"@.len() == 9 && "underLine"@[0] == 'u' && "underLine"@[1] == 'n' && "underLine"@[2] == 'd' && "underLine"@[3] == 'e' && "underLine"@[4] == 'r' && "underLine"@[5] == 'L' && "underLine"@[6] == 'i' && "underLine"@[7] == 'n' && "underLine"@[8] == 'e');
    assert("fontItalic"@.len() == 10 && "fontItalic"@[0] == 'f' && "fontItalic"@[1] == 'o' && "fontItalic"@[2] == 'n' && "fontItalic"@[3] == 't' && "fontItalic"@[4] == 'I' && "fontItalic"@[5] == 't' && "fontItalic"@[6] == 'a' && "fontItalic"@[7] == 'l' && "fontItalic"@[8] == 'i' && "fontItalic"@[9] == 'c');
    assert("fontBold"@.len() == 8 && "fontBold"@[0] == 'f' && "fontBold"@[1] == 'o' && "fontBold"@[2] == 'n' && "fontBold"@[3] == 't' && "fontBold"@[4] == 'B' && "fontBold"@[5] == 'o' && "fontBold"@[6] == 'l' && "fontBold"@[7] == 'd');
}

/// Entry dropdown value of a dimension (upper case).
pub open spec fn dim_name(e: Dimension) -> Seq<char> {
    match e {
        Dimension::Width => "WIDTH"@,
        Dimension::Height => "HEIGHT"@,
    }
}

/// Entry dropdown value of a dimension (upper case).
pub fn dim_to_str(e: Dimension) -> (r: &'static str)
    ensures
        r@ == dim_name(e),
{
    match e {
        Dimension::Width => "WIDTH",
        Dimension::Height => "HEIGHT",
    }
}

/// Source-level name of a dimension (lower case).
pub open spec fn dim_dsl_name(e: Dimension) -> Seq<char> {
    match e {
        Dimension::Width => "width"@,
        Dimension::Height => "height"@,
    }
}

/// Source-level name of a dimension (lower case).
pub fn dim_to_dsl_str(e: Dimension) -> (r: &'static str)
    ensures
        r@ == dim_dsl_name(e),
{
    match e {
        Dimension::Width => "width",
        Dimension::Height => "height",
    }
}

/// Dimension with the given source-level name.
pub open spec fn dim_named(s: Seq<char>) -> Option<Dimension> {
    if s == "width"@ {
        Some(Dimension::Width)
    } else if s == "height"@ {
        Some(Dimension::Height)
    } else {
        None
    }
}

/// Dimension with the given source-level name.
pub fn str_to_dim(s: &str) -> (r: Option<Dimension>)
    ensures
        r == dim_named(s@),
{
    if crate::text::str_is(s, "width") {
        Some(Dimension::Width)
    } else if crate::text::str_is(s, "height") {
        Some(Dimension::Height)
    } else {
        None
    }
}

/// Reading back the name of a value gives the value.
pub proof fn lemma_dim_name_roundtrip(e: Dimension)
    ensures
        dim_named(dim_dsl_name(e)) == Some(e),
{
    reveal_strlit("width");
    reveal_strlit("height");
    assert("width"@.len() == 5 && "width"@[0] == 'w' && "width"@[1] == 'i' && "width"@[2] == 'd' && "width"@[3] == 't' && "width"@[4] == 'h');
    assert("height"@.len() == 6 && "height"@[0] == 'h' && "height"@[1] == 'e' && "height"@[2] == 'i' && "height"@[3] == 'g' && "height"@[4] == 'h' && "height"@[5] == 't');
}

/// Name of a math function.
pub open spec fn math_op_name(e: MathOperation) -> Seq<char> {
    match e {
        MathOperation::Abs => "abs"@,
        MathOperation::Sqrt => "sqrt"@,
        MathOperation::Sin => "sin"@,
        MathOperation::Cos => "cos"@,
        MathOperation::Tan => "tan"@,
        MathOperation::Asin => "asin"@,
        MathOperation::Acos => "acos"@,
        MathOperation::Atan => "atan"@,
        MathOperation::Ln => "ln"@,
        MathOperation::Log => "log"@,
        MathOperation::Exp => "exp"@,
        MathOperation::Pow10 => "pow10"@,
    }
}

/// Name of a math function.
pub fn math_op_to_name(e: MathOperation) -> (r: &'static str)
    ensures
        r@ == math_op_name(e),
{
    match e {
        MathOperation::Abs => "abs",
        MathOperation::Sqrt => "sqrt",
        MathOperation::Sin => "sin",
        MathOperation::Cos => "cos",
        MathOperation::Tan => "tan",
        MathOperation::Asin => "asin",
        MathOperation::Acos => "acos",
        MathOperation::Atan => "atan",
        MathOperation::Ln => "ln",
        MathOperation::Log => "log",
        MathOperation::Exp => "exp",
        MathOperation::Pow10 => "pow10",
    }
}

/// Math function with the given name.
pub open spec fn math_op_named(s: Seq<char>) -> Option<MathOperation> {
    if s == "abs"@ {
        Some(MathOperation::Abs)
    } else if s == "sqrt"@ {
        Some(MathOperation::Sqrt)
    } else if s == "sin"@ {
        Some(MathOperation::Sin)
    } else if s == "cos"@ {
        Some(MathOperation::Cos)
    } else if s == "tan"@ {
        Some(MathOperation::Tan)
    } else if s == "asin"@ {
        Some(MathOperation::Asin)
    } else if s == "acos"@ {
        Some(MathOperation::Acos)
    } else if s == "atan"@ {
        Some(MathOperation::Atan)
    } else if s == "ln"@ {
        Some(MathOperation::Ln)
    } else if s == "log"@ {
        Some(MathOperation::Log)
    } else if s == "exp"@ {
        Some(MathOperation::Exp)
    } else if s == "pow10"@ {
        Some(MathOperation::Pow10)
    } else {
        None
    }
}

/// Math function with the given name.
pub fn calc_op_from_name(s: &str) -> (r: Option<MathOperation>)
    ensures
        r == math_op_named(s@),
{
    if crate::text::str_is(s, "abs") {
        Some(MathOperation::Abs)
    } else if crate::text::str_is(s, "sqrt") {
        Some(MathOperation::Sqrt)
    } else if crate::text::str_is(s, "sin") {
        Some(MathOperation::Sin)
    } else if crate::text::str_is(s, "cos") {
        Some(MathOperation::Cos)
    } else if crate::text::str_is(s, "tan") {
        Some(MathOperation::Tan)
    } else if crate::text::str_is(s, "asin") {
        Some(MathOperation::Asin)
    } else if crate::text::str_is(s, "acos") {
        Some(MathOperation::Acos)
    } else if crate::text::str_is(s, "atan") {
        Some(MathOperation::Atan)
    } else if crate::text::str_is(s, "ln") {
        Some(MathOperation::Ln)
    } else if crate::text::str_is(s, "log") {
        Some(MathOperation::Log)
    } else if crate::text::str_is(s, "exp") {
        Some(MathOperation::Exp)
    } else if crate::text::str_is(s, "pow10") {
        Some(MathOperation::Pow10)
    } else {
        None
    }
}

/// Reading back the name of a value gives the value.
pub proof fn lemma_math_op_roundtrip(e: MathOperation)
    ensures
        math_op_named(math_op_name(e)) == Some(e),
{
    reveal_strlit("abs");
    reveal_strlit("sqrt");
    reveal_strlit("sin");
    reveal_strlit("cos");
    reveal_strlit("tan");
    reveal_strlit("asin");
    reveal_strlit("acos");
    reveal_strlit("atan");
    reveal_strlit("ln");
    reveal_strlit("log");
    reveal_strlit("exp");
    reveal_strlit("pow10");
    assert("abs"@.len() == 3 && "abs"@[0] == 'a' && "abs"@[1] == 'b' && "abs"@[2] == 's');
    assert("sqrt"@.len() == 4 && "sqrt"@[0] == 's' && "sqrt"@[1] == 'q' && "sqrt"@[2] == 'r' && "sqrt"@[3] == 't');
    assert("sin"@.len() == 3 && "sin"@[0] == 's' && "sin"@[1] == 'i' && "sin"@[2] == 'n');
    assert("cos"@.len() == 3 && "cos"@[0] == 'c' && "cos"@[1] == 'o' && "cos"@[2] == 's');
    assert("tan"@.len() == 3 && "tan"@[0] == 't' && "tan"@[1] == 'a' && "tan"@[2] == 'n');
    assert("asin"@.len() == 4 && "asin"@[0] == 'a' && "asin"@[1] == 's' && "asin"@[2] == 'i' && "asin"@[3] == 'n');
    assert("acos"@.len() == 4 && "acos"@[0] == 'a' && "acos"@[1] == 'c' && "acos"@[2] == 'o' && "acos"@[3] == 's');
    assert("atan"@.len() == 4 && "atan"@[0] == 'a' && "atan"@[1] == 't' && "atan"@[2] == 'a' && "atan"@[3] == 'n');
    assert("ln"@.len() == 2 && "ln"@[0] == 'l' && "ln"@[1] == 'n');
    assert("log"@.len() == 3 && "log"@[0] == 'l' && "log"@[1] == 'o' && "log"@[2] == 'g');
    assert("exp"@.len() == 3 && "exp"@[0] == 'e' && "exp"@[1] == 'x' && "exp"@[2] == 'p');
    assert("pow10"@.len() == 5 && "pow10"@[0] == 'p' && "pow10"@[1] == 'o' && "pow10"@[2] == 'w' && "pow10"@[3] == '1' && "pow10"@[4] == '0');
}

/// Entry name of quotient/remainder.
pub open spec fn qam_name(e: QamMethod) -> Seq<char> {
    match e {
        QamMethod::Quotient => "quotient"@,
        QamMethod::Mod => "modulo"@,
    }
}

/// Entry name of quotient/remainder.
pub fn qam_to_str(e: QamMethod) -> (r: &'static str)
    ensures
        r@ == qam_name(e),
{
    match e {
        QamMethod::Quotient => "quotient",
        QamMethod::Mod => "modulo",
    }
}

/// Quotient/remainder by Entry name.
pub open spec fn qam_named(s: Seq<char>) -> Option<QamMethod> {
    if s == "quotient"@ {
        Some(QamMethod::Quotient)
    } else if s == "modulo"@ {
        Some(QamMethod::Mod)
    } else {
        None
    }
}

/// Quotient/remainder by Entry name.
pub fn str_to_qam(s: &str) -> (r: Option<QamMethod>)
    ensures
        r == qam_named(s@),
{
    if crate::text::str_is(s, "quotient") {
        Some(QamMethod::Quotient)
    } else if crate::text::str_is(s, "modulo") {
        Some(QamMethod::Mod)
    } else {
        None
    }
}

/// Reading back the name of a value gives the value.
pub proof fn lemma_qam_roundtrip(e: QamMethod)
    ensures
        qam_named(qam_name(e)) == Some(e),
{
    reveal_strlit("quotient");
    reveal_strlit("modulo");
    assert("quotient"@.len() == 8 && "quotient"@[0] == 'q' && "quotient"@[1] == 'u' && "quotient"@[2] == 'o' && "quotient"@[3] == 't' && "quotient"@[4] == 'i' && "quotient"@[5] == 'e' && "quotient"@[6] == 'n' && "quotient"@[7] == 't');
    assert("modulo"@.len() == 6 && "modulo"@[0] == 'm' && "modulo"@[1] == 'o' && "modulo"@[2] == 'd' && "modulo"@[3] == 'u' && "modulo"@[4] == 'l' && "modulo"@[5] == 'o');
}

/// Entry name of a bubble mode.
pub open spec fn dialog_mode_name(e: DialogMode) -> Seq<char> {
    match e {
        DialogMode::Say => "say"@,
        DialogMode::Think => "think"@,
    }
}

/// Entry name of a bubble mode.
pub fn dialog_mode_to_str(e: DialogMode) -> (r: &'static str)
    ensures
        r@ == dialog_mode_name(e),
{
    match e {
        DialogMode::Say => "say",
        DialogMode::Think => "think",
    }
}

/// Entry `variableType` of a variable kind.
pub open spec fn kind_name(e: VarKind) -> Seq<char> {
    match e {
        VarKind::Variable => "variable"@,
        VarKind::Timer => "timer"@,
        VarKind::Answer => "answer"@,
        VarKind::List => "list"@,
        VarKind::Cloud => "cloud"@,
        VarKind::RealTime => "realtime"@,
        VarKind::Unknown => "variable"@,
    }
}

/// Entry `variableType` of a variable kind.
pub fn kind_to_str(e: VarKind) -> (r: &'static str)
    ensures
        r@ == kind_name(e),
{
    match e {
        VarKind::Variable => "variable",
        VarKind::Timer => "timer",
        VarKind::Answer => "answer",
        VarKind::List => "list",
        VarKind::Cloud => "cloud",
        VarKind::RealTime => "realtime",
        VarKind::Unknown => "variable",
    }
}

/// Graphic effect by its variant name (as in `EffectType::Ghost`).
pub open spec fn effect_variant(s: Seq<char>) -> Option<EffectType> {
    if s == "Color"@ {
        Some(EffectType::Color)
    } else if s == "Brightness"@ {
        Some(EffectType::Brightness)
    } else if s == "Ghost"@ {
        Some(EffectType::GhostEffect)
    } else if s == "Fisheye"@ {
        Some(EffectType::Fisheye)
    } else if s == "Whirl"@ {
        Some(EffectType::Whirl)
    } else if s == "Pixelate"@ {
        Some(EffectType::Pixelate)
    } else if s == "Mosaic"@ {
        Some(EffectType::Mosaic)
    } else if s == "Negative"@ {
        Some(EffectType::Negative)
    } else {
        None
    }
}

/// Graphic effect by its variant name (as in `EffectType::Ghost`).
pub fn effect_from_variant(s: &str) -> (r: Option<EffectType>)
    ensures
        r == effect_variant(s@),
{
    if crate::text::str_is(s, "Color") {
        Some(EffectType::Color)
    } else if crate::text::str_is(s, "Brightness") {
        Some(EffectType::Brightness)
    } else if crate::text::str_is(s, "Ghost") {
        Some(EffectType::GhostEffect)
    } else if crate::text::str_is(s, "Fisheye") {
        Some(EffectType::Fisheye)
    } else if crate::text::str_is(s, "Whirl") {
        Some(EffectType::Whirl)
    } else if crate::text::str_is(s, "Pixelate") {
        Some(EffectType::Pixelate)
    } else if crate::text::str_is(s, "Mosaic") {
        Some(EffectType::Mosaic)
    } else if crate::text::str_is(s, "Negative") {
        Some(EffectType::Negative)
    } else {
        None
    }
}

/// Text effect by its variant name.
pub open spec fn text_effect_variant(s: Seq<char>) -> Option<TextEffect> {
    if s == "Strike"@ {
        Some(TextEffect::Strike)
    } else if s == "UnderLine"@ {
        Some(TextEffect::UnderLine)
    } else if s == "FontItalic"@ {
        Some(TextEffect::FontItalic)
    } else if s == "FontBlold"@ {
        Some(TextEffect::FontBlold)
    } else {
        None
    }
}

/// Text effect by its variant name.
pub fn text_effect_from_variant(s: &str) -> (r: Option<TextEffect>)
    ensures
        r == text_effect_variant(s@),
{
    if crate::text::str_is(s, "Strike") {
        Some(TextEffect::Strike)
    } else if crate::text::str_is(s, "UnderLine") {
        Some(TextEffect::UnderLine)
    } else if crate::text::str_is(s, "FontItalic") {
        Some(TextEffect::FontItalic)
    } else if crate::text::str_is(s, "FontBlold") {
        Some(TextEffect::FontBlold)
    } else {
        None
    }
}

/// Dimension by its variant name.
pub open spec fn dim_variant(s: Seq<char>) -> Option<Dimension> {
    if s == "Width"@ {
        Some(Dimension::Width)
    } else if s == "Height"@ {
        Some(Dimension::Height)
    } else {
        None
    }
}

/// Dimension by its variant name.
pub fn dim_from_variant(s: &str) -> (r: Option<Dimension>)
    ensures
        r == dim_variant(s@),
{
    if crate::text::str_is(s, "Width") {
        Some(Dimension::Width)
    } else if crate::text::str_is(s, "Height") {
        Some(Dimension::Height)
    } else {
        None
    }
}

/// Quotient/remainder by its variant name.
pub open spec fn qam_variant(s: Seq<char>) -> Option<QamMethod> {
    if s == "Quotient"@ {
        Some(QamMethod::Quotient)
    } else if s == "Mod"@ {
        Some(QamMethod::Mod)
    } else {
        None
    }
}

/// Quotient/remainder by its variant name.
pub fn qam_from_variant(s: &str) -> (r: Option<QamMethod>)
    ensures
        r == qam_variant(s@),
{
    if crate::text::str_is(s, "Quotient") {
        Some(QamMethod::Quotient)
    } else if crate::text::str_is(s, "Mod") {
        Some(QamMethod::Mod)
    } else {
        None
    }
}

/// Operator symbol written into a block.
pub open spec fn op_symbol(e: BinOp) -> Seq<char> {
    match e {
        BinOp::Add => "+"@,
        BinOp::Sub => "-"@,
        BinOp::Mul => "*"@,
        BinOp::Div => "/"@,
        BinOp::Mod => "%"@,
        BinOp::Eq => "=="@,
        BinOp::Ne => "!="@,
        BinOp::Lt => "<"@,
        BinOp::Le => "<="@,
        BinOp::Gt => ">"@,
        BinOp::Ge => ">="@,
        BinOp::And => "&&"@,
        BinOp::Or => "||"@,
    }
}

/// Operator symbol written into a block.
pub fn op_str(e: BinOp) -> (r: &'static str)
    ensures
        r@ == op_symbol(e),
{
    match e {
        BinOp::Add => "+",
        BinOp::Sub => "-",
        BinOp::Mul => "*",
        BinOp::Div => "/",
        BinOp::Mod => "%",
        BinOp::Eq => "==",
        BinOp::Ne => "!=",
        BinOp::Lt => "<",
        BinOp::Le => "<=",
        BinOp::Gt => ">",
        BinOp::Ge => ">=",
        BinOp::And => "&&",
        BinOp::Or => "||",
    }
}

/// Operator named by a symbol (`+`) or by Entry's word for it (`PLUS`).
pub open spec fn op_named(s: Seq<char>) -> Option<BinOp> {
    if s == "+"@ || s == "PLUS"@ {
        Some(BinOp::Add)
    } else if s == "-"@ || s == "MINUS"@ {
        Some(BinOp::Sub)
    } else if s == "*"@ || s == "MULTI"@ {
        Some(BinOp::Mul)
    } else if s == "/"@ || s == "DIVIDE"@ {
        Some(BinOp::Div)
    } else if s == "%"@ || s == "MOD"@ {
        Some(BinOp::Mod)
    } else if s == "=="@ || s == "EQUAL"@ {
        Some(BinOp::Eq)
    } else if s == "!="@ || s == "NOT_EQUAL"@ {
        Some(BinOp::Ne)
    } else if s == "<"@ || s == "LESS"@ {
        Some(BinOp::Lt)
    } else if s == "<="@ || s == "LESS_OR_EQUAL"@ {
        Some(BinOp::Le)
    } else if s == ">"@ || s == "GREATER"@ {
        Some(BinOp::Gt)
    } else if s == ">="@ || s == "GREATER_OR_EQUAL"@ {
        Some(BinOp::Ge)
    } else if s == "&&"@ || s == "AND"@ {
        Some(BinOp::And)
    } else if s == "||"@ || s == "OR"@ {
        Some(BinOp::Or)
    } else {
        None
    }
}

/// Operator named by a symbol (`+`) or by Entry's word for it (`PLUS`).
pub fn op_from_str(s: &str) -> (r: Option<BinOp>)
    ensures
        r == op_named(s@),
{
    if crate::text::str_is(s, "+") || crate::text::str_is(s, "PLUS") {
        Some(BinOp::Add)
    } else if crate::text::str_is(s, "-") || crate::text::str_is(s, "MINUS") {
        Some(BinOp::Sub)
    } else if crate::text::str_is(s, "*") || crate::text::str_is(s, "MULTI") {
        Some(BinOp::Mul)
    } else if crate::text::str_is(s, "/") || crate::text::str_is(s, "DIVIDE") {
        Some(BinOp::Div)
    } else if crate::text::str_is(s, "%") || crate::text::str_is(s, "MOD") {
        Some(BinOp::Mod)
    } else if crate::text::str_is(s, "==") || crate::text::str_is(s, "EQUAL") {
        Some(BinOp::Eq)
    } else if crate::text::str_is(s, "!=") || crate::text::str_is(s, "NOT_EQUAL") {
        Some(BinOp::Ne)
    } else if crate::text::str_is(s, "<") || crate::text::str_is(s, "LESS") {
        Some(BinOp::Lt)
    } else if crate::text::str_is(s, "<=") || crate::text::str_is(s, "LESS_OR_EQUAL") {
        Some(BinOp::Le)
    } else if crate::text::str_is(s, ">") || crate::text::str_is(s, "GREATER") {
        Some(BinOp::Gt)
    } else if crate::text::str_is(s, ">=") || crate::text::str_is(s, "GREATER_OR_EQUAL") {
        Some(BinOp::Ge)
    } else if crate::text::str_is(s, "&&") || crate::text::str_is(s, "AND") {
        Some(BinOp::And)
    } else if crate::text::str_is(s, "||") || crate::text::str_is(s, "OR") {
        Some(BinOp::Or)
    } else {
        None
    }
}

/// Reading back an operator's symbol gives the operator.
pub proof fn lemma_op_symbol_roundtrip(op: BinOp)
    ensures
        op_named(op_symbol(op)) == Some(op),
{
    reveal_strlit("+");
    reveal_strlit("-");
    reveal_strlit("*");
    reveal_strlit("/");
    reveal_strlit("%");
    reveal_strlit("==");
    reveal_strlit("!=");
    reveal_strlit("<");
    reveal_strlit("<=");
    reveal_strlit(">");
    reveal_strlit(">=");
    reveal_strlit("&&");
    reveal_strlit("||");
    reveal_strlit("PLUS");
    reveal_strlit("MINUS");
    reveal_strlit("MULTI");
    reveal_strlit("DIVIDE");
    reveal_strlit("MOD");
    reveal_strlit("EQUAL");
    reveal_strlit("NOT_EQUAL");
    reveal_strlit("LESS");
    reveal_strlit("LESS_OR_EQUAL");
    reveal_strlit("GREATER");
    reveal_strlit("GREATER_OR_EQUAL");
    reveal_strlit("AND");
    reveal_strlit("OR");
    assert("+"@.len() == 1 && "+"@[0] == '+');
    assert("-"@.len() == 1 && "-"@[0] == '-');
    assert("*"@.len() == 1 && "*"@[0] == '*');
    assert("/"@.len() == 1 && "/"@[0] == '/');
    assert("%"@.len() == 1 && "%"@[0] == '%');
    assert("=="@.len() == 2 && "=="@[0] == '=' && "=="@[1] == '=');
    assert("!="@.len() == 2 && "!="@[0] == '!' && "!="@[1] == '=');
    assert("<"@.len() == 1 && "<"@[0] == '<');
    assert("<="@.len() == 2 && "<="@[0] == '<' && "<="@[1] == '=');
    assert(">"@.len() == 1 && ">"@[0] == '>');
    assert(">="@.len() == 2 && ">="@[0] == '>' && ">="@[1] == '=');
    assert("&&"@.len() == 2 && "&&"@[0] == '&' && "&&"@[1] == '&');
    assert("||"@.len() == 2 && "||"@[0] == '|' && "||"@[1] == '|');
    assert("PLUS"@.len() == 4 && "PLUS"@[0] == 'P' && "PLUS"@[1] == 'L' && "PLUS"@[2] == 'U' && "PLUS"@[3] == 'S');
    assert("MINUS"@.len() == 5 && "MINUS"@[0] == 'M' && "MINUS"@[1] == 'I' && "MINUS"@[2] == 'N' && "MINUS"@[3] == 'U' && "MINUS"@[4] == 'S');
    assert("MULTI"@.len() == 5 && "MULTI"@[0] == 'M' && "MULTI"@[1] == 'U' && "MULTI"@[2] == 'L' && "MULTI"@[3] == 'T' && "MULTI"@[4] == 'I');
    assert("DIVIDE"@.len() == 6 && "DIVIDE"@[0] == 'D' && "DIVIDE"@[1] == 'I' && "DIVIDE"@[2] == 'V' && "DIVIDE"@[3] == 'I' && "DIVIDE"@[4] == 'D' && "DIVIDE"@[5] == 'E');
    assert("MOD"@.len() == 3 && "MOD"@[0] == 'M' && "MOD"@[1] == 'O' && "MOD"@[2] == 'D');
    assert("EQUAL"@.len() == 5 && "EQUAL"@[0] == 'E' && "EQUAL"@[1] == 'Q' && "EQUAL"@[2] == 'U' && "EQUAL"@[3] == 'A' && "EQUAL"@[4] == 'L');
    assert("NOT_EQUAL"@.len() == 9 && "NOT_EQUAL"@[0] == 'N' && "NOT_EQUAL"@[1] == 'O' && "NOT_EQUAL"@[2] == 'T' && "NOT_EQUAL"@[3] == '_' && "NOT_EQUAL"@[4] == 'E' && "NOT_EQUAL"@[5] == 'Q' && "NOT_EQUAL"@[6] == 'U' && "NOT_EQUAL"@[7] == 'A' && "NOT_EQUAL"@[8] == 'L');
    assert("LESS"@.len() == 4 && "LESS"@[0] == 'L' && "LESS"@[1] == 'E' && "LESS"@[2] == 'S' && "LESS"@[3] == 'S');
    assert("LESS_OR_EQUAL"@.len() == 13 && "LESS_OR_EQUAL"@[0] == 'L' && "LESS_OR_EQUAL"@[1] == 'E' && "LESS_OR_EQUAL"@[2] == 'S' && "LESS_OR_EQUAL"@[3] == 'S' && "LESS_OR_EQUAL"@[4] == '_' && "LESS_OR_EQUAL"@[5] == 'O' && "LESS_OR_EQUAL"@[6] == 'R' && "LESS_OR_EQUAL"@[7] == '_' && "LESS_OR_EQUAL"@[8] == 'E' && "LESS_OR_EQUAL"@[9] == 'Q' && "LESS_OR_EQUAL"@[10] == 'U' && "LESS_OR_EQUAL"@[11] == 'A');
    assert("GREATER"@.len() == 7 && "GREATER"@[0] == 'G' && "GREATER"@[1] == 'R' && "GREATER"@[2] == 'E' && "GREATER"@[3] == 'A' && "GREATER"@[4] == 'T' && "GREATER"@[5] == 'E' && "GREATER"@[6] == 'R');
    assert("GREATER_OR_EQUAL"@.len() == 16 && "GREATER_OR_EQUAL"@[0] == 'G' && "GREATER_OR_EQUAL"@[1] == 'R' && "GREATER_OR_EQUAL"@[2] == 'E' && "GREATER_OR_EQUAL"@[3] == 'A' && "GREATER_OR_EQUAL"@[4] == 'T' && "GREATER_OR_EQUAL"@[5] == 'E' && "GREATER_OR_EQUAL"@[6] == 'R' && "GREATER_OR_EQUAL"@[7] == '_' && "GREATER_OR_EQUAL"@[8] == 'O' && "GREATER_OR_EQUAL"@[9] == 'R' && "GREATER_OR_EQUAL"@[10] == '_' && "GREATER_OR_EQUAL"@[11] == 'E');
    assert("AND"@.len() == 3 && "AND"@[0] == 'A' && "AND"@[1] == 'N' && "AND"@[2] == 'D');
    assert("OR"@.len() == 2 && "OR"@[0] == 'O' && "OR"@[1] == 'R');
}

/// Kind of a variable, guessed from its name: Entry's built-in timer,
/// answer and list names.
pub open spec fn kind_of_name(name: Seq<char>) -> VarKind {
    if name == "초시계"@ || name == "timer"@ || name == "Timer"@ {
        VarKind::Timer
    } else if name == "대답"@ || name == "answer"@ || name == "Answer"@ {
        VarKind::Answer
    } else if name == "리스트"@ || name == "list"@ || name == "List"@ {
        VarKind::List
    } else {
        VarKind::Variable
    }
}

/// Kind of a variable, guessed from its name.
pub fn kind_for(name: &str) -> (r: VarKind)
    ensures
        r == kind_of_name(name@),
{

    if str_is(name, "초시계") || str_is(name, "timer") || str_is(name, "Timer") {
        VarKind::Timer
    } else if str_is(name, "대답") || str_is(name, "answer") || str_is(name, "Answer") {
        VarKind::Answer
    } else if str_is(name, "리스트") || str_is(name, "list") || str_is(name, "List") {
        VarKind::List
    } else {
        VarKind::Variable
    }
}

/// The djb2 hash (`h = h * 33 + b`, wrapping, from 5381) of some bytes.
pub open spec fn djb2(b: Seq<u8>) -> u64
    decreases b.len(),
{
    if b.len() == 0 {
        5381
    } else {
        vstd::wrapping::u64_specs::wrapping_add(
            vstd::wrapping::u64_specs::wrapping_mul(djb2(b.drop_last()), 33),
            b.last() as u64,
        )
    }
}

/// Id derived from a name: the lower-case hexadecimal djb2 hash of its
/// UTF-8 bytes.
pub open spec fn id_text(name: Seq<char>) -> Seq<char> {
    crate::text::hex_text(djb2(vstd::utf8::encode_utf8(name)) as nat)
}

/// The djb2 hash of the UTF-8 bytes of a name.
pub fn djb2_of(name: &str) -> (r: u64)
    ensures
        r == djb2(vstd::utf8::encode_utf8(name@)),
{
    let bytes = name.as_bytes();
    let mut h: u64 = 5381;
    let mut i: usize = 0;
    while i < bytes.len()
        invariant
            i <= bytes@.len(),
            bytes@ == vstd::utf8::encode_utf8(name@),
            h == djb2(bytes@.subrange(0, i as int)),
        decreases bytes.len() - i,
    {
        assert(bytes@.subrange(0, i + 1).drop_last() =~= bytes@.subrange(0, i as int));
        h = h.wrapping_mul(33).wrapping_add(bytes[i] as u64);
        i = i + 1;
    }
    assert(bytes@.subrange(0, i as int) =~= bytes@);
    h
}

/// Id derived from a name (hexadecimal djb2 hash of its UTF-8 bytes).
pub fn id_for(name: &str) -> (r: String)
    ensures
        r@ == id_text(name@),
{
    crate::text::hex_string(djb2_of(name))
}

/// Characters kept as they are in an identifier: ASCII letters and
/// digits, `_`, and every non-ASCII character.
pub open spec fn ident_char(c: char) -> bool {
    ('a' <= c <= 'z') || ('A' <= c <= 'Z') || ('0' <= c <= '9') || c == '_' || (c as u32) >= 128
}

/// A name made usable as a source identifier: other characters become
/// `_`, a leading digit gets a `_` in front, and the empty name is `_`.
pub open spec fn sanitized(name: Seq<char>) -> Seq<char> {
    let body = name.map_values(|c: char| if ident_char(c) { c } else { '_' });
    if body.len() == 0 {
        seq!['_']
    } else if '0' <= body[0] <= '9' {
        seq!['_'] + body
    } else {
        body
    }
}

/// A name made usable as a source identifier.
pub fn sanitize_ident(name: &str) -> (r: String)
    ensures
        r@ == sanitized(name@),
{
    let n = crate::text::char_len(name);
    let ghost body = name@.map_values(|c: char| if ident_char(c) { c } else { '_' });
    let mut out = String::new();
    if n > 0 {
        let c0 = crate::text::char_at(name, 0);
        if '0' <= c0 && c0 <= '9' {
            crate::text::push_char(&mut out, '_');
        }
    }
    let ghost prefix = out@;
    let mut i: usize = 0;
    while i < n
        invariant
            i <= n == name@.len(),
            body == name@.map_values(|c: char| if ident_char(c) { c } else { '_' }),
            out@ == prefix + body.subrange(0, i as int),
        decreases n - i,
    {
        let c = crate::text::char_at(name, i);
        let keep = ('a' <= c && c <= 'z') || ('A' <= c && c <= 'Z') || ('0' <= c && c <= '9')
            || c == '_' || (c as u32) >= 128;
        if keep {
            crate::text::push_char(&mut out, c);
        } else {
            crate::text::push_char(&mut out, '_');
        }
        assert(body.subrange(0, i + 1) =~= body.subrange(0, i as int).push(body[i as int]));
        i = i + 1;
    }
    assert(body.subrange(0, n as int) =~= body);
    if n == 0 {
        crate::text::push_char(&mut out, '_');
        assert(out@ =~= sanitized(name@));
    } else {
        assert(out@ =~= sanitized(name@));
    }
    out
}

} // verus!
