//! Entry blocks.
//!
//! A block is either one of the fixed-shape blocks described by the table
//! in [`kinds`] (their parameters are a sequence of slots), or one of the
//! blocks with a shape of their own (operators, literals, control flow,
//! functions, dropdowns with a fixed set of values).

pub mod assets;
pub mod encode;
pub mod kinds;
pub mod lower;
pub mod names;
pub mod registry;

use vstd::prelude::*;

pub use kinds::{BasicKind, FieldDefault, Slot, SpecialType, TypeTag};
pub use assets::to_value_with_assets;
pub use encode::to_value;
pub use names::{Category, DialogMode, Dimension, EffectType, MathOperation, QamMethod, TextEffect};

use crate::ir::{BinOp, UnaryOp};

verus! {

/// A value placed in a parameter slot.
#[derive(Debug)]
pub enum ParamBlock {
    /// An empty slot (`null`).
    Null,
    /// A number, by its text.
    Number(String),
    Text(String),
    Boolean(bool),
    /// A variable, by name.
    Variable(String),
    /// A nested block.
    Sub(Box<Block>),
}

/// The content of one slot of a fixed-shape block.
#[derive(Debug)]
pub enum SlotValue {
    /// For a value slot.
    Param(ParamBlock),
    /// For a variable, list or text slot.
    Name(String),
    /// For a slot that is always `null`.
    Empty,
}

/// An Entry block.
#[derive(Debug)]
pub enum Block {
    /// A fixed-shape block; `slots` follows `kinds::layout(kind)`.
    Basic { kind: BasicKind, slots: Vec<SlotValue> },
    ReachSomeThing { target: String },
    CalcBinOp { op: BinOp, lhs: ParamBlock, rhs: ParamBlock },
    Compare { op: BinOp, lhs: ParamBlock, rhs: ParamBlock },
    BoolOp { op: BinOp, lhs: ParamBlock, rhs: ParamBlock },
    UnaryOp { op: UnaryOp, expr: ParamBlock },
    CalcOperation { op: MathOperation, expr: ParamBlock },
    CalcRand { min: ParamBlock, max: ParamBlock },
    QuotientAndMod { a: ParamBlock, b: ParamBlock, mode: QamMethod },
    ChooseProjectTimerAction { action: String },
    SetVisibleProjectTimer { value: bool },
    SetVisibleAnswer { value: bool },
    Number(String),
    Text(String),
    Boolean(bool),
    Angle(String),
    Color(String),
    StringConcat { parts: Vec<ParamBlock> },
    FuncCall { name: String, args: Vec<ParamBlock> },
    FuncDef { name: String, params: Vec<String>, body: Vec<Block> },
    Return { value: Option<ParamBlock> },
    If { cond: ParamBlock, body: Vec<Block> },
    IfElse { cond: ParamBlock, then_body: Vec<Block>, else_body: Vec<Block> },
    While { cond: ParamBlock, body: Vec<Block> },
    Repeat { times: ParamBlock, body: Vec<Block> },
    Forever { body: Vec<Block> },
    Dialog { mode: DialogMode, content: ParamBlock },
    DialogTime { mode: DialogMode, content: ParamBlock, time: ParamBlock },
    ChangeToSomeShape { picture: String },
    AddEffectAmount { effect: EffectType, amount: ParamBlock },
    ChangeEffectAmount { effect: EffectType, amount: ParamBlock },
    StretchScaleSize { dim: Dimension, value: ParamBlock },
    TextChangeEffect { effect: TextEffect, mode: bool },
    TextChangeFont { font: String },
}

/// Model of a parameter value.
pub enum ParamV {
    Null,
    Number(Seq<char>),
    Text(Seq<char>),
    Boolean(bool),
    Variable(Seq<char>),
    Sub(Box<BlockV>),
}

/// Model of a slot's content.
pub enum SlotV {
    Param(ParamV),
    Name(Seq<char>),
    Empty,
}

/// Model of a block.
pub enum BlockV {
    Basic(BasicKind, Seq<SlotV>),
    ReachSomeThing(Seq<char>),
    CalcBinOp(BinOp, ParamV, ParamV),
    Compare(BinOp, ParamV, ParamV),
    BoolOp(BinOp, ParamV, ParamV),
    UnaryOp(UnaryOp, ParamV),
    CalcOperation(MathOperation, ParamV),
    CalcRand(ParamV, ParamV),
    QuotientAndMod(ParamV, ParamV, QamMethod),
    ChooseProjectTimerAction(Seq<char>),
    SetVisibleProjectTimer(bool),
    SetVisibleAnswer(bool),
    Number(Seq<char>),
    Text(Seq<char>),
    Boolean(bool),
    Angle(Seq<char>),
    Color(Seq<char>),
    StringConcat(Seq<ParamV>),
    FuncCall(Seq<char>, Seq<ParamV>),
    FuncDef(Seq<char>, Seq<Seq<char>>, Seq<BlockV>),
    Return(Option<ParamV>),
    If(ParamV, Seq<BlockV>),
    IfElse(ParamV, Seq<BlockV>, Seq<BlockV>),
    While(ParamV, Seq<BlockV>),
    Repeat(ParamV, Seq<BlockV>),
    Forever(Seq<BlockV>),
    Dialog(DialogMode, ParamV),
    DialogTime(DialogMode, ParamV, ParamV),
    ChangeToSomeShape(Seq<char>),
    AddEffectAmount(EffectType, ParamV),
    ChangeEffectAmount(EffectType, ParamV),
    StretchScaleSize(Dimension, ParamV),
    TextChangeEffect(TextEffect, bool),
    TextChangeFont(Seq<char>),
}

impl View for ParamBlock {
    type V = ParamV;

    open spec fn view(&self) -> ParamV {
        self.view_rec()
    }
}

impl View for SlotValue {
    type V = SlotV;

    open spec fn view(&self) -> SlotV {
        self.view_rec()
    }
}

impl View for Block {
    type V = BlockV;

    open spec fn view(&self) -> BlockV {
        self.view_rec()
    }
}

impl ParamBlock {
    pub open spec fn view_rec(&self) -> ParamV
        decreases self,
    {
        match self {
            ParamBlock::Null => ParamV::Null,
            ParamBlock::Number(n) => ParamV::Number(n@),
            ParamBlock::Text(s) => ParamV::Text(s@),
            ParamBlock::Boolean(b) => ParamV::Boolean(*b),
            ParamBlock::Variable(n) => ParamV::Variable(n@),
            ParamBlock::Sub(b) => ParamV::Sub(Box::new(b.view_rec())),
        }
    }

    pub open spec fn seq_view(v: &Vec<ParamBlock>) -> Seq<ParamV>
        decreases v,
    {
        Seq::new(
            v@.len(),
            |i: int|
                if 0 <= i < v@.len() {
                    proof {
                        vstd::std_specs::vec::axiom_vec_index_decreases(*v, i);
                    }
                    v@[i].view_rec()
                } else {
                    ParamV::Null
                },
        )
    }
}

impl SlotValue {
    pub open spec fn view_rec(&self) -> SlotV
        decreases self,
    {
        match self {
            SlotValue::Param(p) => SlotV::Param(p.view_rec()),
            SlotValue::Name(n) => SlotV::Name(n@),
            SlotValue::Empty => SlotV::Empty,
        }
    }

    pub open spec fn seq_view(v: &Vec<SlotValue>) -> Seq<SlotV>
        decreases v,
    {
        Seq::new(
            v@.len(),
            |i: int|
                if 0 <= i < v@.len() {
                    proof {
                        vstd::std_specs::vec::axiom_vec_index_decreases(*v, i);
                    }
                    v@[i].view_rec()
                } else {
                    SlotV::Empty
                },
        )
    }
}

impl Block {
    pub open spec fn seq_view(v: &Vec<Block>) -> Seq<BlockV>
        decreases v,
    {
        Seq::new(
            v@.len(),
            |i: int|
                if 0 <= i < v@.len() {
                    proof {
                        vstd::std_specs::vec::axiom_vec_index_decreases(*v, i);
                    }
                    v@[i].view_rec()
                } else {
                    BlockV::Forever(Seq::empty())
                },
        )
    }

    pub open spec fn view_rec(&self) -> BlockV
        decreases self,
    {
        match self {
            Block::Basic { kind, slots } => BlockV::Basic(*kind, SlotValue::seq_view(slots)),
            Block::ReachSomeThing { target } => BlockV::ReachSomeThing(target@),
            Block::CalcBinOp { op, lhs, rhs } => BlockV::CalcBinOp(*op, lhs.view_rec(), rhs.view_rec()),
            Block::Compare { op, lhs, rhs } => BlockV::Compare(*op, lhs.view_rec(), rhs.view_rec()),
            Block::BoolOp { op, lhs, rhs } => BlockV::BoolOp(*op, lhs.view_rec(), rhs.view_rec()),
            Block::UnaryOp { op, expr } => BlockV::UnaryOp(*op, expr.view_rec()),
            Block::CalcOperation { op, expr } => BlockV::CalcOperation(*op, expr.view_rec()),
            Block::CalcRand { min, max } => BlockV::CalcRand(min.view_rec(), max.view_rec()),
            Block::QuotientAndMod { a, b, mode } => BlockV::QuotientAndMod(a.view_rec(), b.view_rec(), *mode),
            Block::ChooseProjectTimerAction { action } => BlockV::ChooseProjectTimerAction(action@),
            Block::SetVisibleProjectTimer { value } => BlockV::SetVisibleProjectTimer(*value),
            Block::SetVisibleAnswer { value } => BlockV::SetVisibleAnswer(*value),
            Block::Number(n) => BlockV::Number(n@),
            Block::Text(s) => BlockV::Text(s@),
            Block::Boolean(b) => BlockV::Boolean(*b),
            Block::Angle(n) => BlockV::Angle(n@),
            Block::Color(s) => BlockV::Color(s@),
            Block::StringConcat { parts } => BlockV::StringConcat(ParamBlock::seq_view(parts)),
            Block::FuncCall { name, args } => BlockV::FuncCall(name@, ParamBlock::seq_view(args)),
            Block::FuncDef { name, params, body } => BlockV::FuncDef(
                name@,
                params@.map_values(|p: String| p@),
                Block::seq_view(body),
            ),
            Block::Return { value } => BlockV::Return(
                match value {
                    Some(p) => Some(p.view_rec()),
                    None => None,
                },
            ),
            Block::If { cond, body } => BlockV::If(cond.view_rec(), Block::seq_view(body)),
            Block::IfElse { cond, then_body, else_body } => BlockV::IfElse(
                cond.view_rec(),
                Block::seq_view(then_body),
                Block::seq_view(else_body),
            ),
            Block::While { cond, body } => BlockV::While(cond.view_rec(), Block::seq_view(body)),
            Block::Repeat { times, body } => BlockV::Repeat(times.view_rec(), Block::seq_view(body)),
            Block::Forever { body } => BlockV::Forever(Block::seq_view(body)),
            Block::Dialog { mode, content } => BlockV::Dialog(*mode, content.view_rec()),
            Block::DialogTime { mode, content, time } => BlockV::DialogTime(
                *mode,
                content.view_rec(),
                time.view_rec(),
            ),
            Block::ChangeToSomeShape { picture } => BlockV::ChangeToSomeShape(picture@),
            Block::AddEffectAmount { effect, amount } => BlockV::AddEffectAmount(*effect, amount.view_rec()),
            Block::ChangeEffectAmount { effect, amount } => BlockV::ChangeEffectAmount(
                *effect,
                amount.view_rec(),
            ),
            Block::StretchScaleSize { dim, value } => BlockV::StretchScaleSize(*dim, value.view_rec()),
            Block::TextChangeEffect { effect, mode } => BlockV::TextChangeEffect(*effect, *mode),
            Block::TextChangeFont { font } => BlockV::TextChangeFont(font@),
        }
    }
}

/// Models of a sequence of blocks.
pub open spec fn block_views(v: Seq<Block>) -> Seq<BlockV> {
    v.map_values(|b: Block| b@)
}

/// Models of a sequence of parameter values.
pub open spec fn param_views(v: Seq<ParamBlock>) -> Seq<ParamV> {
    v.map_values(|p: ParamBlock| p@)
}

/// Models of a sequence of slot contents.
pub open spec fn slot_views(v: Seq<SlotValue>) -> Seq<SlotV> {
    v.map_values(|s: SlotValue| s@)
}

pub proof fn lemma_block_seq_view(v: &Vec<Block>)
    ensures
        Block::seq_view(v) == block_views(v@),
{
    assert(Block::seq_view(v) =~= block_views(v@));
}

pub proof fn lemma_param_seq_view(v: &Vec<ParamBlock>)
    ensures
        ParamBlock::seq_view(v) == param_views(v@),
{
    assert(ParamBlock::seq_view(v) =~= param_views(v@));
}

pub proof fn lemma_slot_seq_view(v: &Vec<SlotValue>)
    ensures
        SlotValue::seq_view(v) == slot_views(v@),
{
    assert(SlotValue::seq_view(v) =~= slot_views(v@));
}


impl ParamBlock {
    /// An independent copy.
    pub fn duplicate(&self) -> (r: ParamBlock)
        ensures
            r@ == self@,
        decreases self, 0nat,
    {
        match self {
            ParamBlock::Null => ParamBlock::Null,
            ParamBlock::Number(n) => ParamBlock::Number(n.clone()),
            ParamBlock::Text(t) => ParamBlock::Text(t.clone()),
            ParamBlock::Boolean(b) => ParamBlock::Boolean(*b),
            ParamBlock::Variable(n) => ParamBlock::Variable(n.clone()),
            ParamBlock::Sub(b) => ParamBlock::Sub(Box::new(b.duplicate())),
        }
    }
}

impl SlotValue {
    /// An independent copy.
    pub fn duplicate(&self) -> (r: SlotValue)
        ensures
            r@ == self@,
        decreases self, 0nat,
    {
        match self {
            SlotValue::Param(p) => SlotValue::Param(p.duplicate()),
            SlotValue::Name(n) => SlotValue::Name(n.clone()),
            SlotValue::Empty => SlotValue::Empty,
        }
    }
}

fn dup_params(v: &Vec<ParamBlock>) -> (r: Vec<ParamBlock>)
    ensures
        ParamBlock::seq_view(&r) == ParamBlock::seq_view(v),
    decreases v, 1nat,
{
    let mut out: Vec<ParamBlock> = Vec::new();
    let mut i: usize = 0;
    while i < v.len()
        invariant
            i <= v.len(),
            out@.len() == i,
            forall|j: int| 0 <= j < i ==> (#[trigger] out@[j])@ == v@[j]@,
        decreases v.len() - i,
    {
        proof {
            vstd::std_specs::vec::axiom_vec_index_decreases(*v, i as int);
        }
        out.push(v[i].duplicate());
        i = i + 1;
    }
    proof {
        lemma_param_seq_view(&out);
        lemma_param_seq_view(v);
        assert(param_views(out@) =~= param_views(v@));
    }
    out
}

fn dup_slots(v: &Vec<SlotValue>) -> (r: Vec<SlotValue>)
    ensures
        SlotValue::seq_view(&r) == SlotValue::seq_view(v),
    decreases v, 1nat,
{
    let mut out: Vec<SlotValue> = Vec::new();
    let mut i: usize = 0;
    while i < v.len()
        invariant
            i <= v.len(),
            out@.len() == i,
            forall|j: int| 0 <= j < i ==> (#[trigger] out@[j])@ == v@[j]@,
        decreases v.len() - i,
    {
        proof {
            vstd::std_specs::vec::axiom_vec_index_decreases(*v, i as int);
        }
        out.push(v[i].duplicate());
        i = i + 1;
    }
    proof {
        lemma_slot_seq_view(&out);
        lemma_slot_seq_view(v);
        assert(slot_views(out@) =~= slot_views(v@));
    }
    out
}

fn dup_blocks(v: &Vec<Block>) -> (r: Vec<Block>)
    ensures
        Block::seq_view(&r) == Block::seq_view(v),
    decreases v, 1nat,
{
    let mut out: Vec<Block> = Vec::new();
    let mut i: usize = 0;
    while i < v.len()
        invariant
            i <= v.len(),
            out@.len() == i,
            forall|j: int| 0 <= j < i ==> (#[trigger] out@[j])@ == v@[j]@,
        decreases v.len() - i,
    {
        proof {
            vstd::std_specs::vec::axiom_vec_index_decreases(*v, i as int);
        }
        out.push(v[i].duplicate());
        i = i + 1;
    }
    proof {
        lemma_block_seq_view(&out);
        lemma_block_seq_view(v);
        assert(block_views(out@) =~= block_views(v@));
    }
    out
}

fn dup_strings(v: &Vec<String>) -> (r: Vec<String>)
    ensures
        r@.map_values(|p: String| p@) == v@.map_values(|p: String| p@),
{
    let mut out: Vec<String> = Vec::new();
    let mut i: usize = 0;
    while i < v.len()
        invariant
            i <= v.len(),
            out@.len() == i,
            forall|j: int| 0 <= j < i ==> (#[trigger] out@[j])@ == v@[j]@,
        decreases v.len() - i,
    {
        out.push(v[i].clone());
        i = i + 1;
    }
    proof {
        assert(out@.map_values(|p: String| p@) =~= v@.map_values(|p: String| p@));
    }
    out
}

impl Block {
    /// An independent copy.
    pub fn duplicate(&self) -> (r: Block)
        ensures
            r@ == self@,
        decreases self, 0nat,
    {
        match self {
            Block::Basic { kind, slots } => Block::Basic { kind: *kind, slots: dup_slots(slots) },
            Block::ReachSomeThing { target } => Block::ReachSomeThing { target: target.clone() },
            Block::CalcBinOp { op, lhs, rhs } => Block::CalcBinOp { op: *op, lhs: lhs.duplicate(), rhs: rhs.duplicate() },
            Block::Compare { op, lhs, rhs } => Block::Compare { op: *op, lhs: lhs.duplicate(), rhs: rhs.duplicate() },
            Block::BoolOp { op, lhs, rhs } => Block::BoolOp { op: *op, lhs: lhs.duplicate(), rhs: rhs.duplicate() },
            Block::UnaryOp { op, expr } => Block::UnaryOp { op: *op, expr: expr.duplicate() },
            Block::CalcOperation { op, expr } => Block::CalcOperation { op: *op, expr: expr.duplicate() },
            Block::CalcRand { min, max } => Block::CalcRand { min: min.duplicate(), max: max.duplicate() },
            Block::QuotientAndMod { a, b, mode } => Block::QuotientAndMod { a: a.duplicate(), b: b.duplicate(), mode: *mode },
            Block::ChooseProjectTimerAction { action } => Block::ChooseProjectTimerAction { action: action.clone() },
            Block::SetVisibleProjectTimer { value } => Block::SetVisibleProjectTimer { value: *value },
            Block::SetVisibleAnswer { value } => Block::SetVisibleAnswer { value: *value },
            Block::Number(x) => Block::Number(x.clone()),
            Block::Text(x) => Block::Text(x.clone()),
            Block::Boolean(x) => Block::Boolean(*x),
            Block::Angle(x) => Block::Angle(x.clone()),
            Block::Color(x) => Block::Color(x.clone()),
            Block::StringConcat { parts } => Block::StringConcat { parts: dup_params(parts) },
            Block::FuncCall { name, args } => Block::FuncCall { name: name.clone(), args: dup_params(args) },
            Block::FuncDef { name, params, body } => Block::FuncDef { name: name.clone(), params: dup_strings(params), body: dup_blocks(body) },
            Block::Return { value } => Block::Return { value: match value { Some(p) => Some(p.duplicate()), None => None } },
            Block::If { cond, body } => Block::If { cond: cond.duplicate(), body: dup_blocks(body) },
            Block::IfElse { cond, then_body, else_body } => Block::IfElse { cond: cond.duplicate(), then_body: dup_blocks(then_body), else_body: dup_blocks(else_body) },
            Block::While { cond, body } => Block::While { cond: cond.duplicate(), body: dup_blocks(body) },
            Block::Repeat { times, body } => Block::Repeat { times: times.duplicate(), body: dup_blocks(body) },
            Block::Forever { body } => Block::Forever { body: dup_blocks(body) },
            Block::Dialog { mode, content } => Block::Dialog { mode: *mode, content: content.duplicate() },
            Block::DialogTime { mode, content, time } => Block::DialogTime { mode: *mode, content: content.duplicate(), time: time.duplicate() },
            Block::ChangeToSomeShape { picture } => Block::ChangeToSomeShape { picture: picture.clone() },
            Block::AddEffectAmount { effect, amount } => Block::AddEffectAmount { effect: *effect, amount: amount.duplicate() },
            Block::ChangeEffectAmount { effect, amount } => Block::ChangeEffectAmount { effect: *effect, amount: amount.duplicate() },
            Block::StretchScaleSize { dim, value } => Block::StretchScaleSize { dim: *dim, value: value.duplicate() },
            Block::TextChangeEffect { effect, mode } => Block::TextChangeEffect { effect: *effect, mode: *mode },
            Block::TextChangeFont { font } => Block::TextChangeFont { font: font.clone() },
        }
    }
}

} // verus!
