//! The vocabulary of Entry block types: names, categories, parameter
//! layouts and the source-level call names of the fixed-shape blocks.

use vstd::prelude::*;

use crate::block::names::Category;

verus! {

/// Blocks whose parameters are a fixed sequence of slots.
#[derive(Debug, Clone, Copy, PartialEq, Eq, Structural)]
pub enum BasicKind {
    WhenStart,
    WhenClick,
    WhenCloneStart,
    WhenMessageRecv,
    WhenKeyPressed,
    WhenMouseClicked,
    WhenMouseReleased,
    WhenObjectReleased,
    WhenSceneStart,
    MessageCast,
    MessageCastWait,
    StartScene,
    StartNeighborScene,
    SetVar,
    ChangeVar,
    GetVar,
    ShowVar,
    HideVar,
    ListValueAt,
    AddValueToList,
    RemoveValueFromList,
    InsertValueToList,
    ChangeValueListIndex,
    LengthOfList,
    ShowList,
    HideList,
    IsIncludedInList,
    Break,
    Continue,
    StopAll,
    RestartProject,
    WaitSeconds,
    WaitUntilTrue,
    AskAndWait,
    GetCanvasInputValue,
    GetProjectTimerValue,
    DeleteClone,
    RemoveAllClones,
    CreateClone,
    IsPressSomeKey,
    IsClicked,
    IsObjectClicked,
    StringIncludes,
    Show,
    Hide,
    ChangeToNextShape,
    RemoveDialog,
    EraseAllEffects,
    ChangeScaleSize,
    SetScaleSize,
    ResetScaleSize,
    FlipX,
    FlipY,
    ChangeObjectIndex,
    MoveDirection,
    BounceWall,
    MoveX,
    MoveY,
    RotateRelative,
    DirectionRelative,
    MoveXyTime,
    LocateX,
    LocateY,
    LocateXY,
    LocateXyTime,
    Locate,
    LocateObjectTime,
    RotateByTime,
    DirectionRelativeDuration,
    RotateAbsolute,
    DirectionAbsolute,
    SeeAngleObject,
    MoveToAngle,
    BrushStamp,
    StartDrawing,
    StopDrawing,
    StartFill,
    StopFill,
    SetColor,
    SetRandomColor,
    SetFillColor,
    ChangeThickness,
    SetThickness,
    ChangeBrushTransparency,
    SetBrushTranparency,
    BrushEraseAll,
    TextRead,
    TextWrite,
    TextAppend,
    TextPrepend,
    TextFlush,
    TextChangeFontColor,
    TextChangeBgColor,
    SoundSomethingWithBlock,
    SoundSomethingSecondWithBlock,
    SoundFromTo,
    SoundSomethingWaitWithBlock,
    SoundSomethingSecondWaitWithBlock,
    SoundFromToAndWait,
    SoundVolumeChange,
    SoundVolumeSet,
    SoundSpeedChange,
    SoundSpeedSet,
    PlayBgm,
    GetSoundSpeed,
    SoundSilentAll,
    StopBgm,
    GetSoundVolume,
    GetSoundDuration,
}

/// Block type names handled by blocks of their own shape.
#[derive(Debug, Clone, Copy, PartialEq, Eq, Structural)]
pub enum SpecialType {
    ReachSomething,
    CalcBasic,
    BooleanBasic,
    BooleanBasicOperator,
    BooleanAndOr,
    CalcUnary,
    BooleanNot,
    CalcOperation,
    CalcRand,
    QuotientAndMod,
    ChooseProjectTimerAction,
    SetVisibleProjectTimer,
    SetVisibleAnswer,
    Number,
    Text,
    Boolean,
    Angle,
    Color,
    StringConcat,
    FunctionCall,
    FunctionCreate,
    FunctionCreateValue,
    FunctionReturn,
    If,
    AltIf,
    IfElse,
    RepeatWhile,
    RepeatWhileTrue,
    RepeatBasic,
    RepeatForever,
    RepeatInf,
    Dialog,
    DialogTime,
    ChangeToSomeShape,
    AddEffectAmount,
    ChangeEffectAmount,
    StretchScaleSize,
    TextChangeEffect,
    TextChangeFont,
}

/// Older type names that Entry still writes for some basic blocks.
#[derive(Debug, Clone, Copy, PartialEq, Eq, Structural)]
pub enum AliasType {
    WhenRunButtonClick,
    WhenObjectClick,
}

/// Every block type name the decoder knows.
#[derive(Debug, Clone, Copy, PartialEq, Eq, Structural)]
pub enum TypeTag {
    Basic(BasicKind),
    Alias(AliasType),
    Special(SpecialType),
}

/// Default text of a text slot that is missing from a block.
#[derive(Debug, Clone, Copy, PartialEq, Eq, Structural)]
pub enum FieldDefault {
    Blank,
    KeyQ,
    Next,
    SelfTarget,
    Space,
    Front,
    Forward,
    All,
}

/// One position of a block's `params` array.
#[derive(Debug, Clone, Copy, PartialEq, Eq, Structural)]
pub enum Slot {
    /// A value (number, text, nested block...).
    Param,
    /// Always `null`.
    Empty,
    /// A variable dropdown.
    Var,
    /// A list dropdown.
    List,
    /// A plain text with a default when missing.
    Field(FieldDefault),
    /// A plain text that must be present.
    Required,
}

/// Text used when a text slot is missing.
pub open spec fn default_text(d: FieldDefault) -> Seq<char> {
    match d {
        FieldDefault::Blank => ""@,
        FieldDefault::KeyQ => "81"@,
        FieldDefault::Next => "next"@,
        FieldDefault::SelfTarget => "self"@,
        FieldDefault::Space => "space"@,
        FieldDefault::Front => "front"@,
        FieldDefault::Forward => "forward"@,
        FieldDefault::All => "all"@,
    }
}

pub fn default_str(d: FieldDefault) -> (r: &'static str)
    ensures
        r@ == default_text(d),
{
    match d {
        FieldDefault::Blank => "",
        FieldDefault::KeyQ => "81",
        FieldDefault::Next => "next",
        FieldDefault::SelfTarget => "self",
        FieldDefault::Space => "space",
        FieldDefault::Front => "front",
        FieldDefault::Forward => "forward",
        FieldDefault::All => "all",
    }
}

/// Entry type name of a basic block.
pub open spec fn basic_name(k: BasicKind) -> Seq<char> {
    match k {
        BasicKind::WhenStart => "when_run"@,
        BasicKind::WhenClick => "when_click"@,
        BasicKind::WhenCloneStart => "when_clone_start"@,
        BasicKind::WhenMessageRecv => "when_message_cast"@,
        BasicKind::WhenKeyPressed => "when_some_key_pressed"@,
        BasicKind::WhenMouseClicked => "mouse_clicked"@,
        BasicKind::WhenMouseReleased => "mouse_click_cancled"@,
        BasicKind::WhenObjectReleased => "when_object_click_canceled"@,
        BasicKind::WhenSceneStart => "when_scene_start"@,
        BasicKind::MessageCast => "message_cast"@,
        BasicKind::MessageCastWait => "message_cast_wait"@,
        BasicKind::StartScene => "start_scene"@,
        BasicKind::StartNeighborScene => "start_neighbor_scene"@,
        BasicKind::SetVar => "set_variable"@,
        BasicKind::ChangeVar => "change_variable"@,
        BasicKind::GetVar => "get_variable"@,
        BasicKind::ShowVar => "show_variable"@,
        BasicKind::HideVar => "hide_variable"@,
        BasicKind::ListValueAt => "value_of_index_from_list"@,
        BasicKind::AddValueToList => "add_value_to_list"@,
        BasicKind::RemoveValueFromList => "remove_value_from_list"@,
        BasicKind::InsertValueToList => "insert_value_to_list"@,
        BasicKind::ChangeValueListIndex => "change_value_list_index"@,
        BasicKind::LengthOfList => "length_of_list"@,
        BasicKind::ShowList => "show_list"@,
        BasicKind::HideList => "hide_list"@,
        BasicKind::IsIncludedInList => "is_included_in_list"@,
        BasicKind::Break => "stop_object"@,
        BasicKind::Continue => "_continue"@,
        BasicKind::StopAll => "stop_run_all"@,
        BasicKind::RestartProject => "restart_project"@,
        BasicKind::WaitSeconds => "wait_second"@,
        BasicKind::WaitUntilTrue => "wait_until_true"@,
        BasicKind::AskAndWait => "ask_and_wait"@,
        BasicKind::GetCanvasInputValue => "get_canvas_input_value"@,
        BasicKind::GetProjectTimerValue => "get_project_timer_value"@,
        BasicKind::DeleteClone => "delete_clone"@,
        BasicKind::RemoveAllClones => "remove_all_clones"@,
        BasicKind::CreateClone => "create_clone"@,
        BasicKind::IsPressSomeKey => "is_press_some_key"@,
        BasicKind::IsClicked => "is_clicked"@,
        BasicKind::IsObjectClicked => "is_object_clicked"@,
        BasicKind::StringIncludes => "string_index_of"@,
        BasicKind::Show => "show"@,
        BasicKind::Hide => "hide"@,
        BasicKind::ChangeToNextShape => "change_to_next_shape"@,
        BasicKind::RemoveDialog => "remove_dialog"@,
        BasicKind::EraseAllEffects => "erase_all_effects"@,
        BasicKind::ChangeScaleSize => "change_scale_size"@,
        BasicKind::SetScaleSize => "set_scale_size"@,
        BasicKind::ResetScaleSize => "reset_scale_size"@,
        BasicKind::FlipX => "flip_x"@,
        BasicKind::FlipY => "flip_y"@,
        BasicKind::ChangeObjectIndex => "change_object_index"@,
        BasicKind::MoveDirection => "move_direction"@,
        BasicKind::BounceWall => "bounce_wall"@,
        BasicKind::MoveX => "move_x"@,
        BasicKind::MoveY => "move_y"@,
        BasicKind::RotateRelative => "rotate_relative"@,
        BasicKind::DirectionRelative => "direction_relative"@,
        BasicKind::MoveXyTime => "move_xy_time"@,
        BasicKind::LocateX => "locate_x"@,
        BasicKind::LocateY => "locate_y"@,
        BasicKind::LocateXY => "locate_xy"@,
        BasicKind::LocateXyTime => "locate_xy_time"@,
        BasicKind::Locate => "locate"@,
        BasicKind::LocateObjectTime => "locate_object_time"@,
        BasicKind::RotateByTime => "rotate_by_time"@,
        BasicKind::DirectionRelativeDuration => "direction_relative_duration"@,
        BasicKind::RotateAbsolute => "rotate_absolute"@,
        BasicKind::DirectionAbsolute => "direction_absolute"@,
        BasicKind::SeeAngleObject => "see_angle_object"@,
        BasicKind::MoveToAngle => "move_to_angle"@,
        BasicKind::BrushStamp => "brush_stamp"@,
        BasicKind::StartDrawing => "start_drawing"@,
        BasicKind::StopDrawing => "stop_drawing"@,
        BasicKind::StartFill => "start_fill"@,
        BasicKind::StopFill => "stop_fill"@,
        BasicKind::SetColor => "set_color"@,
        BasicKind::SetRandomColor => "set_random_color"@,
        BasicKind::SetFillColor => "set_fill_color"@,
        BasicKind::ChangeThickness => "change_thickness"@,
        BasicKind::SetThickness => "set_thickness"@,
        BasicKind::ChangeBrushTransparency => "change_brush_transparency"@,
        BasicKind::SetBrushTranparency => "set_brush_tranparency"@,
        BasicKind::BrushEraseAll => "brush_erase_all"@,
        BasicKind::TextRead => "text_read"@,
        BasicKind::TextWrite => "text_write"@,
        BasicKind::TextAppend => "text_append"@,
        BasicKind::TextPrepend => "text_prepend"@,
        BasicKind::TextFlush => "text_flush"@,
        BasicKind::TextChangeFontColor => "text_change_font_color"@,
        BasicKind::TextChangeBgColor => "text_change_bg_color"@,
        BasicKind::SoundSomethingWithBlock => "sound_something_with_block"@,
        BasicKind::SoundSomethingSecondWithBlock => "sound_something_second_with_block"@,
        BasicKind::SoundFromTo => "sound_from_to"@,
        BasicKind::SoundSomethingWaitWithBlock => "sound_something_wait_with_block"@,
        BasicKind::SoundSomethingSecondWaitWithBlock => "sound_something_second_wait_with_block"@,
        BasicKind::SoundFromToAndWait => "sound_from_to_and_wait"@,
        BasicKind::SoundVolumeChange => "sound_volume_change"@,
        BasicKind::SoundVolumeSet => "sound_volume_set"@,
        BasicKind::SoundSpeedChange => "sound_speed_change"@,
        BasicKind::SoundSpeedSet => "sound_speed_set"@,
        BasicKind::PlayBgm => "play_bgm"@,
        BasicKind::GetSoundSpeed => "get_sound_speed"@,
        BasicKind::SoundSilentAll => "sound_silent_all"@,
        BasicKind::StopBgm => "stop_bgm"@,
        BasicKind::GetSoundVolume => "get_sound_volume"@,
        BasicKind::GetSoundDuration => "get_sound_duration"@,
    }
}

/// Entry type name of a basic block.
pub fn basic_type_name(k: BasicKind) -> (r: &'static str)
    ensures
        r@ == basic_name(k),
{
    match k {
        BasicKind::WhenStart => "when_run",
        BasicKind::WhenClick => "when_click",
        BasicKind::WhenCloneStart => "when_clone_start",
        BasicKind::WhenMessageRecv => "when_message_cast",
        BasicKind::WhenKeyPressed => "when_some_key_pressed",
        BasicKind::WhenMouseClicked => "mouse_clicked",
        BasicKind::WhenMouseReleased => "mouse_click_cancled",
        BasicKind::WhenObjectReleased => "when_object_click_canceled",
        BasicKind::WhenSceneStart => "when_scene_start",
        BasicKind::MessageCast => "message_cast",
        BasicKind::MessageCastWait => "message_cast_wait",
        BasicKind::StartScene => "start_scene",
        BasicKind::StartNeighborScene => "start_neighbor_scene",
        BasicKind::SetVar => "set_variable",
        BasicKind::ChangeVar => "change_variable",
        BasicKind::GetVar => "get_variable",
        BasicKind::ShowVar => "show_variable",
        BasicKind::HideVar => "hide_variable",
        BasicKind::ListValueAt => "value_of_index_from_list",
        BasicKind::AddValueToList => "add_value_to_list",
        BasicKind::RemoveValueFromList => "remove_value_from_list",
        BasicKind::InsertValueToList => "insert_value_to_list",
        BasicKind::ChangeValueListIndex => "change_value_list_index",
        BasicKind::LengthOfList => "length_of_list",
        BasicKind::ShowList => "show_list",
        BasicKind::HideList => "hide_list",
        BasicKind::IsIncludedInList => "is_included_in_list",
        BasicKind::Break => "stop_object",
        BasicKind::Continue => "_continue",
        BasicKind::StopAll => "stop_run_all",
        BasicKind::RestartProject => "restart_project",
        BasicKind::WaitSeconds => "wait_second",
        BasicKind::WaitUntilTrue => "wait_until_true",
        BasicKind::AskAndWait => "ask_and_wait",
        BasicKind::GetCanvasInputValue => "get_canvas_input_value",
        BasicKind::GetProjectTimerValue => "get_project_timer_value",
        BasicKind::DeleteClone => "delete_clone",
        BasicKind::RemoveAllClones => "remove_all_clones",
        BasicKind::CreateClone => "create_clone",
        BasicKind::IsPressSomeKey => "is_press_some_key",
        BasicKind::IsClicked => "is_clicked",
        BasicKind::IsObjectClicked => "is_object_clicked",
        BasicKind::StringIncludes => "string_index_of",
        BasicKind::Show => "show",
        BasicKind::Hide => "hide",
        BasicKind::ChangeToNextShape => "change_to_next_shape",
        BasicKind::RemoveDialog => "remove_dialog",
        BasicKind::EraseAllEffects => "erase_all_effects",
        BasicKind::ChangeScaleSize => "change_scale_size",
        BasicKind::SetScaleSize => "set_scale_size",
        BasicKind::ResetScaleSize => "reset_scale_size",
        BasicKind::FlipX => "flip_x",
        BasicKind::FlipY => "flip_y",
        BasicKind::ChangeObjectIndex => "change_object_index",
        BasicKind::MoveDirection => "move_direction",
        BasicKind::BounceWall => "bounce_wall",
        BasicKind::MoveX => "move_x",
        BasicKind::MoveY => "move_y",
        BasicKind::RotateRelative => "rotate_relative",
        BasicKind::DirectionRelative => "direction_relative",
        BasicKind::MoveXyTime => "move_xy_time",
        BasicKind::LocateX => "locate_x",
        BasicKind::LocateY => "locate_y",
        BasicKind::LocateXY => "locate_xy",
        BasicKind::LocateXyTime => "locate_xy_time",
        BasicKind::Locate => "locate",
        BasicKind::LocateObjectTime => "locate_object_time",
        BasicKind::RotateByTime => "rotate_by_time",
        BasicKind::DirectionRelativeDuration => "direction_relative_duration",
        BasicKind::RotateAbsolute => "rotate_absolute",
        BasicKind::DirectionAbsolute => "direction_absolute",
        BasicKind::SeeAngleObject => "see_angle_object",
        BasicKind::MoveToAngle => "move_to_angle",
        BasicKind::BrushStamp => "brush_stamp",
        BasicKind::StartDrawing => "start_drawing",
        BasicKind::StopDrawing => "stop_drawing",
        BasicKind::StartFill => "start_fill",
        BasicKind::StopFill => "stop_fill",
        BasicKind::SetColor => "set_color",
        BasicKind::SetRandomColor => "set_random_color",
        BasicKind::SetFillColor => "set_fill_color",
        BasicKind::ChangeThickness => "change_thickness",
        BasicKind::SetThickness => "set_thickness",
        BasicKind::ChangeBrushTransparency => "change_brush_transparency",
        BasicKind::SetBrushTranparency => "set_brush_tranparency",
        BasicKind::BrushEraseAll => "brush_erase_all",
        BasicKind::TextRead => "text_read",
        BasicKind::TextWrite => "text_write",
        BasicKind::TextAppend => "text_append",
        BasicKind::TextPrepend => "text_prepend",
        BasicKind::TextFlush => "text_flush",
        BasicKind::TextChangeFontColor => "text_change_font_color",
        BasicKind::TextChangeBgColor => "text_change_bg_color",
        BasicKind::SoundSomethingWithBlock => "sound_something_with_block",
        BasicKind::SoundSomethingSecondWithBlock => "sound_something_second_with_block",
        BasicKind::SoundFromTo => "sound_from_to",
        BasicKind::SoundSomethingWaitWithBlock => "sound_something_wait_with_block",
        BasicKind::SoundSomethingSecondWaitWithBlock => "sound_something_second_wait_with_block",
        BasicKind::SoundFromToAndWait => "sound_from_to_and_wait",
        BasicKind::SoundVolumeChange => "sound_volume_change",
        BasicKind::SoundVolumeSet => "sound_volume_set",
        BasicKind::SoundSpeedChange => "sound_speed_change",
        BasicKind::SoundSpeedSet => "sound_speed_set",
        BasicKind::PlayBgm => "play_bgm",
        BasicKind::GetSoundSpeed => "get_sound_speed",
        BasicKind::SoundSilentAll => "sound_silent_all",
        BasicKind::StopBgm => "stop_bgm",
        BasicKind::GetSoundVolume => "get_sound_volume",
        BasicKind::GetSoundDuration => "get_sound_duration",
    }
}

/// Entry type name handled by a block of its own shape.
pub open spec fn special_name(k: SpecialType) -> Seq<char> {
    match k {
        SpecialType::ReachSomething => "reach_something"@,
        SpecialType::CalcBasic => "calc_basic"@,
        SpecialType::BooleanBasic => "boolean_basic"@,
        SpecialType::BooleanBasicOperator => "boolean_basic_operator"@,
        SpecialType::BooleanAndOr => "boolean_and_or"@,
        SpecialType::CalcUnary => "calc_unary"@,
        SpecialType::BooleanNot => "boolean_not"@,
        SpecialType::CalcOperation => "calc_operation"@,
        SpecialType::CalcRand => "calc_rand"@,
        SpecialType::QuotientAndMod => "quotient_and_mod"@,
        SpecialType::ChooseProjectTimerAction => "choose_project_timer_action"@,
        SpecialType::SetVisibleProjectTimer => "set_visible_project_timer"@,
        SpecialType::SetVisibleAnswer => "set_visible_answer"@,
        SpecialType::Number => "number"@,
        SpecialType::Text => "text"@,
        SpecialType::Boolean => "boolean"@,
        SpecialType::Angle => "angle"@,
        SpecialType::Color => "color"@,
        SpecialType::StringConcat => "string_concat"@,
        SpecialType::FunctionCall => "function_call"@,
        SpecialType::FunctionCreate => "function_create"@,
        SpecialType::FunctionCreateValue => "function_create_value"@,
        SpecialType::FunctionReturn => "function_return"@,
        SpecialType::If => "if"@,
        SpecialType::AltIf => "_if"@,
        SpecialType::IfElse => "if_else"@,
        SpecialType::RepeatWhile => "repeat_while"@,
        SpecialType::RepeatWhileTrue => "repeat_while_true"@,
        SpecialType::RepeatBasic => "repeat_basic"@,
        SpecialType::RepeatForever => "repeat_forever"@,
        SpecialType::RepeatInf => "repeat_inf"@,
        SpecialType::Dialog => "dialog"@,
        SpecialType::DialogTime => "dialog_time"@,
        SpecialType::ChangeToSomeShape => "change_to_some_shape"@,
        SpecialType::AddEffectAmount => "add_effect_amount"@,
        SpecialType::ChangeEffectAmount => "change_effect_amount"@,
        SpecialType::StretchScaleSize => "stretch_scale_size"@,
        SpecialType::TextChangeEffect => "text_change_effect"@,
        SpecialType::TextChangeFont => "text_change_font"@,
    }
}

/// Entry type name handled by a block of its own shape.
pub fn special_type_name(k: SpecialType) -> (r: &'static str)
    ensures
        r@ == special_name(k),
{
    match k {
        SpecialType::ReachSomething => "reach_something",
        SpecialType::CalcBasic => "calc_basic",
        SpecialType::BooleanBasic => "boolean_basic",
        SpecialType::BooleanBasicOperator => "boolean_basic_operator",
        SpecialType::BooleanAndOr => "boolean_and_or",
        SpecialType::CalcUnary => "calc_unary",
        SpecialType::BooleanNot => "boolean_not",
        SpecialType::CalcOperation => "calc_operation",
        SpecialType::CalcRand => "calc_rand",
        SpecialType::QuotientAndMod => "quotient_and_mod",
        SpecialType::ChooseProjectTimerAction => "choose_project_timer_action",
        SpecialType::SetVisibleProjectTimer => "set_visible_project_timer",
        SpecialType::SetVisibleAnswer => "set_visible_answer",
        SpecialType::Number => "number",
        SpecialType::Text => "text",
        SpecialType::Boolean => "boolean",
        SpecialType::Angle => "angle",
        SpecialType::Color => "color",
        SpecialType::StringConcat => "string_concat",
        SpecialType::FunctionCall => "function_call",
        SpecialType::FunctionCreate => "function_create",
        SpecialType::FunctionCreateValue => "function_create_value",
        SpecialType::FunctionReturn => "function_return",
        SpecialType::If => "if",
        SpecialType::AltIf => "_if",
        SpecialType::IfElse => "if_else",
        SpecialType::RepeatWhile => "repeat_while",
        SpecialType::RepeatWhileTrue => "repeat_while_true",
        SpecialType::RepeatBasic => "repeat_basic",
        SpecialType::RepeatForever => "repeat_forever",
        SpecialType::RepeatInf => "repeat_inf",
        SpecialType::Dialog => "dialog",
        SpecialType::DialogTime => "dialog_time",
        SpecialType::ChangeToSomeShape => "change_to_some_shape",
        SpecialType::AddEffectAmount => "add_effect_amount",
        SpecialType::ChangeEffectAmount => "change_effect_amount",
        SpecialType::StretchScaleSize => "stretch_scale_size",
        SpecialType::TextChangeEffect => "text_change_effect",
        SpecialType::TextChangeFont => "text_change_font",
    }
}

/// Older Entry type name.
pub open spec fn alias_name(k: AliasType) -> Seq<char> {
    match k {
        AliasType::WhenRunButtonClick => "when_run_button_click"@,
        AliasType::WhenObjectClick => "when_object_click"@,
    }
}

/// Older Entry type name.
pub fn alias_type_name(k: AliasType) -> (r: &'static str)
    ensures
        r@ == alias_name(k),
{
    match k {
        AliasType::WhenRunButtonClick => "when_run_button_click",
        AliasType::WhenObjectClick => "when_object_click",
    }
}

/// Name of the source-level call that stands for a basic block.
pub open spec fn dsl_name(k: BasicKind) -> Seq<char> {
    match k {
        BasicKind::WhenStart => "when_start"@,
        BasicKind::WhenClick => "when_click"@,
        BasicKind::WhenCloneStart => "when_clone_start"@,
        BasicKind::WhenMessageRecv => "when_message"@,
        BasicKind::WhenKeyPressed => "when_key_pressed"@,
        BasicKind::WhenMouseClicked => "when_mouse_clicked"@,
        BasicKind::WhenMouseReleased => "when_mouse_released"@,
        BasicKind::WhenObjectReleased => "when_object_released"@,
        BasicKind::WhenSceneStart => "when_scene_start"@,
        BasicKind::MessageCast => "send_message"@,
        BasicKind::MessageCastWait => "wait_message"@,
        BasicKind::StartScene => "start_scene"@,
        BasicKind::StartNeighborScene => "start_next_scene"@,
        BasicKind::SetVar => "set_variable"@,
        BasicKind::ChangeVar => "change_variable"@,
        BasicKind::GetVar => "get_variable"@,
        BasicKind::ShowVar => "show_var"@,
        BasicKind::HideVar => "hide_var"@,
        BasicKind::ListValueAt => "value_of_index_from_list"@,
        BasicKind::AddValueToList => "add_value_to_list"@,
        BasicKind::RemoveValueFromList => "remove_value_from_list"@,
        BasicKind::InsertValueToList => "insert_value_to_list"@,
        BasicKind::ChangeValueListIndex => "change_value_list_index"@,
        BasicKind::LengthOfList => "length_of_list"@,
        BasicKind::ShowList => "show_list"@,
        BasicKind::HideList => "hide_list"@,
        BasicKind::IsIncludedInList => "is_included_in_list"@,
        BasicKind::Break => "stop_object"@,
        BasicKind::Continue => "_continue"@,
        BasicKind::StopAll => "stop_run_all"@,
        BasicKind::RestartProject => "restart_project"@,
        BasicKind::WaitSeconds => "wait_second"@,
        BasicKind::WaitUntilTrue => "wait_until_true"@,
        BasicKind::AskAndWait => "ask_and_wait"@,
        BasicKind::GetCanvasInputValue => "get_canvas_input_value"@,
        BasicKind::GetProjectTimerValue => "get_project_timer_value"@,
        BasicKind::DeleteClone => "delete_clone"@,
        BasicKind::RemoveAllClones => "remove_all_clones"@,
        BasicKind::CreateClone => "create_clone"@,
        BasicKind::IsPressSomeKey => "is_press_some_key"@,
        BasicKind::IsClicked => "is_clicked"@,
        BasicKind::IsObjectClicked => "is_object_clicked"@,
        BasicKind::StringIncludes => "string_contains"@,
        BasicKind::Show => "show"@,
        BasicKind::Hide => "hide"@,
        BasicKind::ChangeToNextShape => "change_to_next_shape"@,
        BasicKind::RemoveDialog => "remove_dialog"@,
        BasicKind::EraseAllEffects => "erase_all_effects"@,
        BasicKind::ChangeScaleSize => "change_scale_size"@,
        BasicKind::SetScaleSize => "set_scale_size"@,
        BasicKind::ResetScaleSize => "reset_scale_size"@,
        BasicKind::FlipX => "flip_x"@,
        BasicKind::FlipY => "flip_y"@,
        BasicKind::ChangeObjectIndex => "change_object_index"@,
        BasicKind::MoveDirection => "move_direction"@,
        BasicKind::BounceWall => "bounce_wall"@,
        BasicKind::MoveX => "move_x"@,
        BasicKind::MoveY => "move_y"@,
        BasicKind::RotateRelative => "rotate_relative"@,
        BasicKind::DirectionRelative => "direction_relative"@,
        BasicKind::MoveXyTime => "move_xy_time"@,
        BasicKind::LocateX => "locate_x"@,
        BasicKind::LocateY => "locate_y"@,
        BasicKind::LocateXY => "locate_xy"@,
        BasicKind::LocateXyTime => "locate_xy_time"@,
        BasicKind::Locate => "locate"@,
        BasicKind::LocateObjectTime => "locate_object_time"@,
        BasicKind::RotateByTime => "rotate_by_time"@,
        BasicKind::DirectionRelativeDuration => "direction_relative_duration"@,
        BasicKind::RotateAbsolute => "rotate_absolute"@,
        BasicKind::DirectionAbsolute => "direction_absolute"@,
        BasicKind::SeeAngleObject => "see_angle_object"@,
        BasicKind::MoveToAngle => "move_to_angle"@,
        BasicKind::BrushStamp => "brush_stamp"@,
        BasicKind::StartDrawing => "start_drawing"@,
        BasicKind::StopDrawing => "stop_drawing"@,
        BasicKind::StartFill => "start_fill"@,
        BasicKind::StopFill => "stop_fill"@,
        BasicKind::SetColor => "set_color"@,
        BasicKind::SetRandomColor => "set_random_color"@,
        BasicKind::SetFillColor => "set_fill_color"@,
        BasicKind::ChangeThickness => "change_thickness"@,
        BasicKind::SetThickness => "set_thickness"@,
        BasicKind::ChangeBrushTransparency => "change_brush_transparency"@,
        BasicKind::SetBrushTranparency => "set_brush_tranparency"@,
        BasicKind::BrushEraseAll => "brush_erase_all"@,
        BasicKind::TextRead => "text_read"@,
        BasicKind::TextWrite => "text_write"@,
        BasicKind::TextAppend => "text_append"@,
        BasicKind::TextPrepend => "text_prepend"@,
        BasicKind::TextFlush => "text_flush"@,
        BasicKind::TextChangeFontColor => "text_change_font_color"@,
        BasicKind::TextChangeBgColor => "text_change_bg_color"@,
        BasicKind::SoundSomethingWithBlock => "sound_something_with_block"@,
        BasicKind::SoundSomethingSecondWithBlock => "sound_something_second_with_block"@,
        BasicKind::SoundFromTo => "sound_from_to"@,
        BasicKind::SoundSomethingWaitWithBlock => "sound_something_wait_with_block"@,
        BasicKind::SoundSomethingSecondWaitWithBlock => "sound_something_second_wait_with_block"@,
        BasicKind::SoundFromToAndWait => "sound_from_to_and_wait"@,
        BasicKind::SoundVolumeChange => "sound_volume_change"@,
        BasicKind::SoundVolumeSet => "sound_volume_set"@,
        BasicKind::SoundSpeedChange => "sound_speed_change"@,
        BasicKind::SoundSpeedSet => "sound_speed_set"@,
        BasicKind::PlayBgm => "play_bgm"@,
        BasicKind::GetSoundSpeed => "get_sound_speed"@,
        BasicKind::SoundSilentAll => "sound_silent_all"@,
        BasicKind::StopBgm => "stop_bgm"@,
        BasicKind::GetSoundVolume => "get_sound_volume"@,
        BasicKind::GetSoundDuration => "get_sound_duration"@,
    }
}

/// Name of the source-level call that stands for a basic block.
pub fn dsl_call_name(k: BasicKind) -> (r: &'static str)
    ensures
        r@ == dsl_name(k),
{
    match k {
        BasicKind::WhenStart => "when_start",
        BasicKind::WhenClick => "when_click",
        BasicKind::WhenCloneStart => "when_clone_start",
        BasicKind::WhenMessageRecv => "when_message",
        BasicKind::WhenKeyPressed => "when_key_pressed",
        BasicKind::WhenMouseClicked => "when_mouse_clicked",
        BasicKind::WhenMouseReleased => "when_mouse_released",
        BasicKind::WhenObjectReleased => "when_object_released",
        BasicKind::WhenSceneStart => "when_scene_start",
        BasicKind::MessageCast => "send_message",
        BasicKind::MessageCastWait => "wait_message",
        BasicKind::StartScene => "start_scene",
        BasicKind::StartNeighborScene => "start_next_scene",
        BasicKind::SetVar => "set_variable",
        BasicKind::ChangeVar => "change_variable",
        BasicKind::GetVar => "get_variable",
        BasicKind::ShowVar => "show_var",
        BasicKind::HideVar => "hide_var",
        BasicKind::ListValueAt => "value_of_index_from_list",
        BasicKind::AddValueToList => "add_value_to_list",
        BasicKind::RemoveValueFromList => "remove_value_from_list",
        BasicKind::InsertValueToList => "insert_value_to_list",
        BasicKind::ChangeValueListIndex => "change_value_list_index",
        BasicKind::LengthOfList => "length_of_list",
        BasicKind::ShowList => "show_list",
        BasicKind::HideList => "hide_list",
        BasicKind::IsIncludedInList => "is_included_in_list",
        BasicKind::Break => "stop_object",
        BasicKind::Continue => "_continue",
        BasicKind::StopAll => "stop_run_all",
        BasicKind::RestartProject => "restart_project",
        BasicKind::WaitSeconds => "wait_second",
        BasicKind::WaitUntilTrue => "wait_until_true",
        BasicKind::AskAndWait => "ask_and_wait",
        BasicKind::GetCanvasInputValue => "get_canvas_input_value",
        BasicKind::GetProjectTimerValue => "get_project_timer_value",
        BasicKind::DeleteClone => "delete_clone",
        BasicKind::RemoveAllClones => "remove_all_clones",
        BasicKind::CreateClone => "create_clone",
        BasicKind::IsPressSomeKey => "is_press_some_key",
        BasicKind::IsClicked => "is_clicked",
        BasicKind::IsObjectClicked => "is_object_clicked",
        BasicKind::StringIncludes => "string_contains",
        BasicKind::Show => "show",
        BasicKind::Hide => "hide",
        BasicKind::ChangeToNextShape => "change_to_next_shape",
        BasicKind::RemoveDialog => "remove_dialog",
        BasicKind::EraseAllEffects => "erase_all_effects",
        BasicKind::ChangeScaleSize => "change_scale_size",
        BasicKind::SetScaleSize => "set_scale_size",
        BasicKind::ResetScaleSize => "reset_scale_size",
        BasicKind::FlipX => "flip_x",
        BasicKind::FlipY => "flip_y",
        BasicKind::ChangeObjectIndex => "change_object_index",
        BasicKind::MoveDirection => "move_direction",
        BasicKind::BounceWall => "bounce_wall",
        BasicKind::MoveX => "move_x",
        BasicKind::MoveY => "move_y",
        BasicKind::RotateRelative => "rotate_relative",
        BasicKind::DirectionRelative => "direction_relative",
        BasicKind::MoveXyTime => "move_xy_time",
        BasicKind::LocateX => "locate_x",
        BasicKind::LocateY => "locate_y",
        BasicKind::LocateXY => "locate_xy",
        BasicKind::LocateXyTime => "locate_xy_time",
        BasicKind::Locate => "locate",
        BasicKind::LocateObjectTime => "locate_object_time",
        BasicKind::RotateByTime => "rotate_by_time",
        BasicKind::DirectionRelativeDuration => "direction_relative_duration",
        BasicKind::RotateAbsolute => "rotate_absolute",
        BasicKind::DirectionAbsolute => "direction_absolute",
        BasicKind::SeeAngleObject => "see_angle_object",
        BasicKind::MoveToAngle => "move_to_angle",
        BasicKind::BrushStamp => "brush_stamp",
        BasicKind::StartDrawing => "start_drawing",
        BasicKind::StopDrawing => "stop_drawing",
        BasicKind::StartFill => "start_fill",
        BasicKind::StopFill => "stop_fill",
        BasicKind::SetColor => "set_color",
        BasicKind::SetRandomColor => "set_random_color",
        BasicKind::SetFillColor => "set_fill_color",
        BasicKind::ChangeThickness => "change_thickness",
        BasicKind::SetThickness => "set_thickness",
        BasicKind::ChangeBrushTransparency => "change_brush_transparency",
        BasicKind::SetBrushTranparency => "set_brush_tranparency",
        BasicKind::BrushEraseAll => "brush_erase_all",
        BasicKind::TextRead => "text_read",
        BasicKind::TextWrite => "text_write",
        BasicKind::TextAppend => "text_append",
        BasicKind::TextPrepend => "text_prepend",
        BasicKind::TextFlush => "text_flush",
        BasicKind::TextChangeFontColor => "text_change_font_color",
        BasicKind::TextChangeBgColor => "text_change_bg_color",
        BasicKind::SoundSomethingWithBlock => "sound_something_with_block",
        BasicKind::SoundSomethingSecondWithBlock => "sound_something_second_with_block",
        BasicKind::SoundFromTo => "sound_from_to",
        BasicKind::SoundSomethingWaitWithBlock => "sound_something_wait_with_block",
        BasicKind::SoundSomethingSecondWaitWithBlock => "sound_something_second_wait_with_block",
        BasicKind::SoundFromToAndWait => "sound_from_to_and_wait",
        BasicKind::SoundVolumeChange => "sound_volume_change",
        BasicKind::SoundVolumeSet => "sound_volume_set",
        BasicKind::SoundSpeedChange => "sound_speed_change",
        BasicKind::SoundSpeedSet => "sound_speed_set",
        BasicKind::PlayBgm => "play_bgm",
        BasicKind::GetSoundSpeed => "get_sound_speed",
        BasicKind::SoundSilentAll => "sound_silent_all",
        BasicKind::StopBgm => "stop_bgm",
        BasicKind::GetSoundVolume => "get_sound_volume",
        BasicKind::GetSoundDuration => "get_sound_duration",
    }
}

/// The basic block an older type name stands for.
pub open spec fn alias_kind(a: AliasType) -> BasicKind {
    match a {
        AliasType::WhenRunButtonClick => BasicKind::WhenStart,
        AliasType::WhenObjectClick => BasicKind::WhenClick,
    }
}

pub fn alias_kind_of(a: AliasType) -> (r: BasicKind)
    ensures
        r == alias_kind(a),
{
    match a {
        AliasType::WhenRunButtonClick => BasicKind::WhenStart,
        AliasType::WhenObjectClick => BasicKind::WhenClick,
    }
}

/// Name of any known type tag.
pub open spec fn tag_name(t: TypeTag) -> Seq<char> {
    match t {
        TypeTag::Basic(k) => basic_name(k),
        TypeTag::Alias(a) => alias_name(a),
        TypeTag::Special(s) => special_name(s),
    }
}

/// Category of a basic block.
pub open spec fn basic_category(k: BasicKind) -> Category {
    match k {
        BasicKind::WhenStart => Category::Start,
        BasicKind::WhenClick => Category::Start,
        BasicKind::WhenCloneStart => Category::Start,
        BasicKind::WhenMessageRecv => Category::Start,
        BasicKind::WhenKeyPressed => Category::Start,
        BasicKind::WhenMouseClicked => Category::Start,
        BasicKind::WhenMouseReleased => Category::Start,
        BasicKind::WhenObjectReleased => Category::Start,
        BasicKind::WhenSceneStart => Category::Start,
        BasicKind::MessageCast => Category::Start,
        BasicKind::MessageCastWait => Category::Start,
        BasicKind::StartScene => Category::Start,
        BasicKind::StartNeighborScene => Category::Start,
        BasicKind::SetVar => Category::Variable,
        BasicKind::ChangeVar => Category::Variable,
        BasicKind::GetVar => Category::Variable,
        BasicKind::ShowVar => Category::Variable,
        BasicKind::HideVar => Category::Variable,
        BasicKind::ListValueAt => Category::Variable,
        BasicKind::AddValueToList => Category::Variable,
        BasicKind::RemoveValueFromList => Category::Variable,
        BasicKind::InsertValueToList => Category::Variable,
        BasicKind::ChangeValueListIndex => Category::Variable,
        BasicKind::LengthOfList => Category::Variable,
        BasicKind::ShowList => Category::Variable,
        BasicKind::HideList => Category::Variable,
        BasicKind::IsIncludedInList => Category::Variable,
        BasicKind::Break => Category::Flow,
        BasicKind::Continue => Category::Flow,
        BasicKind::StopAll => Category::Flow,
        BasicKind::RestartProject => Category::Flow,
        BasicKind::WaitSeconds => Category::Flow,
        BasicKind::WaitUntilTrue => Category::Flow,
        BasicKind::AskAndWait => Category::Variable,
        BasicKind::GetCanvasInputValue => Category::Variable,
        BasicKind::GetProjectTimerValue => Category::Calc,
        BasicKind::DeleteClone => Category::Flow,
        BasicKind::RemoveAllClones => Category::Flow,
        BasicKind::CreateClone => Category::Flow,
        BasicKind::IsPressSomeKey => Category::Judgment,
        BasicKind::IsClicked => Category::Judgment,
        BasicKind::IsObjectClicked => Category::Judgment,
        BasicKind::StringIncludes => Category::String,
        BasicKind::Show => Category::Looks,
        BasicKind::Hide => Category::Looks,
        BasicKind::ChangeToNextShape => Category::Looks,
        BasicKind::RemoveDialog => Category::Looks,
        BasicKind::EraseAllEffects => Category::Looks,
        BasicKind::ChangeScaleSize => Category::Looks,
        BasicKind::SetScaleSize => Category::Looks,
        BasicKind::ResetScaleSize => Category::Looks,
        BasicKind::FlipX => Category::Looks,
        BasicKind::FlipY => Category::Looks,
        BasicKind::ChangeObjectIndex => Category::Looks,
        BasicKind::MoveDirection => Category::Movement,
        BasicKind::BounceWall => Category::Movement,
        BasicKind::MoveX => Category::Movement,
        BasicKind::MoveY => Category::Movement,
        BasicKind::RotateRelative => Category::Movement,
        BasicKind::DirectionRelative => Category::Movement,
        BasicKind::MoveXyTime => Category::Movement,
        BasicKind::LocateX => Category::Movement,
        BasicKind::LocateY => Category::Movement,
        BasicKind::LocateXY => Category::Movement,
        BasicKind::LocateXyTime => Category::Movement,
        BasicKind::Locate => Category::Movement,
        BasicKind::LocateObjectTime => Category::Movement,
        BasicKind::RotateByTime => Category::Movement,
        BasicKind::DirectionRelativeDuration => Category::Movement,
        BasicKind::RotateAbsolute => Category::Movement,
        BasicKind::DirectionAbsolute => Category::Movement,
        BasicKind::SeeAngleObject => Category::Movement,
        BasicKind::MoveToAngle => Category::Movement,
        BasicKind::BrushStamp => Category::Pen,
        BasicKind::StartDrawing => Category::Pen,
        BasicKind::StopDrawing => Category::Pen,
        BasicKind::StartFill => Category::Pen,
        BasicKind::StopFill => Category::Pen,
        BasicKind::SetColor => Category::Pen,
        BasicKind::SetRandomColor => Category::Pen,
        BasicKind::SetFillColor => Category::Pen,
        BasicKind::ChangeThickness => Category::Pen,
        BasicKind::SetThickness => Category::Pen,
        BasicKind::ChangeBrushTransparency => Category::Pen,
        BasicKind::SetBrushTranparency => Category::Pen,
        BasicKind::BrushEraseAll => Category::Pen,
        BasicKind::TextRead => Category::Text,
        BasicKind::TextWrite => Category::Text,
        BasicKind::TextAppend => Category::Text,
        BasicKind::TextPrepend => Category::Text,
        BasicKind::TextFlush => Category::Text,
        BasicKind::TextChangeFontColor => Category::Text,
        BasicKind::TextChangeBgColor => Category::Text,
        BasicKind::SoundSomethingWithBlock => Category::Sound,
        BasicKind::SoundSomethingSecondWithBlock => Category::Sound,
        BasicKind::SoundFromTo => Category::Sound,
        BasicKind::SoundSomethingWaitWithBlock => Category::Sound,
        BasicKind::SoundSomethingSecondWaitWithBlock => Category::Sound,
        BasicKind::SoundFromToAndWait => Category::Sound,
        BasicKind::SoundVolumeChange => Category::Sound,
        BasicKind::SoundVolumeSet => Category::Sound,
        BasicKind::SoundSpeedChange => Category::Sound,
        BasicKind::SoundSpeedSet => Category::Sound,
        BasicKind::PlayBgm => Category::Sound,
        BasicKind::GetSoundSpeed => Category::Sound,
        BasicKind::SoundSilentAll => Category::Sound,
        BasicKind::StopBgm => Category::Sound,
        BasicKind::GetSoundVolume => Category::Sound,
        BasicKind::GetSoundDuration => Category::Sound,
    }
}

pub fn basic_category_of(k: BasicKind) -> (r: Category)
    ensures
        r == basic_category(k),
{
    match k {
        BasicKind::WhenStart => Category::Start,
        BasicKind::WhenClick => Category::Start,
        BasicKind::WhenCloneStart => Category::Start,
        BasicKind::WhenMessageRecv => Category::Start,
        BasicKind::WhenKeyPressed => Category::Start,
        BasicKind::WhenMouseClicked => Category::Start,
        BasicKind::WhenMouseReleased => Category::Start,
        BasicKind::WhenObjectReleased => Category::Start,
        BasicKind::WhenSceneStart => Category::Start,
        BasicKind::MessageCast => Category::Start,
        BasicKind::MessageCastWait => Category::Start,
        BasicKind::StartScene => Category::Start,
        BasicKind::StartNeighborScene => Category::Start,
        BasicKind::SetVar => Category::Variable,
        BasicKind::ChangeVar => Category::Variable,
        BasicKind::GetVar => Category::Variable,
        BasicKind::ShowVar => Category::Variable,
        BasicKind::HideVar => Category::Variable,
        BasicKind::ListValueAt => Category::Variable,
        BasicKind::AddValueToList => Category::Variable,
        BasicKind::RemoveValueFromList => Category::Variable,
        BasicKind::InsertValueToList => Category::Variable,
        BasicKind::ChangeValueListIndex => Category::Variable,
        BasicKind::LengthOfList => Category::Variable,
        BasicKind::ShowList => Category::Variable,
        BasicKind::HideList => Category::Variable,
        BasicKind::IsIncludedInList => Category::Variable,
        BasicKind::Break => Category::Flow,
        BasicKind::Continue => Category::Flow,
        BasicKind::StopAll => Category::Flow,
        BasicKind::RestartProject => Category::Flow,
        BasicKind::WaitSeconds => Category::Flow,
        BasicKind::WaitUntilTrue => Category::Flow,
        BasicKind::AskAndWait => Category::Variable,
        BasicKind::GetCanvasInputValue => Category::Variable,
        BasicKind::GetProjectTimerValue => Category::Calc,
        BasicKind::DeleteClone => Category::Flow,
        BasicKind::RemoveAllClones => Category::Flow,
        BasicKind::CreateClone => Category::Flow,
        BasicKind::IsPressSomeKey => Category::Judgment,
        BasicKind::IsClicked => Category::Judgment,
        BasicKind::IsObjectClicked => Category::Judgment,
        BasicKind::StringIncludes => Category::String,
        BasicKind::Show => Category::Looks,
        BasicKind::Hide => Category::Looks,
        BasicKind::ChangeToNextShape => Category::Looks,
        BasicKind::RemoveDialog => Category::Looks,
        BasicKind::EraseAllEffects => Category::Looks,
        BasicKind::ChangeScaleSize => Category::Looks,
        BasicKind::SetScaleSize => Category::Looks,
        BasicKind::ResetScaleSize => Category::Looks,
        BasicKind::FlipX => Category::Looks,
        BasicKind::FlipY => Category::Looks,
        BasicKind::ChangeObjectIndex => Category::Looks,
        BasicKind::MoveDirection => Category::Movement,
        BasicKind::BounceWall => Category::Movement,
        BasicKind::MoveX => Category::Movement,
        BasicKind::MoveY => Category::Movement,
        BasicKind::RotateRelative => Category::Movement,
        BasicKind::DirectionRelative => Category::Movement,
        BasicKind::MoveXyTime => Category::Movement,
        BasicKind::LocateX => Category::Movement,
        BasicKind::LocateY => Category::Movement,
        BasicKind::LocateXY => Category::Movement,
        BasicKind::LocateXyTime => Category::Movement,
        BasicKind::Locate => Category::Movement,
        BasicKind::LocateObjectTime => Category::Movement,
        BasicKind::RotateByTime => Category::Movement,
        BasicKind::DirectionRelativeDuration => Category::Movement,
        BasicKind::RotateAbsolute => Category::Movement,
        BasicKind::DirectionAbsolute => Category::Movement,
        BasicKind::SeeAngleObject => Category::Movement,
        BasicKind::MoveToAngle => Category::Movement,
        BasicKind::BrushStamp => Category::Pen,
        BasicKind::StartDrawing => Category::Pen,
        BasicKind::StopDrawing => Category::Pen,
        BasicKind::StartFill => Category::Pen,
        BasicKind::StopFill => Category::Pen,
        BasicKind::SetColor => Category::Pen,
        BasicKind::SetRandomColor => Category::Pen,
        BasicKind::SetFillColor => Category::Pen,
        BasicKind::ChangeThickness => Category::Pen,
        BasicKind::SetThickness => Category::Pen,
        BasicKind::ChangeBrushTransparency => Category::Pen,
        BasicKind::SetBrushTranparency => Category::Pen,
        BasicKind::BrushEraseAll => Category::Pen,
        BasicKind::TextRead => Category::Text,
        BasicKind::TextWrite => Category::Text,
        BasicKind::TextAppend => Category::Text,
        BasicKind::TextPrepend => Category::Text,
        BasicKind::TextFlush => Category::Text,
        BasicKind::TextChangeFontColor => Category::Text,
        BasicKind::TextChangeBgColor => Category::Text,
        BasicKind::SoundSomethingWithBlock => Category::Sound,
        BasicKind::SoundSomethingSecondWithBlock => Category::Sound,
        BasicKind::SoundFromTo => Category::Sound,
        BasicKind::SoundSomethingWaitWithBlock => Category::Sound,
        BasicKind::SoundSomethingSecondWaitWithBlock => Category::Sound,
        BasicKind::SoundFromToAndWait => Category::Sound,
        BasicKind::SoundVolumeChange => Category::Sound,
        BasicKind::SoundVolumeSet => Category::Sound,
        BasicKind::SoundSpeedChange => Category::Sound,
        BasicKind::SoundSpeedSet => Category::Sound,
        BasicKind::PlayBgm => Category::Sound,
        BasicKind::GetSoundSpeed => Category::Sound,
        BasicKind::SoundSilentAll => Category::Sound,
        BasicKind::StopBgm => Category::Sound,
        BasicKind::GetSoundVolume => Category::Sound,
        BasicKind::GetSoundDuration => Category::Sound,
    }
}

/// Parameter layout of a basic block.
pub open spec fn layout(k: BasicKind) -> Seq<Slot> {
    match k {
        BasicKind::WhenStart => seq![],
        BasicKind::WhenClick => seq![],
        BasicKind::WhenCloneStart => seq![],
        BasicKind::WhenMessageRecv => seq![Slot::Field(FieldDefault::Blank)],
        BasicKind::WhenKeyPressed => seq![Slot::Empty, Slot::Field(FieldDefault::KeyQ)],
        BasicKind::WhenMouseClicked => seq![],
        BasicKind::WhenMouseReleased => seq![],
        BasicKind::WhenObjectReleased => seq![],
        BasicKind::WhenSceneStart => seq![],
        BasicKind::MessageCast => seq![Slot::Field(FieldDefault::Blank), Slot::Empty],
        BasicKind::MessageCastWait => seq![Slot::Field(FieldDefault::Blank), Slot::Empty],
        BasicKind::StartScene => seq![Slot::Field(FieldDefault::Blank), Slot::Empty],
        BasicKind::StartNeighborScene => seq![Slot::Field(FieldDefault::Next), Slot::Empty],
        BasicKind::SetVar => seq![Slot::Var, Slot::Param, Slot::Empty],
        BasicKind::ChangeVar => seq![Slot::Var, Slot::Param, Slot::Empty],
        BasicKind::GetVar => seq![Slot::Var],
        BasicKind::ShowVar => seq![Slot::Var, Slot::Empty],
        BasicKind::HideVar => seq![Slot::Var, Slot::Empty],
        BasicKind::ListValueAt => seq![Slot::Param, Slot::List],
        BasicKind::AddValueToList => seq![Slot::Param, Slot::List, Slot::Empty],
        BasicKind::RemoveValueFromList => seq![Slot::Param, Slot::List, Slot::Empty],
        BasicKind::InsertValueToList => seq![Slot::Param, Slot::Param, Slot::List, Slot::Empty],
        BasicKind::ChangeValueListIndex => seq![Slot::Param, Slot::Param, Slot::List, Slot::Empty],
        BasicKind::LengthOfList => seq![Slot::Empty, Slot::List, Slot::Empty],
        BasicKind::ShowList => seq![Slot::List, Slot::Empty],
        BasicKind::HideList => seq![Slot::List, Slot::Empty],
        BasicKind::IsIncludedInList => seq![Slot::Empty, Slot::List, Slot::Empty, Slot::Param, Slot::Empty],
        BasicKind::Break => seq![],
        BasicKind::Continue => seq![],
        BasicKind::StopAll => seq![Slot::Empty],
        BasicKind::RestartProject => seq![Slot::Empty],
        BasicKind::WaitSeconds => seq![Slot::Param],
        BasicKind::WaitUntilTrue => seq![Slot::Param, Slot::Empty],
        BasicKind::AskAndWait => seq![Slot::Param, Slot::Empty],
        BasicKind::GetCanvasInputValue => seq![],
        BasicKind::GetProjectTimerValue => seq![],
        BasicKind::DeleteClone => seq![],
        BasicKind::RemoveAllClones => seq![],
        BasicKind::CreateClone => seq![Slot::Field(FieldDefault::SelfTarget), Slot::Empty],
        BasicKind::IsPressSomeKey => seq![Slot::Field(FieldDefault::Space), Slot::Empty],
        BasicKind::IsClicked => seq![],
        BasicKind::IsObjectClicked => seq![],
        BasicKind::StringIncludes => seq![Slot::Param, Slot::Param],
        BasicKind::Show => seq![],
        BasicKind::Hide => seq![],
        BasicKind::ChangeToNextShape => seq![],
        BasicKind::RemoveDialog => seq![],
        BasicKind::EraseAllEffects => seq![],
        BasicKind::ChangeScaleSize => seq![Slot::Param, Slot::Empty],
        BasicKind::SetScaleSize => seq![Slot::Param, Slot::Empty],
        BasicKind::ResetScaleSize => seq![],
        BasicKind::FlipX => seq![],
        BasicKind::FlipY => seq![],
        BasicKind::ChangeObjectIndex => seq![Slot::Field(FieldDefault::Front)],
        BasicKind::MoveDirection => seq![Slot::Field(FieldDefault::Forward), Slot::Param, Slot::Empty],
        BasicKind::BounceWall => seq![],
        BasicKind::MoveX => seq![Slot::Param, Slot::Empty],
        BasicKind::MoveY => seq![Slot::Param, Slot::Empty],
        BasicKind::RotateRelative => seq![Slot::Param, Slot::Empty],
        BasicKind::DirectionRelative => seq![Slot::Param, Slot::Empty],
        BasicKind::MoveXyTime => seq![Slot::Param, Slot::Param, Slot::Param, Slot::Empty],
        BasicKind::LocateX => seq![Slot::Param, Slot::Empty],
        BasicKind::LocateY => seq![Slot::Param, Slot::Empty],
        BasicKind::LocateXY => seq![Slot::Param, Slot::Param, Slot::Empty],
        BasicKind::LocateXyTime => seq![Slot::Param, Slot::Param, Slot::Param, Slot::Empty],
        BasicKind::Locate => seq![Slot::Param, Slot::Empty],
        BasicKind::LocateObjectTime => seq![Slot::Param, Slot::Param, Slot::Empty],
        BasicKind::RotateByTime => seq![Slot::Param, Slot::Param, Slot::Empty],
        BasicKind::DirectionRelativeDuration => seq![Slot::Param, Slot::Param, Slot::Empty],
        BasicKind::RotateAbsolute => seq![Slot::Param, Slot::Empty],
        BasicKind::DirectionAbsolute => seq![Slot::Param, Slot::Empty],
        BasicKind::SeeAngleObject => seq![Slot::Param, Slot::Empty],
        BasicKind::MoveToAngle => seq![Slot::Param, Slot::Param, Slot::Empty],
        BasicKind::BrushStamp => seq![],
        BasicKind::StartDrawing => seq![],
        BasicKind::StopDrawing => seq![],
        BasicKind::StartFill => seq![],
        BasicKind::StopFill => seq![],
        BasicKind::SetColor => seq![Slot::Param, Slot::Param, Slot::Param],
        BasicKind::SetRandomColor => seq![],
        BasicKind::SetFillColor => seq![Slot::Param, Slot::Empty],
        BasicKind::ChangeThickness => seq![Slot::Param, Slot::Empty],
        BasicKind::SetThickness => seq![Slot::Param, Slot::Empty],
        BasicKind::ChangeBrushTransparency => seq![Slot::Param, Slot::Empty],
        BasicKind::SetBrushTranparency => seq![Slot::Param, Slot::Empty],
        BasicKind::BrushEraseAll => seq![],
        BasicKind::TextRead => seq![Slot::Param, Slot::Empty],
        BasicKind::TextWrite => seq![Slot::Param, Slot::Empty],
        BasicKind::TextAppend => seq![Slot::Param, Slot::Empty],
        BasicKind::TextPrepend => seq![Slot::Param, Slot::Empty],
        BasicKind::TextFlush => seq![],
        BasicKind::TextChangeFontColor => seq![Slot::Param, Slot::Empty],
        BasicKind::TextChangeBgColor => seq![Slot::Param, Slot::Empty],
        BasicKind::SoundSomethingWithBlock => seq![Slot::Param, Slot::Empty],
        BasicKind::SoundSomethingSecondWithBlock => seq![Slot::Param, Slot::Param, Slot::Empty],
        BasicKind::SoundFromTo => seq![Slot::Param, Slot::Param, Slot::Param, Slot::Empty],
        BasicKind::SoundSomethingWaitWithBlock => seq![Slot::Param, Slot::Empty],
        BasicKind::SoundSomethingSecondWaitWithBlock => seq![Slot::Param, Slot::Param, Slot::Empty],
        BasicKind::SoundFromToAndWait => seq![Slot::Param, Slot::Param, Slot::Param, Slot::Empty],
        BasicKind::SoundVolumeChange => seq![Slot::Param, Slot::Empty],
        BasicKind::SoundVolumeSet => seq![Slot::Param, Slot::Empty],
        BasicKind::SoundSpeedChange => seq![Slot::Param, Slot::Empty],
        BasicKind::SoundSpeedSet => seq![Slot::Param, Slot::Empty],
        BasicKind::PlayBgm => seq![Slot::Param, Slot::Empty],
        BasicKind::GetSoundSpeed => seq![],
        BasicKind::SoundSilentAll => seq![Slot::Field(FieldDefault::All), Slot::Empty],
        BasicKind::StopBgm => seq![],
        BasicKind::GetSoundVolume => seq![],
        BasicKind::GetSoundDuration => seq![Slot::Empty, Slot::Required, Slot::Empty],
    }
}

pub fn layout_of(k: BasicKind) -> (r: Vec<Slot>)
    ensures
        r@ == layout(k),
{
    let r = match k {
        BasicKind::WhenStart => vec![],
        BasicKind::WhenClick => vec![],
        BasicKind::WhenCloneStart => vec![],
        BasicKind::WhenMessageRecv => vec![Slot::Field(FieldDefault::Blank)],
        BasicKind::WhenKeyPressed => vec![Slot::Empty, Slot::Field(FieldDefault::KeyQ)],
        BasicKind::WhenMouseClicked => vec![],
        BasicKind::WhenMouseReleased => vec![],
        BasicKind::WhenObjectReleased => vec![],
        BasicKind::WhenSceneStart => vec![],
        BasicKind::MessageCast => vec![Slot::Field(FieldDefault::Blank), Slot::Empty],
        BasicKind::MessageCastWait => vec![Slot::Field(FieldDefault::Blank), Slot::Empty],
        BasicKind::StartScene => vec![Slot::Field(FieldDefault::Blank), Slot::Empty],
        BasicKind::StartNeighborScene => vec![Slot::Field(FieldDefault::Next), Slot::Empty],
        BasicKind::SetVar => vec![Slot::Var, Slot::Param, Slot::Empty],
        BasicKind::ChangeVar => vec![Slot::Var, Slot::Param, Slot::Empty],
        BasicKind::GetVar => vec![Slot::Var],
        BasicKind::ShowVar => vec![Slot::Var, Slot::Empty],
        BasicKind::HideVar => vec![Slot::Var, Slot::Empty],
        BasicKind::ListValueAt => vec![Slot::Param, Slot::List],
        BasicKind::AddValueToList => vec![Slot::Param, Slot::List, Slot::Empty],
        BasicKind::RemoveValueFromList => vec![Slot::Param, Slot::List, Slot::Empty],
        BasicKind::InsertValueToList => vec![Slot::Param, Slot::Param, Slot::List, Slot::Empty],
        BasicKind::ChangeValueListIndex => vec![Slot::Param, Slot::Param, Slot::List, Slot::Empty],
        BasicKind::LengthOfList => vec![Slot::Empty, Slot::List, Slot::Empty],
        BasicKind::ShowList => vec![Slot::List, Slot::Empty],
        BasicKind::HideList => vec![Slot::List, Slot::Empty],
        BasicKind::IsIncludedInList => vec![Slot::Empty, Slot::List, Slot::Empty, Slot::Param, Slot::Empty],
        BasicKind::Break => vec![],
        BasicKind::Continue => vec![],
        BasicKind::StopAll => vec![Slot::Empty],
        BasicKind::RestartProject => vec![Slot::Empty],
        BasicKind::WaitSeconds => vec![Slot::Param],
        BasicKind::WaitUntilTrue => vec![Slot::Param, Slot::Empty],
        BasicKind::AskAndWait => vec![Slot::Param, Slot::Empty],
        BasicKind::GetCanvasInputValue => vec![],
        BasicKind::GetProjectTimerValue => vec![],
        BasicKind::DeleteClone => vec![],
        BasicKind::RemoveAllClones => vec![],
        BasicKind::CreateClone => vec![Slot::Field(FieldDefault::SelfTarget), Slot::Empty],
        BasicKind::IsPressSomeKey => vec![Slot::Field(FieldDefault::Space), Slot::Empty],
        BasicKind::IsClicked => vec![],
        BasicKind::IsObjectClicked => vec![],
        BasicKind::StringIncludes => vec![Slot::Param, Slot::Param],
        BasicKind::Show => vec![],
        BasicKind::Hide => vec![],
        BasicKind::ChangeToNextShape => vec![],
        BasicKind::RemoveDialog => vec![],
        BasicKind::EraseAllEffects => vec![],
        BasicKind::ChangeScaleSize => vec![Slot::Param, Slot::Empty],
        BasicKind::SetScaleSize => vec![Slot::Param, Slot::Empty],
        BasicKind::ResetScaleSize => vec![],
        BasicKind::FlipX => vec![],
        BasicKind::FlipY => vec![],
        BasicKind::ChangeObjectIndex => vec![Slot::Field(FieldDefault::Front)],
        BasicKind::MoveDirection => vec![Slot::Field(FieldDefault::Forward), Slot::Param, Slot::Empty],
        BasicKind::BounceWall => vec![],
        BasicKind::MoveX => vec![Slot::Param, Slot::Empty],
        BasicKind::MoveY => vec![Slot::Param, Slot::Empty],
        BasicKind::RotateRelative => vec![Slot::Param, Slot::Empty],
        BasicKind::DirectionRelative => vec![Slot::Param, Slot::Empty],
        BasicKind::MoveXyTime => vec![Slot::Param, Slot::Param, Slot::Param, Slot::Empty],
        BasicKind::LocateX => vec![Slot::Param, Slot::Empty],
        BasicKind::LocateY => vec![Slot::Param, Slot::Empty],
        BasicKind::LocateXY => vec![Slot::Param, Slot::Param, Slot::Empty],
        BasicKind::LocateXyTime => vec![Slot::Param, Slot::Param, Slot::Param, Slot::Empty],
        BasicKind::Locate => vec![Slot::Param, Slot::Empty],
        BasicKind::LocateObjectTime => vec![Slot::Param, Slot::Param, Slot::Empty],
        BasicKind::RotateByTime => vec![Slot::Param, Slot::Param, Slot::Empty],
        BasicKind::DirectionRelativeDuration => vec![Slot::Param, Slot::Param, Slot::Empty],
        BasicKind::RotateAbsolute => vec![Slot::Param, Slot::Empty],
        BasicKind::DirectionAbsolute => vec![Slot::Param, Slot::Empty],
        BasicKind::SeeAngleObject => vec![Slot::Param, Slot::Empty],
        BasicKind::MoveToAngle => vec![Slot::Param, Slot::Param, Slot::Empty],
        BasicKind::BrushStamp => vec![],
        BasicKind::StartDrawing => vec![],
        BasicKind::StopDrawing => vec![],
        BasicKind::StartFill => vec![],
        BasicKind::StopFill => vec![],
        BasicKind::SetColor => vec![Slot::Param, Slot::Param, Slot::Param],
        BasicKind::SetRandomColor => vec![],
        BasicKind::SetFillColor => vec![Slot::Param, Slot::Empty],
        BasicKind::ChangeThickness => vec![Slot::Param, Slot::Empty],
        BasicKind::SetThickness => vec![Slot::Param, Slot::Empty],
        BasicKind::ChangeBrushTransparency => vec![Slot::Param, Slot::Empty],
        BasicKind::SetBrushTranparency => vec![Slot::Param, Slot::Empty],
        BasicKind::BrushEraseAll => vec![],
        BasicKind::TextRead => vec![Slot::Param, Slot::Empty],
        BasicKind::TextWrite => vec![Slot::Param, Slot::Empty],
        BasicKind::TextAppend => vec![Slot::Param, Slot::Empty],
        BasicKind::TextPrepend => vec![Slot::Param, Slot::Empty],
        BasicKind::TextFlush => vec![],
        BasicKind::TextChangeFontColor => vec![Slot::Param, Slot::Empty],
        BasicKind::TextChangeBgColor => vec![Slot::Param, Slot::Empty],
        BasicKind::SoundSomethingWithBlock => vec![Slot::Param, Slot::Empty],
        BasicKind::SoundSomethingSecondWithBlock => vec![Slot::Param, Slot::Param, Slot::Empty],
        BasicKind::SoundFromTo => vec![Slot::Param, Slot::Param, Slot::Param, Slot::Empty],
        BasicKind::SoundSomethingWaitWithBlock => vec![Slot::Param, Slot::Empty],
        BasicKind::SoundSomethingSecondWaitWithBlock => vec![Slot::Param, Slot::Param, Slot::Empty],
        BasicKind::SoundFromToAndWait => vec![Slot::Param, Slot::Param, Slot::Param, Slot::Empty],
        BasicKind::SoundVolumeChange => vec![Slot::Param, Slot::Empty],
        BasicKind::SoundVolumeSet => vec![Slot::Param, Slot::Empty],
        BasicKind::SoundSpeedChange => vec![Slot::Param, Slot::Empty],
        BasicKind::SoundSpeedSet => vec![Slot::Param, Slot::Empty],
        BasicKind::PlayBgm => vec![Slot::Param, Slot::Empty],
        BasicKind::GetSoundSpeed => vec![],
        BasicKind::SoundSilentAll => vec![Slot::Field(FieldDefault::All), Slot::Empty],
        BasicKind::StopBgm => vec![],
        BasicKind::GetSoundVolume => vec![],
        BasicKind::GetSoundDuration => vec![Slot::Empty, Slot::Required, Slot::Empty],
    };
    proof {
        assert(r@ =~= layout(k));
    }
    r
}

/// Whether a statement-level call of the block's source name builds it.
pub open spec fn stmt_callable(k: BasicKind) -> bool {
    match k {
        BasicKind::MessageCast
        | BasicKind::MessageCastWait
        | BasicKind::StartScene
        | BasicKind::ShowVar
        | BasicKind::HideVar
        | BasicKind::AddValueToList
        | BasicKind::RemoveValueFromList
        | BasicKind::InsertValueToList
        | BasicKind::ChangeValueListIndex
        | BasicKind::LengthOfList
        | BasicKind::ShowList
        | BasicKind::HideList
        | BasicKind::IsIncludedInList
        | BasicKind::StopAll
        | BasicKind::RestartProject
        | BasicKind::WaitSeconds
        | BasicKind::WaitUntilTrue
        | BasicKind::AskAndWait
        | BasicKind::GetCanvasInputValue
        | BasicKind::GetProjectTimerValue
        | BasicKind::DeleteClone
        | BasicKind::RemoveAllClones
        | BasicKind::CreateClone
        | BasicKind::IsPressSomeKey
        | BasicKind::IsClicked
        | BasicKind::IsObjectClicked
        | BasicKind::Show
        | BasicKind::Hide
        | BasicKind::ChangeToNextShape
        | BasicKind::RemoveDialog
        | BasicKind::EraseAllEffects
        | BasicKind::ChangeScaleSize
        | BasicKind::SetScaleSize
        | BasicKind::ResetScaleSize
        | BasicKind::FlipX
        | BasicKind::FlipY
        | BasicKind::ChangeObjectIndex
        | BasicKind::MoveDirection
        | BasicKind::BounceWall
        | BasicKind::MoveX
        | BasicKind::MoveY
        | BasicKind::RotateRelative
        | BasicKind::DirectionRelative
        | BasicKind::MoveXyTime
        | BasicKind::LocateX
        | BasicKind::LocateY
        | BasicKind::LocateXY
        | BasicKind::LocateXyTime
        | BasicKind::Locate
        | BasicKind::LocateObjectTime
        | BasicKind::RotateByTime
        | BasicKind::DirectionRelativeDuration
        | BasicKind::RotateAbsolute
        | BasicKind::DirectionAbsolute
        | BasicKind::SeeAngleObject
        | BasicKind::MoveToAngle
        | BasicKind::BrushStamp
        | BasicKind::StartDrawing
        | BasicKind::StopDrawing
        | BasicKind::StartFill
        | BasicKind::StopFill
        | BasicKind::SetColor
        | BasicKind::SetRandomColor
        | BasicKind::SetFillColor
        | BasicKind::ChangeThickness
        | BasicKind::SetThickness
        | BasicKind::ChangeBrushTransparency
        | BasicKind::SetBrushTranparency
        | BasicKind::BrushEraseAll
        | BasicKind::TextRead
        | BasicKind::TextWrite
        | BasicKind::TextAppend
        | BasicKind::TextPrepend
        | BasicKind::TextFlush
        | BasicKind::TextChangeFontColor
        | BasicKind::TextChangeBgColor
        | BasicKind::SoundSomethingWithBlock
        | BasicKind::SoundSomethingSecondWithBlock
        | BasicKind::SoundFromTo
        | BasicKind::SoundSomethingWaitWithBlock
        | BasicKind::SoundSomethingSecondWaitWithBlock
        | BasicKind::SoundFromToAndWait
        | BasicKind::SoundVolumeChange
        | BasicKind::SoundVolumeSet
        | BasicKind::SoundSpeedChange
        | BasicKind::SoundSpeedSet
        | BasicKind::PlayBgm
        | BasicKind::SoundSilentAll
        | BasicKind::StopBgm => true,
        _ => false,
    }
}

pub fn stmt_callable_of(k: BasicKind) -> (r: bool)
    ensures
        r == stmt_callable(k),
{
    match k {
        BasicKind::MessageCast
        | BasicKind::MessageCastWait
        | BasicKind::StartScene
        | BasicKind::ShowVar
        | BasicKind::HideVar
        | BasicKind::AddValueToList
        | BasicKind::RemoveValueFromList
        | BasicKind::InsertValueToList
        | BasicKind::ChangeValueListIndex
        | BasicKind::LengthOfList
        | BasicKind::ShowList
        | BasicKind::HideList
        | BasicKind::IsIncludedInList
        | BasicKind::StopAll
        | BasicKind::RestartProject
        | BasicKind::WaitSeconds
        | BasicKind::WaitUntilTrue
        | BasicKind::AskAndWait
        | BasicKind::GetCanvasInputValue
        | BasicKind::GetProjectTimerValue
        | BasicKind::DeleteClone
        | BasicKind::RemoveAllClones
        | BasicKind::CreateClone
        | BasicKind::IsPressSomeKey
        | BasicKind::IsClicked
        | BasicKind::IsObjectClicked
        | BasicKind::Show
        | BasicKind::Hide
        | BasicKind::ChangeToNextShape
        | BasicKind::RemoveDialog
        | BasicKind::EraseAllEffects
        | BasicKind::ChangeScaleSize
        | BasicKind::SetScaleSize
        | BasicKind::ResetScaleSize
        | BasicKind::FlipX
        | BasicKind::FlipY
        | BasicKind::ChangeObjectIndex
        | BasicKind::MoveDirection
        | BasicKind::BounceWall
        | BasicKind::MoveX
        | BasicKind::MoveY
        | BasicKind::RotateRelative
        | BasicKind::DirectionRelative
        | BasicKind::MoveXyTime
        | BasicKind::LocateX
        | BasicKind::LocateY
        | BasicKind::LocateXY
        | BasicKind::LocateXyTime
        | BasicKind::Locate
        | BasicKind::LocateObjectTime
        | BasicKind::RotateByTime
        | BasicKind::DirectionRelativeDuration
        | BasicKind::RotateAbsolute
        | BasicKind::DirectionAbsolute
        | BasicKind::SeeAngleObject
        | BasicKind::MoveToAngle
        | BasicKind::BrushStamp
        | BasicKind::StartDrawing
        | BasicKind::StopDrawing
        | BasicKind::StartFill
        | BasicKind::StopFill
        | BasicKind::SetColor
        | BasicKind::SetRandomColor
        | BasicKind::SetFillColor
        | BasicKind::ChangeThickness
        | BasicKind::SetThickness
        | BasicKind::ChangeBrushTransparency
        | BasicKind::SetBrushTranparency
        | BasicKind::BrushEraseAll
        | BasicKind::TextRead
        | BasicKind::TextWrite
        | BasicKind::TextAppend
        | BasicKind::TextPrepend
        | BasicKind::TextFlush
        | BasicKind::TextChangeFontColor
        | BasicKind::TextChangeBgColor
        | BasicKind::SoundSomethingWithBlock
        | BasicKind::SoundSomethingSecondWithBlock
        | BasicKind::SoundFromTo
        | BasicKind::SoundSomethingWaitWithBlock
        | BasicKind::SoundSomethingSecondWaitWithBlock
        | BasicKind::SoundFromToAndWait
        | BasicKind::SoundVolumeChange
        | BasicKind::SoundVolumeSet
        | BasicKind::SoundSpeedChange
        | BasicKind::SoundSpeedSet
        | BasicKind::PlayBgm
        | BasicKind::SoundSilentAll
        | BasicKind::StopBgm => true,
        _ => false,
    }
}

/// Whether a call of the block's source name inside an expression builds it.
pub open spec fn value_callable(k: BasicKind) -> bool {
    match k {
        BasicKind::ListValueAt
        | BasicKind::LengthOfList
        | BasicKind::IsIncludedInList
        | BasicKind::GetCanvasInputValue
        | BasicKind::GetProjectTimerValue
        | BasicKind::IsPressSomeKey
        | BasicKind::StringIncludes
        | BasicKind::TextRead
        | BasicKind::GetSoundSpeed
        | BasicKind::GetSoundVolume
        | BasicKind::GetSoundDuration => true,
        _ => false,
    }
}

pub fn value_callable_of(k: BasicKind) -> (r: bool)
    ensures
        r == value_callable(k),
{
    match k {
        BasicKind::ListValueAt
        | BasicKind::LengthOfList
        | BasicKind::IsIncludedInList
        | BasicKind::GetCanvasInputValue
        | BasicKind::GetProjectTimerValue
        | BasicKind::IsPressSomeKey
        | BasicKind::StringIncludes
        | BasicKind::TextRead
        | BasicKind::GetSoundSpeed
        | BasicKind::GetSoundVolume
        | BasicKind::GetSoundDuration => true,
        _ => false,
    }
}

/// Whether the block reads back as a call inside an expression.
pub open spec fn value_block(k: BasicKind) -> bool {
    match k {
        BasicKind::ListValueAt
        | BasicKind::LengthOfList
        | BasicKind::IsIncludedInList
        | BasicKind::GetCanvasInputValue
        | BasicKind::GetProjectTimerValue
        | BasicKind::IsPressSomeKey
        | BasicKind::IsClicked
        | BasicKind::IsObjectClicked
        | BasicKind::StringIncludes
        | BasicKind::TextRead
        | BasicKind::TextFlush
        | BasicKind::TextChangeFontColor
        | BasicKind::TextChangeBgColor
        | BasicKind::SoundSomethingWithBlock
        | BasicKind::SoundSomethingSecondWithBlock
        | BasicKind::SoundFromTo
        | BasicKind::SoundSomethingWaitWithBlock
        | BasicKind::SoundSomethingSecondWaitWithBlock
        | BasicKind::SoundFromToAndWait
        | BasicKind::SoundVolumeChange
        | BasicKind::SoundVolumeSet
        | BasicKind::SoundSpeedChange
        | BasicKind::SoundSpeedSet
        | BasicKind::PlayBgm
        | BasicKind::GetSoundSpeed
        | BasicKind::SoundSilentAll
        | BasicKind::StopBgm
        | BasicKind::GetSoundVolume
        | BasicKind::GetSoundDuration => true,
        _ => false,
    }
}

pub fn value_block_of(k: BasicKind) -> (r: bool)
    ensures
        r == value_block(k),
{
    match k {
        BasicKind::ListValueAt
        | BasicKind::LengthOfList
        | BasicKind::IsIncludedInList
        | BasicKind::GetCanvasInputValue
        | BasicKind::GetProjectTimerValue
        | BasicKind::IsPressSomeKey
        | BasicKind::IsClicked
        | BasicKind::IsObjectClicked
        | BasicKind::StringIncludes
        | BasicKind::TextRead
        | BasicKind::TextFlush
        | BasicKind::TextChangeFontColor
        | BasicKind::TextChangeBgColor
        | BasicKind::SoundSomethingWithBlock
        | BasicKind::SoundSomethingSecondWithBlock
        | BasicKind::SoundFromTo
        | BasicKind::SoundSomethingWaitWithBlock
        | BasicKind::SoundSomethingSecondWaitWithBlock
        | BasicKind::SoundFromToAndWait
        | BasicKind::SoundVolumeChange
        | BasicKind::SoundVolumeSet
        | BasicKind::SoundSpeedChange
        | BasicKind::SoundSpeedSet
        | BasicKind::PlayBgm
        | BasicKind::GetSoundSpeed
        | BasicKind::SoundSilentAll
        | BasicKind::StopBgm
        | BasicKind::GetSoundVolume
        | BasicKind::GetSoundDuration => true,
        _ => false,
    }
}

/// All basic kinds, in table order.
pub open spec fn all_kinds() -> Seq<BasicKind> {
    seq![BasicKind::WhenStart, BasicKind::WhenClick, BasicKind::WhenCloneStart, BasicKind::WhenMessageRecv, BasicKind::WhenKeyPressed, BasicKind::WhenMouseClicked, BasicKind::WhenMouseReleased, BasicKind::WhenObjectReleased, BasicKind::WhenSceneStart, BasicKind::MessageCast, BasicKind::MessageCastWait, BasicKind::StartScene, BasicKind::StartNeighborScene, BasicKind::SetVar, BasicKind::ChangeVar, BasicKind::GetVar, BasicKind::ShowVar, BasicKind::HideVar, BasicKind::ListValueAt, BasicKind::AddValueToList, BasicKind::RemoveValueFromList, BasicKind::InsertValueToList, BasicKind::ChangeValueListIndex, BasicKind::LengthOfList, BasicKind::ShowList, BasicKind::HideList, BasicKind::IsIncludedInList, BasicKind::Break, BasicKind::Continue, BasicKind::StopAll, BasicKind::RestartProject, BasicKind::WaitSeconds, BasicKind::WaitUntilTrue, BasicKind::AskAndWait, BasicKind::GetCanvasInputValue, BasicKind::GetProjectTimerValue, BasicKind::DeleteClone, BasicKind::RemoveAllClones, BasicKind::CreateClone, BasicKind::IsPressSomeKey, BasicKind::IsClicked, BasicKind::IsObjectClicked, BasicKind::StringIncludes, BasicKind::Show, BasicKind::Hide, BasicKind::ChangeToNextShape, BasicKind::RemoveDialog, BasicKind::EraseAllEffects, BasicKind::ChangeScaleSize, BasicKind::SetScaleSize, BasicKind::ResetScaleSize, BasicKind::FlipX, BasicKind::FlipY, BasicKind::ChangeObjectIndex, BasicKind::MoveDirection, BasicKind::BounceWall, BasicKind::MoveX, BasicKind::MoveY, BasicKind::RotateRelative, BasicKind::DirectionRelative, BasicKind::MoveXyTime, BasicKind::LocateX, BasicKind::LocateY, BasicKind::LocateXY, BasicKind::LocateXyTime, BasicKind::Locate, BasicKind::LocateObjectTime, BasicKind::RotateByTime, BasicKind::DirectionRelativeDuration, BasicKind::RotateAbsolute, BasicKind::DirectionAbsolute, BasicKind::SeeAngleObject, BasicKind::MoveToAngle, BasicKind::BrushStamp, BasicKind::StartDrawing, BasicKind::StopDrawing, BasicKind::StartFill, BasicKind::StopFill, BasicKind::SetColor, BasicKind::SetRandomColor, BasicKind::SetFillColor, BasicKind::ChangeThickness, BasicKind::SetThickness, BasicKind::ChangeBrushTransparency, BasicKind::SetBrushTranparency, BasicKind::BrushEraseAll, BasicKind::TextRead, BasicKind::TextWrite, BasicKind::TextAppend, BasicKind::TextPrepend, BasicKind::TextFlush, BasicKind::TextChangeFontColor, BasicKind::TextChangeBgColor, BasicKind::SoundSomethingWithBlock, BasicKind::SoundSomethingSecondWithBlock, BasicKind::SoundFromTo, BasicKind::SoundSomethingWaitWithBlock, BasicKind::SoundSomethingSecondWaitWithBlock, BasicKind::SoundFromToAndWait, BasicKind::SoundVolumeChange, BasicKind::SoundVolumeSet, BasicKind::SoundSpeedChange, BasicKind::SoundSpeedSet, BasicKind::PlayBgm, BasicKind::GetSoundSpeed, BasicKind::SoundSilentAll, BasicKind::StopBgm, BasicKind::GetSoundVolume, BasicKind::GetSoundDuration]
}

pub fn all_kinds_vec() -> (r: Vec<BasicKind>)
    ensures
        r@ == all_kinds(),
{
    let r = vec![BasicKind::WhenStart, BasicKind::WhenClick, BasicKind::WhenCloneStart, BasicKind::WhenMessageRecv, BasicKind::WhenKeyPressed, BasicKind::WhenMouseClicked, BasicKind::WhenMouseReleased, BasicKind::WhenObjectReleased, BasicKind::WhenSceneStart, BasicKind::MessageCast, BasicKind::MessageCastWait, BasicKind::StartScene, BasicKind::StartNeighborScene, BasicKind::SetVar, BasicKind::ChangeVar, BasicKind::GetVar, BasicKind::ShowVar, BasicKind::HideVar, BasicKind::ListValueAt, BasicKind::AddValueToList, BasicKind::RemoveValueFromList, BasicKind::InsertValueToList, BasicKind::ChangeValueListIndex, BasicKind::LengthOfList, BasicKind::ShowList, BasicKind::HideList, BasicKind::IsIncludedInList, BasicKind::Break, BasicKind::Continue, BasicKind::StopAll, BasicKind::RestartProject, BasicKind::WaitSeconds, BasicKind::WaitUntilTrue, BasicKind::AskAndWait, BasicKind::GetCanvasInputValue, BasicKind::GetProjectTimerValue, BasicKind::DeleteClone, BasicKind::RemoveAllClones, BasicKind::CreateClone, BasicKind::IsPressSomeKey, BasicKind::IsClicked, BasicKind::IsObjectClicked, BasicKind::StringIncludes, BasicKind::Show, BasicKind::Hide, BasicKind::ChangeToNextShape, BasicKind::RemoveDialog, BasicKind::EraseAllEffects, BasicKind::ChangeScaleSize, BasicKind::SetScaleSize, BasicKind::ResetScaleSize, BasicKind::FlipX, BasicKind::FlipY, BasicKind::ChangeObjectIndex, BasicKind::MoveDirection, BasicKind::BounceWall, BasicKind::MoveX, BasicKind::MoveY, BasicKind::RotateRelative, BasicKind::DirectionRelative, BasicKind::MoveXyTime, BasicKind::LocateX, BasicKind::LocateY, BasicKind::LocateXY, BasicKind::LocateXyTime, BasicKind::Locate, BasicKind::LocateObjectTime, BasicKind::RotateByTime, BasicKind::DirectionRelativeDuration, BasicKind::RotateAbsolute, BasicKind::DirectionAbsolute, BasicKind::SeeAngleObject, BasicKind::MoveToAngle, BasicKind::BrushStamp, BasicKind::StartDrawing, BasicKind::StopDrawing, BasicKind::StartFill, BasicKind::StopFill, BasicKind::SetColor, BasicKind::SetRandomColor, BasicKind::SetFillColor, BasicKind::ChangeThickness, BasicKind::SetThickness, BasicKind::ChangeBrushTransparency, BasicKind::SetBrushTranparency, BasicKind::BrushEraseAll, BasicKind::TextRead, BasicKind::TextWrite, BasicKind::TextAppend, BasicKind::TextPrepend, BasicKind::TextFlush, BasicKind::TextChangeFontColor, BasicKind::TextChangeBgColor, BasicKind::SoundSomethingWithBlock, BasicKind::SoundSomethingSecondWithBlock, BasicKind::SoundFromTo, BasicKind::SoundSomethingWaitWithBlock, BasicKind::SoundSomethingSecondWaitWithBlock, BasicKind::SoundFromToAndWait, BasicKind::SoundVolumeChange, BasicKind::SoundVolumeSet, BasicKind::SoundSpeedChange, BasicKind::SoundSpeedSet, BasicKind::PlayBgm, BasicKind::GetSoundSpeed, BasicKind::SoundSilentAll, BasicKind::StopBgm, BasicKind::GetSoundVolume, BasicKind::GetSoundDuration];
    proof {
        assert(r@ =~= all_kinds());
    }
    r
}

/// Length and characters at a few fixed positions; two distinct known
/// type names never share it.
pub open spec fn name_sig(s: Seq<char>) -> (int, char, char, char, char) {
    (s.len() as int, (if 0 < s.len() { s[0] } else { '\0' }), (if 5 < s.len() { s[5] } else { '\0' }), (if 7 < s.len() { s[7] } else { '\0' }), (if 10 < s.len() { s[10] } else { '\0' }))
}

/// The known type name with a given signature.
pub open spec fn tag_of_sig(g: (int, char, char, char, char)) -> Option<TypeTag> {
    if g == (8int, 'w', 'r', 'n', '\0') {
        Some(TypeTag::Basic(BasicKind::WhenStart))
    } else if g == (10int, 'w', 'c', 'i', '\0') {
        Some(TypeTag::Basic(BasicKind::WhenClick))
    } else if g == (16int, 'w', 'c', 'o', '_') {
        Some(TypeTag::Basic(BasicKind::WhenCloneStart))
    } else if g == (17int, 'w', 'm', 's', 'g') {
        Some(TypeTag::Basic(BasicKind::WhenMessageRecv))
    } else if g == (21int, 'w', 's', 'm', 'k') {
        Some(TypeTag::Basic(BasicKind::WhenKeyPressed))
    } else if g == (13int, 'm', '_', 'l', 'k') {
        Some(TypeTag::Basic(BasicKind::WhenMouseClicked))
    } else if g == (19int, 'm', '_', 'l', 'k') {
        Some(TypeTag::Basic(BasicKind::WhenMouseReleased))
    } else if g == (26int, 'w', 'o', 'j', 't') {
        Some(TypeTag::Basic(BasicKind::WhenObjectReleased))
    } else if g == (16int, 'w', 's', 'e', '_') {
        Some(TypeTag::Basic(BasicKind::WhenSceneStart))
    } else if g == (12int, 'm', 'g', '_', 's') {
        Some(TypeTag::Basic(BasicKind::MessageCast))
    } else if g == (17int, 'm', 'g', '_', 's') {
        Some(TypeTag::Basic(BasicKind::MessageCastWait))
    } else if g == (11int, 's', '_', 'c', 'e') {
        Some(TypeTag::Basic(BasicKind::StartScene))
    } else if g == (20int, 's', '_', 'e', 'h') {
        Some(TypeTag::Basic(BasicKind::StartNeighborScene))
    } else if g == (12int, 's', 'a', 'i', 'l') {
        Some(TypeTag::Basic(BasicKind::SetVar))
    } else if g == (15int, 'c', 'e', 'v', 'i') {
        Some(TypeTag::Basic(BasicKind::ChangeVar))
    } else if g == (12int, 'g', 'a', 'i', 'l') {
        Some(TypeTag::Basic(BasicKind::GetVar))
    } else if g == (13int, 's', 'v', 'r', 'b') {
        Some(TypeTag::Basic(BasicKind::ShowVar))
    } else if g == (13int, 'h', 'v', 'r', 'b') {
        Some(TypeTag::Basic(BasicKind::HideVar))
    } else if g == (24int, 'v', '_', 'f', 'n') {
        Some(TypeTag::Basic(BasicKind::ListValueAt))
    } else if g == (17int, 'a', 'a', 'u', 't') {
        Some(TypeTag::Basic(BasicKind::AddValueToList))
    } else if g == (22int, 'r', 'e', 'v', 'u') {
        Some(TypeTag::Basic(BasicKind::RemoveValueFromList))
    } else if g == (20int, 'i', 't', 'v', 'u') {
        Some(TypeTag::Basic(BasicKind::InsertValueToList))
    } else if g == (23int, 'c', 'e', 'v', 'u') {
        Some(TypeTag::Basic(BasicKind::ChangeValueListIndex))
    } else if g == (14int, 'l', 'h', 'o', 'l') {
        Some(TypeTag::Basic(BasicKind::LengthOfList))
    } else if g == (9int, 's', 'l', 's', '\0') {
        Some(TypeTag::Basic(BasicKind::ShowList))
    } else if g == (9int, 'h', 'l', 's', '\0') {
        Some(TypeTag::Basic(BasicKind::HideList))
    } else if g == (19int, 'i', 'c', 'u', 'd') {
        Some(TypeTag::Basic(BasicKind::IsIncludedInList))
    } else if g == (11int, 's', 'o', 'j', 't') {
        Some(TypeTag::Basic(BasicKind::Break))
    } else if g == (9int, '_', 'i', 'u', '\0') {
        Some(TypeTag::Basic(BasicKind::Continue))
    } else if g == (12int, 's', 'r', 'n', 'l') {
        Some(TypeTag::Basic(BasicKind::StopAll))
    } else if g == (15int, 'r', 'r', '_', 'o') {
        Some(TypeTag::Basic(BasicKind::RestartProject))
    } else if g == (11int, 'w', 's', 'c', 'd') {
        Some(TypeTag::Basic(BasicKind::WaitSeconds))
    } else if g == (15int, 'w', 'u', 't', '_') {
        Some(TypeTag::Basic(BasicKind::WaitUntilTrue))
    } else if g == (12int, 'a', 'n', '_', 'i') {
        Some(TypeTag::Basic(BasicKind::AskAndWait))
    } else if g == (22int, 'g', 'a', 'v', '_') {
        Some(TypeTag::Basic(BasicKind::GetCanvasInputValue))
    } else if g == (23int, 'g', 'r', 'j', 't') {
        Some(TypeTag::Basic(BasicKind::GetProjectTimerValue))
    } else if g == (12int, 'd', 'e', 'c', 'n') {
        Some(TypeTag::Basic(BasicKind::DeleteClone))
    } else if g == (17int, 'r', 'e', 'a', '_') {
        Some(TypeTag::Basic(BasicKind::RemoveAllClones))
    } else if g == (12int, 'c', 'e', 'c', 'n') {
        Some(TypeTag::Basic(BasicKind::CreateClone))
    } else if g == (17int, 'i', 'e', 's', 'o') {
        Some(TypeTag::Basic(BasicKind::IsPressSomeKey))
    } else if g == (10int, 'i', 'i', 'k', '\0') {
        Some(TypeTag::Basic(BasicKind::IsClicked))
    } else if g == (17int, 'i', 'j', 'c', 'c') {
        Some(TypeTag::Basic(BasicKind::IsObjectClicked))
    } else if g == (15int, 's', 'g', 'i', 'e') {
        Some(TypeTag::Basic(BasicKind::StringIncludes))
    } else if g == (4int, 's', '\0', '\0', '\0') {
        Some(TypeTag::Basic(BasicKind::Show))
    } else if g == (4int, 'h', '\0', '\0', '\0') {
        Some(TypeTag::Basic(BasicKind::Hide))
    } else if g == (20int, 'c', 'e', 't', 'n') {
        Some(TypeTag::Basic(BasicKind::ChangeToNextShape))
    } else if g == (13int, 'r', 'e', 'd', 'l') {
        Some(TypeTag::Basic(BasicKind::RemoveDialog))
    } else if g == (17int, 'e', '_', 'l', 'e') {
        Some(TypeTag::Basic(BasicKind::EraseAllEffects))
    } else if g == (17int, 'c', 'e', 's', 'l') {
        Some(TypeTag::Basic(BasicKind::ChangeScaleSize))
    } else if g == (14int, 's', 'c', 'l', 's') {
        Some(TypeTag::Basic(BasicKind::SetScaleSize))
    } else if g == (16int, 'r', '_', 'c', 'e') {
        Some(TypeTag::Basic(BasicKind::ResetScaleSize))
    } else if g == (6int, 'f', 'x', '\0', '\0') {
        Some(TypeTag::Basic(BasicKind::FlipX))
    } else if g == (6int, 'f', 'y', '\0', '\0') {
        Some(TypeTag::Basic(BasicKind::FlipY))
    } else if g == (19int, 'c', 'e', 'o', 'e') {
        Some(TypeTag::Basic(BasicKind::ChangeObjectIndex))
    } else if g == (14int, 'm', 'd', 'r', 't') {
        Some(TypeTag::Basic(BasicKind::MoveDirection))
    } else if g == (11int, 'b', 'e', 'w', 'l') {
        Some(TypeTag::Basic(BasicKind::BounceWall))
    } else if g == (6int, 'm', 'x', '\0', '\0') {
        Some(TypeTag::Basic(BasicKind::MoveX))
    } else if g == (6int, 'm', 'y', '\0', '\0') {
        Some(TypeTag::Basic(BasicKind::MoveY))
    } else if g == (15int, 'r', 'e', 'r', 'a') {
        Some(TypeTag::Basic(BasicKind::RotateRelative))
    } else if g == (18int, 'd', 't', 'o', 'r') {
        Some(TypeTag::Basic(BasicKind::DirectionRelative))
    } else if g == (12int, 'm', 'x', '_', 'm') {
        Some(TypeTag::Basic(BasicKind::MoveXyTime))
    } else if g == (8int, 'l', 'e', 'x', '\0') {
        Some(TypeTag::Basic(BasicKind::LocateX))
    } else if g == (8int, 'l', 'e', 'y', '\0') {
        Some(TypeTag::Basic(BasicKind::LocateY))
    } else if g == (9int, 'l', 'e', 'x', '\0') {
        Some(TypeTag::Basic(BasicKind::LocateXY))
    } else if g == (14int, 'l', 'e', 'x', 't') {
        Some(TypeTag::Basic(BasicKind::LocateXyTime))
    } else if g == (6int, 'l', 'e', '\0', '\0') {
        Some(TypeTag::Basic(BasicKind::Locate))
    } else if g == (18int, 'l', 'e', 'o', 'e') {
        Some(TypeTag::Basic(BasicKind::LocateObjectTime))
    } else if g == (14int, 'r', 'e', 'b', 't') {
        Some(TypeTag::Basic(BasicKind::RotateByTime))
    } else if g == (27int, 'd', 't', 'o', 'r') {
        Some(TypeTag::Basic(BasicKind::DirectionRelativeDuration))
    } else if g == (15int, 'r', 'e', 'a', 'o') {
        Some(TypeTag::Basic(BasicKind::RotateAbsolute))
    } else if g == (18int, 'd', 't', 'o', 'a') {
        Some(TypeTag::Basic(BasicKind::DirectionAbsolute))
    } else if g == (16int, 's', 'n', 'l', 'o') {
        Some(TypeTag::Basic(BasicKind::SeeAngleObject))
    } else if g == (13int, 'm', 't', '_', 'g') {
        Some(TypeTag::Basic(BasicKind::MoveToAngle))
    } else if g == (11int, 'b', '_', 't', 'p') {
        Some(TypeTag::Basic(BasicKind::BrushStamp))
    } else if g == (13int, 's', '_', 'r', 'i') {
        Some(TypeTag::Basic(BasicKind::StartDrawing))
    } else if g == (12int, 's', 'd', 'a', 'n') {
        Some(TypeTag::Basic(BasicKind::StopDrawing))
    } else if g == (10int, 's', '_', 'i', '\0') {
        Some(TypeTag::Basic(BasicKind::StartFill))
    } else if g == (9int, 's', 'f', 'l', '\0') {
        Some(TypeTag::Basic(BasicKind::StopFill))
    } else if g == (9int, 's', 'o', 'o', '\0') {
        Some(TypeTag::Basic(BasicKind::SetColor))
    } else if g == (16int, 's', 'a', 'd', '_') {
        Some(TypeTag::Basic(BasicKind::SetRandomColor))
    } else if g == (14int, 's', 'i', 'l', 'o') {
        Some(TypeTag::Basic(BasicKind::SetFillColor))
    } else if g == (16int, 'c', 'e', 't', 'c') {
        Some(TypeTag::Basic(BasicKind::ChangeThickness))
    } else if g == (13int, 's', 'h', 'c', 'e') {
        Some(TypeTag::Basic(BasicKind::SetThickness))
    } else if g == (25int, 'c', 'e', 'b', 's') {
        Some(TypeTag::Basic(BasicKind::ChangeBrushTransparency))
    } else if g == (21int, 's', 'r', 's', 't') {
        Some(TypeTag::Basic(BasicKind::SetBrushTranparency))
    } else if g == (15int, 'b', '_', 'r', 'e') {
        Some(TypeTag::Basic(BasicKind::BrushEraseAll))
    } else if g == (9int, 't', 'r', 'a', '\0') {
        Some(TypeTag::Basic(BasicKind::TextRead))
    } else if g == (10int, 't', 'w', 'i', '\0') {
        Some(TypeTag::Basic(BasicKind::TextWrite))
    } else if g == (11int, 't', 'a', 'p', 'd') {
        Some(TypeTag::Basic(BasicKind::TextAppend))
    } else if g == (12int, 't', 'p', 'e', 'n') {
        Some(TypeTag::Basic(BasicKind::TextPrepend))
    } else if g == (10int, 't', 'f', 'u', '\0') {
        Some(TypeTag::Basic(BasicKind::TextFlush))
    } else if g == (22int, 't', 'c', 'a', 'e') {
        Some(TypeTag::Basic(BasicKind::TextChangeFontColor))
    } else if g == (20int, 't', 'c', 'a', 'e') {
        Some(TypeTag::Basic(BasicKind::TextChangeBgColor))
    } else if g == (26int, 's', '_', 'o', 't') {
        Some(TypeTag::Basic(BasicKind::SoundSomethingWithBlock))
    } else if g == (33int, 's', '_', 'o', 't') {
        Some(TypeTag::Basic(BasicKind::SoundSomethingSecondWithBlock))
    } else if g == (13int, 's', '_', 'r', '_') {
        Some(TypeTag::Basic(BasicKind::SoundFromTo))
    } else if g == (31int, 's', '_', 'o', 't') {
        Some(TypeTag::Basic(BasicKind::SoundSomethingWaitWithBlock))
    } else if g == (38int, 's', '_', 'o', 't') {
        Some(TypeTag::Basic(BasicKind::SoundSomethingSecondWaitWithBlock))
    } else if g == (22int, 's', '_', 'r', '_') {
        Some(TypeTag::Basic(BasicKind::SoundFromToAndWait))
    } else if g == (19int, 's', '_', 'o', 'm') {
        Some(TypeTag::Basic(BasicKind::SoundVolumeChange))
    } else if g == (16int, 's', '_', 'o', 'm') {
        Some(TypeTag::Basic(BasicKind::SoundVolumeSet))
    } else if g == (18int, 's', '_', 'p', 'd') {
        Some(TypeTag::Basic(BasicKind::SoundSpeedChange))
    } else if g == (15int, 's', '_', 'p', 'd') {
        Some(TypeTag::Basic(BasicKind::SoundSpeedSet))
    } else if g == (8int, 'p', 'b', 'm', '\0') {
        Some(TypeTag::Basic(BasicKind::PlayBgm))
    } else if g == (15int, 'g', 'o', 'n', 's') {
        Some(TypeTag::Basic(BasicKind::GetSoundSpeed))
    } else if g == (16int, 's', '_', 'i', 'n') {
        Some(TypeTag::Basic(BasicKind::SoundSilentAll))
    } else if g == (8int, 's', 'b', 'm', '\0') {
        Some(TypeTag::Basic(BasicKind::StopBgm))
    } else if g == (16int, 'g', 'o', 'n', 'v') {
        Some(TypeTag::Basic(BasicKind::GetSoundVolume))
    } else if g == (18int, 'g', 'o', 'n', 'd') {
        Some(TypeTag::Basic(BasicKind::GetSoundDuration))
    } else if g == (21int, 'w', 'r', 'n', 'u') {
        Some(TypeTag::Alias(AliasType::WhenRunButtonClick))
    } else if g == (17int, 'w', 'o', 'j', 't') {
        Some(TypeTag::Alias(AliasType::WhenObjectClick))
    } else if g == (15int, 'r', '_', 'o', 't') {
        Some(TypeTag::Special(SpecialType::ReachSomething))
    } else if g == (10int, 'c', 'b', 's', '\0') {
        Some(TypeTag::Special(SpecialType::CalcBasic))
    } else if g == (13int, 'b', 'a', '_', 's') {
        Some(TypeTag::Special(SpecialType::BooleanBasic))
    } else if g == (22int, 'b', 'a', '_', 's') {
        Some(TypeTag::Special(SpecialType::BooleanBasicOperator))
    } else if g == (14int, 'b', 'a', '_', 'd') {
        Some(TypeTag::Special(SpecialType::BooleanAndOr))
    } else if g == (10int, 'c', 'u', 'a', '\0') {
        Some(TypeTag::Special(SpecialType::CalcUnary))
    } else if g == (11int, 'b', 'a', '_', 't') {
        Some(TypeTag::Special(SpecialType::BooleanNot))
    } else if g == (14int, 'c', 'o', 'e', 't') {
        Some(TypeTag::Special(SpecialType::CalcOperation))
    } else if g == (9int, 'c', 'r', 'n', '\0') {
        Some(TypeTag::Special(SpecialType::CalcRand))
    } else if g == (16int, 'q', 'e', 't', 'n') {
        Some(TypeTag::Special(SpecialType::QuotientAndMod))
    } else if g == (27int, 'c', 'e', 'p', 'j') {
        Some(TypeTag::Special(SpecialType::ChooseProjectTimerAction))
    } else if g == (25int, 's', 'i', 'i', 'e') {
        Some(TypeTag::Special(SpecialType::SetVisibleProjectTimer))
    } else if g == (18int, 's', 'i', 'i', 'e') {
        Some(TypeTag::Special(SpecialType::SetVisibleAnswer))
    } else if g == (6int, 'n', 'r', '\0', '\0') {
        Some(TypeTag::Special(SpecialType::Number))
    } else if g == (4int, 't', '\0', '\0', '\0') {
        Some(TypeTag::Special(SpecialType::Text))
    } else if g == (7int, 'b', 'a', '\0', '\0') {
        Some(TypeTag::Special(SpecialType::Boolean))
    } else if g == (5int, 'a', '\0', '\0', '\0') {
        Some(TypeTag::Special(SpecialType::Angle))
    } else if g == (5int, 'c', '\0', '\0', '\0') {
        Some(TypeTag::Special(SpecialType::Color))
    } else if g == (13int, 's', 'g', 'c', 'c') {
        Some(TypeTag::Special(SpecialType::StringConcat))
    } else if g == (13int, 'f', 'i', 'n', 'a') {
        Some(TypeTag::Special(SpecialType::FunctionCall))
    } else if g == (15int, 'f', 'i', 'n', 'r') {
        Some(TypeTag::Special(SpecialType::FunctionCreate))
    } else if g == (21int, 'f', 'i', 'n', 'r') {
        Some(TypeTag::Special(SpecialType::FunctionCreateValue))
    } else if g == (15int, 'f', 'i', 'n', 'e') {
        Some(TypeTag::Special(SpecialType::FunctionReturn))
    } else if g == (2int, 'i', '\0', '\0', '\0') {
        Some(TypeTag::Special(SpecialType::If))
    } else if g == (3int, '_', '\0', '\0', '\0') {
        Some(TypeTag::Special(SpecialType::AltIf))
    } else if g == (7int, 'i', 's', '\0', '\0') {
        Some(TypeTag::Special(SpecialType::IfElse))
    } else if g == (12int, 'r', 't', 'w', 'l') {
        Some(TypeTag::Special(SpecialType::RepeatWhile))
    } else if g == (17int, 'r', 't', 'w', 'l') {
        Some(TypeTag::Special(SpecialType::RepeatWhileTrue))
    } else if g == (12int, 'r', 't', 'b', 'i') {
        Some(TypeTag::Special(SpecialType::RepeatBasic))
    } else if g == (14int, 'r', 't', 'f', 'e') {
        Some(TypeTag::Special(SpecialType::RepeatForever))
    } else if g == (10int, 'r', 't', 'i', '\0') {
        Some(TypeTag::Special(SpecialType::RepeatInf))
    } else if g == (6int, 'd', 'g', '\0', '\0') {
        Some(TypeTag::Special(SpecialType::Dialog))
    } else if g == (11int, 'd', 'g', 't', 'e') {
        Some(TypeTag::Special(SpecialType::DialogTime))
    } else if g == (20int, 'c', 'e', 't', 's') {
        Some(TypeTag::Special(SpecialType::ChangeToSomeShape))
    } else if g == (17int, 'a', 'f', 'e', '_') {
        Some(TypeTag::Special(SpecialType::AddEffectAmount))
    } else if g == (20int, 'c', 'e', 'e', 'e') {
        Some(TypeTag::Special(SpecialType::ChangeEffectAmount))
    } else if g == (18int, 's', 'c', '_', 'a') {
        Some(TypeTag::Special(SpecialType::StretchScaleSize))
    } else if g == (18int, 't', 'c', 'a', 'e') {
        Some(TypeTag::Special(SpecialType::TextChangeEffect))
    } else if g == (16int, 't', 'c', 'a', 'e') {
        Some(TypeTag::Special(SpecialType::TextChangeFont))
    } else {
        None
    }
}

fn tag_of_sig_exec(g: (usize, char, char, char, char)) -> (r: Option<TypeTag>)
    ensures
        r == tag_of_sig((g.0 as int, g.1, g.2, g.3, g.4)),
{
    if g.0 == 8 && g.1 == 'w' && g.2 == 'r' && g.3 == 'n' && g.4 == '\0' {
        Some(TypeTag::Basic(BasicKind::WhenStart))
    } else if g.0 == 10 && g.1 == 'w' && g.2 == 'c' && g.3 == 'i' && g.4 == '\0' {
        Some(TypeTag::Basic(BasicKind::WhenClick))
    } else if g.0 == 16 && g.1 == 'w' && g.2 == 'c' && g.3 == 'o' && g.4 == '_' {
        Some(TypeTag::Basic(BasicKind::WhenCloneStart))
    } else if g.0 == 17 && g.1 == 'w' && g.2 == 'm' && g.3 == 's' && g.4 == 'g' {
        Some(TypeTag::Basic(BasicKind::WhenMessageRecv))
    } else if g.0 == 21 && g.1 == 'w' && g.2 == 's' && g.3 == 'm' && g.4 == 'k' {
        Some(TypeTag::Basic(BasicKind::WhenKeyPressed))
    } else if g.0 == 13 && g.1 == 'm' && g.2 == '_' && g.3 == 'l' && g.4 == 'k' {
        Some(TypeTag::Basic(BasicKind::WhenMouseClicked))
    } else if g.0 == 19 && g.1 == 'm' && g.2 == '_' && g.3 == 'l' && g.4 == 'k' {
        Some(TypeTag::Basic(BasicKind::WhenMouseReleased))
    } else if g.0 == 26 && g.1 == 'w' && g.2 == 'o' && g.3 == 'j' && g.4 == 't' {
        Some(TypeTag::Basic(BasicKind::WhenObjectReleased))
    } else if g.0 == 16 && g.1 == 'w' && g.2 == 's' && g.3 == 'e' && g.4 == '_' {
        Some(TypeTag::Basic(BasicKind::WhenSceneStart))
    } else if g.0 == 12 && g.1 == 'm' && g.2 == 'g' && g.3 == '_' && g.4 == 's' {
        Some(TypeTag::Basic(BasicKind::MessageCast))
    } else if g.0 == 17 && g.1 == 'm' && g.2 == 'g' && g.3 == '_' && g.4 == 's' {
        Some(TypeTag::Basic(BasicKind::MessageCastWait))
    } else if g.0 == 11 && g.1 == 's' && g.2 == '_' && g.3 == 'c' && g.4 == 'e' {
        Some(TypeTag::Basic(BasicKind::StartScene))
    } else if g.0 == 20 && g.1 == 's' && g.2 == '_' && g.3 == 'e' && g.4 == 'h' {
        Some(TypeTag::Basic(BasicKind::StartNeighborScene))
    } else if g.0 == 12 && g.1 == 's' && g.2 == 'a' && g.3 == 'i' && g.4 == 'l' {
        Some(TypeTag::Basic(BasicKind::SetVar))
    } else if g.0 == 15 && g.1 == 'c' && g.2 == 'e' && g.3 == 'v' && g.4 == 'i' {
        Some(TypeTag::Basic(BasicKind::ChangeVar))
    } else if g.0 == 12 && g.1 == 'g' && g.2 == 'a' && g.3 == 'i' && g.4 == 'l' {
        Some(TypeTag::Basic(BasicKind::GetVar))
    } else if g.0 == 13 && g.1 == 's' && g.2 == 'v' && g.3 == 'r' && g.4 == 'b' {
        Some(TypeTag::Basic(BasicKind::ShowVar))
    } else if g.0 == 13 && g.1 == 'h' && g.2 == 'v' && g.3 == 'r' && g.4 == 'b' {
        Some(TypeTag::Basic(BasicKind::HideVar))
    } else if g.0 == 24 && g.1 == 'v' && g.2 == '_' && g.3 == 'f' && g.4 == 'n' {
        Some(TypeTag::Basic(BasicKind::ListValueAt))
    } else if g.0 == 17 && g.1 == 'a' && g.2 == 'a' && g.3 == 'u' && g.4 == 't' {
        Some(TypeTag::Basic(BasicKind::AddValueToList))
    } else if g.0 == 22 && g.1 == 'r' && g.2 == 'e' && g.3 == 'v' && g.4 == 'u' {
        Some(TypeTag::Basic(BasicKind::RemoveValueFromList))
    } else if g.0 == 20 && g.1 == 'i' && g.2 == 't' && g.3 == 'v' && g.4 == 'u' {
        Some(TypeTag::Basic(BasicKind::InsertValueToList))
    } else if g.0 == 23 && g.1 == 'c' && g.2 == 'e' && g.3 == 'v' && g.4 == 'u' {
        Some(TypeTag::Basic(BasicKind::ChangeValueListIndex))
    } else if g.0 == 14 && g.1 == 'l' && g.2 == 'h' && g.3 == 'o' && g.4 == 'l' {
        Some(TypeTag::Basic(BasicKind::LengthOfList))
    } else if g.0 == 9 && g.1 == 's' && g.2 == 'l' && g.3 == 's' && g.4 == '\0' {
        Some(TypeTag::Basic(BasicKind::ShowList))
    } else if g.0 == 9 && g.1 == 'h' && g.2 == 'l' && g.3 == 's' && g.4 == '\0' {
        Some(TypeTag::Basic(BasicKind::HideList))
    } else if g.0 == 19 && g.1 == 'i' && g.2 == 'c' && g.3 == 'u' && g.4 == 'd' {
        Some(TypeTag::Basic(BasicKind::IsIncludedInList))
    } else if g.0 == 11 && g.1 == 's' && g.2 == 'o' && g.3 == 'j' && g.4 == 't' {
        Some(TypeTag::Basic(BasicKind::Break))
    } else if g.0 == 9 && g.1 == '_' && g.2 == 'i' && g.3 == 'u' && g.4 == '\0' {
        Some(TypeTag::Basic(BasicKind::Continue))
    } else if g.0 == 12 && g.1 == 's' && g.2 == 'r' && g.3 == 'n' && g.4 == 'l' {
        Some(TypeTag::Basic(BasicKind::StopAll))
    } else if g.0 == 15 && g.1 == 'r' && g.2 == 'r' && g.3 == '_' && g.4 == 'o' {
        Some(TypeTag::Basic(BasicKind::RestartProject))
    } else if g.0 == 11 && g.1 == 'w' && g.2 == 's' && g.3 == 'c' && g.4 == 'd' {
        Some(TypeTag::Basic(BasicKind::WaitSeconds))
    } else if g.0 == 15 && g.1 == 'w' && g.2 == 'u' && g.3 == 't' && g.4 == '_' {
        Some(TypeTag::Basic(BasicKind::WaitUntilTrue))
    } else if g.0 == 12 && g.1 == 'a' && g.2 == 'n' && g.3 == '_' && g.4 == 'i' {
        Some(TypeTag::Basic(BasicKind::AskAndWait))
    } else if g.0 == 22 && g.1 == 'g' && g.2 == 'a' && g.3 == 'v' && g.4 == '_' {
        Some(TypeTag::Basic(BasicKind::GetCanvasInputValue))
    } else if g.0 == 23 && g.1 == 'g' && g.2 == 'r' && g.3 == 'j' && g.4 == 't' {
        Some(TypeTag::Basic(BasicKind::GetProjectTimerValue))
    } else if g.0 == 12 && g.1 == 'd' && g.2 == 'e' && g.3 == 'c' && g.4 == 'n' {
        Some(TypeTag::Basic(BasicKind::DeleteClone))
    } else if g.0 == 17 && g.1 == 'r' && g.2 == 'e' && g.3 == 'a' && g.4 == '_' {
        Some(TypeTag::Basic(BasicKind::RemoveAllClones))
    } else if g.0 == 12 && g.1 == 'c' && g.2 == 'e' && g.3 == 'c' && g.4 == 'n' {
        Some(TypeTag::Basic(BasicKind::CreateClone))
    } else if g.0 == 17 && g.1 == 'i' && g.2 == 'e' && g.3 == 's' && g.4 == 'o' {
        Some(TypeTag::Basic(BasicKind::IsPressSomeKey))
    } else if g.0 == 10 && g.1 == 'i' && g.2 == 'i' && g.3 == 'k' && g.4 == '\0' {
        Some(TypeTag::Basic(BasicKind::IsClicked))
    } else if g.0 == 17 && g.1 == 'i' && g.2 == 'j' && g.3 == 'c' && g.4 == 'c' {
        Some(TypeTag::Basic(BasicKind::IsObjectClicked))
    } else if g.0 == 15 && g.1 == 's' && g.2 == 'g' && g.3 == 'i' && g.4 == 'e' {
        Some(TypeTag::Basic(BasicKind::StringIncludes))
    } else if g.0 == 4 && g.1 == 's' && g.2 == '\0' && g.3 == '\0' && g.4 == '\0' {
        Some(TypeTag::Basic(BasicKind::Show))
    } else if g.0 == 4 && g.1 == 'h' && g.2 == '\0' && g.3 == '\0' && g.4 == '\0' {
        Some(TypeTag::Basic(BasicKind::Hide))
    } else if g.0 == 20 && g.1 == 'c' && g.2 == 'e' && g.3 == 't' && g.4 == 'n' {
        Some(TypeTag::Basic(BasicKind::ChangeToNextShape))
    } else if g.0 == 13 && g.1 == 'r' && g.2 == 'e' && g.3 == 'd' && g.4 == 'l' {
        Some(TypeTag::Basic(BasicKind::RemoveDialog))
    } else if g.0 == 17 && g.1 == 'e' && g.2 == '_' && g.3 == 'l' && g.4 == 'e' {
        Some(TypeTag::Basic(BasicKind::EraseAllEffects))
    } else if g.0 == 17 && g.1 == 'c' && g.2 == 'e' && g.3 == 's' && g.4 == 'l' {
        Some(TypeTag::Basic(BasicKind::ChangeScaleSize))
    } else if g.0 == 14 && g.1 == 's' && g.2 == 'c' && g.3 == 'l' && g.4 == 's' {
        Some(TypeTag::Basic(BasicKind::SetScaleSize))
    } else if g.0 == 16 && g.1 == 'r' && g.2 == '_' && g.3 == 'c' && g.4 == 'e' {
        Some(TypeTag::Basic(BasicKind::ResetScaleSize))
    } else if g.0 == 6 && g.1 == 'f' && g.2 == 'x' && g.3 == '\0' && g.4 == '\0' {
        Some(TypeTag::Basic(BasicKind::FlipX))
    } else if g.0 == 6 && g.1 == 'f' && g.2 == 'y' && g.3 == '\0' && g.4 == '\0' {
        Some(TypeTag::Basic(BasicKind::FlipY))
    } else if g.0 == 19 && g.1 == 'c' && g.2 == 'e' && g.3 == 'o' && g.4 == 'e' {
        Some(TypeTag::Basic(BasicKind::ChangeObjectIndex))
    } else if g.0 == 14 && g.1 == 'm' && g.2 == 'd' && g.3 == 'r' && g.4 == 't' {
        Some(TypeTag::Basic(BasicKind::MoveDirection))
    } else if g.0 == 11 && g.1 == 'b' && g.2 == 'e' && g.3 == 'w' && g.4 == 'l' {
        Some(TypeTag::Basic(BasicKind::BounceWall))
    } else if g.0 == 6 && g.1 == 'm' && g.2 == 'x' && g.3 == '\0' && g.4 == '\0' {
        Some(TypeTag::Basic(BasicKind::MoveX))
    } else if g.0 == 6 && g.1 == 'm' && g.2 == 'y' && g.3 == '\0' && g.4 == '\0' {
        Some(TypeTag::Basic(BasicKind::MoveY))
    } else if g.0 == 15 && g.1 == 'r' && g.2 == 'e' && g.3 == 'r' && g.4 == 'a' {
        Some(TypeTag::Basic(BasicKind::RotateRelative))
    } else if g.0 == 18 && g.1 == 'd' && g.2 == 't' && g.3 == 'o' && g.4 == 'r' {
        Some(TypeTag::Basic(BasicKind::DirectionRelative))
    } else if g.0 == 12 && g.1 == 'm' && g.2 == 'x' && g.3 == '_' && g.4 == 'm' {
        Some(TypeTag::Basic(BasicKind::MoveXyTime))
    } else if g.0 == 8 && g.1 == 'l' && g.2 == 'e' && g.3 == 'x' && g.4 == '\0' {
        Some(TypeTag::Basic(BasicKind::LocateX))
    } else if g.0 == 8 && g.1 == 'l' && g.2 == 'e' && g.3 == 'y' && g.4 == '\0' {
        Some(TypeTag::Basic(BasicKind::LocateY))
    } else if g.0 == 9 && g.1 == 'l' && g.2 == 'e' && g.3 == 'x' && g.4 == '\0' {
        Some(TypeTag::Basic(BasicKind::LocateXY))
    } else if g.0 == 14 && g.1 == 'l' && g.2 == 'e' && g.3 == 'x' && g.4 == 't' {
        Some(TypeTag::Basic(BasicKind::LocateXyTime))
    } else if g.0 == 6 && g.1 == 'l' && g.2 == 'e' && g.3 == '\0' && g.4 == '\0' {
        Some(TypeTag::Basic(BasicKind::Locate))
    } else if g.0 == 18 && g.1 == 'l' && g.2 == 'e' && g.3 == 'o' && g.4 == 'e' {
        Some(TypeTag::Basic(BasicKind::LocateObjectTime))
    } else if g.0 == 14 && g.1 == 'r' && g.2 == 'e' && g.3 == 'b' && g.4 == 't' {
        Some(TypeTag::Basic(BasicKind::RotateByTime))
    } else if g.0 == 27 && g.1 == 'd' && g.2 == 't' && g.3 == 'o' && g.4 == 'r' {
        Some(TypeTag::Basic(BasicKind::DirectionRelativeDuration))
    } else if g.0 == 15 && g.1 == 'r' && g.2 == 'e' && g.3 == 'a' && g.4 == 'o' {
        Some(TypeTag::Basic(BasicKind::RotateAbsolute))
    } else if g.0 == 18 && g.1 == 'd' && g.2 == 't' && g.3 == 'o' && g.4 == 'a' {
        Some(TypeTag::Basic(BasicKind::DirectionAbsolute))
    } else if g.0 == 16 && g.1 == 's' && g.2 == 'n' && g.3 == 'l' && g.4 == 'o' {
        Some(TypeTag::Basic(BasicKind::SeeAngleObject))
    } else if g.0 == 13 && g.1 == 'm' && g.2 == 't' && g.3 == '_' && g.4 == 'g' {
        Some(TypeTag::Basic(BasicKind::MoveToAngle))
    } else if g.0 == 11 && g.1 == 'b' && g.2 == '_' && g.3 == 't' && g.4 == 'p' {
        Some(TypeTag::Basic(BasicKind::BrushStamp))
    } else if g.0 == 13 && g.1 == 's' && g.2 == '_' && g.3 == 'r' && g.4 == 'i' {
        Some(TypeTag::Basic(BasicKind::StartDrawing))
    } else if g.0 == 12 && g.1 == 's' && g.2 == 'd' && g.3 == 'a' && g.4 == 'n' {
        Some(TypeTag::Basic(BasicKind::StopDrawing))
    } else if g.0 == 10 && g.1 == 's' && g.2 == '_' && g.3 == 'i' && g.4 == '\0' {
        Some(TypeTag::Basic(BasicKind::StartFill))
    } else if g.0 == 9 && g.1 == 's' && g.2 == 'f' && g.3 == 'l' && g.4 == '\0' {
        Some(TypeTag::Basic(BasicKind::StopFill))
    } else if g.0 == 9 && g.1 == 's' && g.2 == 'o' && g.3 == 'o' && g.4 == '\0' {
        Some(TypeTag::Basic(BasicKind::SetColor))
    } else if g.0 == 16 && g.1 == 's' && g.2 == 'a' && g.3 == 'd' && g.4 == '_' {
        Some(TypeTag::Basic(BasicKind::SetRandomColor))
    } else if g.0 == 14 && g.1 == 's' && g.2 == 'i' && g.3 == 'l' && g.4 == 'o' {
        Some(TypeTag::Basic(BasicKind::SetFillColor))
    } else if g.0 == 16 && g.1 == 'c' && g.2 == 'e' && g.3 == 't' && g.4 == 'c' {
        Some(TypeTag::Basic(BasicKind::ChangeThickness))
    } else if g.0 == 13 && g.1 == 's' && g.2 == 'h' && g.3 == 'c' && g.4 == 'e' {
        Some(TypeTag::Basic(BasicKind::SetThickness))
    } else if g.0 == 25 && g.1 == 'c' && g.2 == 'e' && g.3 == 'b' && g.4 == 's' {
        Some(TypeTag::Basic(BasicKind::ChangeBrushTransparency))
    } else if g.0 == 21 && g.1 == 's' && g.2 == 'r' && g.3 == 's' && g.4 == 't' {
        Some(TypeTag::Basic(BasicKind::SetBrushTranparency))
    } else if g.0 == 15 && g.1 == 'b' && g.2 == '_' && g.3 == 'r' && g.4 == 'e' {
        Some(TypeTag::Basic(BasicKind::BrushEraseAll))
    } else if g.0 == 9 && g.1 == 't' && g.2 == 'r' && g.3 == 'a' && g.4 == '\0' {
        Some(TypeTag::Basic(BasicKind::TextRead))
    } else if g.0 == 10 && g.1 == 't' && g.2 == 'w' && g.3 == 'i' && g.4 == '\0' {
        Some(TypeTag::Basic(BasicKind::TextWrite))
    } else if g.0 == 11 && g.1 == 't' && g.2 == 'a' && g.3 == 'p' && g.4 == 'd' {
        Some(TypeTag::Basic(BasicKind::TextAppend))
    } else if g.0 == 12 && g.1 == 't' && g.2 == 'p' && g.3 == 'e' && g.4 == 'n' {
        Some(TypeTag::Basic(BasicKind::TextPrepend))
    } else if g.0 == 10 && g.1 == 't' && g.2 == 'f' && g.3 == 'u' && g.4 == '\0' {
        Some(TypeTag::Basic(BasicKind::TextFlush))
    } else if g.0 == 22 && g.1 == 't' && g.2 == 'c' && g.3 == 'a' && g.4 == 'e' {
        Some(TypeTag::Basic(BasicKind::TextChangeFontColor))
    } else if g.0 == 20 && g.1 == 't' && g.2 == 'c' && g.3 == 'a' && g.4 == 'e' {
        Some(TypeTag::Basic(BasicKind::TextChangeBgColor))
    } else if g.0 == 26 && g.1 == 's' && g.2 == '_' && g.3 == 'o' && g.4 == 't' {
        Some(TypeTag::Basic(BasicKind::SoundSomethingWithBlock))
    } else if g.0 == 33 && g.1 == 's' && g.2 == '_' && g.3 == 'o' && g.4 == 't' {
        Some(TypeTag::Basic(BasicKind::SoundSomethingSecondWithBlock))
    } else if g.0 == 13 && g.1 == 's' && g.2 == '_' && g.3 == 'r' && g.4 == '_' {
        Some(TypeTag::Basic(BasicKind::SoundFromTo))
    } else if g.0 == 31 && g.1 == 's' && g.2 == '_' && g.3 == 'o' && g.4 == 't' {
        Some(TypeTag::Basic(BasicKind::SoundSomethingWaitWithBlock))
    } else if g.0 == 38 && g.1 == 's' && g.2 == '_' && g.3 == 'o' && g.4 == 't' {
        Some(TypeTag::Basic(BasicKind::SoundSomethingSecondWaitWithBlock))
    } else if g.0 == 22 && g.1 == 's' && g.2 == '_' && g.3 == 'r' && g.4 == '_' {
        Some(TypeTag::Basic(BasicKind::SoundFromToAndWait))
    } else if g.0 == 19 && g.1 == 's' && g.2 == '_' && g.3 == 'o' && g.4 == 'm' {
        Some(TypeTag::Basic(BasicKind::SoundVolumeChange))
    } else if g.0 == 16 && g.1 == 's' && g.2 == '_' && g.3 == 'o' && g.4 == 'm' {
        Some(TypeTag::Basic(BasicKind::SoundVolumeSet))
    } else if g.0 == 18 && g.1 == 's' && g.2 == '_' && g.3 == 'p' && g.4 == 'd' {
        Some(TypeTag::Basic(BasicKind::SoundSpeedChange))
    } else if g.0 == 15 && g.1 == 's' && g.2 == '_' && g.3 == 'p' && g.4 == 'd' {
        Some(TypeTag::Basic(BasicKind::SoundSpeedSet))
    } else if g.0 == 8 && g.1 == 'p' && g.2 == 'b' && g.3 == 'm' && g.4 == '\0' {
        Some(TypeTag::Basic(BasicKind::PlayBgm))
    } else if g.0 == 15 && g.1 == 'g' && g.2 == 'o' && g.3 == 'n' && g.4 == 's' {
        Some(TypeTag::Basic(BasicKind::GetSoundSpeed))
    } else if g.0 == 16 && g.1 == 's' && g.2 == '_' && g.3 == 'i' && g.4 == 'n' {
        Some(TypeTag::Basic(BasicKind::SoundSilentAll))
    } else if g.0 == 8 && g.1 == 's' && g.2 == 'b' && g.3 == 'm' && g.4 == '\0' {
        Some(TypeTag::Basic(BasicKind::StopBgm))
    } else if g.0 == 16 && g.1 == 'g' && g.2 == 'o' && g.3 == 'n' && g.4 == 'v' {
        Some(TypeTag::Basic(BasicKind::GetSoundVolume))
    } else if g.0 == 18 && g.1 == 'g' && g.2 == 'o' && g.3 == 'n' && g.4 == 'd' {
        Some(TypeTag::Basic(BasicKind::GetSoundDuration))
    } else if g.0 == 21 && g.1 == 'w' && g.2 == 'r' && g.3 == 'n' && g.4 == 'u' {
        Some(TypeTag::Alias(AliasType::WhenRunButtonClick))
    } else if g.0 == 17 && g.1 == 'w' && g.2 == 'o' && g.3 == 'j' && g.4 == 't' {
        Some(TypeTag::Alias(AliasType::WhenObjectClick))
    } else if g.0 == 15 && g.1 == 'r' && g.2 == '_' && g.3 == 'o' && g.4 == 't' {
        Some(TypeTag::Special(SpecialType::ReachSomething))
    } else if g.0 == 10 && g.1 == 'c' && g.2 == 'b' && g.3 == 's' && g.4 == '\0' {
        Some(TypeTag::Special(SpecialType::CalcBasic))
    } else if g.0 == 13 && g.1 == 'b' && g.2 == 'a' && g.3 == '_' && g.4 == 's' {
        Some(TypeTag::Special(SpecialType::BooleanBasic))
    } else if g.0 == 22 && g.1 == 'b' && g.2 == 'a' && g.3 == '_' && g.4 == 's' {
        Some(TypeTag::Special(SpecialType::BooleanBasicOperator))
    } else if g.0 == 14 && g.1 == 'b' && g.2 == 'a' && g.3 == '_' && g.4 == 'd' {
        Some(TypeTag::Special(SpecialType::BooleanAndOr))
    } else if g.0 == 10 && g.1 == 'c' && g.2 == 'u' && g.3 == 'a' && g.4 == '\0' {
        Some(TypeTag::Special(SpecialType::CalcUnary))
    } else if g.0 == 11 && g.1 == 'b' && g.2 == 'a' && g.3 == '_' && g.4 == 't' {
        Some(TypeTag::Special(SpecialType::BooleanNot))
    } else if g.0 == 14 && g.1 == 'c' && g.2 == 'o' && g.3 == 'e' && g.4 == 't' {
        Some(TypeTag::Special(SpecialType::CalcOperation))
    } else if g.0 == 9 && g.1 == 'c' && g.2 == 'r' && g.3 == 'n' && g.4 == '\0' {
        Some(TypeTag::Special(SpecialType::CalcRand))
    } else if g.0 == 16 && g.1 == 'q' && g.2 == 'e' && g.3 == 't' && g.4 == 'n' {
        Some(TypeTag::Special(SpecialType::QuotientAndMod))
    } else if g.0 == 27 && g.1 == 'c' && g.2 == 'e' && g.3 == 'p' && g.4 == 'j' {
        Some(TypeTag::Special(SpecialType::ChooseProjectTimerAction))
    } else if g.0 == 25 && g.1 == 's' && g.2 == 'i' && g.3 == 'i' && g.4 == 'e' {
        Some(TypeTag::Special(SpecialType::SetVisibleProjectTimer))
    } else if g.0 == 18 && g.1 == 's' && g.2 == 'i' && g.3 == 'i' && g.4 == 'e' {
        Some(TypeTag::Special(SpecialType::SetVisibleAnswer))
    } else if g.0 == 6 && g.1 == 'n' && g.2 == 'r' && g.3 == '\0' && g.4 == '\0' {
        Some(TypeTag::Special(SpecialType::Number))
    } else if g.0 == 4 && g.1 == 't' && g.2 == '\0' && g.3 == '\0' && g.4 == '\0' {
        Some(TypeTag::Special(SpecialType::Text))
    } else if g.0 == 7 && g.1 == 'b' && g.2 == 'a' && g.3 == '\0' && g.4 == '\0' {
        Some(TypeTag::Special(SpecialType::Boolean))
    } else if g.0 == 5 && g.1 == 'a' && g.2 == '\0' && g.3 == '\0' && g.4 == '\0' {
        Some(TypeTag::Special(SpecialType::Angle))
    } else if g.0 == 5 && g.1 == 'c' && g.2 == '\0' && g.3 == '\0' && g.4 == '\0' {
        Some(TypeTag::Special(SpecialType::Color))
    } else if g.0 == 13 && g.1 == 's' && g.2 == 'g' && g.3 == 'c' && g.4 == 'c' {
        Some(TypeTag::Special(SpecialType::StringConcat))
    } else if g.0 == 13 && g.1 == 'f' && g.2 == 'i' && g.3 == 'n' && g.4 == 'a' {
        Some(TypeTag::Special(SpecialType::FunctionCall))
    } else if g.0 == 15 && g.1 == 'f' && g.2 == 'i' && g.3 == 'n' && g.4 == 'r' {
        Some(TypeTag::Special(SpecialType::FunctionCreate))
    } else if g.0 == 21 && g.1 == 'f' && g.2 == 'i' && g.3 == 'n' && g.4 == 'r' {
        Some(TypeTag::Special(SpecialType::FunctionCreateValue))
    } else if g.0 == 15 && g.1 == 'f' && g.2 == 'i' && g.3 == 'n' && g.4 == 'e' {
        Some(TypeTag::Special(SpecialType::FunctionReturn))
    } else if g.0 == 2 && g.1 == 'i' && g.2 == '\0' && g.3 == '\0' && g.4 == '\0' {
        Some(TypeTag::Special(SpecialType::If))
    } else if g.0 == 3 && g.1 == '_' && g.2 == '\0' && g.3 == '\0' && g.4 == '\0' {
        Some(TypeTag::Special(SpecialType::AltIf))
    } else if g.0 == 7 && g.1 == 'i' && g.2 == 's' && g.3 == '\0' && g.4 == '\0' {
        Some(TypeTag::Special(SpecialType::IfElse))
    } else if g.0 == 12 && g.1 == 'r' && g.2 == 't' && g.3 == 'w' && g.4 == 'l' {
        Some(TypeTag::Special(SpecialType::RepeatWhile))
    } else if g.0 == 17 && g.1 == 'r' && g.2 == 't' && g.3 == 'w' && g.4 == 'l' {
        Some(TypeTag::Special(SpecialType::RepeatWhileTrue))
    } else if g.0 == 12 && g.1 == 'r' && g.2 == 't' && g.3 == 'b' && g.4 == 'i' {
        Some(TypeTag::Special(SpecialType::RepeatBasic))
    } else if g.0 == 14 && g.1 == 'r' && g.2 == 't' && g.3 == 'f' && g.4 == 'e' {
        Some(TypeTag::Special(SpecialType::RepeatForever))
    } else if g.0 == 10 && g.1 == 'r' && g.2 == 't' && g.3 == 'i' && g.4 == '\0' {
        Some(TypeTag::Special(SpecialType::RepeatInf))
    } else if g.0 == 6 && g.1 == 'd' && g.2 == 'g' && g.3 == '\0' && g.4 == '\0' {
        Some(TypeTag::Special(SpecialType::Dialog))
    } else if g.0 == 11 && g.1 == 'd' && g.2 == 'g' && g.3 == 't' && g.4 == 'e' {
        Some(TypeTag::Special(SpecialType::DialogTime))
    } else if g.0 == 20 && g.1 == 'c' && g.2 == 'e' && g.3 == 't' && g.4 == 's' {
        Some(TypeTag::Special(SpecialType::ChangeToSomeShape))
    } else if g.0 == 17 && g.1 == 'a' && g.2 == 'f' && g.3 == 'e' && g.4 == '_' {
        Some(TypeTag::Special(SpecialType::AddEffectAmount))
    } else if g.0 == 20 && g.1 == 'c' && g.2 == 'e' && g.3 == 'e' && g.4 == 'e' {
        Some(TypeTag::Special(SpecialType::ChangeEffectAmount))
    } else if g.0 == 18 && g.1 == 's' && g.2 == 'c' && g.3 == '_' && g.4 == 'a' {
        Some(TypeTag::Special(SpecialType::StretchScaleSize))
    } else if g.0 == 18 && g.1 == 't' && g.2 == 'c' && g.3 == 'a' && g.4 == 'e' {
        Some(TypeTag::Special(SpecialType::TextChangeEffect))
    } else if g.0 == 16 && g.1 == 't' && g.2 == 'c' && g.3 == 'a' && g.4 == 'e' {
        Some(TypeTag::Special(SpecialType::TextChangeFont))
    } else {
        None
    }
}

proof fn lemma_basic_sig(k: BasicKind)
    ensures
        tag_of_sig(name_sig(basic_name(k))) == Some(TypeTag::Basic(k)),
{
    match k {
        BasicKind::WhenStart => {
            reveal_strlit("when_run");
            assert("when_run"@.len() == 8);
            assert("when_run"@[0] == 'w');
            assert("when_run"@[5] == 'r');
            assert("when_run"@[7] == 'n');
        },
        BasicKind::WhenClick => {
            reveal_strlit("when_click");
            assert("when_click"@.len() == 10);
            assert("when_click"@[0] == 'w');
            assert("when_click"@[5] == 'c');
            assert("when_click"@[7] == 'i');
        },
        BasicKind::WhenCloneStart => {
            reveal_strlit("when_clone_start");
            assert("when_clone_start"@.len() == 16);
            assert("when_clone_start"@[0] == 'w');
            assert("when_clone_start"@[5] == 'c');
            assert("when_clone_start"@[7] == 'o');
            assert("when_clone_start"@[10] == '_');
        },
        BasicKind::WhenMessageRecv => {
            reveal_strlit("when_message_cast");
            assert("when_message_cast"@.len() == 17);
            assert("when_message_cast"@[0] == 'w');
            assert("when_message_cast"@[5] == 'm');
            assert("when_message_cast"@[7] == 's');
            assert("when_message_cast"@[10] == 'g');
        },
        BasicKind::WhenKeyPressed => {
            reveal_strlit("when_some_key_pressed");
            assert("when_some_key_pressed"@.len() == 21);
            assert("when_some_key_pressed"@[0] == 'w');
            assert("when_some_key_pressed"@[5] == 's');
            assert("when_some_key_pressed"@[7] == 'm');
            assert("when_some_key_pressed"@[10] == 'k');
        },
        BasicKind::WhenMouseClicked => {
            reveal_strlit("mouse_clicked");
            assert("mouse_clicked"@.len() == 13);
            assert("mouse_clicked"@[0] == 'm');
            assert("mouse_clicked"@[5] == '_');
            assert("mouse_clicked"@[7] == 'l');
            assert("mouse_clicked"@[10] == 'k');
        },
        BasicKind::WhenMouseReleased => {
            reveal_strlit("mouse_click_cancled");
            assert("mouse_click_cancled"@.len() == 19);
            assert("mouse_click_cancled"@[0] == 'm');
            assert("mouse_click_cancled"@[5] == '_');
            assert("mouse_click_cancled"@[7] == 'l');
            assert("mouse_click_cancled"@[10] == 'k');
        },
        BasicKind::WhenObjectReleased => {
            reveal_strlit("when_object_click_canceled");
            assert("when_object_click_canceled"@.len() == 26);
            assert("when_object_click_canceled"@[0] == 'w');
            assert("when_object_click_canceled"@[5] == 'o');
            assert("when_object_click_canceled"@[7] == 'j');
            assert("when_object_click_canceled"@[10] == 't');
        },
        BasicKind::WhenSceneStart => {
            reveal_strlit("when_scene_start");
            assert("when_scene_start"@.len() == 16);
            assert("when_scene_start"@[0] == 'w');
            assert("when_scene_start"@[5] == 's');
            assert("when_scene_start"@[7] == 'e');
            assert("when_scene_start"@[10] == '_');
        },
        BasicKind::MessageCast => {
            reveal_strlit("message_cast");
            assert("message_cast"@.len() == 12);
            assert("message_cast"@[0] == 'm');
            assert("message_cast"@[5] == 'g');
            assert("message_cast"@[7] == '_');
            assert("message_cast"@[10] == 's');
        },
        BasicKind::MessageCastWait => {
            reveal_strlit("message_cast_wait");
            assert("message_cast_wait"@.len() == 17);
            assert("message_cast_wait"@[0] == 'm');
            assert("message_cast_wait"@[5] == 'g');
            assert("message_cast_wait"@[7] == '_');
            assert("message_cast_wait"@[10] == 's');
        },
        BasicKind::StartScene => {
            reveal_strlit("start_scene");
            assert("start_scene"@.len() == 11);
            assert("start_scene"@[0] == 's');
            assert("start_scene"@[5] == '_');
            assert("start_scene"@[7] == 'c');
            assert("start_scene"@[10] == 'e');
        },
        BasicKind::StartNeighborScene => {
            reveal_strlit("start_neighbor_scene");
            assert("start_neighbor_scene"@.len() == 20);
            assert("start_neighbor_scene"@[0] == 's');
            assert("start_neighbor_scene"@[5] == '_');
            assert("start_neighbor_scene"@[7] == 'e');
            assert("start_neighbor_scene"@[10] == 'h');
        },
        BasicKind::SetVar => {
            reveal_strlit("set_variable");
            assert("set_variable"@.len() == 12);
            assert("set_variable"@[0] == 's');
            assert("set_variable"@[5] == 'a');
            assert("set_variable"@[7] == 'i');
            assert("set_variable"@[10] == 'l');
        },
        BasicKind::ChangeVar => {
            reveal_strlit("change_variable");
            assert("change_variable"@.len() == 15);
            assert("change_variable"@[0] == 'c');
            assert("change_variable"@[5] == 'e');
            assert("change_variable"@[7] == 'v');
            assert("change_variable"@[10] == 'i');
        },
        BasicKind::GetVar => {
            reveal_strlit("get_variable");
            assert("get_variable"@.len() == 12);
            assert("get_variable"@[0] == 'g');
            assert("get_variable"@[5] == 'a');
            assert("get_variable"@[7] == 'i');
            assert("get_variable"@[10] == 'l');
        },
        BasicKind::ShowVar => {
            reveal_strlit("show_variable");
            assert("show_variable"@.len() == 13);
            assert("show_variable"@[0] == 's');
            assert("show_variable"@[5] == 'v');
            assert("show_variable"@[7] == 'r');
            assert("show_variable"@[10] == 'b');
        },
        BasicKind::HideVar => {
            reveal_strlit("hide_variable");
            assert("hide_variable"@.len() == 13);
            assert("hide_variable"@[0] == 'h');
            assert("hide_variable"@[5] == 'v');
            assert("hide_variable"@[7] == 'r');
            assert("hide_variable"@[10] == 'b');
        },
        BasicKind::ListValueAt => {
            reveal_strlit("value_of_index_from_list");
            assert("value_of_index_from_list"@.len() == 24);
            assert("value_of_index_from_list"@[0] == 'v');
            assert("value_of_index_from_list"@[5] == '_');
            assert("value_of_index_from_list"@[7] == 'f');
            assert("value_of_index_from_list"@[10] == 'n');
        },
        BasicKind::AddValueToList => {
            reveal_strlit("add_value_to_list");
            assert("add_value_to_list"@.len() == 17);
            assert("add_value_to_list"@[0] == 'a');
            assert("add_value_to_list"@[5] == 'a');
            assert("add_value_to_list"@[7] == 'u');
            assert("add_value_to_list"@[10] == 't');
        },
        BasicKind::RemoveValueFromList => {
            reveal_strlit("remove_value_from_list");
            assert("remove_value_from_list"@.len() == 22);
            assert("remove_value_from_list"@[0] == 'r');
            assert("remove_value_from_list"@[5] == 'e');
            assert("remove_value_from_list"@[7] == 'v');
            assert("remove_value_from_list"@[10] == 'u');
        },
        BasicKind::InsertValueToList => {
            reveal_strlit("insert_value_to_list");
            assert("insert_value_to_list"@.len() == 20);
            assert("insert_value_to_list"@[0] == 'i');
            assert("insert_value_to_list"@[5] == 't');
            assert("insert_value_to_list"@[7] == 'v');
            assert("insert_value_to_list"@[10] == 'u');
        },
        BasicKind::ChangeValueListIndex => {
            reveal_strlit("change_value_list_index");
            assert("change_value_list_index"@.len() == 23);
            assert("change_value_list_index"@[0] == 'c');
            assert("change_value_list_index"@[5] == 'e');
            assert("change_value_list_index"@[7] == 'v');
            assert("change_value_list_index"@[10] == 'u');
        },
        BasicKind::LengthOfList => {
            reveal_strlit("length_of_list");
            assert("length_of_list"@.len() == 14);
            assert("length_of_list"@[0] == 'l');
            assert("length_of_list"@[5] == 'h');
            assert("length_of_list"@[7] == 'o');
            assert("length_of_list"@[10] == 'l');
        },
        BasicKind::ShowList => {
            reveal_strlit("show_list");
            assert("show_list"@.len() == 9);
            assert("show_list"@[0] == 's');
            assert("show_list"@[5] == 'l');
            assert("show_list"@[7] == 's');
        },
        BasicKind::HideList => {
            reveal_strlit("hide_list");
            assert("hide_list"@.len() == 9);
            assert("hide_list"@[0] == 'h');
            assert("hide_list"@[5] == 'l');
            assert("hide_list"@[7] == 's');
        },
        BasicKind::IsIncludedInList => {
            reveal_strlit("is_included_in_list");
            assert("is_included_in_list"@.len() == 19);
            assert("is_included_in_list"@[0] == 'i');
            assert("is_included_in_list"@[5] == 'c');
            assert("is_included_in_list"@[7] == 'u');
            assert("is_included_in_list"@[10] == 'd');
        },
        BasicKind::Break => {
            reveal_strlit("stop_object");
            assert("stop_object"@.len() == 11);
            assert("stop_object"@[0] == 's');
            assert("stop_object"@[5] == 'o');
            assert("stop_object"@[7] == 'j');
            assert("stop_object"@[10] == 't');
        },
        BasicKind::Continue => {
            reveal_strlit("_continue");
            assert("_continue"@.len() == 9);
            assert("_continue"@[0] == '_');
            assert("_continue"@[5] == 'i');
            assert("_continue"@[7] == 'u');
        },
        BasicKind::StopAll => {
            reveal_strlit("stop_run_all");
            assert("stop_run_all"@.len() == 12);
            assert("stop_run_all"@[0] == 's');
            assert("stop_run_all"@[5] == 'r');
            assert("stop_run_all"@[7] == 'n');
            assert("stop_run_all"@[10] == 'l');
        },
        BasicKind::RestartProject => {
            reveal_strlit("restart_project");
            assert("restart_project"@.len() == 15);
            assert("restart_project"@[0] == 'r');
            assert("restart_project"@[5] == 'r');
            assert("restart_project"@[7] == '_');
            assert("restart_project"@[10] == 'o');
        },
        BasicKind::WaitSeconds => {
            reveal_strlit("wait_second");
            assert("wait_second"@.len() == 11);
            assert("wait_second"@[0] == 'w');
            assert("wait_second"@[5] == 's');
            assert("wait_second"@[7] == 'c');
            assert("wait_second"@[10] == 'd');
        },
        BasicKind::WaitUntilTrue => {
            reveal_strlit("wait_until_true");
            assert("wait_until_true"@.len() == 15);
            assert("wait_until_true"@[0] == 'w');
            assert("wait_until_true"@[5] == 'u');
            assert("wait_until_true"@[7] == 't');
            assert("wait_until_true"@[10] == '_');
        },
        BasicKind::AskAndWait => {
            reveal_strlit("ask_and_wait");
            assert("ask_and_wait"@.len() == 12);
            assert("ask_and_wait"@[0] == 'a');
            assert("ask_and_wait"@[5] == 'n');
            assert("ask_and_wait"@[7] == '_');
            assert("ask_and_wait"@[10] == 'i');
        },
        BasicKind::GetCanvasInputValue => {
            reveal_strlit("get_canvas_input_value");
            assert("get_canvas_input_value"@.len() == 22);
            assert("get_canvas_input_value"@[0] == 'g');
            assert("get_canvas_input_value"@[5] == 'a');
            assert("get_canvas_input_value"@[7] == 'v');
            assert("get_canvas_input_value"@[10] == '_');
        },
        BasicKind::GetProjectTimerValue => {
            reveal_strlit("get_project_timer_value");
            assert("get_project_timer_value"@.len() == 23);
            assert("get_project_timer_value"@[0] == 'g');
            assert("get_project_timer_value"@[5] == 'r');
            assert("get_project_timer_value"@[7] == 'j');
            assert("get_project_timer_value"@[10] == 't');
        },
        BasicKind::DeleteClone => {
            reveal_strlit("delete_clone");
            assert("delete_clone"@.len() == 12);
            assert("delete_clone"@[0] == 'd');
            assert("delete_clone"@[5] == 'e');
            assert("delete_clone"@[7] == 'c');
            assert("delete_clone"@[10] == 'n');
        },
        BasicKind::RemoveAllClones => {
            reveal_strlit("remove_all_clones");
            assert("remove_all_clones"@.len() == 17);
            assert("remove_all_clones"@[0] == 'r');
            assert("remove_all_clones"@[5] == 'e');
            assert("remove_all_clones"@[7] == 'a');
            assert("remove_all_clones"@[10] == '_');
        },
        BasicKind::CreateClone => {
            reveal_strlit("create_clone");
            assert("create_clone"@.len() == 12);
            assert("create_clone"@[0] == 'c');
            assert("create_clone"@[5] == 'e');
            assert("create_clone"@[7] == 'c');
            assert("create_clone"@[10] == 'n');
        },
        BasicKind::IsPressSomeKey => {
            reveal_strlit("is_press_some_key");
            assert("is_press_some_key"@.len() == 17);
            assert("is_press_some_key"@[0] == 'i');
            assert("is_press_some_key"@[5] == 'e');
            assert("is_press_some_key"@[7] == 's');
            assert("is_press_some_key"@[10] == 'o');
        },
        BasicKind::IsClicked => {
            reveal_strlit("is_clicked");
            assert("is_clicked"@.len() == 10);
            assert("is_clicked"@[0] == 'i');
            assert("is_clicked"@[5] == 'i');
            assert("is_clicked"@[7] == 'k');
        },
        BasicKind::IsObjectClicked => {
            reveal_strlit("is_object_clicked");
            assert("is_object_clicked"@.len() == 17);
            assert("is_object_clicked"@[0] == 'i');
            assert("is_object_clicked"@[5] == 'j');
            assert("is_object_clicked"@[7] == 'c');
            assert("is_object_clicked"@[10] == 'c');
        },
        BasicKind::StringIncludes => {
            reveal_strlit("string_index_of");
            assert("string_index_of"@.len() == 15);
            assert("string_index_of"@[0] == 's');
            assert("string_index_of"@[5] == 'g');
            assert("string_index_of"@[7] == 'i');
            assert("string_index_of"@[10] == 'e');
        },
        BasicKind::Show => {
            reveal_strlit("show");
            assert("show"@.len() == 4);
            assert("show"@[0] == 's');
        },
        BasicKind::Hide => {
            reveal_strlit("hide");
            assert("hide"@.len() == 4);
            assert("hide"@[0] == 'h');
        },
        BasicKind::ChangeToNextShape => {
            reveal_strlit("change_to_next_shape");
            assert("change_to_next_shape"@.len() == 20);
            assert("change_to_next_shape"@[0] == 'c');
            assert("change_to_next_shape"@[5] == 'e');
            assert("change_to_next_shape"@[7] == 't');
            assert("change_to_next_shape"@[10] == 'n');
        },
        BasicKind::RemoveDialog => {
            reveal_strlit("remove_dialog");
            assert("remove_dialog"@.len() == 13);
            assert("remove_dialog"@[0] == 'r');
            assert("remove_dialog"@[5] == 'e');
            assert("remove_dialog"@[7] == 'd');
            assert("remove_dialog"@[10] == 'l');
        },
        BasicKind::EraseAllEffects => {
            reveal_strlit("erase_all_effects");
            assert("erase_all_effects"@.len() == 17);
            assert("erase_all_effects"@[0] == 'e');
            assert("erase_all_effects"@[5] == '_');
            assert("erase_all_effects"@[7] == 'l');
            assert("erase_all_effects"@[10] == 'e');
        },
        BasicKind::ChangeScaleSize => {
            reveal_strlit("change_scale_size");
            assert("change_scale_size"@.len() == 17);
            assert("change_scale_size"@[0] == 'c');
            assert("change_scale_size"@[5] == 'e');
            assert("change_scale_size"@[7] == 's');
            assert("change_scale_size"@[10] == 'l');
        },
        BasicKind::SetScaleSize => {
            reveal_strlit("set_scale_size");
            assert("set_scale_size"@.len() == 14);
            assert("set_scale_size"@[0] == 's');
            assert("set_scale_size"@[5] == 'c');
            assert("set_scale_size"@[7] == 'l');
            assert("set_scale_size"@[10] == 's');
        },
        BasicKind::ResetScaleSize => {
            reveal_strlit("reset_scale_size");
            assert("reset_scale_size"@.len() == 16);
            assert("reset_scale_size"@[0] == 'r');
            assert("reset_scale_size"@[5] == '_');
            assert("reset_scale_size"@[7] == 'c');
            assert("reset_scale_size"@[10] == 'e');
        },
        BasicKind::FlipX => {
            reveal_strlit("flip_x");
            assert("flip_x"@.len() == 6);
            assert("flip_x"@[0] == 'f');
            assert("flip_x"@[5] == 'x');
        },
        BasicKind::FlipY => {
            reveal_strlit("flip_y");
            assert("flip_y"@.len() == 6);
            assert("flip_y"@[0] == 'f');
            assert("flip_y"@[5] == 'y');
        },
        BasicKind::ChangeObjectIndex => {
            reveal_strlit("change_object_index");
            assert("change_object_index"@.len() == 19);
            assert("change_object_index"@[0] == 'c');
            assert("change_object_index"@[5] == 'e');
            assert("change_object_index"@[7] == 'o');
            assert("change_object_index"@[10] == 'e');
        },
        BasicKind::MoveDirection => {
            reveal_strlit("move_direction");
            assert("move_direction"@.len() == 14);
            assert("move_direction"@[0] == 'm');
            assert("move_direction"@[5] == 'd');
            assert("move_direction"@[7] == 'r');
            assert("move_direction"@[10] == 't');
        },
        BasicKind::BounceWall => {
            reveal_strlit("bounce_wall");
            assert("bounce_wall"@.len() == 11);
            assert("bounce_wall"@[0] == 'b');
            assert("bounce_wall"@[5] == 'e');
            assert("bounce_wall"@[7] == 'w');
            assert("bounce_wall"@[10] == 'l');
        },
        BasicKind::MoveX => {
            reveal_strlit("move_x");
            assert("move_x"@.len() == 6);
            assert("move_x"@[0] == 'm');
            assert("move_x"@[5] == 'x');
        },
        BasicKind::MoveY => {
            reveal_strlit("move_y");
            assert("move_y"@.len() == 6);
            assert("move_y"@[0] == 'm');
            assert("move_y"@[5] == 'y');
        },
        BasicKind::RotateRelative => {
            reveal_strlit("rotate_relative");
            assert("rotate_relative"@.len() == 15);
            assert("rotate_relative"@[0] == 'r');
            assert("rotate_relative"@[5] == 'e');
            assert("rotate_relative"@[7] == 'r');
            assert("rotate_relative"@[10] == 'a');
        },
        BasicKind::DirectionRelative => {
            reveal_strlit("direction_relative");
            assert("direction_relative"@.len() == 18);
            assert("direction_relative"@[0] == 'd');
            assert("direction_relative"@[5] == 't');
            assert("direction_relative"@[7] == 'o');
            assert("direction_relative"@[10] == 'r');
        },
        BasicKind::MoveXyTime => {
            reveal_strlit("move_xy_time");
            assert("move_xy_time"@.len() == 12);
            assert("move_xy_time"@[0] == 'm');
            assert("move_xy_time"@[5] == 'x');
            assert("move_xy_time"@[7] == '_');
            assert("move_xy_time"@[10] == 'm');
        },
        BasicKind::LocateX => {
            reveal_strlit("locate_x");
            assert("locate_x"@.len() == 8);
            assert("locate_x"@[0] == 'l');
            assert("locate_x"@[5] == 'e');
            assert("locate_x"@[7] == 'x');
        },
        BasicKind::LocateY => {
            reveal_strlit("locate_y");
            assert("locate_y"@.len() == 8);
            assert("locate_y"@[0] == 'l');
            assert("locate_y"@[5] == 'e');
            assert("locate_y"@[7] == 'y');
        },
        BasicKind::LocateXY => {
            reveal_strlit("locate_xy");
            assert("locate_xy"@.len() == 9);
            assert("locate_xy"@[0] == 'l');
            assert("locate_xy"@[5] == 'e');
            assert("locate_xy"@[7] == 'x');
        },
        BasicKind::LocateXyTime => {
            reveal_strlit("locate_xy_time");
            assert("locate_xy_time"@.len() == 14);
            assert("locate_xy_time"@[0] == 'l');
            assert("locate_xy_time"@[5] == 'e');
            assert("locate_xy_time"@[7] == 'x');
            assert("locate_xy_time"@[10] == 't');
        },
        BasicKind::Locate => {
            reveal_strlit("locate");
            assert("locate"@.len() == 6);
            assert("locate"@[0] == 'l');
            assert("locate"@[5] == 'e');
        },
        BasicKind::LocateObjectTime => {
            reveal_strlit("locate_object_time");
            assert("locate_object_time"@.len() == 18);
            assert("locate_object_time"@[0] == 'l');
            assert("locate_object_time"@[5] == 'e');
            assert("locate_object_time"@[7] == 'o');
            assert("locate_object_time"@[10] == 'e');
        },
        BasicKind::RotateByTime => {
            reveal_strlit("rotate_by_time");
            assert("rotate_by_time"@.len() == 14);
            assert("rotate_by_time"@[0] == 'r');
            assert("rotate_by_time"@[5] == 'e');
            assert("rotate_by_time"@[7] == 'b');
            assert("rotate_by_time"@[10] == 't');
        },
        BasicKind::DirectionRelativeDuration => {
            reveal_strlit("direction_relative_duration");
            assert("direction_relative_duration"@.len() == 27);
            assert("direction_relative_duration"@[0] == 'd');
            assert("direction_relative_duration"@[5] == 't');
            assert("direction_relative_duration"@[7] == 'o');
            assert("direction_relative_duration"@[10] == 'r');
        },
        BasicKind::RotateAbsolute => {
            reveal_strlit("rotate_absolute");
            assert("rotate_absolute"@.len() == 15);
            assert("rotate_absolute"@[0] == 'r');
            assert("rotate_absolute"@[5] == 'e');
            assert("rotate_absolute"@[7] == 'a');
            assert("rotate_absolute"@[10] == 'o');
        },
        BasicKind::DirectionAbsolute => {
            reveal_strlit("direction_absolute");
            assert("direction_absolute"@.len() == 18);
            assert("direction_absolute"@[0] == 'd');
            assert("direction_absolute"@[5] == 't');
            assert("direction_absolute"@[7] == 'o');
            assert("direction_absolute"@[10] == 'a');
        },
        BasicKind::SeeAngleObject => {
            reveal_strlit("see_angle_object");
            assert("see_angle_object"@.len() == 16);
            assert("see_angle_object"@[0] == 's');
            assert("see_angle_object"@[5] == 'n');
            assert("see_angle_object"@[7] == 'l');
            assert("see_angle_object"@[10] == 'o');
        },
        BasicKind::MoveToAngle => {
            reveal_strlit("move_to_angle");
            assert("move_to_angle"@.len() == 13);
            assert("move_to_angle"@[0] == 'm');
            assert("move_to_angle"@[5] == 't');
            assert("move_to_angle"@[7] == '_');
            assert("move_to_angle"@[10] == 'g');
        },
        BasicKind::BrushStamp => {
            reveal_strlit("brush_stamp");
            assert("brush_stamp"@.len() == 11);
            assert("brush_stamp"@[0] == 'b');
            assert("brush_stamp"@[5] == '_');
            assert("brush_stamp"@[7] == 't');
            assert("brush_stamp"@[10] == 'p');
        },
        BasicKind::StartDrawing => {
            reveal_strlit("start_drawing");
            assert("start_drawing"@.len() == 13);
            assert("start_drawing"@[0] == 's');
            assert("start_drawing"@[5] == '_');
            assert("start_drawing"@[7] == 'r');
            assert("start_drawing"@[10] == 'i');
        },
        BasicKind::StopDrawing => {
            reveal_strlit("stop_drawing");
            assert("stop_drawing"@.len() == 12);
            assert("stop_drawing"@[0] == 's');
            assert("stop_drawing"@[5] == 'd');
            assert("stop_drawing"@[7] == 'a');
            assert("stop_drawing"@[10] == 'n');
        },
        BasicKind::StartFill => {
            reveal_strlit("start_fill");
            assert("start_fill"@.len() == 10);
            assert("start_fill"@[0] == 's');
            assert("start_fill"@[5] == '_');
            assert("start_fill"@[7] == 'i');
        },
        BasicKind::StopFill => {
            reveal_strlit("stop_fill");
            assert("stop_fill"@.len() == 9);
            assert("stop_fill"@[0] == 's');
            assert("stop_fill"@[5] == 'f');
            assert("stop_fill"@[7] == 'l');
        },
        BasicKind::SetColor => {
            reveal_strlit("set_color");
            assert("set_color"@.len() == 9);
            assert("set_color"@[0] == 's');
            assert("set_color"@[5] == 'o');
            assert("set_color"@[7] == 'o');
        },
        BasicKind::SetRandomColor => {
            reveal_strlit("set_random_color");
            assert("set_random_color"@.len() == 16);
            assert("set_random_color"@[0] == 's');
            assert("set_random_color"@[5] == 'a');
            assert("set_random_color"@[7] == 'd');
            assert("set_random_color"@[10] == '_');
        },
        BasicKind::SetFillColor => {
            reveal_strlit("set_fill_color");
            assert("set_fill_color"@.len() == 14);
            assert("set_fill_color"@[0] == 's');
            assert("set_fill_color"@[5] == 'i');
            assert("set_fill_color"@[7] == 'l');
            assert("set_fill_color"@[10] == 'o');
        },
        BasicKind::ChangeThickness => {
            reveal_strlit("change_thickness");
            assert("change_thickness"@.len() == 16);
            assert("change_thickness"@[0] == 'c');
            assert("change_thickness"@[5] == 'e');
            assert("change_thickness"@[7] == 't');
            assert("change_thickness"@[10] == 'c');
        },
        BasicKind::SetThickness => {
            reveal_strlit("set_thickness");
            assert("set_thickness"@.len() == 13);
            assert("set_thickness"@[0] == 's');
            assert("set_thickness"@[5] == 'h');
            assert("set_thickness"@[7] == 'c');
            assert("set_thickness"@[10] == 'e');
        },
        BasicKind::ChangeBrushTransparency => {
            reveal_strlit("change_brush_transparency");
            assert("change_brush_transparency"@.len() == 25);
            assert("change_brush_transparency"@[0] == 'c');
            assert("change_brush_transparency"@[5] == 'e');
            assert("change_brush_transparency"@[7] == 'b');
            assert("change_brush_transparency"@[10] == 's');
        },
        BasicKind::SetBrushTranparency => {
            reveal_strlit("set_brush_tranparency");
            assert("set_brush_tranparency"@.len() == 21);
            assert("set_brush_tranparency"@[0] == 's');
            assert("set_brush_tranparency"@[5] == 'r');
            assert("set_brush_tranparency"@[7] == 's');
            assert("set_brush_tranparency"@[10] == 't');
        },
        BasicKind::BrushEraseAll => {
            reveal_strlit("brush_erase_all");
            assert("brush_erase_all"@.len() == 15);
            assert("brush_erase_all"@[0] == 'b');
            assert("brush_erase_all"@[5] == '_');
            assert("brush_erase_all"@[7] == 'r');
            assert("brush_erase_all"@[10] == 'e');
        },
        BasicKind::TextRead => {
            reveal_strlit("text_read");
            assert("text_read"@.len() == 9);
            assert("text_read"@[0] == 't');
            assert("text_read"@[5] == 'r');
            assert("text_read"@[7] == 'a');
        },
        BasicKind::TextWrite => {
            reveal_strlit("text_write");
            assert("text_write"@.len() == 10);
            assert("text_write"@[0] == 't');
            assert("text_write"@[5] == 'w');
            assert("text_write"@[7] == 'i');
        },
        BasicKind::TextAppend => {
            reveal_strlit("text_append");
            assert("text_append"@.len() == 11);
            assert("text_append"@[0] == 't');
            assert("text_append"@[5] == 'a');
            assert("text_append"@[7] == 'p');
            assert("text_append"@[10] == 'd');
        },
        BasicKind::TextPrepend => {
            reveal_strlit("text_prepend");
            assert("text_prepend"@.len() == 12);
            assert("text_prepend"@[0] == 't');
            assert("text_prepend"@[5] == 'p');
            assert("text_prepend"@[7] == 'e');
            assert("text_prepend"@[10] == 'n');
        },
        BasicKind::TextFlush => {
            reveal_strlit("text_flush");
            assert("text_flush"@.len() == 10);
            assert("text_flush"@[0] == 't');
            assert("text_flush"@[5] == 'f');
            assert("text_flush"@[7] == 'u');
        },
        BasicKind::TextChangeFontColor => {
            reveal_strlit("text_change_font_color");
            assert("text_change_font_color"@.len() == 22);
            assert("text_change_font_color"@[0] == 't');
            assert("text_change_font_color"@[5] == 'c');
            assert("text_change_font_color"@[7] == 'a');
            assert("text_change_font_color"@[10] == 'e');
        },
        BasicKind::TextChangeBgColor => {
            reveal_strlit("text_change_bg_color");
            assert("text_change_bg_color"@.len() == 20);
            assert("text_change_bg_color"@[0] == 't');
            assert("text_change_bg_color"@[5] == 'c');
            assert("text_change_bg_color"@[7] == 'a');
            assert("text_change_bg_color"@[10] == 'e');
        },
        BasicKind::SoundSomethingWithBlock => {
            reveal_strlit("sound_something_with_block");
            assert("sound_something_with_block"@.len() == 26);
            assert("sound_something_with_block"@[0] == 's');
            assert("sound_something_with_block"@[5] == '_');
            assert("sound_something_with_block"@[7] == 'o');
            assert("sound_something_with_block"@[10] == 't');
        },
        BasicKind::SoundSomethingSecondWithBlock => {
            reveal_strlit("sound_something_second_with_block");
            assert("sound_something_second_with_block"@.len() == 33);
            assert("sound_something_second_with_block"@[0] == 's');
            assert("sound_something_second_with_block"@[5] == '_');
            assert("sound_something_second_with_block"@[7] == 'o');
            assert("sound_something_second_with_block"@[10] == 't');
        },
        BasicKind::SoundFromTo => {
            reveal_strlit("sound_from_to");
            assert("sound_from_to"@.len() == 13);
            assert("sound_from_to"@[0] == 's');
            assert("sound_from_to"@[5] == '_');
            assert("sound_from_to"@[7] == 'r');
            assert("sound_from_to"@[10] == '_');
        },
        BasicKind::SoundSomethingWaitWithBlock => {
            reveal_strlit("sound_something_wait_with_block");
            assert("sound_something_wait_with_block"@.len() == 31);
            assert("sound_something_wait_with_block"@[0] == 's');
            assert("sound_something_wait_with_block"@[5] == '_');
            assert("sound_something_wait_with_block"@[7] == 'o');
            assert("sound_something_wait_with_block"@[10] == 't');
        },
        BasicKind::SoundSomethingSecondWaitWithBlock => {
            reveal_strlit("sound_something_second_wait_with_block");
            assert("sound_something_second_wait_with_block"@.len() == 38);
            assert("sound_something_second_wait_with_block"@[0] == 's');
            assert("sound_something_second_wait_with_block"@[5] == '_');
            assert("sound_something_second_wait_with_block"@[7] == 'o');
            assert("sound_something_second_wait_with_block"@[10] == 't');
        },
        BasicKind::SoundFromToAndWait => {
            reveal_strlit("sound_from_to_and_wait");
            assert("sound_from_to_and_wait"@.len() == 22);
            assert("sound_from_to_and_wait"@[0] == 's');
            assert("sound_from_to_and_wait"@[5] == '_');
            assert("sound_from_to_and_wait"@[7] == 'r');
            assert("sound_from_to_and_wait"@[10] == '_');
        },
        BasicKind::SoundVolumeChange => {
            reveal_strlit("sound_volume_change");
            assert("sound_volume_change"@.len() == 19);
            assert("sound_volume_change"@[0] == 's');
            assert("sound_volume_change"@[5] == '_');
            assert("sound_volume_change"@[7] == 'o');
            assert("sound_volume_change"@[10] == 'm');
        },
        BasicKind::SoundVolumeSet => {
            reveal_strlit("sound_volume_set");
            assert("sound_volume_set"@.len() == 16);
            assert("sound_volume_set"@[0] == 's');
            assert("sound_volume_set"@[5] == '_');
            assert("sound_volume_set"@[7] == 'o');
            assert("sound_volume_set"@[10] == 'm');
        },
        BasicKind::SoundSpeedChange => {
            reveal_strlit("sound_speed_change");
            assert("sound_speed_change"@.len() == 18);
            assert("sound_speed_change"@[0] == 's');
            assert("sound_speed_change"@[5] == '_');
            assert("sound_speed_change"@[7] == 'p');
            assert("sound_speed_change"@[10] == 'd');
        },
        BasicKind::SoundSpeedSet => {
            reveal_strlit("sound_speed_set");
            assert("sound_speed_set"@.len() == 15);
            assert("sound_speed_set"@[0] == 's');
            assert("sound_speed_set"@[5] == '_');
            assert("sound_speed_set"@[7] == 'p');
            assert("sound_speed_set"@[10] == 'd');
        },
        BasicKind::PlayBgm => {
            reveal_strlit("play_bgm");
            assert("play_bgm"@.len() == 8);
            assert("play_bgm"@[0] == 'p');
            assert("play_bgm"@[5] == 'b');
            assert("play_bgm"@[7] == 'm');
        },
        BasicKind::GetSoundSpeed => {
            reveal_strlit("get_sound_speed");
            assert("get_sound_speed"@.len() == 15);
            assert("get_sound_speed"@[0] == 'g');
            assert("get_sound_speed"@[5] == 'o');
            assert("get_sound_speed"@[7] == 'n');
            assert("get_sound_speed"@[10] == 's');
        },
        BasicKind::SoundSilentAll => {
            reveal_strlit("sound_silent_all");
            assert("sound_silent_all"@.len() == 16);
            assert("sound_silent_all"@[0] == 's');
            assert("sound_silent_all"@[5] == '_');
            assert("sound_silent_all"@[7] == 'i');
            assert("sound_silent_all"@[10] == 'n');
        },
        BasicKind::StopBgm => {
            reveal_strlit("stop_bgm");
            assert("stop_bgm"@.len() == 8);
            assert("stop_bgm"@[0] == 's');
            assert("stop_bgm"@[5] == 'b');
            assert("stop_bgm"@[7] == 'm');
        },
        BasicKind::GetSoundVolume => {
            reveal_strlit("get_sound_volume");
            assert("get_sound_volume"@.len() == 16);
            assert("get_sound_volume"@[0] == 'g');
            assert("get_sound_volume"@[5] == 'o');
            assert("get_sound_volume"@[7] == 'n');
            assert("get_sound_volume"@[10] == 'v');
        },
        BasicKind::GetSoundDuration => {
            reveal_strlit("get_sound_duration");
            assert("get_sound_duration"@.len() == 18);
            assert("get_sound_duration"@[0] == 'g');
            assert("get_sound_duration"@[5] == 'o');
            assert("get_sound_duration"@[7] == 'n');
            assert("get_sound_duration"@[10] == 'd');
        },
    }
}

proof fn lemma_alias_sig(k: AliasType)
    ensures
        tag_of_sig(name_sig(alias_name(k))) == Some(TypeTag::Alias(k)),
{
    match k {
        AliasType::WhenRunButtonClick => {
            reveal_strlit("when_run_button_click");
            assert("when_run_button_click"@.len() == 21);
            assert("when_run_button_click"@[0] == 'w');
            assert("when_run_button_click"@[5] == 'r');
            assert("when_run_button_click"@[7] == 'n');
            assert("when_run_button_click"@[10] == 'u');
        },
        AliasType::WhenObjectClick => {
            reveal_strlit("when_object_click");
            assert("when_object_click"@.len() == 17);
            assert("when_object_click"@[0] == 'w');
            assert("when_object_click"@[5] == 'o');
            assert("when_object_click"@[7] == 'j');
            assert("when_object_click"@[10] == 't');
        },
    }
}

proof fn lemma_special_sig(k: SpecialType)
    ensures
        tag_of_sig(name_sig(special_name(k))) == Some(TypeTag::Special(k)),
{
    match k {
        SpecialType::ReachSomething => {
            reveal_strlit("reach_something");
            assert("reach_something"@.len() == 15);
            assert("reach_something"@[0] == 'r');
            assert("reach_something"@[5] == '_');
            assert("reach_something"@[7] == 'o');
            assert("reach_something"@[10] == 't');
        },
        SpecialType::CalcBasic => {
            reveal_strlit("calc_basic");
            assert("calc_basic"@.len() == 10);
            assert("calc_basic"@[0] == 'c');
            assert("calc_basic"@[5] == 'b');
            assert("calc_basic"@[7] == 's');
        },
        SpecialType::BooleanBasic => {
            reveal_strlit("boolean_basic");
            assert("boolean_basic"@.len() == 13);
            assert("boolean_basic"@[0] == 'b');
            assert("boolean_basic"@[5] == 'a');
            assert("boolean_basic"@[7] == '_');
            assert("boolean_basic"@[10] == 's');
        },
        SpecialType::BooleanBasicOperator => {
            reveal_strlit("boolean_basic_operator");
            assert("boolean_basic_operator"@.len() == 22);
            assert("boolean_basic_operator"@[0] == 'b');
            assert("boolean_basic_operator"@[5] == 'a');
            assert("boolean_basic_operator"@[7] == '_');
            assert("boolean_basic_operator"@[10] == 's');
        },
        SpecialType::BooleanAndOr => {
            reveal_strlit("boolean_and_or");
            assert("boolean_and_or"@.len() == 14);
            assert("boolean_and_or"@[0] == 'b');
            assert("boolean_and_or"@[5] == 'a');
            assert("boolean_and_or"@[7] == '_');
            assert("boolean_and_or"@[10] == 'd');
        },
        SpecialType::CalcUnary => {
            reveal_strlit("calc_unary");
            assert("calc_unary"@.len() == 10);
            assert("calc_unary"@[0] == 'c');
            assert("calc_unary"@[5] == 'u');
            assert("calc_unary"@[7] == 'a');
        },
        SpecialType::BooleanNot => {
            reveal_strlit("boolean_not");
            assert("boolean_not"@.len() == 11);
            assert("boolean_not"@[0] == 'b');
            assert("boolean_not"@[5] == 'a');
            assert("boolean_not"@[7] == '_');
            assert("boolean_not"@[10] == 't');
        },
        SpecialType::CalcOperation => {
            reveal_strlit("calc_operation");
            assert("calc_operation"@.len() == 14);
            assert("calc_operation"@[0] == 'c');
            assert("calc_operation"@[5] == 'o');
            assert("calc_operation"@[7] == 'e');
            assert("calc_operation"@[10] == 't');
        },
        SpecialType::CalcRand => {
            reveal_strlit("calc_rand");
            assert("calc_rand"@.len() == 9);
            assert("calc_rand"@[0] == 'c');
            assert("calc_rand"@[5] == 'r');
            assert("calc_rand"@[7] == 'n');
        },
        SpecialType::QuotientAndMod => {
            reveal_strlit("quotient_and_mod");
            assert("quotient_and_mod"@.len() == 16);
            assert("quotient_and_mod"@[0] == 'q');
            assert("quotient_and_mod"@[5] == 'e');
            assert("quotient_and_mod"@[7] == 't');
            assert("quotient_and_mod"@[10] == 'n');
        },
        SpecialType::ChooseProjectTimerAction => {
            reveal_strlit("choose_project_timer_action");
            assert("choose_project_timer_action"@.len() == 27);
            assert("choose_project_timer_action"@[0] == 'c');
            assert("choose_project_timer_action"@[5] == 'e');
            assert("choose_project_timer_action"@[7] == 'p');
            assert("choose_project_timer_action"@[10] == 'j');
        },
        SpecialType::SetVisibleProjectTimer => {
            reveal_strlit("set_visible_project_timer");
            assert("set_visible_project_timer"@.len() == 25);
            assert("set_visible_project_timer"@[0] == 's');
            assert("set_visible_project_timer"@[5] == 'i');
            assert("set_visible_project_timer"@[7] == 'i');
            assert("set_visible_project_timer"@[10] == 'e');
        },
        SpecialType::SetVisibleAnswer => {
            reveal_strlit("set_visible_answer");
            assert("set_visible_answer"@.len() == 18);
            assert("set_visible_answer"@[0] == 's');
            assert("set_visible_answer"@[5] == 'i');
            assert("set_visible_answer"@[7] == 'i');
            assert("set_visible_answer"@[10] == 'e');
        },
        SpecialType::Number => {
            reveal_strlit("number");
            assert("number"@.len() == 6);
            assert("number"@[0] == 'n');
            assert("number"@[5] == 'r');
        },
        SpecialType::Text => {
            reveal_strlit("text");
            assert("text"@.len() == 4);
            assert("text"@[0] == 't');
        },
        SpecialType::Boolean => {
            reveal_strlit("boolean");
            assert("boolean"@.len() == 7);
            assert("boolean"@[0] == 'b');
            assert("boolean"@[5] == 'a');
        },
        SpecialType::Angle => {
            reveal_strlit("angle");
            assert("angle"@.len() == 5);
            assert("angle"@[0] == 'a');
        },
        SpecialType::Color => {
            reveal_strlit("color");
            assert("color"@.len() == 5);
            assert("color"@[0] == 'c');
        },
        SpecialType::StringConcat => {
            reveal_strlit("string_concat");
            assert("string_concat"@.len() == 13);
            assert("string_concat"@[0] == 's');
            assert("string_concat"@[5] == 'g');
            assert("string_concat"@[7] == 'c');
            assert("string_concat"@[10] == 'c');
        },
        SpecialType::FunctionCall => {
            reveal_strlit("function_call");
            assert("function_call"@.len() == 13);
            assert("function_call"@[0] == 'f');
            assert("function_call"@[5] == 'i');
            assert("function_call"@[7] == 'n');
            assert("function_call"@[10] == 'a');
        },
        SpecialType::FunctionCreate => {
            reveal_strlit("function_create");
            assert("function_create"@.len() == 15);
            assert("function_create"@[0] == 'f');
            assert("function_create"@[5] == 'i');
            assert("function_create"@[7] == 'n');
            assert("function_create"@[10] == 'r');
        },
        SpecialType::FunctionCreateValue => {
            reveal_strlit("function_create_value");
            assert("function_create_value"@.len() == 21);
            assert("function_create_value"@[0] == 'f');
            assert("function_create_value"@[5] == 'i');
            assert("function_create_value"@[7] == 'n');
            assert("function_create_value"@[10] == 'r');
        },
        SpecialType::FunctionReturn => {
            reveal_strlit("function_return");
            assert("function_return"@.len() == 15);
            assert("function_return"@[0] == 'f');
            assert("function_return"@[5] == 'i');
            assert("function_return"@[7] == 'n');
            assert("function_return"@[10] == 'e');
        },
        SpecialType::If => {
            reveal_strlit("if");
            assert("if"@.len() == 2);
            assert("if"@[0] == 'i');
        },
        SpecialType::AltIf => {
            reveal_strlit("_if");
            assert("_if"@.len() == 3);
            assert("_if"@[0] == '_');
        },
        SpecialType::IfElse => {
            reveal_strlit("if_else");
            assert("if_else"@.len() == 7);
            assert("if_else"@[0] == 'i');
            assert("if_else"@[5] == 's');
        },
        SpecialType::RepeatWhile => {
            reveal_strlit("repeat_while");
            assert("repeat_while"@.len() == 12);
            assert("repeat_while"@[0] == 'r');
            assert("repeat_while"@[5] == 't');
            assert("repeat_while"@[7] == 'w');
            assert("repeat_while"@[10] == 'l');
        },
        SpecialType::RepeatWhileTrue => {
            reveal_strlit("repeat_while_true");
            assert("repeat_while_true"@.len() == 17);
            assert("repeat_while_true"@[0] == 'r');
            assert("repeat_while_true"@[5] == 't');
            assert("repeat_while_true"@[7] == 'w');
            assert("repeat_while_true"@[10] == 'l');
        },
        SpecialType::RepeatBasic => {
            reveal_strlit("repeat_basic");
            assert("repeat_basic"@.len() == 12);
            assert("repeat_basic"@[0] == 'r');
            assert("repeat_basic"@[5] == 't');
            assert("repeat_basic"@[7] == 'b');
            assert("repeat_basic"@[10] == 'i');
        },
        SpecialType::RepeatForever => {
            reveal_strlit("repeat_forever");
            assert("repeat_forever"@.len() == 14);
            assert("repeat_forever"@[0] == 'r');
            assert("repeat_forever"@[5] == 't');
            assert("repeat_forever"@[7] == 'f');
            assert("repeat_forever"@[10] == 'e');
        },
        SpecialType::RepeatInf => {
            reveal_strlit("repeat_inf");
            assert("repeat_inf"@.len() == 10);
            assert("repeat_inf"@[0] == 'r');
            assert("repeat_inf"@[5] == 't');
            assert("repeat_inf"@[7] == 'i');
        },
        SpecialType::Dialog => {
            reveal_strlit("dialog");
            assert("dialog"@.len() == 6);
            assert("dialog"@[0] == 'd');
            assert("dialog"@[5] == 'g');
        },
        SpecialType::DialogTime => {
            reveal_strlit("dialog_time");
            assert("dialog_time"@.len() == 11);
            assert("dialog_time"@[0] == 'd');
            assert("dialog_time"@[5] == 'g');
            assert("dialog_time"@[7] == 't');
            assert("dialog_time"@[10] == 'e');
        },
        SpecialType::ChangeToSomeShape => {
            reveal_strlit("change_to_some_shape");
            assert("change_to_some_shape"@.len() == 20);
            assert("change_to_some_shape"@[0] == 'c');
            assert("change_to_some_shape"@[5] == 'e');
            assert("change_to_some_shape"@[7] == 't');
            assert("change_to_some_shape"@[10] == 's');
        },
        SpecialType::AddEffectAmount => {
            reveal_strlit("add_effect_amount");
            assert("add_effect_amount"@.len() == 17);
            assert("add_effect_amount"@[0] == 'a');
            assert("add_effect_amount"@[5] == 'f');
            assert("add_effect_amount"@[7] == 'e');
            assert("add_effect_amount"@[10] == '_');
        },
        SpecialType::ChangeEffectAmount => {
            reveal_strlit("change_effect_amount");
            assert("change_effect_amount"@.len() == 20);
            assert("change_effect_amount"@[0] == 'c');
            assert("change_effect_amount"@[5] == 'e');
            assert("change_effect_amount"@[7] == 'e');
            assert("change_effect_amount"@[10] == 'e');
        },
        SpecialType::StretchScaleSize => {
            reveal_strlit("stretch_scale_size");
            assert("stretch_scale_size"@.len() == 18);
            assert("stretch_scale_size"@[0] == 's');
            assert("stretch_scale_size"@[5] == 'c');
            assert("stretch_scale_size"@[7] == '_');
            assert("stretch_scale_size"@[10] == 'a');
        },
        SpecialType::TextChangeEffect => {
            reveal_strlit("text_change_effect");
            assert("text_change_effect"@.len() == 18);
            assert("text_change_effect"@[0] == 't');
            assert("text_change_effect"@[5] == 'c');
            assert("text_change_effect"@[7] == 'a');
            assert("text_change_effect"@[10] == 'e');
        },
        SpecialType::TextChangeFont => {
            reveal_strlit("text_change_font");
            assert("text_change_font"@.len() == 16);
            assert("text_change_font"@[0] == 't');
            assert("text_change_font"@[5] == 'c');
            assert("text_change_font"@[7] == 'a');
            assert("text_change_font"@[10] == 'e');
        },
    }
}

/// Each known type name is recognised by its signature.
pub proof fn lemma_tag_sig(t: TypeTag)
    ensures
        tag_of_sig(name_sig(tag_name(t))) == Some(t),
{
    match t {
        TypeTag::Basic(k) => lemma_basic_sig(k),
        TypeTag::Alias(a) => lemma_alias_sig(a),
        TypeTag::Special(s) => lemma_special_sig(s),
    }
}

/// Distinct tags have distinct names.
pub proof fn lemma_tag_names_distinct(t1: TypeTag, t2: TypeTag)
    ensures
        tag_name(t1) == tag_name(t2) ==> t1 == t2,
{
    lemma_tag_sig(t1);
    lemma_tag_sig(t2);
}

fn sig_char(s: &str, i: usize) -> (c: char)
    ensures
        c == (if i < s@.len() { s@[i as int] } else { '\0' }),
{
    if i < crate::text::char_len(s) {
        crate::text::char_at(s, i)
    } else {
        '\0'
    }
}

/// The known type tag whose name is `s`, if any.
pub fn find_tag(s: &str) -> (r: Option<TypeTag>)
    ensures
        r matches Some(t) ==> tag_name(t) == s@,
        r is None ==> forall|t: TypeTag| tag_name(t) != s@,
{
    let n = crate::text::char_len(s);
    let g = (n, sig_char(s, 0), sig_char(s, 5), sig_char(s, 7), sig_char(s, 10));
    let c = tag_of_sig_exec(g);
    match c {
        Some(t) => {
            let name = tag_name_str(t);
            if crate::text::str_is(name, s) {
                Some(t)
            } else {
                proof {
                    assert forall|u: TypeTag| tag_name(u) != s@ by {
                        if tag_name(u) == s@ {
                            lemma_tag_sig(u);
                        }
                    }
                }
                None
            }
        },
        None => {
            proof {
                assert forall|u: TypeTag| tag_name(u) != s@ by {
                    if tag_name(u) == s@ {
                        lemma_tag_sig(u);
                    }
                }
            }
            None
        },
    }
}

/// Name of any known type tag.
pub fn tag_name_str(t: TypeTag) -> (r: &'static str)
    ensures
        r@ == tag_name(t),
{
    match t {
        TypeTag::Basic(k) => basic_type_name(k),
        TypeTag::Alias(a) => alias_type_name(a),
        TypeTag::Special(s) => special_type_name(s),
    }
}

} // verus!
