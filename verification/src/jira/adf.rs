//! Atlassian Document Format attributes: the typed attribute sets and
//! enumerations document nodes carry.
//!
//! The document tree itself, and its rendering to markdown, live outside
//! the library; these are the plain values the tree's nodes hold.

use vstd::prelude::*;

verus! {

/// Attributes of a heading node.
#[derive(Debug, Clone)]
pub struct HeadingAttrs {
    pub level: u32,
    pub local_id: Option<String>,
}

/// Attributes of a code block.
#[derive(Debug, Clone)]
pub struct CodeBlockAttrs {
    pub language: Option<String>,
    pub unique_id: Option<String>,
    pub local_id: Option<String>,
}

/// Attributes of an ordered list.
#[derive(Debug, Clone)]
pub struct OrderedListAttrs {
    pub order: Option<u32>,
    pub local_id: Option<String>,
}

/// Attributes of a panel.
#[derive(Debug, Clone)]
pub struct PanelAttrs {
    pub panel_type: PanelType,
    pub panel_icon: Option<String>,
    pub panel_icon_id: Option<String>,
    pub panel_icon_text: Option<String>,
    pub panel_color: Option<String>,
    pub local_id: Option<String>,
}

/// The kinds of panel.
#[derive(Debug, Clone, Copy, PartialEq, Eq, Structural)]
pub enum PanelType {
    Info,
    Note,
    Tip,
    Warning,
    Error,
    Success,
    Custom,
}

/// How a table is displayed.
#[derive(Debug, Clone, Copy, PartialEq, Eq, Structural)]
pub enum TableDisplayMode {
    Default,
    Fixed,
}

/// A table's layout.
#[derive(Debug, Clone, Copy, PartialEq, Eq, Structural)]
pub enum TableLayout {
    Wide,
    FullWidth,
    Center,
    AlignEnd,
    AlignStart,
    Default,
}

/// A media block's layout.
#[derive(Debug, Clone, Copy, PartialEq, Eq, Structural)]
pub enum MediaLayout {
    Wrap,
    Center,
    WrapRight,
    WrapLeft,
    WideBreakout,
    FullWidth,
    AlignEnd,
    AlignStart,
}

/// How a media width is measured.
#[derive(Debug, Clone, Copy, PartialEq, Eq, Structural)]
pub enum MediaWidthType {
    Percentage,
    Pixel,
}

/// Attributes of an expandable section.
#[derive(Debug, Clone)]
pub struct ExpandAttrs {
    pub title: Option<String>,
    pub local_id: Option<String>,
}

/// Attributes of a user mention.
#[derive(Debug, Clone)]
pub struct MentionAttrs {
    pub id: String,
    pub text: Option<String>,
    pub access_level: Option<String>,
    pub user_type: Option<UserType>,
    pub local_id: Option<String>,
}

/// The kind of account a mention points at.
#[derive(Debug, Clone, Copy, PartialEq, Eq, Structural)]
pub enum UserType {
    Default,
    Special,
    App,
}

/// Attributes of an emoji.
#[derive(Debug, Clone)]
pub struct EmojiAttrs {
    pub short_name: String,
    pub id: Option<String>,
    pub text: Option<String>,
    pub local_id: Option<String>,
}

/// Attributes of an inline date.
#[derive(Debug, Clone)]
pub struct DateAttrs {
    pub timestamp: String,
    pub local_id: Option<String>,
}

/// Attributes of a status lozenge.
#[derive(Debug, Clone)]
pub struct StatusAttrs {
    pub text: String,
    pub color: StatusColor,
    pub local_id: Option<String>,
    pub style: Option<String>,
}

/// A status lozenge's color.
#[derive(Debug, Clone, Copy, PartialEq, Eq, Structural)]
pub enum StatusColor {
    Neutral,
    Purple,
    Blue,
    Red,
    Yellow,
    Green,
}

/// Attributes of a task list.
#[derive(Debug, Clone)]
pub struct TaskListAttrs {
    pub local_id: String,
}

/// Attributes of one task item.
#[derive(Debug, Clone)]
pub struct TaskItemAttrs {
    pub local_id: String,
    pub state: TaskState,
}

/// Whether a task is still open.
#[derive(Debug, Clone, Copy, PartialEq, Eq, Structural)]
pub enum TaskState {
    Todo,
    Done,
}

/// Attributes of a decision list.
#[derive(Debug, Clone)]
pub struct DecisionListAttrs {
    pub local_id: String,
}

/// Attributes of one decision item.
#[derive(Debug, Clone)]
pub struct DecisionItemAttrs {
    pub local_id: String,
    pub state: String,
}

/// An extension node's layout.
#[derive(Debug, Clone, Copy, PartialEq, Eq, Structural)]
pub enum ExtensionLayout {
    Wide,
    FullWidth,
    Default,
}

/// Attributes of a subscript or superscript mark.
#[derive(Debug, Clone)]
pub struct SubSupAttrs {
    pub sub_sup_type: SubSupType,
}

/// Subscript or superscript.
#[derive(Debug, Clone, Copy, PartialEq, Eq, Structural)]
pub enum SubSupType {
    Sub,
    Sup,
}

/// Attributes of a text color mark (a hex color).
#[derive(Debug, Clone)]
pub struct TextColorAttrs {
    pub color: String,
}

/// Attributes of a background color mark (a hex color).
#[derive(Debug, Clone)]
pub struct BackgroundColorAttrs {
    pub color: String,
}

/// Attributes of a link mark.
#[derive(Debug, Clone)]
pub struct LinkAttrs {
    pub href: String,
    pub title: Option<String>,
    pub id: Option<String>,
    pub collection: Option<String>,
    pub occurrence_key: Option<String>,
}

/// Attributes of an alignment mark.
#[derive(Debug, Clone)]
pub struct AlignmentAttrs {
    pub align: AlignmentType,
}

/// Which way aligned content leans.
#[derive(Debug, Clone, Copy, PartialEq, Eq, Structural)]
pub enum AlignmentType {
    Center,
    End,
}

/// Attributes of an indentation mark.
#[derive(Debug, Clone)]
pub struct IndentationAttrs {
    pub level: u32,
}

/// Attributes of an annotation mark.
#[derive(Debug, Clone)]
pub struct AnnotationAttrs {
    pub id: String,
    pub annotation_type: AnnotationType,
}

/// The kinds of annotation.
#[derive(Debug, Clone, Copy, PartialEq, Eq, Structural)]
pub enum AnnotationType {
    InlineComment,
}

/// How far a breakout widens its content.
#[derive(Debug, Clone, Copy, PartialEq, Eq, Structural)]
pub enum BreakoutMode {
    Wide,
    FullWidth,
}

/// Attributes of a data consumer node.
#[derive(Debug, Clone)]
pub struct DataConsumerAttrs {
    pub sources: Vec<String>,
}

/// Attributes of a fragment mark.
#[derive(Debug, Clone)]
pub struct FragmentAttrs {
    pub local_id: String,
    pub name: Option<String>,
}

} // verus!
