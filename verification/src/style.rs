//! Style records and the style resolver.
//!
//! A caller describes each node with a sparse [`LayoutStyle`]: every field is
//! optional, and absence means "use the model default", not zero. The
//! resolver is a total function that normalizes such a record into a
//! [`ResolvedStyle`] holding concrete values: unknown enum strings fall back
//! to the field's default, lengths are clamped into the representable range,
//! and an independent row/column gap overrides a uniform gap on its axis.

use vstd::prelude::*;

use crate::units::MAX_UNIT;

verus! {

#[derive(Clone, Copy, PartialEq, Eq, Structural, Debug)]
pub enum FlexDirection {
    Row,
    RowReverse,
    Column,
    ColumnReverse,
}

#[derive(Clone, Copy, PartialEq, Eq, Structural, Debug)]
pub enum JustifyContent {
    Start,
    End,
    Center,
    SpaceBetween,
    SpaceAround,
    SpaceEvenly,
}

#[derive(Clone, Copy, PartialEq, Eq, Structural, Debug)]
pub enum AlignItems {
    Start,
    End,
    Center,
    Baseline,
    Stretch,
}

#[derive(Clone, Copy, PartialEq, Eq, Structural, Debug)]
pub enum AlignContent {
    Start,
    End,
    Center,
    SpaceBetween,
    SpaceAround,
    Stretch,
}

#[derive(Clone, Copy, PartialEq, Eq, Structural, Debug)]
pub enum AlignSelf {
    Start,
    End,
    Center,
    Baseline,
    Stretch,
}

#[derive(Clone, Copy, PartialEq, Eq, Structural, Debug)]
pub enum FlexWrap {
    NoWrap,
    Wrap,
    WrapReverse,
}

#[derive(Clone, Copy, PartialEq, Eq, Structural, Debug)]
pub enum Position {
    Relative,
    Absolute,
}

/// The caller-facing style record. All numeric fields are in layout units;
/// a `None` means the field is unset and takes the model default.
#[derive(Clone)]
pub struct LayoutStyle {
    pub width: Option<i64>,
    pub height: Option<i64>,
    pub min_width: Option<i64>,
    pub min_height: Option<i64>,
    pub max_width: Option<i64>,
    pub max_height: Option<i64>,
    pub flex_grow: Option<i64>,
    pub flex_shrink: Option<i64>,
    pub flex_basis: Option<i64>,
    pub flex_direction: Option<String>,
    pub justify_content: Option<String>,
    pub align_items: Option<String>,
    pub align_content: Option<String>,
    pub align_self: Option<String>,
    pub flex_wrap: Option<String>,
    pub gap: Option<i64>,
    pub row_gap: Option<i64>,
    pub column_gap: Option<i64>,
    pub padding_top: Option<i64>,
    pub padding_right: Option<i64>,
    pub padding_bottom: Option<i64>,
    pub padding_left: Option<i64>,
    pub margin_top: Option<i64>,
    pub margin_right: Option<i64>,
    pub margin_bottom: Option<i64>,
    pub margin_left: Option<i64>,
    pub border_top: Option<i64>,
    pub border_right: Option<i64>,
    pub border_bottom: Option<i64>,
    pub border_left: Option<i64>,
    pub position: Option<String>,
    pub top: Option<i64>,
    pub right: Option<i64>,
    pub bottom: Option<i64>,
    pub left: Option<i64>,
}

impl LayoutStyle {
    /// The record with every field unset: each one takes its default.
    pub fn unset() -> (r: LayoutStyle)
        ensures
            r == LayoutStyle::unset_spec(),
    {
        LayoutStyle {
            width: None,
            height: None,
            min_width: None,
            min_height: None,
            max_width: None,
            max_height: None,
            flex_grow: None,
            flex_shrink: None,
            flex_basis: None,
            flex_direction: None,
            justify_content: None,
            align_items: None,
            align_content: None,
            align_self: None,
            flex_wrap: None,
            gap: None,
            row_gap: None,
            column_gap: None,
            padding_top: None,
            padding_right: None,
            padding_bottom: None,
            padding_left: None,
            margin_top: None,
            margin_right: None,
            margin_bottom: None,
            margin_left: None,
            border_top: None,
            border_right: None,
            border_bottom: None,
            border_left: None,
            position: None,
            top: None,
            right: None,
            bottom: None,
            left: None,
        }
    }

    pub open spec fn unset_spec() -> LayoutStyle {
        LayoutStyle {
            width: None,
            height: None,
            min_width: None,
            min_height: None,
            max_width: None,
            max_height: None,
            flex_grow: None,
            flex_shrink: None,
            flex_basis: None,
            flex_direction: None,
            justify_content: None,
            align_items: None,
            align_content: None,
            align_self: None,
            flex_wrap: None,
            gap: None,
            row_gap: None,
            column_gap: None,
            padding_top: None,
            padding_right: None,
            padding_bottom: None,
            padding_left: None,
            margin_top: None,
            margin_right: None,
            margin_bottom: None,
            margin_left: None,
            border_top: None,
            border_right: None,
            border_bottom: None,
            border_left: None,
            position: None,
            top: None,
            right: None,
            bottom: None,
            left: None,
        }
    }
}

/// A fully resolved style: every field concrete, every length representable.
#[derive(Clone, Copy)]
pub struct ResolvedStyle {
    pub width: Option<i64>,
    pub height: Option<i64>,
    pub min_width: Option<i64>,
    pub min_height: Option<i64>,
    pub max_width: Option<i64>,
    pub max_height: Option<i64>,
    pub flex_grow: i64,
    pub flex_shrink: i64,
    pub flex_basis: Option<i64>,
    pub direction: FlexDirection,
    pub justify_content: JustifyContent,
    pub align_items: AlignItems,
    pub align_content: AlignContent,
    pub align_self: Option<AlignSelf>,
    pub wrap: FlexWrap,
    pub row_gap: i64,
    pub column_gap: i64,
    pub padding_top: i64,
    pub padding_right: i64,
    pub padding_bottom: i64,
    pub padding_left: i64,
    pub margin_top: i64,
    pub margin_right: i64,
    pub margin_bottom: i64,
    pub margin_left: i64,
    pub border_top: i64,
    pub border_right: i64,
    pub border_bottom: i64,
    pub border_left: i64,
    pub position: Position,
    pub inset_top: Option<i64>,
    pub inset_right: Option<i64>,
    pub inset_bottom: Option<i64>,
    pub inset_left: Option<i64>,
}

pub open spec fn parse_direction_s(s: Seq<char>) -> FlexDirection {
    if s == "row"@ {
        FlexDirection::Row
    } else if s == "row-reverse"@ {
        FlexDirection::RowReverse
    } else if s == "column-reverse"@ {
        FlexDirection::ColumnReverse
    } else {
        FlexDirection::Column
    }
}

pub open spec fn parse_justify_s(s: Seq<char>) -> JustifyContent {
    if s == "flex-start"@ || s == "start"@ {
        JustifyContent::Start
    } else if s == "flex-end"@ || s == "end"@ {
        JustifyContent::End
    } else if s == "center"@ {
        JustifyContent::Center
    } else if s == "space-between"@ {
        JustifyContent::SpaceBetween
    } else if s == "space-around"@ {
        JustifyContent::SpaceAround
    } else if s == "space-evenly"@ {
        JustifyContent::SpaceEvenly
    } else {
        JustifyContent::Start
    }
}

pub open spec fn parse_align_items_s(s: Seq<char>) -> AlignItems {
    if s == "flex-start"@ || s == "start"@ {
        AlignItems::Start
    } else if s == "flex-end"@ || s == "end"@ {
        AlignItems::End
    } else if s == "center"@ {
        AlignItems::Center
    } else if s == "baseline"@ {
        AlignItems::Baseline
    } else {
        AlignItems::Stretch
    }
}

pub open spec fn parse_align_content_s(s: Seq<char>) -> AlignContent {
    if s == "flex-start"@ || s == "start"@ {
        AlignContent::Start
    } else if s == "flex-end"@ || s == "end"@ {
        AlignContent::End
    } else if s == "center"@ {
        AlignContent::Center
    } else if s == "space-between"@ {
        AlignContent::SpaceBetween
    } else if s == "space-around"@ {
        AlignContent::SpaceAround
    } else {
        AlignContent::Stretch
    }
}

pub open spec fn parse_align_self_s(s: Seq<char>) -> AlignSelf {
    if s == "flex-start"@ || s == "start"@ {
        AlignSelf::Start
    } else if s == "flex-end"@ || s == "end"@ {
        AlignSelf::End
    } else if s == "center"@ {
        AlignSelf::Center
    } else if s == "baseline"@ {
        AlignSelf::Baseline
    } else {
        AlignSelf::Stretch
    }
}

pub open spec fn parse_wrap_s(s: Seq<char>) -> FlexWrap {
    if s == "wrap"@ {
        FlexWrap::Wrap
    } else if s == "wrap-reverse"@ {
        FlexWrap::WrapReverse
    } else {
        FlexWrap::NoWrap
    }
}

pub open spec fn parse_position_s(s: Seq<char>) -> Position {
    if s == "absolute"@ {
        Position::Absolute
    } else {
        Position::Relative
    }
}

/// A non-negative length clamped into the representable range.
pub open spec fn norm_nn(v: i64) -> i64 {
    if v < 0 {
        0
    } else if v > MAX_UNIT {
        MAX_UNIT
    } else {
        v
    }
}

/// A signed length clamped into the representable range.
pub open spec fn norm_sym(v: i64) -> i64 {
    if v > MAX_UNIT {
        MAX_UNIT
    } else if v < -MAX_UNIT {
        (-MAX_UNIT) as i64
    } else {
        v
    }
}

pub open spec fn norm_nn_opt(v: Option<i64>) -> Option<i64> {
    match v {
        Some(x) => Some(norm_nn(x)),
        None => None,
    }
}

pub open spec fn norm_sym_opt(v: Option<i64>) -> Option<i64> {
    match v {
        Some(x) => Some(norm_sym(x)),
        None => None,
    }
}

pub open spec fn norm_nn_or(v: Option<i64>, d: i64) -> i64 {
    match v {
        Some(x) => norm_nn(x),
        None => d,
    }
}

pub open spec fn norm_sym_or(v: Option<i64>, d: i64) -> i64 {
    match v {
        Some(x) => norm_sym(x),
        None => d,
    }
}

/// What the style resolver returns for a given record: every default filled
/// in, every length normalized, row/column gap overriding a uniform gap.
pub open spec fn resolve_style(s: LayoutStyle) -> ResolvedStyle {
    ResolvedStyle {
        width: norm_nn_opt(s.width),
        height: norm_nn_opt(s.height),
        min_width: norm_nn_opt(s.min_width),
        min_height: norm_nn_opt(s.min_height),
        max_width: norm_nn_opt(s.max_width),
        max_height: norm_nn_opt(s.max_height),
        flex_grow: norm_nn_or(s.flex_grow, 0),
        flex_shrink: norm_nn_or(s.flex_shrink, 1),
        flex_basis: norm_nn_opt(s.flex_basis),
        direction: match s.flex_direction {
            Some(d) => parse_direction_s(d@),
            None => FlexDirection::Column,
        },
        justify_content: match s.justify_content {
            Some(j) => parse_justify_s(j@),
            None => JustifyContent::Start,
        },
        align_items: match s.align_items {
            Some(a) => parse_align_items_s(a@),
            None => AlignItems::Stretch,
        },
        align_content: match s.align_content {
            Some(a) => parse_align_content_s(a@),
            None => AlignContent::Stretch,
        },
        align_self: match s.align_self {
            Some(a) => Some(parse_align_self_s(a@)),
            None => None,
        },
        wrap: match s.flex_wrap {
            Some(w) => parse_wrap_s(w@),
            None => FlexWrap::NoWrap,
        },
        row_gap: norm_nn_or(s.row_gap, norm_nn_or(s.gap, 0)),
        column_gap: norm_nn_or(s.column_gap, norm_nn_or(s.gap, 0)),
        padding_top: norm_nn_or(s.padding_top, 0),
        padding_right: norm_nn_or(s.padding_right, 0),
        padding_bottom: norm_nn_or(s.padding_bottom, 0),
        padding_left: norm_nn_or(s.padding_left, 0),
        margin_top: norm_sym_or(s.margin_top, 0),
        margin_right: norm_sym_or(s.margin_right, 0),
        margin_bottom: norm_sym_or(s.margin_bottom, 0),
        margin_left: norm_sym_or(s.margin_left, 0),
        border_top: norm_nn_or(s.border_top, 0),
        border_right: norm_nn_or(s.border_right, 0),
        border_bottom: norm_nn_or(s.border_bottom, 0),
        border_left: norm_nn_or(s.border_left, 0),
        position: match s.position {
            Some(p) => parse_position_s(p@),
            None => Position::Relative,
        },
        inset_top: norm_sym_opt(s.top),
        inset_right: norm_sym_opt(s.right),
        inset_bottom: norm_sym_opt(s.bottom),
        inset_left: norm_sym_opt(s.left),
    }
}

/// Everything a resolved style promises the solver.
pub open spec fn style_wf(r: ResolvedStyle) -> bool {
    &&& (r.width matches Some(v) ==> 0 <= v <= MAX_UNIT)
    &&& (r.height matches Some(v) ==> 0 <= v <= MAX_UNIT)
    &&& (r.min_width matches Some(v) ==> 0 <= v <= MAX_UNIT)
    &&& (r.min_height matches Some(v) ==> 0 <= v <= MAX_UNIT)
    &&& (r.max_width matches Some(v) ==> 0 <= v <= MAX_UNIT)
    &&& (r.max_height matches Some(v) ==> 0 <= v <= MAX_UNIT)
    &&& 0 <= r.flex_grow <= MAX_UNIT
    &&& 0 <= r.flex_shrink <= MAX_UNIT
    &&& (r.flex_basis matches Some(v) ==> 0 <= v <= MAX_UNIT)
    &&& 0 <= r.row_gap <= MAX_UNIT
    &&& 0 <= r.column_gap <= MAX_UNIT
    &&& 0 <= r.padding_top <= MAX_UNIT
    &&& 0 <= r.padding_right <= MAX_UNIT
    &&& 0 <= r.padding_bottom <= MAX_UNIT
    &&& 0 <= r.padding_left <= MAX_UNIT
    &&& -MAX_UNIT <= r.margin_top <= MAX_UNIT
    &&& -MAX_UNIT <= r.margin_right <= MAX_UNIT
    &&& -MAX_UNIT <= r.margin_bottom <= MAX_UNIT
    &&& -MAX_UNIT <= r.margin_left <= MAX_UNIT
    &&& 0 <= r.border_top <= MAX_UNIT
    &&& 0 <= r.border_right <= MAX_UNIT
    &&& 0 <= r.border_bottom <= MAX_UNIT
    &&& 0 <= r.border_left <= MAX_UNIT
    &&& (r.inset_top matches Some(v) ==> -MAX_UNIT <= v <= MAX_UNIT)
    &&& (r.inset_right matches Some(v) ==> -MAX_UNIT <= v <= MAX_UNIT)
    &&& (r.inset_bottom matches Some(v) ==> -MAX_UNIT <= v <= MAX_UNIT)
    &&& (r.inset_left matches Some(v) ==> -MAX_UNIT <= v <= MAX_UNIT)
}

pub proof fn lemma_resolve_wf(s: LayoutStyle)
    ensures
        style_wf(resolve_style(s)),
{
}

/// Does an exec string equal the given literal?
fn str_is(s: &String, lit: &str) -> (b: bool)
    ensures
        b == (s@ == lit@),
{
    let o: String = lit.to_owned();
    s.eq(&o)
}

fn parse_direction(s: &String) -> (r: FlexDirection)
    ensures
        r == parse_direction_s(s@),
{
    if str_is(s, "row") {
        FlexDirection::Row
    } else if str_is(s, "row-reverse") {
        FlexDirection::RowReverse
    } else if str_is(s, "column-reverse") {
        FlexDirection::ColumnReverse
    } else {
        FlexDirection::Column
    }
}

fn parse_justify(s: &String) -> (r: JustifyContent)
    ensures
        r == parse_justify_s(s@),
{
    if str_is(s, "flex-start") || str_is(s, "start") {
        JustifyContent::Start
    } else if str_is(s, "flex-end") || str_is(s, "end") {
        JustifyContent::End
    } else if str_is(s, "center") {
        JustifyContent::Center
    } else if str_is(s, "space-between") {
        JustifyContent::SpaceBetween
    } else if str_is(s, "space-around") {
        JustifyContent::SpaceAround
    } else if str_is(s, "space-evenly") {
        JustifyContent::SpaceEvenly
    } else {
        JustifyContent::Start
    }
}

fn parse_align_items(s: &String) -> (r: AlignItems)
    ensures
        r == parse_align_items_s(s@),
{
    if str_is(s, "flex-start") || str_is(s, "start") {
        AlignItems::Start
    } else if str_is(s, "flex-end") || str_is(s, "end") {
        AlignItems::End
    } else if str_is(s, "center") {
        AlignItems::Center
    } else if str_is(s, "baseline") {
        AlignItems::Baseline
    } else {
        AlignItems::Stretch
    }
}

fn parse_align_content(s: &String) -> (r: AlignContent)
    ensures
        r == parse_align_content_s(s@),
{
    if str_is(s, "flex-start") || str_is(s, "start") {
        AlignContent::Start
    } else if str_is(s, "flex-end") || str_is(s, "end") {
        AlignContent::End
    } else if str_is(s, "center") {
        AlignContent::Center
    } else if str_is(s, "space-between") {
        AlignContent::SpaceBetween
    } else if str_is(s, "space-around") {
        AlignContent::SpaceAround
    } else {
        AlignContent::Stretch
    }
}

fn parse_align_self(s: &String) -> (r: AlignSelf)
    ensures
        r == parse_align_self_s(s@),
{
    if str_is(s, "flex-start") || str_is(s, "start") {
        AlignSelf::Start
    } else if str_is(s, "flex-end") || str_is(s, "end") {
        AlignSelf::End
    } else if str_is(s, "center") {
        AlignSelf::Center
    } else if str_is(s, "baseline") {
        AlignSelf::Baseline
    } else {
        AlignSelf::Stretch
    }
}

fn parse_wrap(s: &String) -> (r: FlexWrap)
    ensures
        r == parse_wrap_s(s@),
{
    if str_is(s, "wrap") {
        FlexWrap::Wrap
    } else if str_is(s, "wrap-reverse") {
        FlexWrap::WrapReverse
    } else {
        FlexWrap::NoWrap
    }
}

fn parse_position(s: &String) -> (r: Position)
    ensures
        r == parse_position_s(s@),
{
    if str_is(s, "absolute") {
        Position::Absolute
    } else {
        Position::Relative
    }
}

fn norm_nn_u(v: i64) -> (r: i64)
    ensures
        r == norm_nn(v),
{
    if v < 0 {
        0
    } else if v > MAX_UNIT {
        MAX_UNIT
    } else {
        v
    }
}

fn norm_sym_u(v: i64) -> (r: i64)
    ensures
        r == norm_sym(v),
{
    if v > MAX_UNIT {
        MAX_UNIT
    } else if v < -MAX_UNIT {
        -MAX_UNIT
    } else {
        v
    }
}

fn norm_nn_opt_u(v: &Option<i64>) -> (r: Option<i64>)
    ensures
        r == norm_nn_opt(*v),
{
    match v {
        Some(x) => Some(norm_nn_u(*x)),
        None => None,
    }
}

fn norm_sym_opt_u(v: &Option<i64>) -> (r: Option<i64>)
    ensures
        r == norm_sym_opt(*v),
{
    match v {
        Some(x) => Some(norm_sym_u(*x)),
        None => None,
    }
}

fn norm_nn_or_u(v: &Option<i64>, d: i64) -> (r: i64)
    ensures
        r == norm_nn_or(*v, d),
{
    match v {
        Some(x) => norm_nn_u(*x),
        None => d,
    }
}

fn norm_sym_or_u(v: &Option<i64>, d: i64) -> (r: i64)
    ensures
        r == norm_sym_or(*v, d),
{
    match v {
        Some(x) => norm_sym_u(*x),
        None => d,
    }
}

/// Normalize a sparse style record into fully resolved box-model values.
/// Total: every unset or unrecognized field takes its documented default.
pub fn resolve(s: &LayoutStyle) -> (r: ResolvedStyle)
    ensures
        r == resolve_style(*s),
{
    let gap_default: i64 = norm_nn_or_u(&s.gap, 0);
    ResolvedStyle {
        width: norm_nn_opt_u(&s.width),
        height: norm_nn_opt_u(&s.height),
        min_width: norm_nn_opt_u(&s.min_width),
        min_height: norm_nn_opt_u(&s.min_height),
        max_width: norm_nn_opt_u(&s.max_width),
        max_height: norm_nn_opt_u(&s.max_height),
        flex_grow: norm_nn_or_u(&s.flex_grow, 0),
        flex_shrink: norm_nn_or_u(&s.flex_shrink, 1),
        flex_basis: norm_nn_opt_u(&s.flex_basis),
        direction: match &s.flex_direction {
            Some(d) => parse_direction(d),
            None => FlexDirection::Column,
        },
        justify_content: match &s.justify_content {
            Some(j) => parse_justify(j),
            None => JustifyContent::Start,
        },
        align_items: match &s.align_items {
            Some(a) => parse_align_items(a),
            None => AlignItems::Stretch,
        },
        align_content: match &s.align_content {
            Some(a) => parse_align_content(a),
            None => AlignContent::Stretch,
        },
        align_self: match &s.align_self {
            Some(a) => Some(parse_align_self(a)),
            None => None,
        },
        wrap: match &s.flex_wrap {
            Some(w) => parse_wrap(w),
            None => FlexWrap::NoWrap,
        },
        row_gap: norm_nn_or_u(&s.row_gap, gap_default),
        column_gap: norm_nn_or_u(&s.column_gap, gap_default),
        padding_top: norm_nn_or_u(&s.padding_top, 0),
        padding_right: norm_nn_or_u(&s.padding_right, 0),
        padding_bottom: norm_nn_or_u(&s.padding_bottom, 0),
        padding_left: norm_nn_or_u(&s.padding_left, 0),
        margin_top: norm_sym_or_u(&s.margin_top, 0),
        margin_right: norm_sym_or_u(&s.margin_right, 0),
        margin_bottom: norm_sym_or_u(&s.margin_bottom, 0),
        margin_left: norm_sym_or_u(&s.margin_left, 0),
        border_top: norm_nn_or_u(&s.border_top, 0),
        border_right: norm_nn_or_u(&s.border_right, 0),
        border_bottom: norm_nn_or_u(&s.border_bottom, 0),
        border_left: norm_nn_or_u(&s.border_left, 0),
        position: match &s.position {
            Some(p) => parse_position(p),
            None => Position::Relative,
        },
        inset_top: norm_sym_opt_u(&s.top),
        inset_right: norm_sym_opt_u(&s.right),
        inset_bottom: norm_sym_opt_u(&s.bottom),
        inset_left: norm_sym_opt_u(&s.left),
    }
}

} // verus!
