//! What is on the screen, ready to be rendered.
use crate::layout::{Area, Plan};
use crate::sort::text_views;
use crate::style::{line_views, Line, SpanView, Style};
use vstd::prelude::*;

verus! {

/// A framed panel of lines.
#[derive(Debug)]
pub struct Panel {
    pub area: Area,
    pub title: String,
    pub title_style: Style,
    pub border_style: Style,
    pub lines: Vec<Line>,
}

/// The model of a [`Panel`].
#[verifier::ext_equal]
pub struct PanelView {
    pub area: Area,
    pub title: Seq<char>,
    pub title_style: Style,
    pub border_style: Style,
    pub lines: Seq<Seq<SpanView>>,
}

impl View for Panel {
    type V = PanelView;

    open spec fn view(&self) -> PanelView {
        PanelView {
            area: self.area,
            title: self.title@,
            title_style: self.title_style,
            border_style: self.border_style,
            lines: line_views(self.lines@),
        }
    }
}

/// A framed line chart. A point `(x, y)` stands at `y / scale` above the slot `x`; the axes
/// run from 0 to `x_max` and `y_max`.
#[derive(Debug)]
pub struct Graph {
    pub area: Area,
    pub title: String,
    pub title_style: Style,
    pub border_style: Style,
    pub line_style: Style,
    pub points: Vec<(usize, u64)>,
    pub scale: u64,
    pub x_max: usize,
    pub y_max: u64,
    pub y_labels: Vec<String>,
}

/// The model of a [`Graph`].
#[verifier::ext_equal]
pub struct GraphView {
    pub area: Area,
    pub title: Seq<char>,
    pub title_style: Style,
    pub border_style: Style,
    pub line_style: Style,
    pub points: Seq<(usize, u64)>,
    pub scale: u64,
    pub x_max: usize,
    pub y_max: u64,
    pub y_labels: Seq<Seq<char>>,
}

impl View for Graph {
    type V = GraphView;

    open spec fn view(&self) -> GraphView {
        GraphView {
            area: self.area,
            title: self.title@,
            title_style: self.title_style,
            border_style: self.border_style,
            line_style: self.line_style,
            points: self.points@,
            scale: self.scale,
            x_max: self.x_max,
            y_max: self.y_max,
            y_labels: text_views(self.y_labels@),
        }
    }
}

/// The part of the screen below the title.
#[derive(Debug)]
pub enum Body {
    Graphs { graphs: Vec<Graph>, counters: Panel },
    Top { processes: Panel, info: Panel },
}

/// A whole screen.
#[derive(Debug)]
pub struct Picture {
    pub plan: Plan,
    pub title: Line,
    pub body: Body,
}

} // verus!
