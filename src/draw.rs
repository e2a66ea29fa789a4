//! Draw lists: what a render routine asks the host program to paint.
use vstd::prelude::*;

verus! {

/// A position on the canvas, in pixels; it may lie off the canvas.
#[derive(Clone, Copy, Debug, PartialEq, Eq, Structural)]
pub struct Point {
    pub x: i64,
    pub y: i64,
}

/// How a line is to be painted.
#[derive(Clone, Copy, Debug, PartialEq, Eq, Structural)]
pub enum Stroke {
    /// A plot axis, in the outline colour.
    Axis,
    /// A stretch of the cost curve, mixed from red and green.
    Cost { red: u8, green: u8 },
    /// The reference function of an output graph.
    Reference,
    /// The network's output in an output graph.
    Network,
    /// A connection of the architecture diagram, coloured by its weight
    /// (fixed point) through the squashing colour ramp.
    Weight(i64),
}

/// A straight line from `from` to `to`.
#[derive(Clone, Copy, Debug, PartialEq, Eq, Structural)]
pub struct Segment {
    pub from: Point,
    pub to: Point,
    pub stroke: Stroke,
}

/// How a neuron is to be filled.
#[derive(Clone, Copy, Debug, PartialEq, Eq, Structural)]
pub enum Fill {
    /// An input neuron, in the fixed neutral colour.
    Input,
    /// A neuron coloured by its bias (fixed point) through the squashing
    /// colour ramp.
    Bias(i64),
}

/// A filled circle.
#[derive(Clone, Copy, Debug, PartialEq, Eq, Structural)]
pub struct Disc {
    pub center: Point,
    pub radius: i64,
    pub fill: Fill,
}

/// One RGBA pixel.
#[derive(Clone, Copy, Debug, PartialEq, Eq, Structural)]
pub struct Pixel {
    pub r: u8,
    pub g: u8,
    pub b: u8,
    pub a: u8,
}

} // verus!
