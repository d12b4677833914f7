//! The arrow descriptors: two endpoints in the caller's coordinates, tail
//! first, a head length and a head width, and a style. Both variants share the
//! geometry of `crate::geometry`; they differ only in how the head is drawn.

use crate::emit::HeadKind;
use plotters::style::ShapeStyle;
use vstd::prelude::*;

verus! {

/// The drawing style of plotters, carried unchanged to every draw call.
#[verifier::external_type_specification]
#[verifier::external_body]
pub struct ExShapeStyle(ShapeStyle);

/// Relies on the `Clone` that `ShapeStyle` derives beside `Copy`: a copy.
pub assume_specification[ <ShapeStyle as Clone>::clone ](style: &ShapeStyle) -> (r: ShapeStyle)
    ensures
        r == *style,
;

/// An arrow with an open head: the shaft and two barb strokes.
#[derive(Clone)]
pub struct ThinArrow<Coord, Size> {
    points: [Coord; 2],
    head: Size,
    width: Size,
    style: ShapeStyle,
}

impl<Coord> ThinArrow<Coord, i32> {
    /// An arrow from `nock` to `tip` with a head 5 pixels long and 5 wide.
    pub fn new<S: Into<ShapeStyle>>(nock: Coord, tip: Coord, style: S) -> (r: Self)
        ensures
            r.spec_points() == seq![nock, tip],
            call_ensures(<S as Into<ShapeStyle>>::into, (style,), r.spec_style()),
            r.spec_head() == 5,
            r.spec_width() == 5,
    {
        ThinArrow { points: [nock, tip], head: 5, width: 5, style: style.into() }
    }
}

impl<Coord, Size> ThinArrow<Coord, Size> {
    /// The endpoints, tail first.
    pub closed spec fn spec_points(&self) -> Seq<Coord> {
        self.points@
    }

    pub closed spec fn spec_head(&self) -> Size {
        self.head
    }

    pub closed spec fn spec_width(&self) -> Size {
        self.width
    }

    pub closed spec fn spec_style(&self) -> ShapeStyle {
        self.style
    }

    /// An arrow from `nock` to `tip` with the given head length and width.
    pub fn new_detail<S: Into<ShapeStyle>>(nock: Coord, tip: Coord, head: Size, width: Size, style: S) -> (r: Self)
        ensures
            r.spec_points() == seq![nock, tip],
            call_ensures(<S as Into<ShapeStyle>>::into, (style,), r.spec_style()),
            r.spec_head() == head,
            r.spec_width() == width,
    {
        ThinArrow { points: [nock, tip], head, width, style: style.into() }
    }

    /// The same arrow with another head length.
    pub fn head(self, head: Size) -> (r: Self)
        ensures
            r.spec_points() == self.spec_points(),
            r.spec_head() == head,
            r.spec_width() == self.spec_width(),
            r.spec_style() == self.spec_style(),
    {
        ThinArrow { head, ..self }
    }

    /// The same arrow with another head width.
    pub fn width(self, width: Size) -> (r: Self)
        ensures
            r.spec_points() == self.spec_points(),
            r.spec_head() == self.spec_head(),
            r.spec_width() == width,
            r.spec_style() == self.spec_style(),
    {
        ThinArrow { width, ..self }
    }

    /// The endpoints, tail first: what the coordinate mapping resolves.
    pub fn point_iter(&self) -> (r: &[Coord; 2])
        ensures
            r@ == self.spec_points(),
    {
        &self.points
    }

    /// The head length, to be resolved against the panel.
    pub fn head_size(&self) -> (r: &Size)
        ensures
            *r == self.spec_head(),
    {
        &self.head
    }

    /// The head width, to be resolved against the panel.
    pub fn width_size(&self) -> (r: &Size)
        ensures
            *r == self.spec_width(),
    {
        &self.width
    }

    /// The style of every draw call.
    pub fn style(&self) -> (r: &ShapeStyle)
        ensures
            *r == self.spec_style(),
    {
        &self.style
    }

    /// How the head is drawn.
    pub fn head_kind(&self) -> (r: HeadKind)
        ensures
            r == HeadKind::Open,
    {
        HeadKind::Open
    }
}

/// An arrow with a filled head: the shaft and a solid triangle.
#[derive(Clone)]
pub struct TriangleArrow<Coord, Size> {
    points: [Coord; 2],
    head: Size,
    width: Size,
    style: ShapeStyle,
}

impl<Coord> TriangleArrow<Coord, i32> {
    /// An arrow from `nock` to `tip` with a head 5 pixels long and 5 wide.
    pub fn new<S: Into<ShapeStyle>>(nock: Coord, tip: Coord, style: S) -> (r: Self)
        ensures
            r.spec_points() == seq![nock, tip],
            call_ensures(<S as Into<ShapeStyle>>::into, (style,), r.spec_style()),
            r.spec_head() == 5,
            r.spec_width() == 5,
    {
        TriangleArrow { points: [nock, tip], head: 5, width: 5, style: style.into() }
    }
}

impl<Coord, Size> TriangleArrow<Coord, Size> {
    /// The endpoints, tail first.
    pub closed spec fn spec_points(&self) -> Seq<Coord> {
        self.points@
    }

    pub closed spec fn spec_head(&self) -> Size {
        self.head
    }

    pub closed spec fn spec_width(&self) -> Size {
        self.width
    }

    pub closed spec fn spec_style(&self) -> ShapeStyle {
        self.style
    }

    /// An arrow from `nock` to `tip` with the given head length and width.
    pub fn new_detail<S: Into<ShapeStyle>>(nock: Coord, tip: Coord, head: Size, width: Size, style: S) -> (r: Self)
        ensures
            r.spec_points() == seq![nock, tip],
            call_ensures(<S as Into<ShapeStyle>>::into, (style,), r.spec_style()),
            r.spec_head() == head,
            r.spec_width() == width,
    {
        TriangleArrow { points: [nock, tip], head, width, style: style.into() }
    }

    /// The same arrow with another head length.
    pub fn head(self, head: Size) -> (r: Self)
        ensures
            r.spec_points() == self.spec_points(),
            r.spec_head() == head,
            r.spec_width() == self.spec_width(),
            r.spec_style() == self.spec_style(),
    {
        TriangleArrow { head, ..self }
    }

    /// The same arrow with another head width.
    pub fn width(self, width: Size) -> (r: Self)
        ensures
            r.spec_points() == self.spec_points(),
            r.spec_head() == self.spec_head(),
            r.spec_width() == width,
            r.spec_style() == self.spec_style(),
    {
        TriangleArrow { width, ..self }
    }

    /// The endpoints, tail first: what the coordinate mapping resolves.
    pub fn point_iter(&self) -> (r: &[Coord; 2])
        ensures
            r@ == self.spec_points(),
    {
        &self.points
    }

    /// The head length, to be resolved against the panel.
    pub fn head_size(&self) -> (r: &Size)
        ensures
            *r == self.spec_head(),
    {
        &self.head
    }

    /// The head width, to be resolved against the panel.
    pub fn width_size(&self) -> (r: &Size)
        ensures
            *r == self.spec_width(),
    {
        &self.width
    }

    /// The style of every draw call.
    pub fn style(&self) -> (r: &ShapeStyle)
        ensures
            *r == self.spec_style(),
    {
        &self.style
    }

    /// How the head is drawn.
    pub fn head_kind(&self) -> (r: HeadKind)
        ensures
            r == HeadKind::Filled,
    {
        HeadKind::Filled
    }
}

} // verus!
