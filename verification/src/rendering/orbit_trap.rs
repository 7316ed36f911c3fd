//! Orbit traps: shapes in the complex plane, and what is measured of an
//! orbit's closest approach to them.
use vstd::prelude::*;

verus! {

/// Determines what metric will be used to analyse a point with the orbit trap.
#[derive(Clone, Copy, Debug, PartialEq, Eq, Structural)]
pub enum OrbitTrapAnalysis {
    Distance,
    Real,
    Imaginary,
    Angle,
}

impl OrbitTrapAnalysis {
    /// Every metric, in menu order.
    pub fn get_variants() -> (variants: Vec<OrbitTrapAnalysis>)
        ensures
            variants@ == seq![
                OrbitTrapAnalysis::Distance,
                OrbitTrapAnalysis::Real,
                OrbitTrapAnalysis::Imaginary,
                OrbitTrapAnalysis::Angle,
            ],
    {
        vec![OrbitTrapAnalysis::Distance, OrbitTrapAnalysis::Real, OrbitTrapAnalysis::Imaginary, OrbitTrapAnalysis::Angle]
    }

    /// The label of the metric.
    pub open spec fn text(self) -> Seq<char> {
        match self {
            OrbitTrapAnalysis::Distance => "Distance"@,
            OrbitTrapAnalysis::Real => "Real"@,
            OrbitTrapAnalysis::Imaginary => "Imaginary"@,
            OrbitTrapAnalysis::Angle => "Angle"@,
        }
    }

    /// The label of the metric.
    pub fn get_text(&self) -> (text: &'static str)
        ensures
            text@ == self.text(),
    {
        match self {
            OrbitTrapAnalysis::Distance => "Distance",
            OrbitTrapAnalysis::Real => "Real",
            OrbitTrapAnalysis::Imaginary => "Imaginary",
            OrbitTrapAnalysis::Angle => "Angle",
        }
    }
}

/// The shape of an orbit trap, without its position and size.
#[derive(Clone, Copy, Debug, PartialEq, Eq, Structural)]
pub enum OrbitTrapShape {
    Point,
    Cross,
    Circle,
}

impl OrbitTrapShape {
    /// Every shape, in menu order.
    pub fn get_variants() -> (variants: Vec<OrbitTrapShape>)
        ensures
            variants@ == seq![OrbitTrapShape::Point, OrbitTrapShape::Cross, OrbitTrapShape::Circle],
    {
        vec![OrbitTrapShape::Point, OrbitTrapShape::Cross, OrbitTrapShape::Circle]
    }

    /// The label of the shape.
    pub open spec fn text(self) -> Seq<char> {
        match self {
            OrbitTrapShape::Point => "Point"@,
            OrbitTrapShape::Cross => "Cross"@,
            OrbitTrapShape::Circle => "Circle"@,
        }
    }

    /// The label of the shape.
    pub fn get_text(&self) -> (text: &'static str)
        ensures
            text@ == self.text(),
    {
        match self {
            OrbitTrapShape::Point => "Point",
            OrbitTrapShape::Cross => "Cross",
            OrbitTrapShape::Circle => "Circle",
        }
    }
}

/// Each metric is labelled with its own name, and no two metrics share a
/// label.
pub proof fn lemma_orbit_trap_analysis_labels(a: OrbitTrapAnalysis, b: OrbitTrapAnalysis)
    ensures
        OrbitTrapAnalysis::Distance.text() == "Distance"@,
        OrbitTrapAnalysis::Real.text() == "Real"@,
        OrbitTrapAnalysis::Imaginary.text() == "Imaginary"@,
        OrbitTrapAnalysis::Angle.text() == "Angle"@,
        a != b ==> a.text() != b.text(),
{
    reveal_strlit("Distance");
    reveal_strlit("Real");
    reveal_strlit("Imaginary");
    reveal_strlit("Angle");
    if a != b && a.text() == b.text() {
        assert(a.text()[0] == b.text()[0]);
        assert(a.text().len() == b.text().len());
    }
}

/// Each shape is labelled with its own name (the point trap "Point", the
/// circle trap "Circle"), and no two shapes share a label.
pub proof fn lemma_orbit_trap_shape_labels(a: OrbitTrapShape, b: OrbitTrapShape)
    ensures
        OrbitTrapShape::Point.text() == "Point"@,
        OrbitTrapShape::Cross.text() == "Cross"@,
        OrbitTrapShape::Circle.text() == "Circle"@,
        a != b ==> a.text() != b.text(),
{
    reveal_strlit("Point");
    reveal_strlit("Cross");
    reveal_strlit("Circle");
    if a != b && a.text() == b.text() {
        assert(a.text()[0] == b.text()[0]);
        assert(a.text()[1] == b.text()[1]);
    }
}

} // verus!
