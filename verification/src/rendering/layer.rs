//! What a rendering layer does to a pixel's colour, decided from the
//! layer's set range and the kind of its algorithm.
use vstd::prelude::*;

verus! {

/// Specifies the range of the fractal set a layer is applied to.
#[derive(Clone, Copy, Debug, PartialEq, Eq, Structural)]
pub enum LayerRange {
    /// Only points in the fractal set
    InSet,
    /// Only points out the fractal set
    OutSet,
    /// Points both in or out the set (every point)
    Both,
}

impl LayerRange {
    /// Whether the layer applies to a point in (`in_set`) or out of the set.
    pub open spec fn applies(self, in_set: bool) -> bool {
        match self {
            LayerRange::InSet => in_set,
            LayerRange::OutSet => !in_set,
            LayerRange::Both => true,
        }
    }

    /// Returns whether they layer applies to a point in/out the set.
    pub fn layer_applies(&self, in_set: bool) -> (applies: bool)
        ensures
            applies == self.applies(in_set),
    {
        match self {
            LayerRange::InSet => in_set,
            LayerRange::OutSet => !in_set,
            LayerRange::Both => true,
        }
    }

    /// Returns whether the layer is covered by another layer already, given
    /// whether points in the set and points out of the set are covered.
    pub fn layer_covered(&self, covered_in_set: bool, covered_out_set: bool) -> (covered: bool)
        ensures
            covered == ((self.applies(true) ==> covered_in_set) && (self.applies(false) ==> covered_out_set)),
    {
        match self {
            LayerRange::Both => covered_in_set && covered_out_set,
            LayerRange::InSet => covered_in_set,
            LayerRange::OutSet => covered_out_set,
        }
    }

    /// Every range, in the order a menu lists them.
    pub fn get_variants() -> (variants: Vec<LayerRange>)
        ensures
            variants@ == seq![LayerRange::InSet, LayerRange::OutSet, LayerRange::Both],
    {
        vec![LayerRange::InSet, LayerRange::OutSet, LayerRange::Both]
    }

    /// The label of the range.
    pub open spec fn text(self) -> Seq<char> {
        match self {
            LayerRange::InSet => "In set"@,
            LayerRange::OutSet => "Out set"@,
            LayerRange::Both => "Both"@,
        }
    }

    /// The label of the range.
    pub fn get_text(&self) -> (text: &'static str)
        ensures
            text@ == self.text(),
    {
        match self {
            LayerRange::InSet => "In set",
            LayerRange::OutSet => "Out set",
            LayerRange::Both => "Both",
        }
    }
}

/// How a layer's output turns into a colour.
#[derive(Clone, Copy, Debug, PartialEq, Eq, Structural)]
pub enum LayerMappingKind {
    /// The output picks a palette colour, blended over the previous colour.
    Blend,
    /// The output darkens the colour given by the previous layers.
    Shade,
}

/// The algorithm a layer runs, without its parameters.
#[derive(Clone, Copy, Debug, PartialEq, Eq, Structural)]
pub enum LayerAlgorithmVariant {
    Colour,
    OrbitTrap,
    Shading3D,
    TriangleInequality,
    StripeAverage,
}

impl LayerAlgorithmVariant {
    /// Only 3D shading shades; every other algorithm blends a palette colour.
    pub open spec fn mapping(self) -> LayerMappingKind {
        match self {
            LayerAlgorithmVariant::Shading3D => LayerMappingKind::Shade,
            _ => LayerMappingKind::Blend,
        }
    }

    /// How this algorithm's output turns into a colour.
    pub fn get_mapping_kind(&self) -> (kind: LayerMappingKind)
        ensures
            kind == self.mapping(),
    {
        match self {
            LayerAlgorithmVariant::Shading3D => LayerMappingKind::Shade,
            _ => LayerMappingKind::Blend,
        }
    }

    /// Every algorithm, in the order a menu lists them.
    pub fn get_variants() -> (variants: Vec<LayerAlgorithmVariant>)
        ensures
            variants@ == seq![
                LayerAlgorithmVariant::Colour,
                LayerAlgorithmVariant::OrbitTrap,
                LayerAlgorithmVariant::Shading3D,
                LayerAlgorithmVariant::TriangleInequality,
                LayerAlgorithmVariant::StripeAverage,
            ],
    {
        vec![
            LayerAlgorithmVariant::Colour,
            LayerAlgorithmVariant::OrbitTrap,
            LayerAlgorithmVariant::Shading3D,
            LayerAlgorithmVariant::TriangleInequality,
            LayerAlgorithmVariant::StripeAverage,
        ]
    }

    /// The label of the algorithm.
    pub open spec fn text(self) -> Seq<char> {
        match self {
            LayerAlgorithmVariant::Colour => "Colour"@,
            LayerAlgorithmVariant::OrbitTrap => "Orbit Trap"@,
            LayerAlgorithmVariant::Shading3D => "Shading3D"@,
            LayerAlgorithmVariant::TriangleInequality => "Triangle Inequality"@,
            LayerAlgorithmVariant::StripeAverage => "Stripe Average"@,
        }
    }

    /// The label of the algorithm.
    pub fn get_text(&self) -> (text: &'static str)
        ensures
            text@ == self.text(),
    {
        match self {
            LayerAlgorithmVariant::Colour => "Colour",
            LayerAlgorithmVariant::OrbitTrap => "Orbit Trap",
            LayerAlgorithmVariant::Shading3D => "Shading3D",
            LayerAlgorithmVariant::TriangleInequality => "Triangle Inequality",
            LayerAlgorithmVariant::StripeAverage => "Stripe Average",
        }
    }
}

/// Errors raised while colouring a pixel through the layers.
#[derive(Debug)]
pub enum LayerError {
    /// A shading layer found no colour from earlier layers to shade.
    ShadingError(String),
}

/// What a layer does to the colour a pixel has so far.
#[derive(Clone, Copy, Debug, PartialEq, Eq, Structural)]
pub enum LayerStep {
    /// The layer does not apply: the colour so far is kept.
    Keep,
    /// The layer darkens the colour so far by its output.
    Shade,
    /// The layer blends its palette colour over the colour so far (black
    /// where there is none yet).
    Blend,
}

/// The message of the error raised when a shading layer has nothing to shade.
pub open spec fn missing_base_message() -> Seq<char> {
    "No base colour to shade"@
}

/// Decides what a layer with `range` and `mapping` does to a pixel that is
/// in the set or not (`in_set`), when earlier layers did (`has_previous`)
/// or did not give it a colour.
pub fn layer_step(range: LayerRange, mapping: LayerMappingKind, in_set: bool, has_previous: bool) -> (step: Result<LayerStep, LayerError>)
    ensures
        !range.applies(in_set) ==> step matches Ok(LayerStep::Keep),
        range.applies(in_set) && mapping == LayerMappingKind::Blend ==> step matches Ok(LayerStep::Blend),
        range.applies(in_set) && mapping == LayerMappingKind::Shade && has_previous ==> step matches Ok(LayerStep::Shade),
        range.applies(in_set) && mapping == LayerMappingKind::Shade && !has_previous ==>
            (step matches Err(LayerError::ShadingError(msg)) && msg@ == missing_base_message()),
{
    if !range.layer_applies(in_set) {
        return Ok(LayerStep::Keep);
    }
    match mapping {
        LayerMappingKind::Shade => {
            if has_previous {
                Ok(LayerStep::Shade)
            } else {
                Err(LayerError::ShadingError("No base colour to shade".to_owned()))
            }
        },
        LayerMappingKind::Blend => Ok(LayerStep::Blend),
    }
}

/// Every point is either in or out of the set, so a layer restricted to
/// the set and one restricted to its outside never apply to the same point,
/// and between them cover every point, as a layer over both does.
pub proof fn lemma_ranges_partition(in_set: bool)
    ensures
        LayerRange::InSet.applies(in_set) != LayerRange::OutSet.applies(in_set),
        LayerRange::Both.applies(in_set) == (LayerRange::InSet.applies(in_set) || LayerRange::OutSet.applies(in_set)),
{
}

/// Each range is labelled by the points it covers, and no two ranges share a label.
pub proof fn lemma_layer_range_labels(a: LayerRange, b: LayerRange)
    ensures
        LayerRange::InSet.text() == "In set"@,
        LayerRange::OutSet.text() == "Out set"@,
        LayerRange::Both.text() == "Both"@,
        a != b ==> a.text() != b.text(),
{
    reveal_strlit("In set");
    reveal_strlit("Out set");
    reveal_strlit("Both");
    if a != b && a.text() == b.text() {
        assert(a.text()[0] == b.text()[0]);
        assert(a.text()[1] == b.text()[1]);
        assert(a.text().len() == b.text().len());
    }
}

/// Each algorithm is labelled with its own name, and no two algorithms share a label.
pub proof fn lemma_layer_algorithm_labels(a: LayerAlgorithmVariant, b: LayerAlgorithmVariant)
    ensures
        LayerAlgorithmVariant::Colour.text() == "Colour"@,
        LayerAlgorithmVariant::OrbitTrap.text() == "Orbit Trap"@,
        LayerAlgorithmVariant::Shading3D.text() == "Shading3D"@,
        LayerAlgorithmVariant::TriangleInequality.text() == "Triangle Inequality"@,
        LayerAlgorithmVariant::StripeAverage.text() == "Stripe Average"@,
        a != b ==> a.text() != b.text(),
{
    reveal_strlit("Colour");
    reveal_strlit("Orbit Trap");
    reveal_strlit("Shading3D");
    reveal_strlit("Triangle Inequality");
    reveal_strlit("Stripe Average");
    if a != b && a.text() == b.text() {
        assert(a.text()[0] == b.text()[0]);
        assert(a.text()[1] == b.text()[1]);
        assert(a.text().len() == b.text().len());
    }
}

/// Only the 3D shading algorithm shades the colour earlier layers gave;
/// every other algorithm blends a palette colour of its own.
pub proof fn lemma_only_shading_shades(v: LayerAlgorithmVariant)
    ensures
        (v.mapping() == LayerMappingKind::Shade) <==> (v == LayerAlgorithmVariant::Shading3D),
{
}

} // verus!
