//! The choices a user makes when mapping audio to visual effects: which
//! feature drives a mapping, how intensity is emphasised, which samples are
//! averaged, and which action a mapping takes.
use vstd::prelude::*;
use vstd::std_specs::cmp::PartialEqSpec;
use crate::audio::analyzer::FeatureType;

verus! {

/// How intensity is emphasised when mapped to an effect.
#[derive(Clone, Copy, Debug)]
pub enum IntensityEmphasis {
    /// Linear mapping
    Equal,
    /// Higher intensities emphasised more (exponential)
    High(u32),
    /// Lower intensities emphasised more (inverse exponential)
    Low(u32),
}

impl IntensityEmphasis {
    /// The variant of the emphasis, without its exponent (0, 1 or 2).
    pub open spec fn variant(self) -> int {
        match self {
            IntensityEmphasis::Equal => 0,
            IntensityEmphasis::High(_) => 1,
            IntensityEmphasis::Low(_) => 2,
        }
    }

    /// Every emphasis, in menu order, with exponent 1.
    pub fn get_variants() -> (variants: Vec<IntensityEmphasis>)
        ensures
            variants@ == seq![IntensityEmphasis::Equal, IntensityEmphasis::High(1), IntensityEmphasis::Low(1)],
    {
        vec![IntensityEmphasis::Equal, IntensityEmphasis::High(1), IntensityEmphasis::Low(1)]
    }

    /// The label of the emphasis.
    pub open spec fn text(self) -> Seq<char> {
        match self {
            IntensityEmphasis::Equal => "Equal"@,
            IntensityEmphasis::High(_) => "Highs"@,
            IntensityEmphasis::Low(_) => "Lows"@,
        }
    }

    /// The label of the emphasis.
    pub fn get_text(&self) -> (text: &'static str)
        ensures
            text@ == self.text(),
    {
        match self {
            IntensityEmphasis::Equal => "Equal",
            IntensityEmphasis::High(_) => "Highs",
            IntensityEmphasis::Low(_) => "Lows",
        }
    }

    /// The explanation of the emphasis.
    pub open spec fn tooltip(self) -> Seq<char> {
        match self {
            IntensityEmphasis::Equal => "Intensity has a linear effect on the mapping"@,
            IntensityEmphasis::High(_) => "Higher intensities are emphasised more, with an exponential curve"@,
            IntensityEmphasis::Low(_) => "Lower intensities are emphasised more, with an inverse exponential curve"@,
        }
    }

    /// The explanation of the emphasis.
    pub fn get_tooltip(&self) -> (tooltip: Option<String>)
        ensures
            tooltip matches Some(t) && t@ == self.tooltip(),
    {
        Some(
            match self {
                IntensityEmphasis::Equal => "Intensity has a linear effect on the mapping",
                IntensityEmphasis::High(_) => "Higher intensities are emphasised more, with an exponential curve",
                IntensityEmphasis::Low(_) => "Lower intensities are emphasised more, with an inverse exponential curve",
            }.to_owned(),
        )
    }
}

/// Two emphases are equal when they are the same variant, whatever their
/// exponents.
impl PartialEq for IntensityEmphasis {
    fn eq(&self, other: &Self) -> (equal: bool) {
        match (self, other) {
            (IntensityEmphasis::Equal, IntensityEmphasis::Equal) => true,
            (IntensityEmphasis::High(_), IntensityEmphasis::High(_)) => true,
            (IntensityEmphasis::Low(_), IntensityEmphasis::Low(_)) => true,
            _ => false,
        }
    }
}

impl vstd::std_specs::cmp::PartialEqSpecImpl for IntensityEmphasis {
    open spec fn obeys_eq_spec() -> bool {
        true
    }

    open spec fn eq_spec(&self, other: &IntensityEmphasis) -> bool {
        self.variant() == other.variant()
    }
}

/// Equality of emphases is an equivalence, and exponents never tell two
/// emphases apart.
pub proof fn lemma_emphasis_eq_is_equivalence(a: IntensityEmphasis, b: IntensityEmphasis, c: IntensityEmphasis, x: u32, y: u32)
    ensures
        a.eq_spec(&a),
        a.eq_spec(&b) == b.eq_spec(&a),
        a.eq_spec(&b) && b.eq_spec(&c) ==> a.eq_spec(&c),
        IntensityEmphasis::High(x).eq_spec(&IntensityEmphasis::High(y)),
        IntensityEmphasis::Low(x).eq_spec(&IntensityEmphasis::Low(y)),
        !IntensityEmphasis::High(x).eq_spec(&IntensityEmphasis::Low(y)),
{
}

/// Which samples around a timestamp a continuous mapping averages.
#[derive(Clone, Copy, Debug, PartialEq, Eq, Structural)]
pub enum ContinuousSampleWindowType {
    /// Use samples to the left of the timestamp
    Left,
    /// Use samples around the timestamp
    Centered,
    /// Use samples to the right of the timestamp
    Right,
}

impl ContinuousSampleWindowType {
    /// Every window type, in menu order.
    pub fn get_variants() -> (variants: Vec<ContinuousSampleWindowType>)
        ensures
            variants@ == seq![
                ContinuousSampleWindowType::Left,
                ContinuousSampleWindowType::Centered,
                ContinuousSampleWindowType::Right,
            ],
    {
        vec![ContinuousSampleWindowType::Left, ContinuousSampleWindowType::Centered, ContinuousSampleWindowType::Right]
    }

    /// The label of the window type.
    pub open spec fn text(self) -> Seq<char> {
        match self {
            ContinuousSampleWindowType::Left => "Left"@,
            ContinuousSampleWindowType::Centered => "Centered"@,
            ContinuousSampleWindowType::Right => "Right"@,
        }
    }

    /// The label of the window type.
    pub fn get_text(&self) -> (text: &'static str)
        ensures
            text@ == self.text(),
    {
        match self {
            ContinuousSampleWindowType::Left => "Left",
            ContinuousSampleWindowType::Centered => "Centered",
            ContinuousSampleWindowType::Right => "Right",
        }
    }

    /// The explanation of the window type.
    pub open spec fn tooltip(self) -> Seq<char> {
        match self {
            ContinuousSampleWindowType::Left => "Use samples to the left of the timestamp"@,
            ContinuousSampleWindowType::Centered => "Use samples around the timestamp"@,
            ContinuousSampleWindowType::Right => "Use samples to the right of the timestamp"@,
        }
    }

    /// The explanation of the window type.
    pub fn get_tooltip(&self) -> (tooltip: Option<String>)
        ensures
            tooltip matches Some(t) && t@ == self.tooltip(),
    {
        Some(
            match self {
                ContinuousSampleWindowType::Left => "Use samples to the left of the timestamp",
                ContinuousSampleWindowType::Centered => "Use samples around the timestamp",
                ContinuousSampleWindowType::Right => "Use samples to the right of the timestamp",
            }.to_owned(),
        )
    }
}

/// The effect a mapping has, without its amount.
#[derive(Clone, Copy, Debug, PartialEq, Eq, Structural)]
pub enum LayerActionKind {
    AddZoomSpeed,
    Flash,
    ShiftPalette,
    ChangePaletteLength,
    Rotate,
    Brighten,
    ShiftHue,
    Saturate,
}

impl LayerActionKind {
    /// Zoom and rotation are integrated over the whole song into timelines,
    /// which must be rebuilt when such an action changes.
    pub open spec fn needs_timeline(self) -> bool {
        self == LayerActionKind::AddZoomSpeed || self == LayerActionKind::Rotate
    }

    /// Whether changing an action of this kind means rebuilding the zoom
    /// and rotation timelines.
    pub fn timeline_needs_recompute(&self) -> (recompute: bool)
        ensures
            recompute == self.needs_timeline(),
    {
        match self {
            LayerActionKind::AddZoomSpeed => true,
            LayerActionKind::Rotate => true,
            _ => false,
        }
    }

    /// Every action kind, in menu order.
    pub fn get_variants() -> (variants: Vec<LayerActionKind>)
        ensures
            variants@ == seq![
                LayerActionKind::AddZoomSpeed,
                LayerActionKind::Flash,
                LayerActionKind::ShiftPalette,
                LayerActionKind::ChangePaletteLength,
                LayerActionKind::Rotate,
                LayerActionKind::Brighten,
                LayerActionKind::ShiftHue,
                LayerActionKind::Saturate,
            ],
    {
        vec![
            LayerActionKind::AddZoomSpeed,
            LayerActionKind::Flash,
            LayerActionKind::ShiftPalette,
            LayerActionKind::ChangePaletteLength,
            LayerActionKind::Rotate,
            LayerActionKind::Brighten,
            LayerActionKind::ShiftHue,
            LayerActionKind::Saturate,
        ]
    }

    /// The label of the action kind.
    pub open spec fn text(self) -> Seq<char> {
        match self {
            LayerActionKind::AddZoomSpeed => "Add Zoom Speed"@,
            LayerActionKind::Flash => "Flash Colour"@,
            LayerActionKind::ShiftPalette => "Shift Palette"@,
            LayerActionKind::ChangePaletteLength => "Change Palette Length"@,
            LayerActionKind::Rotate => "Rotate"@,
            LayerActionKind::Brighten => "Brighten"@,
            LayerActionKind::ShiftHue => "Shift Hue"@,
            LayerActionKind::Saturate => "Saturate"@,
        }
    }

    /// The label of the action kind.
    pub fn get_text(&self) -> (text: &'static str)
        ensures
            text@ == self.text(),
    {
        match self {
            LayerActionKind::AddZoomSpeed => "Add Zoom Speed",
            LayerActionKind::Flash => "Flash Colour",
            LayerActionKind::ShiftPalette => "Shift Palette",
            LayerActionKind::ChangePaletteLength => "Change Palette Length",
            LayerActionKind::Rotate => "Rotate",
            LayerActionKind::Brighten => "Brighten",
            LayerActionKind::ShiftHue => "Shift Hue",
            LayerActionKind::Saturate => "Saturate",
        }
    }

    /// The explanation of the action kind.
    pub open spec fn tooltip(self) -> Seq<char> {
        match self {
            LayerActionKind::AddZoomSpeed => "Multiplier of additional zoom speed to add at maximum intensity"@,
            LayerActionKind::Flash => "Flash the palette of the layer with this colour at maximum intensity"@,
            LayerActionKind::ShiftPalette => "Shift the palette offset of the layer by this amount at maximum intensity"@,
            LayerActionKind::ChangePaletteLength => "Increase the palette length of the layer by this factor at maximum intensity"@,
            LayerActionKind::Rotate => "Rotate the video by this amount (in degrees) at maximum intensity"@,
            LayerActionKind::Brighten => "Increase the brightness of the palette of the layer by this factor at maximum intensity"@,
            LayerActionKind::ShiftHue => "Shift the hue of the layer's palette by this amount at maximum intensity"@,
            LayerActionKind::Saturate => "Increase the saturation of the palette of the layer by this factor at maximum intensity"@,
        }
    }

    /// The explanation of the action kind.
    pub fn get_tooltip(&self) -> (tooltip: Option<String>)
        ensures
            tooltip matches Some(t) && t@ == self.tooltip(),
    {
        Some(
            match self {
                LayerActionKind::AddZoomSpeed => "Multiplier of additional zoom speed to add at maximum intensity",
                LayerActionKind::Flash => "Flash the palette of the layer with this colour at maximum intensity",
                LayerActionKind::ShiftPalette => "Shift the palette offset of the layer by this amount at maximum intensity",
                LayerActionKind::ChangePaletteLength => "Increase the palette length of the layer by this factor at maximum intensity",
                LayerActionKind::Rotate => "Rotate the video by this amount (in degrees) at maximum intensity",
                LayerActionKind::Brighten => "Increase the brightness of the palette of the layer by this factor at maximum intensity",
                LayerActionKind::ShiftHue => "Shift the hue of the layer's palette by this amount at maximum intensity",
                LayerActionKind::Saturate => "Increase the saturation of the palette of the layer by this factor at maximum intensity",
            }.to_owned(),
        )
    }
}

/// The audio source of a mapping, without its settings: beats, or one
/// continuously sampled feature.
#[derive(Clone, Copy, Debug, PartialEq, Eq, Structural)]
pub enum MapperKind {
    OnBeat,
    Pitch,
    Volume,
    Tempo,
    Brightness,
    Activity,
    BassEnergy,
    MidEnergy,
    TrebleEnergy,
    Intensity,
    Positivity,
}

impl MapperKind {
    /// The feature a continuous mapping samples; beats are not sampled.
    pub open spec fn feature(self) -> Option<FeatureType> {
        match self {
            MapperKind::OnBeat => None,
            MapperKind::Pitch => Some(FeatureType::Pitch),
            MapperKind::Volume => Some(FeatureType::Volume),
            MapperKind::Tempo => Some(FeatureType::Tempo),
            MapperKind::Brightness => Some(FeatureType::Brightness),
            MapperKind::Activity => Some(FeatureType::Activity),
            MapperKind::BassEnergy => Some(FeatureType::BassEnergy),
            MapperKind::MidEnergy => Some(FeatureType::MidEnergy),
            MapperKind::TrebleEnergy => Some(FeatureType::HighEnergy),
            MapperKind::Intensity => Some(FeatureType::Intensity),
            MapperKind::Positivity => Some(FeatureType::Positivity),
        }
    }

    /// The feature a mapping of this kind samples continuously, or `None`
    /// for a mapping on beats.
    pub fn sampled_feature(&self) -> (feature: Option<FeatureType>)
        ensures
            feature == self.feature(),
    {
        match self {
            MapperKind::OnBeat => None,
            MapperKind::Pitch => Some(FeatureType::Pitch),
            MapperKind::Volume => Some(FeatureType::Volume),
            MapperKind::Tempo => Some(FeatureType::Tempo),
            MapperKind::Brightness => Some(FeatureType::Brightness),
            MapperKind::Activity => Some(FeatureType::Activity),
            MapperKind::BassEnergy => Some(FeatureType::BassEnergy),
            MapperKind::MidEnergy => Some(FeatureType::MidEnergy),
            MapperKind::TrebleEnergy => Some(FeatureType::HighEnergy),
            MapperKind::Intensity => Some(FeatureType::Intensity),
            MapperKind::Positivity => Some(FeatureType::Positivity),
        }
    }

    /// Every mapper kind, in menu order.
    pub fn get_variants() -> (variants: Vec<MapperKind>)
        ensures
            variants@ == seq![
                MapperKind::OnBeat, MapperKind::Pitch, MapperKind::Volume, MapperKind::Tempo,
                MapperKind::Brightness, MapperKind::Activity, MapperKind::BassEnergy,
                MapperKind::MidEnergy, MapperKind::TrebleEnergy, MapperKind::Intensity,
                MapperKind::Positivity,
            ],
    {
        vec![
            MapperKind::OnBeat, MapperKind::Pitch, MapperKind::Volume, MapperKind::Tempo,
            MapperKind::Brightness, MapperKind::Activity, MapperKind::BassEnergy,
            MapperKind::MidEnergy, MapperKind::TrebleEnergy, MapperKind::Intensity,
            MapperKind::Positivity,
        ]
    }

    /// The label of the mapper kind.
    pub open spec fn text(self) -> Seq<char> {
        match self {
            MapperKind::OnBeat => "On Beat"@,
            MapperKind::Pitch => "Pitch"@,
            MapperKind::Volume => "Volume"@,
            MapperKind::Tempo => "Tempo"@,
            MapperKind::Brightness => "Brightness"@,
            MapperKind::Activity => "Activity"@,
            MapperKind::BassEnergy => "Bass Energy"@,
            MapperKind::MidEnergy => "Mid Energy"@,
            MapperKind::TrebleEnergy => "Treble Energy"@,
            MapperKind::Intensity => "Intensity"@,
            MapperKind::Positivity => "Positivity"@,
        }
    }

    /// The label of the mapper kind.
    pub fn get_text(&self) -> (text: &'static str)
        ensures
            text@ == self.text(),
    {
        match self {
            MapperKind::OnBeat => "On Beat",
            MapperKind::Pitch => "Pitch",
            MapperKind::Volume => "Volume",
            MapperKind::Tempo => "Tempo",
            MapperKind::Brightness => "Brightness",
            MapperKind::Activity => "Activity",
            MapperKind::BassEnergy => "Bass Energy",
            MapperKind::MidEnergy => "Mid Energy",
            MapperKind::TrebleEnergy => "Treble Energy",
            MapperKind::Intensity => "Intensity",
            MapperKind::Positivity => "Positivity",
        }
    }
}

/// Every continuous mapper kind samples a different feature, and every
/// feature but the beat flag has a mapper kind sampling it.
pub proof fn lemma_mapper_features_distinct(a: MapperKind, b: MapperKind, f: FeatureType)
    ensures
        a.feature() is Some && a.feature() == b.feature() ==> a == b,
        f != FeatureType::Beat ==> exists|m: MapperKind| #[trigger] m.feature() == Some(f),
{
    if f != FeatureType::Beat {
        let m = match f {
            FeatureType::Pitch => MapperKind::Pitch,
            FeatureType::Volume => MapperKind::Volume,
            FeatureType::Tempo => MapperKind::Tempo,
            FeatureType::Beat => MapperKind::OnBeat,
            FeatureType::Brightness => MapperKind::Brightness,
            FeatureType::Activity => MapperKind::Activity,
            FeatureType::BassEnergy => MapperKind::BassEnergy,
            FeatureType::MidEnergy => MapperKind::MidEnergy,
            FeatureType::HighEnergy => MapperKind::TrebleEnergy,
            FeatureType::Intensity => MapperKind::Intensity,
            FeatureType::Positivity => MapperKind::Positivity,
        };
        assert(m.feature() == Some(f));
    }
}

/// Removes the action at `index` of a mapping's actions and returns it, or
/// returns `None` and leaves the actions as they are when there is none.
pub fn remove_action<A>(actions: &mut Vec<A>, index: usize) -> (removed: Option<A>)
    ensures
        index < old(actions).len() ==> removed == Some(old(actions)[index as int])
            && final(actions)@ == old(actions)@.remove(index as int),
        index >= old(actions).len() ==> removed is None && final(actions)@ == old(actions)@,
{
    if index < actions.len() {
        Some(actions.remove(index))
    } else {
        None
    }
}

/// Each window type is labelled by the side of the timestamp it samples, and no two types share a label.
pub proof fn lemma_window_type_labels(a: ContinuousSampleWindowType, b: ContinuousSampleWindowType)
    ensures
        ContinuousSampleWindowType::Left.text() == "Left"@,
        ContinuousSampleWindowType::Centered.text() == "Centered"@,
        ContinuousSampleWindowType::Right.text() == "Right"@,
        a != b ==> a.text() != b.text(),
{
    reveal_strlit("Left");
    reveal_strlit("Centered");
    reveal_strlit("Right");
    if a != b && a.text() == b.text() {
        assert(a.text()[0] == b.text()[0]);
        assert(a.text()[1] == b.text()[1]);
        assert(a.text().len() == b.text().len());
    }
}

/// Each window type explains which samples it uses.
pub proof fn lemma_window_type_tooltips()
    ensures
        ContinuousSampleWindowType::Left.tooltip() == "Use samples to the left of the timestamp"@,
        ContinuousSampleWindowType::Centered.tooltip() == "Use samples around the timestamp"@,
        ContinuousSampleWindowType::Right.tooltip() == "Use samples to the right of the timestamp"@,
{
    reveal_strlit("Use samples to the left of the timestamp");
    reveal_strlit("Use samples around the timestamp");
    reveal_strlit("Use samples to the right of the timestamp");
}

/// Each action kind is labelled with its own name, and no two kinds share a label.
pub proof fn lemma_action_kind_labels(a: LayerActionKind, b: LayerActionKind)
    ensures
        LayerActionKind::AddZoomSpeed.text() == "Add Zoom Speed"@,
        LayerActionKind::Flash.text() == "Flash Colour"@,
        LayerActionKind::ShiftPalette.text() == "Shift Palette"@,
        LayerActionKind::ChangePaletteLength.text() == "Change Palette Length"@,
        LayerActionKind::Rotate.text() == "Rotate"@,
        LayerActionKind::Brighten.text() == "Brighten"@,
        LayerActionKind::ShiftHue.text() == "Shift Hue"@,
        LayerActionKind::Saturate.text() == "Saturate"@,
        a != b ==> a.text() != b.text(),
{
    reveal_strlit("Add Zoom Speed");
    reveal_strlit("Flash Colour");
    reveal_strlit("Shift Palette");
    reveal_strlit("Change Palette Length");
    reveal_strlit("Rotate");
    reveal_strlit("Brighten");
    reveal_strlit("Shift Hue");
    reveal_strlit("Saturate");
    if a != b && a.text() == b.text() {
        assert(a.text()[0] == b.text()[0]);
        assert(a.text()[1] == b.text()[1]);
        assert(a.text()[6] == b.text()[6]);
        assert(a.text().len() == b.text().len());
    }
}

/// Each action kind explains its effect at maximum intensity.
pub proof fn lemma_action_kind_tooltips()
    ensures
        LayerActionKind::AddZoomSpeed.tooltip() == "Multiplier of additional zoom speed to add at maximum intensity"@,
        LayerActionKind::Flash.tooltip() == "Flash the palette of the layer with this colour at maximum intensity"@,
        LayerActionKind::ShiftPalette.tooltip() == "Shift the palette offset of the layer by this amount at maximum intensity"@,
        LayerActionKind::ChangePaletteLength.tooltip() == "Increase the palette length of the layer by this factor at maximum intensity"@,
        LayerActionKind::Rotate.tooltip() == "Rotate the video by this amount (in degrees) at maximum intensity"@,
        LayerActionKind::Brighten.tooltip() == "Increase the brightness of the palette of the layer by this factor at maximum intensity"@,
        LayerActionKind::ShiftHue.tooltip() == "Shift the hue of the layer's palette by this amount at maximum intensity"@,
        LayerActionKind::Saturate.tooltip() == "Increase the saturation of the palette of the layer by this factor at maximum intensity"@,
{
    reveal_strlit("Multiplier of additional zoom speed to add at maximum intensity");
    reveal_strlit("Flash the palette of the layer with this colour at maximum intensity");
    reveal_strlit("Shift the palette offset of the layer by this amount at maximum intensity");
    reveal_strlit("Increase the palette length of the layer by this factor at maximum intensity");
    reveal_strlit("Rotate the video by this amount (in degrees) at maximum intensity");
    reveal_strlit("Increase the brightness of the palette of the layer by this factor at maximum intensity");
    reveal_strlit("Shift the hue of the layer's palette by this amount at maximum intensity");
    reveal_strlit("Increase the saturation of the palette of the layer by this factor at maximum intensity");
}

/// Each mapper kind is labelled with the name of what it follows, and no two kinds share a label.
pub proof fn lemma_mapper_kind_labels(a: MapperKind, b: MapperKind)
    ensures
        MapperKind::OnBeat.text() == "On Beat"@,
        MapperKind::Pitch.text() == "Pitch"@,
        MapperKind::Volume.text() == "Volume"@,
        MapperKind::Tempo.text() == "Tempo"@,
        MapperKind::Brightness.text() == "Brightness"@,
        MapperKind::Activity.text() == "Activity"@,
        MapperKind::BassEnergy.text() == "Bass Energy"@,
        MapperKind::MidEnergy.text() == "Mid Energy"@,
        MapperKind::TrebleEnergy.text() == "Treble Energy"@,
        MapperKind::Intensity.text() == "Intensity"@,
        MapperKind::Positivity.text() == "Positivity"@,
        a != b ==> a.text() != b.text(),
{
    reveal_strlit("On Beat");
    reveal_strlit("Pitch");
    reveal_strlit("Volume");
    reveal_strlit("Tempo");
    reveal_strlit("Brightness");
    reveal_strlit("Activity");
    reveal_strlit("Bass Energy");
    reveal_strlit("Mid Energy");
    reveal_strlit("Treble Energy");
    reveal_strlit("Intensity");
    reveal_strlit("Positivity");
    if a != b && a.text() == b.text() {
        assert(a.text()[0] == b.text()[0]);
        assert(a.text()[1] == b.text()[1]);
        assert(a.text().len() == b.text().len());
    }
}

/// Each continuous mapper kind samples the feature it is named after (the
/// treble kind samples the high band), and a mapping on beats samples no
/// feature.
pub proof fn lemma_mapper_kind_samples_its_namesake()
    ensures
        MapperKind::OnBeat.feature() is None,
        MapperKind::Pitch.feature() == Some(FeatureType::Pitch),
        MapperKind::Volume.feature() == Some(FeatureType::Volume),
        MapperKind::Tempo.feature() == Some(FeatureType::Tempo),
        MapperKind::Brightness.feature() == Some(FeatureType::Brightness),
        MapperKind::Activity.feature() == Some(FeatureType::Activity),
        MapperKind::BassEnergy.feature() == Some(FeatureType::BassEnergy),
        MapperKind::MidEnergy.feature() == Some(FeatureType::MidEnergy),
        MapperKind::TrebleEnergy.feature() == Some(FeatureType::HighEnergy),
        MapperKind::Intensity.feature() == Some(FeatureType::Intensity),
        MapperKind::Positivity.feature() == Some(FeatureType::Positivity),
{
}

/// Only actions on zoom and rotation change the timelines built over the
/// whole song.
pub proof fn lemma_timeline_actions(k: LayerActionKind)
    ensures
        k.needs_timeline() <==> (k == LayerActionKind::AddZoomSpeed || k == LayerActionKind::Rotate),
{
}

/// The emphases are labelled "Equal", "Highs" and "Lows", whatever their
/// exponents, each with its own explanation.
pub proof fn lemma_emphasis_labels(e: u32)
    ensures
        IntensityEmphasis::Equal.text() == "Equal"@,
        IntensityEmphasis::High(e).text() == "Highs"@,
        IntensityEmphasis::Low(e).text() == "Lows"@,
        IntensityEmphasis::Equal.tooltip() == "Intensity has a linear effect on the mapping"@,
        IntensityEmphasis::High(e).tooltip() == "Higher intensities are emphasised more, with an exponential curve"@,
        IntensityEmphasis::Low(e).tooltip() == "Lower intensities are emphasised more, with an inverse exponential curve"@,
{
}

} // verus!
