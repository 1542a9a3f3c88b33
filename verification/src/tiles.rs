//! Per-axis interpretation of CSS `background-repeat`.

use vstd::prelude::*;

verus! {

/// CSS `background-repeat` keyword pairs.
#[derive(Clone, Copy, Debug, PartialEq, Eq, Structural)]
pub enum BackgroundRepeat {
    Repeat,
    RepeatX,
    RepeatY,
    NoRepeat,
    Space,
    Round,
    SpaceRound,
    RoundSpace,
}

/// How tiles repeat along one axis.
#[derive(Clone, Copy, Debug, PartialEq, Eq, Structural)]
pub enum AxisRepeatMode {
    Repeat,
    NoRepeat,
    Space,
    Round,
}

/// Per-axis interpretation of one `background-repeat` value.
#[derive(Clone, Copy, Debug, PartialEq, Eq, Structural)]
pub struct BackgroundRepeatModes {
    pub horizontal: AxisRepeatMode,
    pub vertical: AxisRepeatMode,
}

/// The mode a keyword gives the horizontal axis.
pub open spec fn horizontal_mode(repeat: BackgroundRepeat) -> AxisRepeatMode {
    match repeat {
        BackgroundRepeat::NoRepeat | BackgroundRepeat::RepeatY => AxisRepeatMode::NoRepeat,
        BackgroundRepeat::Space | BackgroundRepeat::SpaceRound => AxisRepeatMode::Space,
        BackgroundRepeat::Round | BackgroundRepeat::RoundSpace => AxisRepeatMode::Round,
        _ => AxisRepeatMode::Repeat,
    }
}

/// The mode a keyword gives the vertical axis.
pub open spec fn vertical_mode(repeat: BackgroundRepeat) -> AxisRepeatMode {
    match repeat {
        BackgroundRepeat::NoRepeat | BackgroundRepeat::RepeatX => AxisRepeatMode::NoRepeat,
        BackgroundRepeat::Round | BackgroundRepeat::SpaceRound => AxisRepeatMode::Round,
        BackgroundRepeat::Space | BackgroundRepeat::RoundSpace => AxisRepeatMode::Space,
        _ => AxisRepeatMode::Repeat,
    }
}

/// Space and round distribute tiles over the painting area.
pub open spec fn mode_is_distributed(mode: AxisRepeatMode) -> bool {
    mode == AxisRepeatMode::Space || mode == AxisRepeatMode::Round
}

impl BackgroundRepeatModes {
    /// Either axis distributes its tiles.
    pub fn is_distributed(self) -> (result: bool)
        ensures
            result == (mode_is_distributed(self.horizontal) || mode_is_distributed(self.vertical)),
    {
        let horizontal = match self.horizontal {
            AxisRepeatMode::Space | AxisRepeatMode::Round => true,
            _ => false,
        };
        let vertical = match self.vertical {
            AxisRepeatMode::Space | AxisRepeatMode::Round => true,
            _ => false,
        };
        horizontal || vertical
    }
}

impl From<BackgroundRepeat> for BackgroundRepeatModes {
    fn from(repeat: BackgroundRepeat) -> (result: Self) {
        let horizontal = match repeat {
            BackgroundRepeat::NoRepeat | BackgroundRepeat::RepeatY => AxisRepeatMode::NoRepeat,
            BackgroundRepeat::Space | BackgroundRepeat::SpaceRound => AxisRepeatMode::Space,
            BackgroundRepeat::Round | BackgroundRepeat::RoundSpace => AxisRepeatMode::Round,
            _ => AxisRepeatMode::Repeat,
        };
        let vertical = match repeat {
            BackgroundRepeat::NoRepeat | BackgroundRepeat::RepeatX => AxisRepeatMode::NoRepeat,
            BackgroundRepeat::Round | BackgroundRepeat::SpaceRound => AxisRepeatMode::Round,
            BackgroundRepeat::Space | BackgroundRepeat::RoundSpace => AxisRepeatMode::Space,
            _ => AxisRepeatMode::Repeat,
        };
        BackgroundRepeatModes { horizontal, vertical }
    }
}

impl vstd::std_specs::convert::FromSpecImpl<BackgroundRepeat> for BackgroundRepeatModes {
    open spec fn obeys_from_spec() -> bool {
        true
    }

    open spec fn from_spec(repeat: BackgroundRepeat) -> Self {
        BackgroundRepeatModes {
            horizontal: horizontal_mode(repeat),
            vertical: vertical_mode(repeat),
        }
    }
}

/// The repeat modes of one background layer, read from its keyword.
pub fn repeat_modes(repeat: BackgroundRepeat) -> (result: BackgroundRepeatModes)
    ensures
        result.horizontal == horizontal_mode(repeat),
        result.vertical == vertical_mode(repeat),
{
    BackgroundRepeatModes::from(repeat)
}

/// `space round` and `round space` are mirror images: exchanging the axes of
/// one gives the other.
pub proof fn lemma_mixed_keywords_mirror()
    ensures
        horizontal_mode(BackgroundRepeat::SpaceRound) == vertical_mode(
            BackgroundRepeat::RoundSpace,
        ),
        vertical_mode(BackgroundRepeat::SpaceRound) == horizontal_mode(
            BackgroundRepeat::RoundSpace,
        ),
        horizontal_mode(BackgroundRepeat::RepeatX) == vertical_mode(BackgroundRepeat::RepeatY),
        vertical_mode(BackgroundRepeat::RepeatX) == horizontal_mode(BackgroundRepeat::RepeatY),
{
}

} // verus!
