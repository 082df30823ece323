use vstd::prelude::*;

verus! {

/// The render mode that consumes the bucket output.
#[derive(Debug, Clone, Copy, PartialEq, Eq, Structural)]
pub enum VisualizationType {
    Bar,
    String,
    CircleSplit,
    Polygon,
    Wave,
}

/// How many channels of bucket data a render mode consumes.
#[derive(Debug, Clone, Copy, PartialEq, Eq, Structural)]
pub enum BufferLayout {
    /// One bucket sequence: the mean of left and right.
    Mono,
    /// Left and right bucket sequences side by side.
    Stereo,
}

/// The mode that follows `t` in the toggle cycle
/// Bar, String, CircleSplit, Wave, Polygon, and back to Bar.
pub open spec fn next_spec(t: VisualizationType) -> VisualizationType {
    match t {
        VisualizationType::Bar => VisualizationType::String,
        VisualizationType::String => VisualizationType::CircleSplit,
        VisualizationType::CircleSplit => VisualizationType::Wave,
        VisualizationType::Wave => VisualizationType::Polygon,
        VisualizationType::Polygon => VisualizationType::Bar,
    }
}

/// Bar and Polygon draw one mixed channel; the others draw both.
pub open spec fn layout_spec(t: VisualizationType) -> BufferLayout {
    match t {
        VisualizationType::Bar | VisualizationType::Polygon => BufferLayout::Mono,
        _ => BufferLayout::Stereo,
    }
}

impl VisualizationType {
    pub fn next(&self) -> (r: VisualizationType)
        ensures
            r == next_spec(*self),
    {
        match self {
            VisualizationType::Bar => VisualizationType::String,
            VisualizationType::String => VisualizationType::CircleSplit,
            VisualizationType::CircleSplit => VisualizationType::Wave,
            VisualizationType::Wave => VisualizationType::Polygon,
            VisualizationType::Polygon => VisualizationType::Bar,
        }
    }

    pub fn buffer_layout(&self) -> (r: BufferLayout)
        ensures
            r == layout_spec(*self),
    {
        match self {
            VisualizationType::Bar | VisualizationType::Polygon => BufferLayout::Mono,
            _ => BufferLayout::Stereo,
        }
    }

    /// Whether the mode wants left and right mixed into one sequence.
    pub fn needs_mono(&self) -> (r: bool)
        ensures
            r == (layout_spec(*self) == BufferLayout::Mono),
    {
        match self.buffer_layout() {
            BufferLayout::Mono => true,
            BufferLayout::Stereo => false,
        }
    }
}

impl Default for VisualizationType {
    fn default() -> (r: VisualizationType)
        ensures
            r == VisualizationType::Bar,
    {
        VisualizationType::Bar
    }
}

/// Toggling five times in a row returns to the mode one started from.
pub proof fn toggle_cycle_returns(t: VisualizationType)
    ensures
        next_spec(next_spec(next_spec(next_spec(next_spec(t))))) == t,
{
}

} // verus!
