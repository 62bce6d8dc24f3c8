use vstd::prelude::*;

verus! {

/// How the axes of the time-current plot are scaled.
#[derive(Debug, Clone, Copy, PartialEq, Eq, Structural)]
pub enum PlotScaleMode {
    LogLog,
    Linear,
}

/// What the time-current plot shows.
#[derive(Debug, Clone, Copy, PartialEq, Eq, Structural)]
pub struct PlotConfig {
    pub scale_mode: PlotScaleMode,
    pub show_residuals: bool,
    pub show_pickup_line: bool,
    pub show_runner_up: bool,
    pub show_point_labels: bool,
}

impl Default for PlotConfig {
    /// Log-log axes with every layer shown.
    fn default() -> (c: Self)
        ensures
            c == (PlotConfig {
                scale_mode: PlotScaleMode::LogLog,
                show_residuals: true,
                show_pickup_line: true,
                show_runner_up: true,
                show_point_labels: true,
            }),
    {
        PlotConfig {
            scale_mode: PlotScaleMode::LogLog,
            show_residuals: true,
            show_pickup_line: true,
            show_runner_up: true,
            show_point_labels: true,
        }
    }
}

/// The time-current characteristic plot; it is drawn by the user interface.
pub struct TccPlotView;

} // verus!
