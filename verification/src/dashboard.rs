use vstd::prelude::*;

verus! {

/// What the dashboard still has to do: fetch all figures from the server
/// (`update`), and turn the plot data into plot lines (`update_plot`).
#[derive(Clone, Copy, Debug, PartialEq, Eq, Structural)]
pub struct RefreshState {
    pub update: bool,
    pub update_plot: bool,
}

/// What a frame of the dashboard does before it draws.
#[derive(Clone, Copy, Debug, PartialEq, Eq, Structural)]
pub struct FrameActions {
    /// Send the requests for all figures and plots.
    pub fetch_all: bool,
    /// Rebuild the plot lines from the plot data.
    pub rebuild_plots: bool,
}

/// The state of a dashboard that was just opened: nothing to fetch yet, plot
/// lines to build.
pub open spec fn initial_state() -> RefreshState {
    RefreshState { update: false, update_plot: true }
}

/// The actions of a frame and the state after them, where `plot_arrived` says
/// whether new plot data came in at the start of the frame.
pub open spec fn frame_step(s: RefreshState, plot_arrived: bool) -> (RefreshState, FrameActions) {
    (
        RefreshState { update: false, update_plot: false },
        FrameActions { fetch_all: s.update, rebuild_plots: s.update_plot || plot_arrived },
    )
}

/// The state after the load or save button was pressed: all figures are to be
/// fetched again.
pub open spec fn refresh_requested(s: RefreshState) -> RefreshState {
    RefreshState { update: true, update_plot: s.update_plot }
}

impl RefreshState {
    /// The state of a dashboard that was just opened.
    pub fn new() -> (r: RefreshState)
        ensures
            r == initial_state(),
    {
        RefreshState { update: false, update_plot: true }
    }

    /// Decides what a frame does before it draws, and clears what it did.
    pub fn begin_frame(&mut self, plot_arrived: bool) -> (a: FrameActions)
        ensures
            (*final(self), a) == frame_step(*old(self), plot_arrived),
    {
        let a = FrameActions { fetch_all: self.update, rebuild_plots: self.update_plot || plot_arrived };
        self.update = false;
        self.update_plot = false;
        a
    }

    /// Records that the load or save button was pressed.
    pub fn request_refresh(&mut self)
        ensures
            *final(self) == refresh_requested(*old(self)),
    {
        self.update = true;
    }
}

impl Default for RefreshState {
    fn default() -> (r: RefreshState)
        ensures
            r == initial_state(),
    {
        RefreshState::new()
    }
}

/// A press of the load or save button makes the next frame fetch all figures,
/// once: the frame after it fetches nothing unless the button is pressed again.
pub proof fn refresh_fetches_once(s: RefreshState, first_arrival: bool, second_arrival: bool)
    ensures
        frame_step(refresh_requested(s), first_arrival).1.fetch_all,
        !frame_step(frame_step(refresh_requested(s), first_arrival).0, second_arrival).1.fetch_all,
{
}

/// New plot data is always turned into plot lines in the frame it arrives in,
/// and a frame leaves nothing pending.
pub proof fn frame_clears_pending(s: RefreshState, plot_arrived: bool)
    ensures
        plot_arrived ==> frame_step(s, plot_arrived).1.rebuild_plots,
        !frame_step(s, plot_arrived).0.update,
        !frame_step(s, plot_arrived).0.update_plot,
{
}

} // verus!
