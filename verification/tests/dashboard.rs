use bluedger::dashboard::{FrameActions, RefreshState};

#[test]
fn opened_dashboard_builds_plots_once() {
    let mut s = RefreshState::new();
    assert_eq!(s, RefreshState::default());
    assert_eq!(s.begin_frame(false), FrameActions { fetch_all: false, rebuild_plots: true });
    assert_eq!(s.begin_frame(false), FrameActions { fetch_all: false, rebuild_plots: false });
}

#[test]
fn button_fetches_once() {
    let mut s = RefreshState::new();
    s.begin_frame(false);
    s.request_refresh();
    assert_eq!(s.begin_frame(false), FrameActions { fetch_all: true, rebuild_plots: false });
    assert_eq!(s.begin_frame(true), FrameActions { fetch_all: false, rebuild_plots: true });
    assert_eq!(s, RefreshState { update: false, update_plot: false });
}
