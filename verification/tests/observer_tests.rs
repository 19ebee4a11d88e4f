use resume_picker::observer::{
    BackgroundEventEvent, BufferedEvent, Event, EventMsg, EventObserver, TaskCompleteEvent,
};
use resume_picker::overlay::{
    DefaultBanner, EventView, IntroBannerProvider, SandboxPolicy, SandboxPolicyExt,
};

fn background_event(id: &str, message: &str) -> Event {
    Event {
        id: id.to_owned(),
        msg: EventMsg::BackgroundEvent(BackgroundEventEvent { message: message.to_owned() }),
    }
}

fn task_complete(id: &str, last: Option<&str>) -> Event {
    Event {
        id: id.to_owned(),
        msg: EventMsg::TaskComplete(TaskCompleteEvent {
            last_agent_message: last.map(|s| s.to_owned()),
        }),
    }
}

#[test]
fn observer_trims_to_capacity() {
    let mut observer = EventObserver::with_capacity(3);
    observer.record(&background_event("1", "a"));
    observer.record(&background_event("2", "b"));
    observer.record(&background_event("3", "c"));
    observer.record(&background_event("4", "d"));

    let snapshot = observer.snapshot();
    let ids: Vec<_> = snapshot.iter().map(|ev| ev.id.as_str()).collect();
    assert_eq!(ids, vec!["2", "3", "4"]);
    assert_eq!(observer.len(), 3);
}

#[test]
fn observer_tracks_last_agent_message() {
    let mut observer = EventObserver::default();
    observer.record(&task_complete("1", Some("done")));
    let state = observer.state();
    assert_eq!(state.last_agent_message.as_deref(), Some("done"));

    observer.record(&task_complete("2", None));
    let state = observer.state();
    assert!(state.last_agent_message.is_none());
}

#[test]
fn observer_clear_resets_state() {
    let mut observer = EventObserver::default();
    observer.record(&task_complete("1", Some("done")));
    observer.clear();
    assert_eq!(observer.len(), 0);
    assert!(observer.state().last_agent_message.is_none());
}

#[test]
fn observer_defaults_and_buffered_events() {
    let observer = EventObserver::default();
    assert_eq!(observer.capacity(), 512);
    assert_eq!(observer.len(), 0);

    let ev = BufferedEvent::new(
        "7".to_owned(),
        EventMsg::BackgroundEvent(BackgroundEventEvent { message: "hi".to_owned() }),
    );
    assert_eq!(ev.id, "7");

    let mut observer = EventObserver::with_capacity(0);
    assert_eq!(observer.capacity(), 1);
    observer.record_buffered(ev);
    observer.record_buffered(BufferedEvent::from_event(&background_event("8", "later")));
    assert_eq!(observer.len(), 1);
    assert_eq!(observer.snapshot()[0].id, "8");
}

#[test]
fn sandbox_policy_network_access() {
    assert!(SandboxPolicy::DangerFullAccess.network_access_enabled());
    assert!(!SandboxPolicy::ReadOnly.network_access_enabled());
    assert!(SandboxPolicy::WorkspaceWrite { network_access: true }.network_access_enabled());
    assert!(!SandboxPolicy::WorkspaceWrite { network_access: false }.network_access_enabled());
}

#[test]
fn event_view_borrows_event() {
    let ev = task_complete("42", Some("done"));
    let view = EventView::from_event(&ev);
    assert_eq!(view.id, "42");
    assert!(matches!(view.msg, EventMsg::TaskComplete(_)));
}

#[test]
fn default_banner_lines() {
    let banner = DefaultBanner;
    assert_eq!(banner.banner_lines(), vec!["Welcome to Smarty".to_owned()]);
}
