use chartr_browser::abi::{Control, Event, Shortcut};
use chartr_browser::browser::{
    check_create, check_parent, BrowserState, Effect, Platform, ViewCall,
};
use chartr_browser::pages::{local_page, saved_url, LocalPage, SELECT_PAGE_CONTENT};
use chartr_browser::wire::EngineEvent;

const THEME: &str = "{\"page\":\"#000\"}";

/// Runs effects to completion, answering view calls with `view`, and returns
/// every effect seen.
fn run(
    state: &mut BrowserState,
    mut effect: Effect,
    mut view: impl FnMut(&ViewCall) -> Result<(), String>,
) -> Vec<Effect> {
    let mut seen = Vec::new();
    loop {
        let outcome = match &effect {
            Effect::Done => return seen,
            Effect::View(call) => view(call),
            _ => Ok(()),
        };
        seen.push(effect);
        effect = state.resume(outcome);
    }
}

fn ok(_: &ViewCall) -> Result<(), String> {
    Ok(())
}

fn controls(event: &Event) -> &Vec<Control> {
    match event {
        Event::State { controls, .. } => controls,
        _ => panic!("not a state event"),
    }
}

#[test]
fn a_new_pane_shows_its_start_page_or_restores_its_address() {
    let fresh = BrowserState::new(None, THEME.into());
    assert_eq!(fresh.address(), "");
    assert!(fresh.showing_local());
    assert!(fresh.is_idle());
    let restored = BrowserState::new(Some("https://example.org/".into()), THEME.into());
    assert_eq!(restored.address(), "https://example.org/");
    assert!(!restored.showing_local());
    let event = restored.state_event(false, false, Platform::Other);
    assert_eq!(controls(&event)[2].id, "stop");
}

#[test]
fn navigation_loads_the_resolved_address_then_focuses_and_publishes() {
    let mut state = BrowserState::new(None, THEME.into());
    let effect = state.act("navigate", Some("example.com"));
    let seen = run(&mut state, effect, ok);
    assert_eq!(
        seen,
        vec![
            Effect::View(ViewCall::LoadUrl("https://example.com/".into())),
            Effect::View(ViewCall::Focus),
            Effect::Publish,
        ]
    );
    assert_eq!(state.address(), "https://example.com/");
    assert!(!state.showing_local());
    let event = state.state_event(true, false, Platform::Other);
    match &event {
        Event::State {
            title,
            controls,
            shortcuts,
        } => {
            assert_eq!(title, "Browser");
            assert_eq!(controls.len(), 4);
            assert_eq!(controls[0].id, "back");
            assert!(controls[0].enabled);
            assert_eq!(controls[0].icon.as_deref(), Some("icons/arrow_left.svg"));
            assert!(!controls[1].enabled);
            assert_eq!(controls[2].id, "stop");
            assert_eq!(controls[2].label, "Stop");
            assert_eq!(controls[3].id, "location");
            assert_eq!(controls[3].icon.as_deref(), Some("icons/lock.svg"));
            assert_eq!(controls[3].value.as_deref(), Some("https://example.com/"));
            assert_eq!(shortcuts.len(), 5);
            assert_eq!(
                shortcuts[0],
                Shortcut {
                    key: "ctrl-l".into(),
                    action: "focus-address".into(),
                    content_only: false
                }
            );
        }
        _ => panic!(),
    }
}

#[test]
fn a_failed_load_shows_the_error_page_with_a_retry() {
    let mut state = BrowserState::new(None, THEME.into());
    let effect = state.act("location", Some("localhost:3000"));
    let seen = run(&mut state, effect, |call| match call {
        ViewCall::LoadUrl(_) => Err("Browser engine stopped".into()),
        _ => Ok(()),
    });
    let page = local_page(
        THEME,
        LocalPage::Error {
            message: "Browser engine stopped",
            retry: "localhost:3000",
        },
    );
    assert_eq!(
        seen,
        vec![
            Effect::View(ViewCall::LoadUrl("http://localhost:3000/".into())),
            Effect::View(ViewCall::LoadHtml(page)),
            Effect::Publish,
        ]
    );
    assert!(state.showing_local());
    assert_eq!(state.address(), "localhost:3000");
}

#[test]
fn input_that_does_not_resolve_shows_the_error_page() {
    let mut state = BrowserState::new(None, THEME.into());
    let effect = state.act("navigate", Some("   "));
    let seen = run(&mut state, effect, ok);
    let page = local_page(
        THEME,
        LocalPage::Error {
            message: "Enter a URL or search query.",
            retry: "   ",
        },
    );
    assert_eq!(seen, vec![Effect::View(ViewCall::LoadHtml(page)), Effect::Publish]);
}

#[test]
fn an_error_page_that_cannot_load_is_reported_to_the_host() {
    let mut state = BrowserState::new(None, THEME.into());
    let effect = state.act("navigate", Some("file:///x"));
    let seen = run(&mut state, effect, |_| Err("closed".into()));
    assert_eq!(seen.len(), 3);
    assert_eq!(
        seen[1],
        Effect::Host(Event::Error {
            message: "Browser supports only HTTP and HTTPS addresses.".into()
        })
    );
    assert_eq!(seen[2], Effect::Publish);
}

#[test]
fn reload_on_the_error_page_retries_the_last_address() {
    let mut state = BrowserState::new(None, THEME.into());
    let effect = state.act("navigate", Some("example.org"));
    run(&mut state, effect, |call| match call {
        ViewCall::LoadUrl(_) => Err("offline".into()),
        _ => Ok(()),
    });
    let effect = state.act("reload", None);
    let seen = run(&mut state, effect, ok);
    assert_eq!(
        seen[0],
        Effect::View(ViewCall::LoadUrl("https://example.org/".into()))
    );
    assert!(!state.showing_local());
}

#[test]
fn view_actions_and_focus_requests() {
    let mut state = BrowserState::new(Some("https://a.example/".into()), THEME.into());
    for (action, expected) in [
        ("back", Effect::View(ViewCall::GoBack)),
        ("forward", Effect::View(ViewCall::GoForward)),
        ("reload", Effect::View(ViewCall::Reload)),
        (
            "select-content",
            Effect::View(ViewCall::EvaluateScript(SELECT_PAGE_CONTENT.into())),
        ),
        (
            "focus-address",
            Effect::Host(Event::Focus {
                control: Some("location".into()),
                select_all: true,
            }),
        ),
        (
            "focus",
            Effect::Host(Event::Focus {
                control: None,
                select_all: false,
            }),
        ),
    ] {
        let effect = state.act(action, None);
        let seen = run(&mut state, effect, ok);
        assert_eq!(seen, vec![expected, Effect::Publish], "{action}");
    }
    let effect = state.act("unknown", None);
    assert_eq!(run(&mut state, effect, ok), vec![Effect::Publish]);
}

#[test]
fn stop_ends_loading() {
    let mut state = BrowserState::new(Some("https://a.example/".into()), THEME.into());
    let effect = state.act("stop", None);
    let seen = run(&mut state, effect, ok);
    assert_eq!(
        seen,
        vec![
            Effect::View(ViewCall::EvaluateScript("window.stop()".into())),
            Effect::Publish
        ]
    );
    let event = state.state_event(false, false, Platform::MacOs);
    assert_eq!(controls(&event)[2].id, "reload");
    assert_eq!(controls(&event)[2].icon.as_deref(), Some("icons/rotate_cw.svg"));
}

#[test]
fn engine_events_update_the_pane() {
    let mut state = BrowserState::new(None, THEME.into());
    let effect = state.poll(vec![
        EngineEvent::Title("  A \n Title ".into()),
        EngineEvent::Started("https://site.example/".into()),
        EngineEvent::Started("about:blank".into()),
        EngineEvent::Finished("https://site.example/done".into()),
        EngineEvent::History {
            loading: false,
            back: true,
            forward: false,
        },
        EngineEvent::Download("https://site.example/file.zip".into()),
        EngineEvent::Download("file:///etc/passwd".into()),
        EngineEvent::Message("{\"action\":\"focus\"}".into()),
        EngineEvent::Message("not json".into()),
    ]);
    let seen = run(&mut state, effect, ok);
    assert_eq!(
        seen,
        vec![
            Effect::Save("https://site.example/done".into()),
            Effect::Save("https://site.example/done".into()),
            Effect::OpenExternally("https://site.example/file.zip".into()),
            Effect::Host(Event::Focus {
                control: None,
                select_all: false
            }),
            Effect::Publish,
        ]
    );
    let event = state.state_event(false, false, Platform::Other);
    match &event {
        Event::State { title, controls, .. } => {
            assert_eq!(title, "A Title");
            assert_eq!(controls[2].id, "reload");
            assert_eq!(controls[3].value.as_deref(), Some("https://site.example/done"));
        }
        _ => panic!(),
    }
    let effect = state.poll(Vec::new());
    assert_eq!(effect, Effect::Done);
}

#[test]
fn page_messages_run_actions() {
    let mut state = BrowserState::new(None, THEME.into());
    let effect = state.poll(vec![EngineEvent::Message(
        "{\"action\":\"navigate\",\"value\":\"https://x.example\"}".into(),
    )]);
    let seen = run(&mut state, effect, ok);
    assert_eq!(
        seen[0],
        Effect::View(ViewCall::LoadUrl("https://x.example/".into()))
    );
}

#[test]
fn engine_failures_show_the_retry_page() {
    let mut state = BrowserState::new(Some("https://a.example/".into()), THEME.into());
    let effect = state.poll(vec![EngineEvent::Failed("crashed".into())]);
    let seen = run(&mut state, effect, ok);
    let page = local_page(
        THEME,
        LocalPage::Error {
            message: "crashed",
            retry: "https://a.example/",
        },
    );
    assert_eq!(seen, vec![Effect::View(ViewCall::LoadHtml(page)), Effect::Publish]);
    assert!(state.showing_local());
    let effect = state.poll(vec![EngineEvent::History {
        loading: true,
        back: false,
        forward: false,
    }]);
    run(&mut state, effect, ok);
    let event = state.state_event(false, false, Platform::Other);
    assert_eq!(controls(&event)[2].id, "reload");
}

#[test]
fn theme_changes_restyle_only_local_pages() {
    let mut state = BrowserState::new(None, THEME.into());
    assert_eq!(
        state.theme_script("{}").as_deref(),
        Some("window.setTheme({})")
    );
    state.set_theme("{}".into());
    let web = BrowserState::new(Some("https://a.example/".into()), THEME.into());
    assert_eq!(web.theme_script("{}"), None);
}

#[test]
fn mac_shortcuts_use_command() {
    let state = BrowserState::new(None, THEME.into());
    match state.state_event(false, false, Platform::MacOs) {
        Event::State { shortcuts, .. } => {
            assert_eq!(shortcuts.len(), 6);
            assert_eq!(shortcuts[5].key, "cmd-a");
            assert!(shortcuts[5].content_only);
            assert!(!shortcuts[0].content_only);
        }
        _ => panic!(),
    }
}

#[test]
fn creation_and_parent_checks() {
    assert!(check_create(1, 64, 64).is_ok());
    assert_eq!(
        check_create(2, 64, 64).unwrap_err(),
        "Unsupported native plugin interface"
    );
    assert!(check_create(1, 32, 64).is_err());
    assert_eq!(check_parent(1, 42), Ok(42));
    assert_eq!(
        check_parent(2, 42).unwrap_err(),
        "Browser requires an X11 or XWayland parent"
    );
    assert_eq!(
        check_parent(1, 1usize << 40).unwrap_err(),
        u32::try_from(1usize << 40).unwrap_err().to_string()
    );
}

#[test]
fn a_finished_page_is_saved_and_restored() {
    let mut state = BrowserState::new(None, THEME.into());
    let effect = state.poll(vec![EngineEvent::Finished("https://site.example/page?a=1".into())]);
    assert_eq!(effect, Effect::Save("https://site.example/page?a=1".into()));
    let written = match &effect {
        Effect::Save(url) => url.clone(),
        _ => unreachable!(),
    };
    let read = saved_url(&written);
    assert_eq!(read.as_deref(), Some("https://site.example/page?a=1"));
    let restored = BrowserState::new(read, THEME.into());
    assert_eq!(restored.address(), "https://site.example/page?a=1");
}
