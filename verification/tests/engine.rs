use chartr_browser::abi::message_is_valid;
use chartr_browser::client::{
    can_go_back, can_go_forward, configure, helper_path, history_bits, sandbox_candidates,
    shutdown, trusted_sandbox,
};
use chartr_browser::runtime::{
    accepts_page_message, forwarded_coordinates, is_subprocess_arg, route, runtime_candidates,
    sandbox_helper, shortcut_action, window_extent, PaneAction,
};
use chartr_browser::wire::{classify_frame, done_outcome, ends_session, frame, Command, FrameRead};

#[test]
fn history_bits_round_trip() {
    for back in [false, true] {
        for forward in [false, true] {
            let bits = history_bits(back, forward);
            assert_eq!(bits, u8::from(back) | (u8::from(forward) << 1));
            assert_eq!(can_go_back(bits), back);
            assert_eq!(can_go_forward(bits), forward);
        }
    }
}

#[test]
fn the_same_package_twice_is_accepted() {
    let mut slot = None;
    assert_eq!(configure(&mut slot, "/opt/pkg".into()), Ok(()));
    assert_eq!(configure(&mut slot, "/opt/pkg".into()), Ok(()));
    assert_eq!(slot.as_deref(), Some("/opt/pkg"));
    let mut runtime_slot = None;
    assert_eq!(chartr_browser::runtime::configure(&mut runtime_slot, "/opt/pkg".into()), Ok(()));
    assert_eq!(chartr_browser::runtime::configure(&mut runtime_slot, "/opt/pkg".into()), Ok(()));
    assert_eq!(runtime_slot.as_deref(), Some("/opt/pkg"));
}

#[test]
fn one_package_per_plugin() {
    let mut slot = None;
    assert!(configure(&mut slot, "/opt/pkg".into()).is_ok());
    assert!(configure(&mut slot, "/opt/pkg/".into()).is_ok());
    assert_eq!(slot.as_deref(), Some("/opt/pkg/"));
    assert_eq!(
        configure(&mut slot, "/other".into()).unwrap_err(),
        "Browser is already loaded from another package"
    );
    assert_eq!(slot.as_deref(), Some("/opt/pkg/"));
    let mut runtime_slot = None;
    assert!(chartr_browser::runtime::configure(&mut runtime_slot, "/opt/pkg".into()).is_ok());
    assert!(chartr_browser::runtime::configure(&mut runtime_slot, "/opt//pkg".into()).is_ok());
    assert_eq!(runtime_slot.as_deref(), Some("/opt/pkg"));
    assert_eq!(
        chartr_browser::runtime::configure(&mut runtime_slot, "/x".into()).unwrap_err(),
        "Browser runtime is already loaded from another package"
    );
}

#[test]
fn shutdown_empties_the_slot() {
    let mut slot = Some(5);
    assert_eq!(shutdown(&mut slot), Some(5));
    assert_eq!(slot, None);
    assert_eq!(shutdown::<u8>(&mut slot), None);
}

#[test]
fn sandbox_helpers_must_be_setuid_root() {
    assert!(trusted_sandbox(true, 0, 0o104755));
    assert!(!trusted_sandbox(true, 1000, 0o104755));
    assert!(!trusted_sandbox(false, 0, 0o4755));
    assert!(!trusted_sandbox(true, 0, 0o100755));
    assert_eq!(
        sandbox_candidates("/pkg"),
        vec![
            "/pkg/chrome-sandbox".to_owned(),
            "/usr/lib/chartr/plugins/com.chartr.browser/chrome-sandbox".to_owned()
        ]
    );
    assert_eq!(helper_path("/pkg/"), "/pkg/chartr-browser-helper");
    assert_eq!(sandbox_helper(None, "/pkg"), "/pkg/chrome-sandbox");
    assert_eq!(sandbox_helper(Some("/s".into()), "/pkg"), "/s");
    assert_eq!(
        runtime_candidates("/pkg"),
        vec!["/pkg/browser-runtime".to_owned(), "/pkg".to_owned()]
    );
}

#[test]
fn frames_fit_and_are_read_back() {
    let line = frame(b"{}".to_vec()).unwrap();
    assert_eq!(line, b"{}\n".to_vec());
    assert_eq!(classify_frame(line.len() as u64), FrameRead::Line);
    assert_eq!(frame(vec![b'x'; 1024 * 1024 - 1]).map(|l| l.len()), Some(1024 * 1024));
    assert_eq!(frame(vec![b'x'; 1024 * 1024]), None);
    assert_eq!(classify_frame(0), FrameRead::End);
    assert_eq!(classify_frame(1024 * 1024 + 1), FrameRead::Oversized);
    assert_eq!(done_outcome(None), Ok(()));
    assert_eq!(done_outcome(Some("e".into())), Err("e".to_owned()));
    assert!(ends_session(&Command::Shutdown));
    assert!(!ends_session(&Command::Destroy));
}

#[test]
fn host_messages_are_bounded() {
    assert!(message_is_valid(0, true));
    assert!(message_is_valid(10, false));
    assert!(!message_is_valid(10, true));
    assert!(!message_is_valid(1024 * 1024 + 1, false));
    assert!(accepts_page_message(64 * 1024));
    assert!(!accepts_page_message(64 * 1024 + 1));
}

#[test]
fn requests_reach_only_open_panes() {
    assert_eq!(
        route(
            Command::Create {
                parent: 3,
                script: "s".into(),
                url: None,
                html: "hi".into()
            },
            false
        ),
        Ok(PaneAction::Create {
            parent: 3,
            script: "s".into(),
            url: "data:text/html;charset=utf-8;base64,aGk=".into()
        })
    );
    assert_eq!(
        route(
            Command::Create {
                parent: 3,
                script: "s".into(),
                url: Some("https://a/".into()),
                html: "hi".into()
            },
            true
        ),
        Err("Duplicate pane".into())
    );
    assert_eq!(route(Command::Back, false), Err("Pane is closed".into()));
    assert_eq!(route(Command::Destroy, false), Ok(PaneAction::Destroy));
    assert_eq!(route(Command::Shutdown, true), Ok(PaneAction::DestroyAll));
    assert_eq!(route(Command::Focus(false), true), Ok(PaneAction::FocusParent));
    assert_eq!(
        route(Command::Html("<p>".into()), true),
        Ok(PaneAction::LoadHtml("<p>".into()))
    );
    assert_eq!(
        route(
            Command::Resize {
                x: -1,
                y: 2,
                width: 3,
                height: 4
            },
            true
        ),
        Ok(PaneAction::SetBounds {
            x: -1,
            y: 2,
            width: 3,
            height: 4
        })
    );
}

#[test]
fn browser_shortcuts_need_exact_modifiers() {
    assert_eq!(shortcut_action(true, 4, 0x4c), Some("focus-address"));
    assert_eq!(shortcut_action(true, 4 | 1 | 256, 0x52), Some("reload"));
    assert_eq!(shortcut_action(true, 8, 0x25), Some("back"));
    assert_eq!(shortcut_action(true, 8, 0x27), Some("forward"));
    assert_eq!(shortcut_action(true, 0, 0x1b), Some("stop"));
    assert_eq!(shortcut_action(false, 4, 0x4c), None);
    assert_eq!(shortcut_action(true, 4 | 2, 0x4c), None);
    assert_eq!(shortcut_action(true, 4 | 4096, 0x4c), None);
    assert_eq!(shortcut_action(true, 2, 0x1b), None);
    assert_eq!(shortcut_action(true, 4, 0x41), None);
}

#[test]
fn focus_proxy_coordinates_and_window_sizes() {
    assert_eq!(forwarded_coordinates(21, 31), (20, 30));
    assert_eq!(forwarded_coordinates(i16::MIN, 0), (i16::MIN, -1));
    assert_eq!(window_extent(0, 5), (1, 5));
    assert!(is_subprocess_arg(b"--type=renderer"));
    assert!(!is_subprocess_arg(b"--serve"));
    assert!(!is_subprocess_arg(b"--type"));
}
