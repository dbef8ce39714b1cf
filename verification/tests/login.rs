use dcode::login::login_event;
use dcode::login::login_title;
use dcode::login::open_deepseek_login;
use dcode::login::open_provider_login;
use dcode::login::route_mouse_event;
use dcode::login::ApiKeyInputView;
use dcode::login::ArrowKey;
use dcode::login::KeyCode;
use dcode::login::KeyInput;
use dcode::login::LoginOpening;
use dcode::login::LoginTarget;
use dcode::login::MouseAction;
use dcode::login::MouseKind;
use dcode::login::SensitiveApiKey;
use dcode::login::AppEvent;

fn key(code: KeyCode) -> KeyInput {
    KeyInput { press: true, code, no_modifiers: true, ctrl_or_alt: false }
}

fn api_key_view() -> ApiKeyInputView {
    ApiKeyInputView::new()
}

#[test]
fn masks_api_key_and_submits_original_value() {
    let mut view = api_key_view();
    assert!(view.handle_paste("sk-secret-value".to_string()));

    let (input, placeholder) = view.input_line(48);
    assert_eq!(input, "\u{2022}".repeat(15));
    assert!(!placeholder);
    assert_eq!(view.detail_line(), ("The key is validated before it is saved.", false));
    assert_eq!(view.cursor_pos(0, 0, 48, 5), Some((17, 2)));

    let submitted = view.handle_key_event(key(KeyCode::Enter));
    assert_eq!(submitted, Some("sk-secret-value".to_string()));
    assert!(view.is_complete());
}

#[test]
fn empty_api_key_stays_open_and_shows_error() {
    let mut view = api_key_view();
    let submitted = view.handle_key_event(key(KeyCode::Enter));

    assert!(submitted.is_none());
    assert!(!view.is_complete());

    assert_eq!(view.detail_line(), ("API key cannot be empty", true));
    let (input, placeholder) = view.input_line(48);
    assert_eq!(input, "Paste or type your API key");
    assert!(placeholder);
}

#[test]
fn deepseek_login_event_redacts_api_key_from_debug_output() {
    let event = AppEvent::DeepSeekLogin { api_key: SensitiveApiKey::new("sk-secret-value".to_string()) };

    assert_eq!(event.debug_text(), "DeepSeekLogin { api_key: SensitiveApiKey(***) }");
    assert_eq!(event.api_key().expose(), "sk-secret-value");
}

#[test]
fn typing_editing_and_cancelling() {
    let mut view = api_key_view();
    for c in ['a', 'b', 'c'] {
        assert_eq!(view.handle_key_event(key(KeyCode::Char(c))), None);
    }
    view.handle_key_event(KeyInput { press: true, code: KeyCode::Char('x'), no_modifiers: false, ctrl_or_alt: true });
    view.handle_key_event(KeyInput { press: false, code: KeyCode::Char('y'), no_modifiers: true, ctrl_or_alt: false });
    view.handle_key_event(key(KeyCode::Backspace));
    assert_eq!(view.masked_value(48), "\u{2022}\u{2022}");
    assert_eq!(view.masked_value(6), "\u{2022}\u{2022}");
    assert_eq!(view.masked_value(5), "\u{2022}");
    assert_eq!(view.masked_value(3), "");
    assert_eq!(view.handle_key_event(KeyInput { press: true, code: KeyCode::Enter, no_modifiers: false, ctrl_or_alt: false }), None);
    assert!(!view.is_complete());
    view.handle_key_event(key(KeyCode::Esc));
    assert!(view.is_complete());
    assert_eq!(view.cursor_pos(0, 0, 2, 5), None);
    assert_eq!(view.desired_height(80), 5);
    assert_eq!(view.view_id(), Some("deepseek-login"));
}

#[test]
fn over_long_keys_are_refused() {
    let mut view = api_key_view();
    assert!(view.handle_paste("k".repeat(4096)));
    assert_eq!(view.detail_line(), ("The key is validated before it is saved.", false));
    view.handle_key_event(key(KeyCode::Char('z')));
    assert_eq!(view.detail_line(), ("API key is too long", true));
    assert!(!view.handle_paste("   ".to_string()));
    assert_eq!(view.handle_key_event(key(KeyCode::Enter)), Some("k".repeat(4096)));
}

#[test]
fn ctrl_c_cancels_the_view() {
    let mut view = api_key_view();
    view.on_ctrl_c();
    assert!(view.is_complete());
}

#[test]
fn login_commands_check_the_provider() {
    match open_deepseek_login(false) {
        LoginOpening::Error(m) => {
            assert_eq!(m, "The /login command is only available when model_provider is deepseek.")
        }
        LoginOpening::ShowView { .. } => panic!("expected an error"),
    }
    match open_deepseek_login(true) {
        LoginOpening::ShowView { view, provider_name, target } => {
            assert!(!view.is_complete());
            assert_eq!(provider_name, "DeepSeek");
            assert!(target == LoginTarget::DeepSeek);
            assert_eq!(login_title(&provider_name), "DeepSeek login");
        }
        LoginOpening::Error(_) => panic!("expected the view"),
    }
    match open_provider_login(false, "Example") {
        LoginOpening::Error(m) => assert_eq!(
            m,
            "The active model provider does not support interactive API key login."
        ),
        LoginOpening::ShowView { .. } => panic!("expected an error"),
    }
    match open_provider_login(true, "Example AI") {
        LoginOpening::ShowView { provider_name, target, .. } => {
            assert_eq!(provider_name, "Example AI");
            assert!(target == LoginTarget::Provider);
            assert_eq!(login_title(&provider_name), "Example AI login");
        }
        LoginOpening::Error(_) => panic!("expected the view"),
    }
}

#[test]
fn submitted_keys_become_the_target_login_event() {
    let mut view = api_key_view();
    assert!(view.handle_paste("sk-secret-value".to_string()));
    let submitted = view.handle_key_event(key(KeyCode::Enter)).expect("a submitted key");
    let event = login_event(LoginTarget::DeepSeek, submitted);
    assert!(matches!(event, AppEvent::DeepSeekLogin { .. }));
    assert_eq!(event.api_key().expose(), "sk-secret-value");
    assert_eq!(event.debug_text(), "DeepSeekLogin { api_key: SensitiveApiKey(***) }");

    let event = login_event(LoginTarget::Provider, "sk-1".to_string());
    assert!(matches!(event, AppEvent::ProviderApiKeyLogin { .. }));
    assert_eq!(event.api_key().expose(), "sk-1");
    assert_eq!(event.debug_text(), "ProviderApiKeyLogin { api_key: SensitiveApiKey(***) }");
}

#[test]
fn mouse_wheel_routing() {
    assert!(route_mouse_event(MouseKind::ScrollUp, true) == MouseAction::ForwardKey(ArrowKey::Up));
    assert!(route_mouse_event(MouseKind::ScrollDown, true) == MouseAction::ForwardKey(ArrowKey::Down));
    assert!(route_mouse_event(MouseKind::ScrollUp, false) == MouseAction::ScrollTranscriptUp { rows: 3 });
    assert!(route_mouse_event(MouseKind::ScrollDown, false) == MouseAction::Ignore);
    assert!(route_mouse_event(MouseKind::Moved, true) == MouseAction::Ignore);
    assert!(route_mouse_event(MouseKind::Drag, false) == MouseAction::Ignore);
}
