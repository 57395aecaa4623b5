use forgetop_tui::browser::{dashboard_outcome, feedback_outcome, feedback_url};
use forgetop_tui::state::AppState;

#[test]
fn feedback_dispatch_uses_the_exact_github_issue_form_destination() {
    let mut app: AppState<u32> = AppState::new("slate".into());
    let mut opened = None;
    app.open_feedback_with(
        |target: &str| {
            opened = Some(target.to_owned());
            Ok(())
        },
        |_: &str, _: &str| {},
    );

    assert_eq!(
        opened.as_deref(),
        Some("https://github.com/magna-nz/forgetop/issues/new?template=feedback.yml")
    );
    assert_eq!(app.toast.as_deref(), Some("Opening feedback form in your browser\u{2026}"));
}

#[test]
fn feedback_open_failure_is_non_blocking_and_logs_only_safe_constants() {
    let mut app: AppState<u32> = AppState::new("slate".into());
    let mut logged = None;
    app.open_feedback_with(
        |_: &str| Err(std::io::Error::other("browser unavailable").to_string()),
        |context: &str, message: &str| logged = Some((context.to_owned(), message.to_owned())),
    );

    assert_eq!(
        logged,
        Some(("action".to_owned(), "failed to open GitHub feedback form in browser".to_owned()))
    );
    let (context, message) = logged.unwrap();
    assert!(!context.contains("github.com"));
    assert!(!message.contains("github.com"));
    assert_eq!(app.toast.as_deref(), Some("Couldn't open feedback form: browser unavailable"));
    assert!(!app.should_quit, "a browser failure remains non-blocking");
}

#[test]
fn the_feedback_address_and_outcomes_are_fixed() {
    assert_eq!(feedback_url(), "https://github.com/magna-nz/forgetop/issues/new?template=feedback.yml");
    assert_eq!(feedback_outcome(Ok(())), ("Opening feedback form in your browser\u{2026}".to_owned(), false));
    assert_eq!(feedback_outcome(Err("no".into())), ("Couldn't open feedback form: no".to_owned(), true));
    assert_eq!(dashboard_outcome(Ok(())), ("Opening dashboard in your browser\u{2026}".to_owned(), false));
    assert_eq!(dashboard_outcome(Err("no".into())), ("Couldn't open dashboard: no".to_owned(), true));
}

#[test]
fn the_dashboard_opens_at_the_route_without_the_old_fragment() {
    let mut app: AppState<u32> = AppState::new("slate".into());
    let mut opened = None;
    app.open_dashboard_at_with(
        Some("http://127.0.0.1:8177/?t=session-secret#/prs"),
        "#/pipelines",
        |target: &str| {
            opened = Some(target.to_owned());
            Ok(())
        },
        |_: &str, _: &str| {},
    );
    assert_eq!(opened.as_deref(), Some("http://127.0.0.1:8177/?t=session-secret#/pipelines"));
    assert_eq!(app.toast.as_deref(), Some("Opening dashboard in your browser\u{2026}"));
}

#[test]
fn a_failed_dashboard_launch_never_logs_its_token() {
    let mut app: AppState<u32> = AppState::new("slate".into());
    let mut logged = None;
    app.open_dashboard_at_with(
        Some("http://127.0.0.1:8177/?t=session-secret"),
        "",
        |_: &str| Err("no browser".to_owned()),
        |context: &str, message: &str| logged = Some((context.to_owned(), message.to_owned())),
    );
    let (context, message) = logged.unwrap();
    assert_eq!(context, "action");
    assert_eq!(message, "failed to open local dashboard in browser");
    assert!(!context.contains("session-secret") && !message.contains("session-secret"));
    assert_eq!(app.toast.as_deref(), Some("Couldn't open dashboard: no browser"));
}

#[test]
fn without_a_dashboard_server_the_status_line_says_how_to_start_one() {
    let mut app: AppState<u32> = AppState::new("slate".into());
    let mut opened = false;
    app.open_dashboard_at_with(
        None,
        "",
        |_: &str| {
            opened = true;
            Ok(())
        },
        |_: &str, _: &str| {},
    );
    assert!(!opened);
    assert_eq!(
        app.toast.as_deref(),
        Some("Web dashboard isn't running \u{2014} start it with `forgetop --dashboard`")
    );
}
