use forgetop_tui::config::{binding_names, build_config_view, display_of, ConfigKeyAction, ConnInfo};
use forgetop_tui::keys::Key;
use forgetop_tui::sections::Section;

fn conn(id: &str, name: &str) -> ConnInfo {
    ConnInfo { id: id.into(), display_name: name.into(), provider: "github".into() }
}

#[test]
fn the_connections_screen_shows_each_connections_health_and_bindings() {
    let conns = vec![conn("gh", "GitHub"), conn("az", "Azure"), conn("gl", "GitLab")];
    let pr = Some(vec!["gh".to_string(), "az".to_string()]);
    let wi = Some(vec!["az".to_string()]);
    let subs = Some(vec!["gh".to_string(), "gone".to_string()]);
    let health = vec![("az".to_string(), true), ("gh".to_string(), false), ("az".to_string(), false)];
    let v = build_config_view(&conns, &pr, &wi, &subs, &health);
    assert_eq!(v.connections.len(), 3);
    assert_eq!(v.connections[0].bindings, vec!["PR", "Pipe"]);
    assert_eq!(v.connections[1].bindings, vec!["PR", "WI"]);
    assert!(v.connections[2].bindings.is_empty());
    assert!(!v.connections[0].healthy);
    assert!(v.connections[1].healthy, "the first report counts");
    assert!(!v.connections[2].healthy, "no report: unhealthy");
    assert_eq!(v.pr_binding.as_deref(), Some("GitHub, Azure"));
    assert_eq!(v.wi_binding.as_deref(), Some("Azure"));
    assert_eq!(v.pipeline_subs, vec!["GitHub".to_string(), "gone".to_string()], "an unknown id shows as itself");
    assert_eq!(v.selected, 0);

    let none = build_config_view(&conns, &Some(vec![]), &None, &None, &[]);
    assert_eq!(none.pr_binding, None, "an empty binding shows nothing");
    assert!(none.pipeline_subs.is_empty());
    assert_eq!(display_of(&conns, "gl"), "GitLab");
    assert_eq!(binding_names(&conns, &vec![]), "");
}

#[test]
fn keys_on_the_connections_screen() {
    let conns = vec![conn("gh", "GitHub"), conn("az", "Azure")];
    let mut v = build_config_view(&conns, &None, &None, &None, &[]);
    assert_eq!(v.on_config_key(Key::Char('k')), ConfigKeyAction::Stay);
    assert_eq!(v.selected, 1, "up from the top wraps");
    assert_eq!(v.config_selected_id(), Some(("az".to_string(), "Azure".to_string())));
    v.on_config_key(Key::Down);
    assert_eq!(v.selected, 0);
    assert_eq!(v.on_config_key(Key::Char('p')), ConfigKeyAction::BindSection(Section::PullRequests));
    assert_eq!(v.on_config_key(Key::Char('w')), ConfigKeyAction::BindSection(Section::WorkItems));
    assert_eq!(v.on_config_key(Key::Char('s')), ConfigKeyAction::PipelineSubs);
    assert_eq!(v.on_config_key(Key::Char('d')), ConfigKeyAction::RemoveSelected);
    assert_eq!(v.on_config_key(Key::Char('a')), ConfigKeyAction::AddConnection);
    assert_eq!(v.on_config_key(Key::Escape), ConfigKeyAction::Leave);
    v.selected = 1;
    let mut rebuilt = build_config_view(&conns[..1], &None, &None, &None, &[]);
    rebuilt.keep_selection(v.selected);
    assert_eq!(rebuilt.selected, 0, "kept on the last row when rows went away");
}
