use forgetop_tui::lists::{ReviewVote, WiRow, WorkItem, WorkItemStateCategory};
use forgetop_tui::sections::ItemRef;
use forgetop_tui::wiact::{
    apply_edit, patch_wi_rows, pr_action_call, pr_action_done, wi_action_call, wi_action_done, PrAction, PrCall,
    WiAction, WiCall,
};

fn item(id: &str, repo: Option<&str>) -> WorkItem {
    WorkItem {
        id: id.into(),
        identifier: None,
        title: "t".into(),
        state: "Todo".into(),
        state_category: WorkItemStateCategory::Unstarted,
        work_item_type: None,
        assignee: None,
        updated_at: None,
        url: None,
        repository: repo.map(Into::into),
        description: None,
    }
}

fn row(conn: &str, wi: WorkItem) -> WiRow {
    WiRow { connection_id: conn.into(), connection: conn.into(), provider: "github".into(), wi }
}

#[test]
fn blank_text_sends_nothing_and_titles_go_out_trimmed() {
    match wi_action_call(&WiAction::Comment("  \n".into())) {
        Err(m) => assert_eq!(m, "Empty comment \u{2014} nothing sent"),
        Ok(_) => panic!("a blank comment is not sent"),
    }
    match wi_action_call(&WiAction::SetTitle("   ".into())) {
        Err(m) => assert_eq!(m, "A title can't be empty \u{2014} nothing sent"),
        Ok(_) => panic!("a blank title is not sent"),
    }
    match wi_action_call(&WiAction::SetTitle("  New title ".into())) {
        Ok(WiCall::UpdateFields { title: Some(t), description: None }) => assert_eq!(t, "New title"),
        _ => panic!("a title update"),
    }
    match wi_action_call(&WiAction::SetDescription(" d ".into())) {
        Ok(WiCall::UpdateFields { title: None, description: Some(d) }) => assert_eq!(d, " d "),
        _ => panic!("a description update, as typed"),
    }
    assert!(matches!(wi_action_call(&WiAction::Assign { id: None, label: "x".into() }), Ok(WiCall::Assign(None))));
}

#[test]
fn a_work_item_action_says_what_it_did() {
    assert_eq!(wi_action_done(&WiAction::SetState("Done".into())), "State \u{2192} Done");
    assert_eq!(wi_action_done(&WiAction::Assign { id: Some("7".into()), label: "Ann".into() }), "Assigned to Ann");
    assert_eq!(wi_action_done(&WiAction::Assign { id: None, label: "Ann".into() }), "Unassigned");
    assert_eq!(wi_action_done(&WiAction::Comment("x".into())), "Comment added");
    assert_eq!(wi_action_done(&WiAction::SetTitle("x".into())), "Title updated");
    assert_eq!(wi_action_done(&WiAction::SetDescription("x".into())), "Description updated");
}

#[test]
fn only_the_same_item_in_the_same_repository_takes_the_change() {
    let mut rows = vec![
        row("c", item("1", Some("a/x"))),
        row("c", item("1", Some("a/y"))),
        row("d", item("1", Some("a/x"))),
    ];
    let target = ItemRef { id: "1".into(), repo: Some("a/x".into()) };
    patch_wi_rows(&mut rows, "c", &target, &WiAction::SetState("Done".into()));
    assert_eq!(rows[0].wi.state, "Done");
    assert_eq!(rows[1].wi.state, "Todo", "another repository's #1");
    assert_eq!(rows[2].wi.state, "Todo", "another connection");
    patch_wi_rows(&mut rows, "c", &target, &WiAction::Assign { id: Some("u7".into()), label: "Ann".into() });
    let who = rows[0].wi.assignee.as_ref().unwrap();
    assert_eq!((who.id.as_str(), who.display_name.as_str()), ("u7", "Ann"));
    let mut wi = item("2", None);
    apply_edit(&mut wi, &WiAction::SetTitle("  Retitled ".into()));
    assert_eq!(wi.title, "Retitled");
    apply_edit(&mut wi, &WiAction::SetDescription("body".into()));
    assert_eq!(wi.description.as_deref(), Some("body"));
}

#[test]
fn pull_request_actions_check_their_text_and_thread() {
    match pr_action_call(&PrAction::Reply("hi".into()), &None) {
        Err(m) => assert_eq!(m, "No thread selected to reply to"),
        Ok(_) => panic!("no thread"),
    }
    match pr_action_call(&PrAction::Reply(" ".into()), &Some("t1".into())) {
        Err(m) => assert_eq!(m, "Empty reply \u{2014} nothing sent"),
        Ok(_) => panic!("blank reply"),
    }
    match pr_action_call(&PrAction::Reply("hi".into()), &Some("t1".into())) {
        Ok(PrCall::Reply { thread, text }) => assert_eq!((thread.as_str(), text.as_str()), ("t1", "hi")),
        _ => panic!("a reply"),
    }
    assert!(matches!(pr_action_call(&PrAction::Comment("".into()), &None), Err(_)));
    assert_eq!(pr_action_done(&PrAction::Vote(ReviewVote::Rejected)), ("Requested changes".to_string(), true));
    assert_eq!(pr_action_done(&PrAction::Merge("Squash".into())), ("Merged (Squash)".to_string(), true));
    assert_eq!(pr_action_done(&PrAction::Revert), ("Revert requested".to_string(), false));
    assert_eq!(pr_action_done(&PrAction::Reply("x".into())), ("Reply posted".to_string(), false));
}

#[test]
fn a_merge_goes_out_with_the_chosen_strategy() {
    match pr_action_call(&PrAction::Merge("Rebase".into()), &None) {
        Ok(PrCall::Merge(s)) => assert_eq!(s, "Rebase"),
        _ => panic!("a merge call"),
    }
}
