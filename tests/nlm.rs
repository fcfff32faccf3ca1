use ciderpress::nlm::{
    add_audio_to_notebook, auth_with_profile, create_notebook, get_nlm_status, get_notebook_details,
    list_notebooks, parse_notebook_list, poll_step, start_auth, ChildState, PollAction,
};

#[test]
fn notebook_listing_is_parsed() {
    let output = "Total notebooks: 2 (showing first 10)\n\nID                                   TITLE   SOURCES LAST UPDATED\n905d5947-137a-49ba-9c68-3c7fd86d800e \u{8}Testing   One  0       2026-01-23T19:12:24Z\r\n  a05d5947-137a-49ba-9c68-3c7fd86d800f   \nnot-a-uuid-at-all-but-long-enough-to-check-it\n";
    let notebooks = parse_notebook_list(output).unwrap();
    assert_eq!(notebooks.len(), 2);
    assert_eq!(notebooks[0].id, "905d5947-137a-49ba-9c68-3c7fd86d800e");
    assert_eq!(notebooks[0].title, "Testing One");
    assert_eq!(notebooks[1].id, "a05d5947-137a-49ba-9c68-3c7fd86d800f");
    assert_eq!(notebooks[1].title, "(untitled)");
}

#[test]
fn title_without_timestamp_is_kept_whole() {
    let output = "905d5947-137a-49ba-9c68-3c7fd86d800e My  notes 12";
    let notebooks = parse_notebook_list(output).unwrap();
    assert_eq!(notebooks[0].title, "My  notes 12");
    assert!(parse_notebook_list("").unwrap().is_empty());
}

#[test]
fn command_arguments() {
    assert_eq!(list_notebooks(), vec!["list".to_string()]);
    assert_eq!(start_auth(), vec!["auth".to_string(), "login".to_string()]);
    assert_eq!(
        auth_with_profile("Chrome:Profile 1"),
        vec!["auth".to_string(), "login".to_string(), "-profile".to_string(), "Profile 1".to_string()]
    );
    assert_eq!(auth_with_profile("Default")[3], "Default");
    assert_eq!(auth_with_profile("a:b:c")[3], "b:c");
    assert_eq!(create_notebook("Ideas"), vec!["create".to_string(), "Ideas".to_string()]);
    assert_eq!(add_audio_to_notebook("nb", "/x/a.m4a"), vec!["add".to_string(), "nb".to_string(), "/x/a.m4a".to_string()]);
}

#[test]
fn notebook_details_keep_errors_as_text() {
    let d = get_notebook_details("id1", "T", Ok("s".to_string()), Err("boom".to_string()), Ok("".to_string()));
    assert_eq!(d.id, "id1");
    assert_eq!(d.title, "T");
    assert_eq!(d.sources, "s");
    assert_eq!(d.notes, "Error: boom");
    assert_eq!(d.analytics, "");
}

#[test]
fn status_from_credentials() {
    let env = "X=1\nNLM_BROWSER_PROFILE=\"Work\"\nNLM_AUTH_TOKEN= \"abc\" \n";
    let s = get_nlm_status(Some("/bin/nlm".to_string()), Some(env));
    assert!(s.binary_available);
    assert!(s.authenticated);
    assert_eq!(s.current_profile.as_deref(), Some("Work"));
    let s = get_nlm_status(None, Some("NLM_BROWSER_PROFILE=\nNLM_AUTH_TOKEN=\"\"\n"));
    assert!(!s.binary_available);
    assert!(!s.authenticated);
    assert_eq!(s.current_profile.as_deref(), Some("Default"));
    let s = get_nlm_status(Some("/bin/nlm".to_string()), Some("NLM_AUTH_TOKEN=\"\"\n"));
    assert!(!s.authenticated);
    assert_eq!(s.current_profile, None);
    let s = get_nlm_status(Some("/bin/nlm".to_string()), None);
    assert!(!s.authenticated);
}

#[test]
fn tool_runs_time_out_after_thirty_seconds() {
    assert_eq!(poll_step(ChildState::Running, 30_000), PollAction::Wait);
    assert_eq!(poll_step(ChildState::Running, 30_001), PollAction::Kill);
    assert_eq!(poll_step(ChildState::Exited { success: true }, 50_000), PollAction::ReturnOutput);
    assert_eq!(poll_step(ChildState::Exited { success: false }, 0), PollAction::ReportFailure);
    assert_eq!(poll_step(ChildState::WaitFailed, 0), PollAction::ReportWaitError);
}
