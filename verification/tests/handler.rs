use ping_engine::directory::{Directory, ResolutionError};
use ping_engine::handler::{handle, retract};
use ping_engine::ledger::Ledger;
use ping_engine::model::{
    Event, IssueCommentAction, IssueCommentEvent, IssueEvent, IssuesAction, Member, Notification,
    Team, User,
};
use ping_engine::ping::{Request, Resolution};

fn directory() -> Directory {
    Directory {
        users: vec![
            Member { login: "alice".to_string(), id: 7 },
            Member { login: "bob".to_string(), id: 9 },
            Member { login: "alice".to_string(), id: 70 },
        ],
        teams: vec![Team {
            name: "core".to_string(),
            members: vec![
                Member { login: "alice".to_string(), id: 7 },
                Member { login: "bob".to_string(), id: 9 },
            ],
        }],
        reachable: true,
    }
}

fn comment(action: IssueCommentAction, body: &str, actor: Option<i64>) -> Event {
    Event::IssueComment(IssueCommentEvent {
        action,
        issue_title: "Crash on start".to_string(),
        body: Some(body.to_string()),
        html_url: Some("https://example.com/issues/1#c2".to_string()),
        time: 1_700_000_100,
        user: User { login: "dave".to_string(), id: actor },
    })
}

fn earlier(user_id: i64, url: &str) -> Notification {
    Notification {
        user_id,
        origin_url: url.to_string(),
        origin_html: "earlier".to_string(),
        time: 5,
        short_description: None,
        team_name: None,
    }
}

#[test]
fn comment_with_mention_team_and_acknowledgement() {
    let body = "hi @alice, see also @rust-lang/core and acknowledge https://example.com/42";
    let mut ledger = Ledger::new();
    ledger.record_notification(&earlier(4, "https://example.com/42")).unwrap();
    ledger.record_notification(&earlier(5, "https://example.com/42")).unwrap();
    handle(&mut ledger, &directory(), &comment(IssueCommentAction::Created, body, Some(4)));
    let rows = ledger.notifications();
    assert_eq!(rows.len(), 3);
    assert_eq!(rows[0], earlier(5, "https://example.com/42"));
    assert_eq!(rows[1].user_id, 7);
    assert_eq!(rows[1].team_name, None);
    assert_eq!(rows[2].user_id, 9);
    assert_eq!(rows[2].team_name, Some("core".to_string()));
    for row in &rows[1..] {
        assert_eq!(row.short_description, Some("Comment on Crash on start".to_string()));
        assert_eq!(row.origin_url, "https://example.com/issues/1#c2");
        assert_eq!(row.origin_html, body);
        assert_eq!(row.time, 1_700_000_100);
    }
    assert_eq!(ledger.row_ids(), vec![1, 2, 3]);
    assert_eq!(ledger.username(7), Some("alice".to_string()));
    assert_eq!(ledger.username(9), Some("bob".to_string()));
}

#[test]
fn team_before_direct_mention_keeps_the_team_name() {
    let body = "@rust-lang/core and @alice";
    let mut ledger = Ledger::new();
    handle(&mut ledger, &directory(), &comment(IssueCommentAction::Created, body, Some(4)));
    let rows = ledger.notifications();
    assert_eq!(rows.len(), 2);
    assert_eq!((rows[0].user_id, rows[0].team_name.clone()), (7, Some("core".to_string())));
    assert_eq!((rows[1].user_id, rows[1].team_name.clone()), (9, Some("core".to_string())));
}

#[test]
fn edited_comment_still_acknowledges_but_records_nothing() {
    let body = "@bob acknowledge https://example.com/42";
    let mut ledger = Ledger::new();
    ledger.record_notification(&earlier(4, "https://example.com/42")).unwrap();
    handle(&mut ledger, &directory(), &comment(IssueCommentAction::Edited, body, Some(4)));
    assert_eq!(ledger.len(), 0);
    assert_eq!(ledger.username(9), None);
}

#[test]
fn acknowledging_without_prior_notification_is_a_no_op() {
    let mut ledger = Ledger::new();
    ledger.record_notification(&earlier(5, "https://example.com/42")).unwrap();
    let before = ledger.notifications();
    handle(
        &mut ledger,
        &directory(),
        &comment(IssueCommentAction::Edited, "acknowledge https://example.com/42", Some(4)),
    );
    assert_eq!(ledger.notifications(), before);
}

#[test]
fn unknown_actor_skips_acknowledgements_and_mentions_go_on() {
    let body = "@bob acknowledge https://example.com/42";
    let mut ledger = Ledger::new();
    ledger.record_notification(&earlier(4, "https://example.com/42")).unwrap();
    handle(&mut ledger, &directory(), &comment(IssueCommentAction::Created, body, None));
    let rows = ledger.notifications();
    assert_eq!(rows.len(), 2);
    assert_eq!(rows[0], earlier(4, "https://example.com/42"));
    assert_eq!(rows[1].user_id, 9);
}

#[test]
fn unknown_names_are_skipped_and_the_rest_recorded() {
    let body = "@ghost @rust-lang/nowhere @bob";
    let mut ledger = Ledger::new();
    handle(&mut ledger, &directory(), &comment(IssueCommentAction::Created, body, Some(4)));
    let rows = ledger.notifications();
    assert_eq!(rows.len(), 1);
    assert_eq!(rows[0].user_id, 9);
}

#[test]
fn unreachable_directory_records_nothing_but_acknowledges() {
    let mut dir = directory();
    dir.reachable = false;
    let body = "@bob acknowledge https://example.com/42";
    let mut ledger = Ledger::new();
    ledger.record_notification(&earlier(4, "https://example.com/42")).unwrap();
    handle(&mut ledger, &dir, &comment(IssueCommentAction::Created, body, Some(4)));
    assert_eq!(ledger.len(), 0);
    assert_eq!(dir.resolve_user("bob"), Err(ResolutionError::Unreachable));
    assert_eq!(dir.resolve_team("core"), Err(ResolutionError::Unreachable));
    assert_eq!(dir.resolve(&Request::User("bob".to_string())), Resolution::Failed);
}

#[test]
fn full_ledger_keeps_what_was_written_before() {
    let mut ledger = Ledger::starting_at(i64::MAX - 1);
    handle(
        &mut ledger,
        &directory(),
        &comment(IssueCommentAction::Created, "@alice @bob", Some(4)),
    );
    let rows = ledger.notifications();
    assert_eq!(rows.len(), 1);
    assert_eq!(rows[0].user_id, 7);
    assert_eq!(ledger.username(9), Some("bob".to_string()));
}

#[test]
fn opened_issue_uses_its_title() {
    let event = Event::Issue(IssueEvent {
        action: IssuesAction::Opened,
        title: "Crash on start".to_string(),
        body: Some("@bob".to_string()),
        html_url: Some("https://example.com/issues/1".to_string()),
        time: 9,
        user: User { login: "carol".to_string(), id: Some(3) },
    });
    let mut ledger = Ledger::new();
    handle(&mut ledger, &directory(), &event);
    assert_eq!(
        ledger.notifications(),
        vec![Notification {
            user_id: 9,
            origin_url: "https://example.com/issues/1".to_string(),
            origin_html: "@bob".to_string(),
            time: 9,
            short_description: Some("Crash on start".to_string()),
            team_name: None,
        }]
    );
}

#[test]
fn retract_deletes_for_each_url() {
    let mut ledger = Ledger::new();
    ledger.record_notification(&earlier(4, "a")).unwrap();
    ledger.record_notification(&earlier(4, "b")).unwrap();
    ledger.record_notification(&earlier(4, "c")).unwrap();
    retract(&mut ledger, 4, &vec!["c".to_string(), "a".to_string(), "zz".to_string()]);
    assert_eq!(ledger.notifications(), vec![earlier(4, "b")]);
}

#[test]
fn directory_lookups() {
    let dir = directory();
    assert_eq!(dir.resolve_user("alice"), Ok(Some(7)));
    assert_eq!(dir.resolve_user("bob"), Ok(Some(9)));
    assert_eq!(dir.resolve_user("Alice"), Ok(None));
    assert_eq!(dir.resolve_team("core").map(|t| t.map(|t| t.members.len())), Ok(Some(2)));
    assert_eq!(dir.resolve_team("none"), Ok(None));
    assert_eq!(
        dir.resolve_all(&vec![Request::User("zed".to_string()), Request::Team("core".to_string())]),
        vec![
            Resolution::User { login: "zed".to_string(), id: None },
            Resolution::Team(Some(dir.teams[0].clone())),
        ]
    );
}
