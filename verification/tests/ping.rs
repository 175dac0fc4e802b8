use ping_engine::model::{
    Event, IssueCommentAction, IssueCommentEvent, IssueEvent, IssuesAction, Member, Notification,
    Team, User,
};
use ping_engine::ping::{
    acknowledgements, collect_pings, keep_first_per_id, mention_requests, plan, request_for, Ping,
    Recording, Request, Resolution,
};

fn issue(action: IssuesAction, body: Option<&str>) -> Event {
    Event::Issue(IssueEvent {
        action,
        title: "Crash on start".to_string(),
        body: body.map(|b| b.to_string()),
        html_url: Some("https://example.com/issues/1".to_string()),
        time: 1_700_000_000,
        user: User { login: "carol".to_string(), id: Some(3) },
    })
}

fn comment(action: IssueCommentAction, body: Option<&str>) -> Event {
    Event::IssueComment(IssueCommentEvent {
        action,
        issue_title: "Crash on start".to_string(),
        body: body.map(|b| b.to_string()),
        html_url: Some("https://example.com/issues/1#c2".to_string()),
        time: 1_700_000_100,
        user: User { login: "dave".to_string(), id: Some(4) },
    })
}

fn user(login: &str, id: Option<u64>) -> Resolution {
    Resolution::User { login: login.to_string(), id }
}

fn core_team() -> Team {
    Team {
        name: "Core Team".to_string(),
        members: vec![
            Member { login: "alice".to_string(), id: 7 },
            Member { login: "bob".to_string(), id: 9 },
        ],
    }
}

fn expected(event_url: &str, body: &str, time: i64, description: &str, id: i64, login: &str, team: Option<&str>) -> Recording {
    Recording {
        login: login.to_string(),
        notification: Notification {
            user_id: id,
            origin_url: event_url.to_string(),
            origin_html: body.to_string(),
            time,
            short_description: Some(description.to_string()),
            team_name: team.map(|t| t.to_string()),
        },
    }
}

#[test]
fn direct_mentions_give_one_notification_each_without_team() {
    let body = "@alice @bob @erin";
    let event = issue(IssuesAction::Opened, Some(body));
    let answers = vec![user("alice", Some(7)), user("bob", Some(9)), user("erin", Some(11))];
    let out = plan(&event, &answers);
    let url = "https://example.com/issues/1";
    assert_eq!(
        out,
        vec![
            expected(url, body, 1_700_000_000, "Crash on start", 7, "alice", None),
            expected(url, body, 1_700_000_000, "Crash on start", 9, "bob", None),
            expected(url, body, 1_700_000_000, "Crash on start", 11, "erin", None),
        ]
    );
}

#[test]
fn team_mention_gives_one_notification_per_member_with_team_name() {
    let body = "cc @rust-lang/core";
    let event = comment(IssueCommentAction::Created, Some(body));
    let out = plan(&event, &vec![Resolution::Team(Some(core_team()))]);
    let url = "https://example.com/issues/1#c2";
    assert_eq!(
        out,
        vec![
            expected(url, body, 1_700_000_100, "Comment on Crash on start", 7, "alice", Some("Core Team")),
            expected(url, body, 1_700_000_100, "Comment on Crash on start", 9, "bob", Some("Core Team")),
        ]
    );
}

#[test]
fn a_user_reached_twice_is_notified_once_with_the_first_team_value() {
    let event = issue(IssuesAction::Opened, Some("@rust-lang/core @alice"));
    let out = plan(&event, &vec![Resolution::Team(Some(core_team())), user("alice", Some(7))]);
    assert_eq!(out.len(), 2);
    assert_eq!(out[0].notification.user_id, 7);
    assert_eq!(out[0].notification.team_name, Some("Core Team".to_string()));
    assert_eq!(out[1].notification.user_id, 9);

    let event = issue(IssuesAction::Opened, Some("@alice @rust-lang/core"));
    let out = plan(&event, &vec![user("alice", Some(7)), Resolution::Team(Some(core_team()))]);
    assert_eq!(out.len(), 2);
    assert_eq!(out[0].notification.user_id, 7);
    assert_eq!(out[0].notification.team_name, None);
    assert_eq!(out[1].notification.user_id, 9);
    assert_eq!(out[1].notification.team_name, Some("Core Team".to_string()));
}

#[test]
fn unknown_users_teams_and_failures_are_passed_over() {
    let event = issue(IssuesAction::Opened, Some("@ghost @x/none @down @bob"));
    let answers = vec![user("ghost", None), Resolution::Team(None), Resolution::Failed, user("bob", Some(9))];
    let out = plan(&event, &answers);
    assert_eq!(out.len(), 1);
    assert_eq!(out[0].notification.user_id, 9);
    assert_eq!(out[0].login, "bob");
    assert_eq!(plan(&event, &Vec::new()), Vec::<Recording>::new());
}

#[test]
fn an_id_out_of_range_is_skipped_and_its_siblings_stay() {
    let team = Team {
        name: "big".to_string(),
        members: vec![
            Member { login: "a".to_string(), id: 1 },
            Member { login: "huge".to_string(), id: u64::MAX },
            Member { login: "edge".to_string(), id: i64::MAX as u64 },
            Member { login: "over".to_string(), id: i64::MAX as u64 + 1 },
            Member { login: "b".to_string(), id: 2 },
        ],
    };
    let answers = vec![user("far", Some(1u64 << 63)), Resolution::Team(Some(team))];
    let pings = collect_pings(&answers);
    let ids: Vec<i64> = pings.iter().map(|p| p.id).collect();
    assert_eq!(ids, vec![1, i64::MAX, 2]);
    assert!(pings.iter().all(|p| p.team_name == Some("big".to_string())));
}

#[test]
fn keep_first_per_id_keeps_order_and_first_values() {
    let p = |id: i64, login: &str, team: Option<&str>| Ping {
        id,
        login: login.to_string(),
        team_name: team.map(|t| t.to_string()),
    };
    let pings = vec![p(1, "a", None), p(2, "b", Some("t")), p(1, "a2", Some("t")), p(3, "c", None), p(2, "b", None)];
    assert_eq!(keep_first_per_id(&pings), vec![p(1, "a", None), p(2, "b", Some("t")), p(3, "c", None)]);
    assert_eq!(keep_first_per_id(&Vec::new()), Vec::<Ping>::new());
}

#[test]
fn edited_issue_records_nothing_and_opened_issue_does() {
    let body = "please look @alice";
    let answers = vec![user("alice", Some(7))];
    for action in [IssuesAction::Edited, IssuesAction::Closed, IssuesAction::Reopened, IssuesAction::Other] {
        let event = issue(action, Some(body));
        assert_eq!(mention_requests(&event), Vec::<Request>::new());
        assert_eq!(plan(&event, &answers), Vec::<Recording>::new());
    }
    let event = issue(IssuesAction::Opened, Some(body));
    assert_eq!(mention_requests(&event), vec![Request::User("alice".to_string())]);
    assert_eq!(
        plan(&event, &answers),
        vec![expected("https://example.com/issues/1", body, 1_700_000_000, "Crash on start", 7, "alice", None)]
    );
}

#[test]
fn edited_or_deleted_comment_records_nothing() {
    for action in [IssueCommentAction::Edited, IssueCommentAction::Deleted] {
        let event = comment(action, Some("@alice"));
        assert_eq!(mention_requests(&event), Vec::<Request>::new());
        assert_eq!(plan(&event, &vec![user("alice", Some(7))]), Vec::<Recording>::new());
    }
}

#[test]
fn event_without_body_or_url_records_nothing() {
    let event = issue(IssuesAction::Opened, None);
    assert_eq!(mention_requests(&event), Vec::<Request>::new());
    assert_eq!(acknowledgements(&event), Vec::<String>::new());
    assert_eq!(plan(&event, &vec![user("alice", Some(7))]), Vec::<Recording>::new());
    let event = Event::Issue(IssueEvent {
        action: IssuesAction::Opened,
        title: "t".to_string(),
        body: Some("@alice".to_string()),
        html_url: None,
        time: 0,
        user: User { login: "carol".to_string(), id: Some(3) },
    });
    assert_eq!(plan(&event, &vec![user("alice", Some(7))]), Vec::<Recording>::new());
}

#[test]
fn requests_follow_the_tokens() {
    assert_eq!(request_for(&"alice".to_string()), Request::User("alice".to_string()));
    assert_eq!(request_for(&"rust-lang/core".to_string()), Request::Team("core".to_string()));
    assert_eq!(request_for(&"a/b/c".to_string()), Request::Team("b".to_string()));
    let event = comment(IssueCommentAction::Created, Some("@alice @rust-lang/core @alice @x/y/z"));
    assert_eq!(
        mention_requests(&event),
        vec![
            Request::User("alice".to_string()),
            Request::Team("core".to_string()),
            Request::Team("y".to_string()),
        ]
    );
}

#[test]
fn acknowledgements_do_not_depend_on_the_action() {
    let body = "acknowledge https://example.com/42 acknowledge http://example.com/43";
    let urls = vec!["https://example.com/42".to_string(), "http://example.com/43".to_string()];
    assert_eq!(acknowledgements(&comment(IssueCommentAction::Edited, Some(body))), urls);
    assert_eq!(acknowledgements(&comment(IssueCommentAction::Created, Some(body))), urls);
    assert_eq!(acknowledgements(&issue(IssuesAction::Closed, Some(body))), urls);
}

#[test]
fn acknowledgements_need_a_known_actor() {
    let event = Event::IssueComment(IssueCommentEvent {
        action: IssueCommentAction::Created,
        issue_title: "t".to_string(),
        body: Some("acknowledge https://example.com/42".to_string()),
        html_url: Some("u".to_string()),
        time: 0,
        user: User { login: "nobody".to_string(), id: None },
    });
    assert_eq!(acknowledgements(&event), Vec::<String>::new());
}

#[test]
fn short_description_and_accessors() {
    let i = issue(IssuesAction::Opened, Some("b"));
    let c = comment(IssueCommentAction::Created, Some("b"));
    assert_eq!(i.short_description(), "Crash on start");
    assert_eq!(c.short_description(), "Comment on Crash on start");
    assert!(i.should_process());
    assert!(c.should_process());
    assert!(!issue(IssuesAction::Edited, Some("b")).should_process());
    assert!(!comment(IssueCommentAction::Edited, Some("b")).should_process());
    assert_eq!(i.time(), 1_700_000_000);
    assert_eq!(c.actor().id, Some(4));
    assert_eq!(i.comment_body(), Some(&"b".to_string()));
    assert_eq!(c.html_url(), Some(&"https://example.com/issues/1#c2".to_string()));
}
