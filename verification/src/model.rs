//! The data that the engine works on: users, teams, events and notifications.

use vstd::prelude::*;
use vstd::string::*;

verus! {

/// The characters of an optional string.
pub open spec fn optional_text(s: Option<String>) -> Option<Seq<char>> {
    match s {
        Some(t) => Some(t@),
        None => None,
    }
}

/// A copy of an optional string.
pub fn copy_optional(s: &Option<String>) -> (r: Option<String>)
    ensures
        optional_text(r) == optional_text(*s),
{
    match s {
        Some(t) => Some(t.clone()),
        None => None,
    }
}

/// A platform user. The numeric id is unknown until it has been resolved.
#[derive(Clone, Debug, PartialEq, Eq)]
pub struct User {
    pub login: String,
    pub id: Option<i64>,
}

/// A member of a team, with the numeric id as the directory gives it.
#[derive(Clone, Debug, PartialEq, Eq)]
pub struct Member {
    pub login: String,
    pub id: u64,
}

/// A team: its display name and its members in the directory's order.
#[derive(Clone, Debug, PartialEq, Eq)]
pub struct Team {
    pub name: String,
    pub members: Vec<Member>,
}

/// What a member holds, as plain values.
pub struct MemberView {
    pub login: Seq<char>,
    pub id: u64,
}

impl View for Member {
    type V = MemberView;

    open spec fn view(&self) -> MemberView {
        MemberView { login: self.login@, id: self.id }
    }
}

/// The views of the members.
pub open spec fn member_views(v: Seq<Member>) -> Seq<MemberView> {
    Seq::new(v.len(), |i: int| v[i]@)
}

/// What a team holds, as plain values.
pub struct TeamView {
    pub name: Seq<char>,
    pub members: Seq<MemberView>,
}

impl View for Team {
    type V = TeamView;

    open spec fn view(&self) -> TeamView {
        TeamView { name: self.name@, members: member_views(self.members@) }
    }
}

impl Team {
    /// A copy that holds the same values.
    pub fn duplicate(&self) -> (r: Team)
        ensures
            r@ == self@,
    {
        let mut members: Vec<Member> = Vec::new();
        let mut i: usize = 0;
        while i < self.members.len()
            invariant
                i <= self.members.len(),
                members@.len() == i,
                forall|k: int| 0 <= k < i ==> (#[trigger] members@[k])@ == self.members@[k]@,
            decreases self.members.len() - i,
        {
            let m = &self.members[i];
            members.push(Member { login: m.login.clone(), id: m.id });
            i += 1;
        }
        assert(member_views(members@) =~= member_views(self.members@));
        Team { name: self.name.clone(), members }
    }
}

/// One notification. For deletion it is identified by `user_id` and
/// `origin_url`; the other fields are payload.
#[derive(Clone, Debug, PartialEq, Eq)]
pub struct Notification {
    pub user_id: i64,
    pub origin_url: String,
    pub origin_html: String,
    pub time: i64,
    pub short_description: Option<String>,
    pub team_name: Option<String>,
}

/// What a notification holds, as plain values.
pub struct NotificationView {
    pub user_id: i64,
    pub origin_url: Seq<char>,
    pub origin_html: Seq<char>,
    pub time: i64,
    pub short_description: Option<Seq<char>>,
    pub team_name: Option<Seq<char>>,
}

impl View for Notification {
    type V = NotificationView;

    open spec fn view(&self) -> NotificationView {
        NotificationView {
            user_id: self.user_id,
            origin_url: self.origin_url@,
            origin_html: self.origin_html@,
            time: self.time,
            short_description: optional_text(self.short_description),
            team_name: optional_text(self.team_name),
        }
    }
}

impl Notification {
    /// A copy that holds the same values.
    pub fn duplicate(&self) -> (r: Notification)
        ensures
            r@ == self@,
    {
        Notification {
            user_id: self.user_id,
            origin_url: self.origin_url.clone(),
            origin_html: self.origin_html.clone(),
            time: self.time,
            short_description: copy_optional(&self.short_description),
            team_name: copy_optional(&self.team_name),
        }
    }
}

/// How a notification is found in the ledger: by its row id, or by the URL
/// that it came from.
#[derive(Clone, Debug, PartialEq, Eq)]
pub enum Identifier {
    Id(i64),
    Url(String),
}

/// What an identifier holds, as plain values.
pub enum IdentifierView {
    Id(i64),
    Url(Seq<char>),
}

impl View for Identifier {
    type V = IdentifierView;

    open spec fn view(&self) -> IdentifierView {
        match self {
            Identifier::Id(id) => IdentifierView::Id(*id),
            Identifier::Url(url) => IdentifierView::Url(url@),
        }
    }
}

/// What happened to an issue.
#[derive(Clone, Copy, Debug, PartialEq, Eq, Structural)]
pub enum IssuesAction {
    Opened,
    Edited,
    Closed,
    Reopened,
    Other,
}

/// What happened to a comment.
#[derive(Clone, Copy, Debug, PartialEq, Eq, Structural)]
pub enum IssueCommentAction {
    Created,
    Edited,
    Deleted,
}

/// An event on an issue. `user` is the author of the issue.
#[derive(Clone, Debug, PartialEq, Eq)]
pub struct IssueEvent {
    pub action: IssuesAction,
    pub title: String,
    pub body: Option<String>,
    pub html_url: Option<String>,
    pub time: i64,
    pub user: User,
}

/// An event on a comment. `user` is the author of the comment, and
/// `issue_title` the title of the issue that it was made on.
#[derive(Clone, Debug, PartialEq, Eq)]
pub struct IssueCommentEvent {
    pub action: IssueCommentAction,
    pub issue_title: String,
    pub body: Option<String>,
    pub html_url: Option<String>,
    pub time: i64,
    pub user: User,
}

/// An inbound event, of one of two families.
#[derive(Clone, Debug, PartialEq, Eq)]
pub enum Event {
    Issue(IssueEvent),
    IssueComment(IssueCommentEvent),
}

impl Event {
    /// The text body, if the event has one.
    pub open spec fn body(&self) -> Option<Seq<char>> {
        match self {
            Event::Issue(e) => optional_text(e.body),
            Event::IssueComment(e) => optional_text(e.body),
        }
    }

    /// The canonical URL, if the event has one.
    pub open spec fn url(&self) -> Option<Seq<char>> {
        match self {
            Event::Issue(e) => optional_text(e.html_url),
            Event::IssueComment(e) => optional_text(e.html_url),
        }
    }

    /// The user who acted: the issue's author, or the comment's.
    pub open spec fn acting_user(&self) -> User {
        match self {
            Event::Issue(e) => e.user,
            Event::IssueComment(e) => e.user,
        }
    }

    /// The acting user's numeric id, if it is known.
    pub open spec fn actor_id(&self) -> Option<i64> {
        self.acting_user().id
    }

    /// The timestamp of the event.
    pub open spec fn timestamp(&self) -> i64 {
        match self {
            Event::Issue(e) => e.time,
            Event::IssueComment(e) => e.time,
        }
    }

    /// The words put before an issue's title to describe a comment on it.
    pub open spec fn comment_prefix() -> Seq<char> {
        "Comment on "@
    }

    /// The short description: the issue's title, after the prefix for a comment.
    pub open spec fn description(&self) -> Seq<char> {
        match self {
            Event::Issue(e) => e.title@,
            Event::IssueComment(e) => Self::comment_prefix() + e.issue_title@,
        }
    }

    /// Whether mentions are processed at all: only for an issue that was
    /// opened and for a comment that was created.
    pub open spec fn admitted(&self) -> bool {
        match self {
            Event::Issue(e) => e.action == IssuesAction::Opened,
            Event::IssueComment(e) => e.action == IssueCommentAction::Created,
        }
    }

    /// The text body, if the event has one.
    pub fn comment_body(&self) -> (r: Option<&String>)
        ensures
            match r {
                Some(s) => self.body() == Some(s@),
                None => self.body() is None,
            },
    {
        match self {
            Event::Issue(e) => e.body.as_ref(),
            Event::IssueComment(e) => e.body.as_ref(),
        }
    }

    /// The canonical URL, if the event has one.
    pub fn html_url(&self) -> (r: Option<&String>)
        ensures
            match r {
                Some(s) => self.url() == Some(s@),
                None => self.url() is None,
            },
    {
        match self {
            Event::Issue(e) => e.html_url.as_ref(),
            Event::IssueComment(e) => e.html_url.as_ref(),
        }
    }

    /// The timestamp of the event.
    pub fn time(&self) -> (r: i64)
        ensures
            r == self.timestamp(),
    {
        match self {
            Event::Issue(e) => e.time,
            Event::IssueComment(e) => e.time,
        }
    }

    /// The user who acted: the issue's author, or the comment's.
    pub fn actor(&self) -> (r: &User)
        ensures
            *r == self.acting_user(),
    {
        match self {
            Event::Issue(e) => &e.user,
            Event::IssueComment(e) => &e.user,
        }
    }

    /// The short description that its notifications carry.
    pub fn short_description(&self) -> (r: String)
        ensures
            r@ == self.description(),
    {
        match self {
            Event::Issue(e) => e.title.clone(),
            Event::IssueComment(e) => {
                let mut s = String::from_str("Comment on ");
                s.append(e.issue_title.as_str());
                s
            },
        }
    }

    /// The event gate: whether the mentions of this event are to be processed.
    pub fn should_process(&self) -> (r: bool)
        ensures
            r == self.admitted(),
    {
        match self {
            Event::Issue(e) => e.action == IssuesAction::Opened,
            Event::IssueComment(e) => e.action == IssueCommentAction::Created,
        }
    }
}

} // verus!
