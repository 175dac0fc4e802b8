//! The ping orchestrator: from an event and what the directory said of its
//! mentions to the notifications that are to be recorded.

use crate::model::{
    copy_optional, optional_text, Event, MemberView, Notification, NotificationView, Team,
    TeamView,
};
use crate::scan::{
    acknowledge_pattern, extract_acknowledgements, extract_mentions, first_occurrences,
    is_team_token, mention_pattern, present, regex_captures, team_of, team_segment, texts,
};
use vstd::prelude::*;
use vstd::string::*;

verus! {

/// A question to the directory.
#[derive(Clone, Debug, PartialEq, Eq)]
pub enum Request {
    /// The numeric id of the user with this login.
    User(String),
    /// The team with this name.
    Team(String),
}

/// What a request holds, as plain values.
pub enum RequestView {
    User(Seq<char>),
    Team(Seq<char>),
}

impl View for Request {
    type V = RequestView;

    open spec fn view(&self) -> RequestView {
        match self {
            Request::User(login) => RequestView::User(login@),
            Request::Team(name) => RequestView::Team(name@),
        }
    }
}

/// The directory's answer to one request.
#[derive(Clone, Debug, PartialEq, Eq)]
pub enum Resolution {
    /// The answer for a login: its numeric id, or `None` where the directory
    /// knows no such user.
    User { login: String, id: Option<u64> },
    /// The answer for a team name: the team, or `None` where the directory
    /// knows no such team.
    Team(Option<Team>),
    /// The directory could not be reached, or did not answer properly.
    Failed,
}

/// What an answer holds, as plain values.
pub enum ResolutionView {
    User { login: Seq<char>, id: Option<u64> },
    Team(Option<TeamView>),
    Failed,
}

impl View for Resolution {
    type V = ResolutionView;

    open spec fn view(&self) -> ResolutionView {
        match self {
            Resolution::User { login, id } => ResolutionView::User { login: login@, id: *id },
            Resolution::Team(Some(team)) => ResolutionView::Team(Some(team@)),
            Resolution::Team(None) => ResolutionView::Team(None),
            Resolution::Failed => ResolutionView::Failed,
        }
    }
}

/// A user to notify, and the team through which the mention came, if any.
#[derive(Clone, Debug, PartialEq, Eq)]
pub struct Ping {
    pub id: i64,
    pub login: String,
    pub team_name: Option<String>,
}

/// What a ping holds, as plain values.
pub struct PingView {
    pub id: i64,
    pub login: Seq<char>,
    pub team_name: Option<Seq<char>>,
}

impl View for Ping {
    type V = PingView;

    open spec fn view(&self) -> PingView {
        PingView { id: self.id, login: self.login@, team_name: optional_text(self.team_name) }
    }
}

impl Ping {
    /// A copy that holds the same values.
    pub fn duplicate(&self) -> (r: Ping)
        ensures
            r@ == self@,
    {
        Ping { id: self.id, login: self.login.clone(), team_name: copy_optional(&self.team_name) }
    }
}

/// One step for the ledger: the display login to record for the user, and
/// the notification to append.
#[derive(Clone, Debug, PartialEq, Eq)]
pub struct Recording {
    pub login: String,
    pub notification: Notification,
}

/// What a recording holds, as plain values.
pub struct RecordingView {
    pub login: Seq<char>,
    pub notification: NotificationView,
}

impl View for Recording {
    type V = RecordingView;

    open spec fn view(&self) -> RecordingView {
        RecordingView { login: self.login@, notification: self.notification@ }
    }
}

/// The views of the requests.
pub open spec fn request_views(v: Seq<Request>) -> Seq<RequestView> {
    Seq::new(v.len(), |i: int| v[i]@)
}

/// The views of the answers.
pub open spec fn resolution_views(v: Seq<Resolution>) -> Seq<ResolutionView> {
    Seq::new(v.len(), |i: int| v[i]@)
}

/// The views of the pings.
pub open spec fn ping_views(v: Seq<Ping>) -> Seq<PingView> {
    Seq::new(v.len(), |i: int| v[i]@)
}

/// The views of the recordings.
pub open spec fn recording_views(v: Seq<Recording>) -> Seq<RecordingView> {
    Seq::new(v.len(), |i: int| v[i]@)
}

/// The URLs whose notifications the event retracts for its actor: every
/// acknowledged URL of the body, in order, where the actor's id is known.
pub open spec fn acknowledged_urls(event: Event) -> Seq<Seq<char>> {
    match (event.body(), event.actor_id()) {
        (Some(body), Some(_)) => present(regex_captures(acknowledge_pattern(), body, 1)),
        _ => Seq::empty(),
    }
}

/// The request that a mention token stands for: a team by its team segment
/// where the token holds a `/`, else a user by the token itself.
pub open spec fn request_of(token: Seq<char>) -> RequestView {
    if is_team_token(token) {
        RequestView::Team(team_segment(token))
    } else {
        RequestView::User(token)
    }
}

/// The mention tokens of an event that is admitted and has a body, each
/// once; none for any other event.
pub open spec fn mention_tokens(event: Event) -> Seq<Seq<char>> {
    match event.body() {
        Some(body) if event.admitted() => first_occurrences(
            present(regex_captures(mention_pattern(), body, 1)),
        ),
        _ => Seq::empty(),
    }
}

/// The requests of an event: one for each of its mention tokens, in order.
pub open spec fn requests_of(event: Event) -> Seq<RequestView> {
    Seq::new(mention_tokens(event).len(), |i: int| request_of(mention_tokens(event)[i]))
}

/// Whether a numeric id of the directory fits the ledger's id range.
pub open spec fn fits(id: u64) -> bool {
    id <= 0x7fff_ffff_ffff_ffffu64
}

/// The ping for a member of a team.
pub open spec fn member_ping(m: MemberView, team: Seq<char>) -> PingView {
    PingView { id: m.id as i64, login: m.login, team_name: Some(team) }
}

/// The pings for the members of a team, in the members' order. A member
/// whose id does not fit is left out; the others stay.
pub open spec fn member_pings(members: Seq<MemberView>, team: Seq<char>) -> Seq<PingView>
    decreases members.len(),
{
    if members.len() == 0 {
        Seq::empty()
    } else if fits(members.last().id) {
        member_pings(members.drop_last(), team).push(member_ping(members.last(), team))
    } else {
        member_pings(members.drop_last(), team)
    }
}

/// The pings that one answer of the directory gives rise to.
pub open spec fn pings_of(r: ResolutionView) -> Seq<PingView> {
    match r {
        ResolutionView::User { login, id: Some(id) } => if fits(id) {
            seq![PingView { id: id as i64, login: login, team_name: None }]
        } else {
            Seq::empty()
        },
        ResolutionView::Team(Some(team)) => member_pings(team.members, team.name),
        _ => Seq::empty(),
    }
}

/// The pings of all answers, in the answers' order.
pub open spec fn all_pings(rs: Seq<ResolutionView>) -> Seq<PingView>
    decreases rs.len(),
{
    if rs.len() == 0 {
        Seq::empty()
    } else {
        all_pings(rs.drop_last()) + pings_of(rs.last())
    }
}

/// Whether some ping of `s` is for the user `id`.
pub open spec fn has_id(s: Seq<PingView>, id: i64) -> bool {
    exists|j: int| 0 <= j < s.len() && (#[trigger] s[j]).id == id
}

/// For each user id the first ping of `s` that is for it, in the order of `s`.
pub open spec fn first_per_id(s: Seq<PingView>) -> Seq<PingView>
    decreases s.len(),
{
    if s.len() == 0 {
        Seq::empty()
    } else if has_id(s.drop_last(), s.last().id) {
        first_per_id(s.drop_last())
    } else {
        first_per_id(s.drop_last()).push(s.last())
    }
}

/// What is recorded for a ping of an event with the given body and URL.
pub open spec fn recording_of(event: Event, body: Seq<char>, url: Seq<char>, p: PingView) -> RecordingView {
    RecordingView {
        login: p.login,
        notification: NotificationView {
            user_id: p.id,
            origin_url: url,
            origin_html: body,
            time: event.timestamp(),
            short_description: Some(event.description()),
            team_name: p.team_name,
        },
    }
}

/// The pings of an event, given the directory's answers: one for each user
/// id, the first in order, where the event is admitted and has a body and a
/// URL; none for any other event.
pub open spec fn pinged(event: Event, rs: Seq<ResolutionView>) -> Seq<PingView> {
    if event.admitted() && event.body() is Some && event.url() is Some {
        first_per_id(all_pings(rs))
    } else {
        Seq::empty()
    }
}

/// What is to be recorded for an event, given the directory's answers.
pub open spec fn planned(event: Event, rs: Seq<ResolutionView>) -> Seq<RecordingView> {
    Seq::new(
        pinged(event, rs).len(),
        |i: int| recording_of(event, event.body().unwrap(), event.url().unwrap(), pinged(event, rs)[i]),
    )
}

/// The URLs to delete notifications for, addressed to the event's actor.
/// This does not depend on the event's action.
pub fn acknowledgements(event: &Event) -> (urls: Vec<String>)
    ensures
        texts(urls@) == acknowledged_urls(*event),
{
    match (event.comment_body(), event.actor().id) {
        (Some(body), Some(_)) => extract_acknowledgements(body.as_str()),
        _ => {
            let urls: Vec<String> = Vec::new();
            assert(texts(urls@) =~= Seq::<Seq<char>>::empty());
            urls
        },
    }
}

/// The request that a mention token stands for.
pub fn request_for(token: &String) -> (r: Request)
    ensures
        r@ == request_of(token@),
{
    match team_of(token.as_str()) {
        Some(team) => Request::Team(team),
        None => Request::User(token.clone()),
    }
}

/// The questions to put to the directory for an event.
pub fn mention_requests(event: &Event) -> (requests: Vec<Request>)
    ensures
        request_views(requests@) == requests_of(*event),
{
    let mut requests: Vec<Request> = Vec::new();
    if !event.should_process() {
        assert(request_views(requests@) =~= requests_of(*event));
        return requests;
    }
    match event.comment_body() {
        None => {
            assert(request_views(requests@) =~= requests_of(*event));
        },
        Some(body) => {
            let tokens = extract_mentions(body.as_str());
            let mut i: usize = 0;
            while i < tokens.len()
                invariant
                    i <= tokens.len(),
                    requests@.len() == i,
                    texts(tokens@) == mention_tokens(*event),
                    forall|k: int| 0 <= k < i ==> (#[trigger] requests@[k])@ == request_of(tokens@[k]@),
                decreases tokens.len() - i,
            {
                requests.push(request_for(&tokens[i]));
                i += 1;
            }
            assert(texts(tokens@).len() == tokens@.len());
            assert forall|k: int| 0 <= k < tokens@.len() implies tokens@[k]@ == mention_tokens(*event)[k] by {
                assert(texts(tokens@)[k] == tokens@[k]@);
            }
            assert(request_views(requests@) =~= requests_of(*event));
        },
    }
    requests
}

/// The pings that the directory's answers give rise to, in order.
pub fn collect_pings(resolutions: &Vec<Resolution>) -> (out: Vec<Ping>)
    ensures
        ping_views(out@) == all_pings(resolution_views(resolutions@)),
{
    let mut out: Vec<Ping> = Vec::new();
    let mut i: usize = 0;
    let ghost rs = resolution_views(resolutions@);
    assert(ping_views(out@) =~= Seq::<PingView>::empty());
    assert(rs.take(0) =~= Seq::<ResolutionView>::empty());
    while i < resolutions.len()
        invariant
            i <= resolutions.len(),
            rs == resolution_views(resolutions@),
            ping_views(out@) == all_pings(rs.take(i as int)),
        decreases resolutions.len() - i,
    {
        let ghost before = ping_views(out@);
        proof {
            assert(rs.take(i + 1).drop_last() =~= rs.take(i as int));
            assert(rs.take(i + 1).last() == resolutions@[i as int]@);
        }
        match &resolutions[i] {
            Resolution::User { login, id: Some(id) } => {
                if *id <= 0x7fff_ffff_ffff_ffffu64 {
                    let p = Ping { id: *id as i64, login: login.clone(), team_name: None };
                    out.push(p);
                    assert(ping_views(out@) =~= before + seq![p@]);
                } else {
                    assert(ping_views(out@) =~= before + Seq::<PingView>::empty());
                }
            },
            Resolution::Team(Some(team)) => {
                let mut j: usize = 0;
                let ghost members = team@.members;
                assert(members.take(0) =~= Seq::<MemberView>::empty());
                assert(ping_views(out@) =~= before + Seq::<PingView>::empty());
                while j < team.members.len()
                    invariant
                        j <= team.members.len(),
                        members == team@.members,
                        ping_views(out@) == before + member_pings(members.take(j as int), team.name@),
                    decreases team.members.len() - j,
                {
                    let ghost inner = ping_views(out@);
                    let ghost done = member_pings(members.take(j as int), team.name@);
                    let m = &team.members[j];
                    proof {
                        assert(members.take(j + 1).drop_last() =~= members.take(j as int));
                        assert(members.take(j + 1).last() == m@);
                    }
                    if m.id <= 0x7fff_ffff_ffff_ffffu64 {
                        let p = Ping {
                            id: m.id as i64,
                            login: m.login.clone(),
                            team_name: Some(team.name.clone()),
                        };
                        out.push(p);
                        assert(p@ == member_ping(m@, team.name@));
                        assert(ping_views(out@) =~= inner.push(p@));
                        assert(inner.push(p@) =~= before + done.push(p@));
                    }
                    j += 1;
                }
                assert(members.take(team.members.len() as int) =~= members);
            },
            _ => {
                assert(ping_views(out@) =~= before + Seq::<PingView>::empty());
            },
        }
        i += 1;
    }
    assert(rs.take(resolutions.len() as int) =~= rs);
    out
}

/// Keeps, for each user id, the first ping that is for it.
pub fn keep_first_per_id(pings: &Vec<Ping>) -> (out: Vec<Ping>)
    ensures
        ping_views(out@) == first_per_id(ping_views(pings@)),
{
    let mut out: Vec<Ping> = Vec::new();
    let mut i: usize = 0;
    let ghost all = ping_views(pings@);
    assert(ping_views(out@) =~= Seq::<PingView>::empty());
    assert(all.take(0) =~= Seq::<PingView>::empty());
    while i < pings.len()
        invariant
            i <= pings.len(),
            all == ping_views(pings@),
            ping_views(out@) == first_per_id(all.take(i as int)),
        decreases pings.len() - i,
    {
        let ghost before = ping_views(out@);
        let id = pings[i].id;
        let mut seen = false;
        let mut j: usize = 0;
        while j < i
            invariant
                j <= i,
                i < pings.len(),
                all == ping_views(pings@),
                id == pings[i as int].id,
                seen == has_id(all.take(j as int), id),
            decreases i - j,
        {
            proof {
                if has_id(all.take(j as int), id) {
                    let k = choose|k: int| 0 <= k < j && (#[trigger] all.take(j as int)[k]).id == id;
                    assert(all.take(j + 1)[k].id == id);
                }
                if has_id(all.take(j + 1), id) && pings[j as int].id != id {
                    let k = choose|k: int| 0 <= k < j + 1 && (#[trigger] all.take(j + 1)[k]).id == id;
                    assert(all.take(j as int)[k].id == id);
                }
            }
            if pings[j].id == id {
                seen = true;
                assert(all.take(j + 1)[j as int].id == id);
            }
            j += 1;
        }
        proof {
            assert(all.take(i + 1).drop_last() =~= all.take(i as int));
            assert(all.take(i + 1).last() == pings[i as int]@);
        }
        if !seen {
            out.push(pings[i].duplicate());
            assert(ping_views(out@) =~= before.push(pings[i as int]@));
        }
        i += 1;
    }
    assert(all.take(pings.len() as int) =~= all);
    out
}

/// What is to be recorded for `event`, given the directory's answers to its
/// requests: for each user id that the answers reach, and that fits the
/// ledger's range, one notification, with the team of the first mention
/// that reached it.
pub fn plan(event: &Event, resolutions: &Vec<Resolution>) -> (out: Vec<Recording>)
    ensures
        recording_views(out@) == planned(*event, resolution_views(resolutions@)),
{
    let mut out: Vec<Recording> = Vec::new();
    if !event.should_process() {
        assert(recording_views(out@) =~= planned(*event, resolution_views(resolutions@)));
        return out;
    }
    match (event.comment_body(), event.html_url()) {
        (Some(body), Some(url)) => {
            let all = collect_pings(resolutions);
            let pings = keep_first_per_id(&all);
            let description = event.short_description();
            let mut i: usize = 0;
            while i < pings.len()
                invariant
                    i <= pings.len(),
                    out@.len() == i,
                    ping_views(pings@) == pinged(*event, resolution_views(resolutions@)),
                    event.body() == Some(body@),
                    event.url() == Some(url@),
                    description@ == event.description(),
                    forall|k: int|
                        0 <= k < i ==> (#[trigger] out@[k])@ == recording_of(
                            *event,
                            body@,
                            url@,
                            pings@[k]@,
                        ),
                decreases pings.len() - i,
            {
                let p = &pings[i];
                out.push(
                    Recording {
                        login: p.login.clone(),
                        notification: Notification {
                            user_id: p.id,
                            origin_url: url.clone(),
                            origin_html: body.clone(),
                            time: event.time(),
                            short_description: Some(description.clone()),
                            team_name: copy_optional(&p.team_name),
                        },
                    },
                );
                i += 1;
            }
            assert(ping_views(pings@).len() == pings@.len());
            assert forall|k: int| 0 <= k < pings@.len() implies pings@[k]@ == pinged(
                *event,
                resolution_views(resolutions@),
            )[k] by {
                assert(ping_views(pings@)[k] == pings@[k]@);
            }
            assert(recording_views(out@) =~= planned(*event, resolution_views(resolutions@)));
        },
        _ => {
            assert(recording_views(out@) =~= planned(*event, resolution_views(resolutions@)));
        },
    }
    out
}

} // verus!
