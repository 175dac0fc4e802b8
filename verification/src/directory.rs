//! The identity directory, held in memory: logins with their numeric ids,
//! and teams with their members.

use crate::model::{member_views, Member, MemberView, Team, TeamView};
use crate::ping::{request_views, resolution_views, Request, RequestView, Resolution, ResolutionView};
use vstd::prelude::*;
use vstd::string::*;

verus! {

/// Why the directory gave no answer.
#[derive(Clone, Copy, Debug, PartialEq, Eq, Structural)]
pub enum ResolutionError {
    /// The directory could not be reached.
    Unreachable,
}

/// The views of the teams.
pub open spec fn team_views(v: Seq<Team>) -> Seq<TeamView> {
    Seq::new(v.len(), |i: int| v[i]@)
}

/// The id of the first user of `users` with this login, if there is one.
pub open spec fn find_user(users: Seq<MemberView>, login: Seq<char>) -> Option<u64>
    decreases users.len(),
{
    if users.len() == 0 {
        None
    } else if users.first().login == login {
        Some(users.first().id)
    } else {
        find_user(users.drop_first(), login)
    }
}

/// The first team of `teams` with this name, if there is one.
pub open spec fn find_team(teams: Seq<TeamView>, name: Seq<char>) -> Option<TeamView>
    decreases teams.len(),
{
    if teams.len() == 0 {
        None
    } else if teams.first().name == name {
        Some(teams.first())
    } else {
        find_team(teams.drop_first(), name)
    }
}

/// A directory of users and teams. One that is not reachable fails every
/// lookup, as a directory behind a broken connection does.
#[derive(Clone, Debug, PartialEq, Eq)]
pub struct Directory {
    pub users: Vec<Member>,
    pub teams: Vec<Team>,
    pub reachable: bool,
}

impl Directory {
    /// The directory's answer to a request.
    pub open spec fn answer(&self, request: RequestView) -> ResolutionView {
        if !self.reachable {
            ResolutionView::Failed
        } else {
            match request {
                RequestView::User(login) => ResolutionView::User {
                    login,
                    id: find_user(member_views(self.users@), login),
                },
                RequestView::Team(name) => ResolutionView::Team(find_team(team_views(self.teams@), name)),
            }
        }
    }

    /// The directory's answers to a list of requests, in order.
    pub open spec fn answers(&self, requests: Seq<RequestView>) -> Seq<ResolutionView> {
        Seq::new(requests.len(), |i: int| self.answer(requests[i]))
    }

    /// The numeric id of the user with this login; `None` where there is no
    /// such user, which is no error.
    pub fn resolve_user(&self, login: &str) -> (r: Result<Option<u64>, ResolutionError>)
        ensures
            r == if self.reachable {
                Ok::<Option<u64>, ResolutionError>(find_user(member_views(self.users@), login@))
            } else {
                Err::<Option<u64>, ResolutionError>(ResolutionError::Unreachable)
            },
    {
        if !self.reachable {
            return Err(ResolutionError::Unreachable);
        }
        let wanted = String::from_str(login);
        let ghost all = member_views(self.users@);
        let mut i: usize = 0;
        assert(all.skip(0) =~= all);
        while i < self.users.len()
            invariant
                i <= self.users.len(),
                all == member_views(self.users@),
                self.reachable,
                wanted@ == login@,
                find_user(all, login@) == find_user(all.skip(i as int), login@),
            decreases self.users.len() - i,
        {
            proof {
                assert(all.skip(i as int).len() > 0);
                assert(all.skip(i as int).first() == self.users@[i as int]@);
                assert(all.skip(i as int).drop_first() =~= all.skip(i + 1));
            }
            if self.users[i].login == wanted {
                assert(find_user(all.skip(i as int), login@) == Some(self.users@[i as int].id));
                return Ok(Some(self.users[i].id));
            }
            i += 1;
        }
        Ok(None)
    }

    /// The team with this name; `None` where there is no such team, which is
    /// no error.
    pub fn resolve_team(&self, name: &str) -> (r: Result<Option<Team>, ResolutionError>)
        ensures
            match r {
                Ok(Some(team)) => self.reachable && find_team(team_views(self.teams@), name@) == Some(
                    team@,
                ),
                Ok(None) => self.reachable && find_team(team_views(self.teams@), name@) is None,
                Err(e) => !self.reachable && e == ResolutionError::Unreachable,
            },
    {
        if !self.reachable {
            return Err(ResolutionError::Unreachable);
        }
        let wanted = String::from_str(name);
        let ghost all = team_views(self.teams@);
        let mut i: usize = 0;
        assert(all.skip(0) =~= all);
        while i < self.teams.len()
            invariant
                i <= self.teams.len(),
                all == team_views(self.teams@),
                self.reachable,
                wanted@ == name@,
                find_team(all, name@) == find_team(all.skip(i as int), name@),
            decreases self.teams.len() - i,
        {
            proof {
                assert(all.skip(i as int).len() > 0);
                assert(all.skip(i as int).first() == self.teams@[i as int]@);
                assert(all.skip(i as int).drop_first() =~= all.skip(i + 1));
            }
            if self.teams[i].name == wanted {
                assert(find_team(all.skip(i as int), name@) == Some(self.teams@[i as int]@));
                return Ok(Some(self.teams[i].duplicate()));
            }
            i += 1;
        }
        Ok(None)
    }

    /// Answers one request. A lookup that fails gives `Resolution::Failed`.
    pub fn resolve(&self, request: &Request) -> (r: Resolution)
        ensures
            r@ == self.answer(request@),
    {
        match request {
            Request::User(login) => match self.resolve_user(login.as_str()) {
                Ok(id) => Resolution::User { login: login.clone(), id },
                Err(_) => Resolution::Failed,
            },
            Request::Team(name) => match self.resolve_team(name.as_str()) {
                Ok(team) => Resolution::Team(team),
                Err(_) => Resolution::Failed,
            },
        }
    }

    /// Answers each request, in order.
    pub fn resolve_all(&self, requests: &Vec<Request>) -> (out: Vec<Resolution>)
        ensures
            resolution_views(out@) == self.answers(request_views(requests@)),
    {
        let mut out: Vec<Resolution> = Vec::new();
        let mut i: usize = 0;
        while i < requests.len()
            invariant
                i <= requests.len(),
                out@.len() == i,
                forall|k: int| 0 <= k < i ==> (#[trigger] out@[k])@ == self.answer(requests@[k]@),
            decreases requests.len() - i,
        {
            out.push(self.resolve(&requests[i]));
            i += 1;
        }
        assert(resolution_views(out@) =~= self.answers(request_views(requests@)));
        out
    }
}

} // verus!
