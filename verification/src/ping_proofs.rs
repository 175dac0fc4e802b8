//! What holds of the orchestrator's plan for every event and every answer
//! of the directory.

use crate::model::{Event, MemberView, TeamView};
use crate::ping::{
    all_pings, first_per_id, fits, has_id, member_ping, member_pings, pinged, pings_of, planned,
    requests_of, PingView, RecordingView, RequestView, ResolutionView,
};
use vstd::prelude::*;

verus! {

/// Whether the directory knew the user and the id fits the ledger's range.
pub open spec fn is_known_user(r: ResolutionView) -> bool {
    match r {
        ResolutionView::User { login, id: Some(id) } => fits(id),
        _ => false,
    }
}

/// The ledger id of a user that the directory knew; zero for another answer.
pub open spec fn known_user_id(r: ResolutionView) -> i64 {
    match r {
        ResolutionView::User { login, id: Some(id) } => id as i64,
        _ => 0,
    }
}

/// Whether the event is one whose mentions lead to notifications: it is
/// admitted, and has a body and a URL.
pub open spec fn notifies(event: Event) -> bool {
    event.admitted() && event.body() is Some && event.url() is Some
}

/// The selection keeps exactly the user ids of its input, each once.
pub proof fn lemma_first_per_id(s: Seq<PingView>)
    ensures
        first_per_id(s).len() <= s.len(),
        forall|id: i64| has_id(first_per_id(s), id) <==> has_id(s, id),
        forall|i: int, j: int|
            0 <= i < j < first_per_id(s).len() ==> first_per_id(s)[i].id != first_per_id(s)[j].id,
    decreases s.len(),
{
    if s.len() > 0 {
        let init = s.drop_last();
        let last = s.last();
        let kept = first_per_id(init);
        let out = first_per_id(s);
        lemma_first_per_id(init);
        assert forall|id: i64| has_id(out, id) <==> has_id(s, id) by {
            if has_id(s, id) {
                let j = choose|j: int| 0 <= j < s.len() && (#[trigger] s[j]).id == id;
                if j < init.len() {
                    assert(init[j].id == id);
                    assert(has_id(init, id));
                    assert(has_id(kept, id));
                    let k = choose|k: int| 0 <= k < kept.len() && (#[trigger] kept[k]).id == id;
                    assert(out[k].id == id);
                } else if has_id(init, last.id) {
                    assert(has_id(kept, id));
                } else {
                    assert(out[out.len() - 1].id == id);
                }
            }
            if has_id(out, id) {
                let k = choose|k: int| 0 <= k < out.len() && (#[trigger] out[k]).id == id;
                if k < kept.len() {
                    assert(kept[k].id == id);
                    assert(has_id(kept, id));
                    assert(has_id(init, id));
                    let j = choose|j: int| 0 <= j < init.len() && (#[trigger] init[j]).id == id;
                    assert(s[j].id == id);
                } else {
                    assert(s[s.len() - 1].id == id);
                }
            }
        }
        assert forall|i: int, j: int| 0 <= i < j < out.len() implies out[i].id != out[j].id by {
            if j < kept.len() {
                assert(kept[i].id != kept[j].id);
            } else {
                assert(kept[i].id == out[i].id);
                assert(has_id(kept, kept[i].id));
                assert(has_id(init, kept[i].id));
            }
        }
    }
}

/// Of pings for different users the selection keeps every one.
pub proof fn lemma_first_per_id_keeps_distinct(s: Seq<PingView>)
    requires
        forall|i: int, j: int| 0 <= i < j < s.len() ==> s[i].id != s[j].id,
    ensures
        first_per_id(s) == s,
    decreases s.len(),
{
    if s.len() > 0 {
        let init = s.drop_last();
        lemma_first_per_id_keeps_distinct(init);
        if has_id(init, s.last().id) {
            let j = choose|j: int| 0 <= j < init.len() && (#[trigger] init[j]).id == s.last().id;
            assert(s[j].id == s[s.len() - 1].id);
        }
        assert(init.push(s.last()) =~= s);
    }
}

/// Answers that each give a known user yield one ping each, in order, with
/// no team.
pub proof fn lemma_pings_of_known_users(rs: Seq<ResolutionView>)
    requires
        forall|i: int| 0 <= i < rs.len() ==> is_known_user(#[trigger] rs[i]),
    ensures
        all_pings(rs).len() == rs.len(),
        forall|i: int| 0 <= i < rs.len() ==> (#[trigger] all_pings(rs)[i]) == pings_of(rs[i])[0],
    decreases rs.len(),
{
    if rs.len() > 0 {
        lemma_pings_of_known_users(rs.drop_last());
        assert(is_known_user(rs.last()));
        assert(pings_of(rs.last()).len() == 1);
    }
}

/// Members whose ids all fit yield one ping each, in order, with the team.
pub proof fn lemma_pings_of_members(members: Seq<MemberView>, team: Seq<char>)
    requires
        forall|i: int| 0 <= i < members.len() ==> fits((#[trigger] members[i]).id),
    ensures
        member_pings(members, team).len() == members.len(),
        forall|i: int|
            0 <= i < members.len() ==> (#[trigger] member_pings(members, team)[i]) == member_ping(
                members[i],
                team,
            ),
    decreases members.len(),
{
    if members.len() > 0 {
        lemma_pings_of_members(members.drop_last(), team);
        assert(fits(members.last().id));
    }
}

/// Within one event no two notifications are for the same user; a user is
/// notified only where some answer gave a ping for that user, and, where the
/// event notifies at all, every such user is.
pub proof fn lemma_one_notification_per_user(event: Event, rs: Seq<ResolutionView>)
    ensures
        forall|i: int, j: int|
            0 <= i < j < planned(event, rs).len() ==> planned(event, rs)[i].notification.user_id
                != planned(event, rs)[j].notification.user_id,
        forall|i: int|
            0 <= i < planned(event, rs).len() ==> has_id(
                all_pings(rs),
                (#[trigger] planned(event, rs)[i]).notification.user_id,
            ),
        notifies(event) ==> forall|id: i64|
            has_id(all_pings(rs), id) ==> exists|i: int|
                0 <= i < planned(event, rs).len() && (#[trigger] planned(event, rs)[i]).notification.user_id
                    == id,
{
    let chosen = pinged(event, rs);
    let plan = planned(event, rs);
    lemma_first_per_id(all_pings(rs));
    assert forall|i: int| 0 <= i < plan.len() implies has_id(
        all_pings(rs),
        (#[trigger] plan[i]).notification.user_id,
    ) by {
        assert(chosen[i].id == plan[i].notification.user_id);
        assert(has_id(chosen, chosen[i].id));
    }
    if notifies(event) {
        assert forall|id: i64| has_id(all_pings(rs), id) implies exists|i: int|
            0 <= i < plan.len() && (#[trigger] plan[i]).notification.user_id == id by {
            assert(has_id(chosen, id));
            let k = choose|k: int| 0 <= k < chosen.len() && (#[trigger] chosen[k]).id == id;
            assert(plan[k].notification.user_id == id);
        }
    }
}

/// Direct mentions of different known users: one notification for each, in
/// order, none of them with a team.
pub proof fn lemma_direct_mentions(event: Event, rs: Seq<ResolutionView>)
    requires
        notifies(event),
        forall|i: int| 0 <= i < rs.len() ==> is_known_user(#[trigger] rs[i]),
        forall|i: int, j: int|
            0 <= i < j < rs.len() ==> known_user_id(rs[i]) != known_user_id(rs[j]),
    ensures
        planned(event, rs).len() == rs.len(),
        forall|i: int|
            0 <= i < rs.len() ==> {
                &&& (#[trigger] planned(event, rs)[i]).notification.team_name is None
                &&& planned(event, rs)[i].notification.user_id == known_user_id(rs[i])
                &&& pinged(event, rs)[i] == pings_of(rs[i])[0]
            },
{
    let all = all_pings(rs);
    lemma_pings_of_known_users(rs);
    assert forall|i: int| 0 <= i < rs.len() implies (#[trigger] all[i]).id == known_user_id(rs[i])
        && all[i].team_name is None by {
        assert(is_known_user(rs[i]));
        assert(all[i] == pings_of(rs[i])[0]);
    }
    assert forall|i: int, j: int| 0 <= i < j < all.len() implies all[i].id != all[j].id by {
        assert(known_user_id(rs[i]) != known_user_id(rs[j]));
    }
    lemma_first_per_id_keeps_distinct(all);
}

/// A mention of one team whose members have different ids that all fit: one
/// notification for each member, in the members' order, each with the
/// team's name.
pub proof fn lemma_team_mention(event: Event, team: TeamView)
    requires
        notifies(event),
        forall|i: int| 0 <= i < team.members.len() ==> fits((#[trigger] team.members[i]).id),
        forall|i: int, j: int|
            0 <= i < j < team.members.len() ==> team.members[i].id != team.members[j].id,
    ensures
        planned(event, seq![ResolutionView::Team(Some(team))]).len() == team.members.len(),
        forall|i: int|
            0 <= i < team.members.len() ==> {
                &&& (#[trigger] planned(event, seq![ResolutionView::Team(Some(team))])[i]).notification.team_name
                    == Some(team.name)
                &&& planned(event, seq![ResolutionView::Team(Some(team))])[i].notification.user_id
                    == team.members[i].id as i64
                &&& planned(event, seq![ResolutionView::Team(Some(team))])[i].login == team.members[i].login
            },
{
    let rs = seq![ResolutionView::Team(Some(team))];
    let all = all_pings(rs);
    let members = team.members;
    assert(rs.drop_last() =~= Seq::<ResolutionView>::empty());
    assert(all_pings(rs.drop_last()) =~= Seq::<PingView>::empty());
    assert(all =~= member_pings(members, team.name));
    lemma_pings_of_members(members, team.name);
    assert forall|i: int, j: int| 0 <= i < j < all.len() implies all[i].id != all[j].id by {
        assert(all[i] == member_ping(members[i], team.name));
        assert(all[j] == member_ping(members[j], team.name));
        assert(fits(members[i].id) && fits(members[j].id));
        assert(members[i].id != members[j].id);
    }
    lemma_first_per_id_keeps_distinct(all);
    assert forall|i: int| 0 <= i < members.len() implies {
        &&& (#[trigger] planned(event, rs)[i]).notification.team_name == Some(team.name)
        &&& planned(event, rs)[i].notification.user_id == members[i].id as i64
        &&& planned(event, rs)[i].login == members[i].login
    } by {
        assert(all[i] == member_ping(members[i], team.name));
    }
}

/// An event that is not admitted (an issue that was not opened, a comment
/// that was not created) asks the directory nothing and records nothing,
/// whatever its body holds.
pub proof fn lemma_unadmitted_event_records_nothing(event: Event, rs: Seq<ResolutionView>)
    requires
        !event.admitted(),
    ensures
        requests_of(event) == Seq::<RequestView>::empty(),
        planned(event, rs) == Seq::<RecordingView>::empty(),
{
    assert(requests_of(event) =~= Seq::<RequestView>::empty());
    assert(planned(event, rs) =~= Seq::<RecordingView>::empty());
}

} // verus!
