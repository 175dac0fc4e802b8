//! What holds of the handling of an event, for every event, directory and
//! ledger.

use crate::directory::{find_team, find_user, team_views, Directory};
use crate::handler::{acknowledged_rows, named, next_after, recorded, recordings_for, retracted};
use crate::ledger::{lemma_delete_absent_changes_nothing, row_matches, RowView};
use crate::model::{member_views, Event, IdentifierView, TeamView};
use crate::ping::{
    acknowledged_urls, fits, mention_tokens, requests_of, RecordingView, ResolutionView,
};
use crate::ping_proofs::{
    is_known_user, known_user_id, lemma_direct_mentions, lemma_team_mention,
    lemma_unadmitted_event_records_nothing, notifies,
};
use crate::scan::{is_team_token, team_segment};
use vstd::prelude::*;

verus! {

/// Retracting for URLs under which nothing is addressed to the user leaves
/// the rows as they were.
pub proof fn lemma_retract_absent(rows: Seq<RowView>, user: i64, urls: Seq<Seq<char>>)
    requires
        forall|i: int, k: int|
            0 <= i < rows.len() && 0 <= k < urls.len() ==> !row_matches(
                #[trigger] rows[i],
                user,
                IdentifierView::Url(#[trigger] urls[k]),
            ),
    ensures
        retracted(rows, user, urls) == rows,
    decreases urls.len(),
{
    if urls.len() > 0 {
        let init = urls.drop_last();
        assert forall|i: int, k: int| 0 <= i < rows.len() && 0 <= k < init.len() implies !row_matches(
            #[trigger] rows[i],
            user,
            IdentifierView::Url(#[trigger] init[k]),
        ) by {
            assert(init[k] == urls[k]);
        }
        lemma_retract_absent(rows, user, init);
        assert forall|i: int| 0 <= i < rows.len() implies !row_matches(
            #[trigger] rows[i],
            user,
            IdentifierView::Url(urls.last()),
        ) by {
            assert(urls[urls.len() - 1] == urls.last());
        }
        lemma_delete_absent_changes_nothing(rows, user, IdentifierView::Url(urls.last()));
    }
}

/// An event that acknowledges only URLs under which its actor has no
/// notification leaves the rows as they were in its acknowledgement pass.
pub proof fn lemma_acknowledge_absent(rows: Seq<RowView>, event: Event)
    requires
        event.actor_id() is Some ==> forall|i: int, k: int|
            0 <= i < rows.len() && 0 <= k < acknowledged_urls(event).len() ==> !row_matches(
                #[trigger] rows[i],
                event.actor_id()->0,
                IdentifierView::Url(#[trigger] acknowledged_urls(event)[k]),
            ),
    ensures
        acknowledged_rows(rows, event) == rows,
{
    if event.actor_id() is Some {
        lemma_retract_absent(rows, event.actor_id()->0, acknowledged_urls(event));
    }
}

/// An event that is not admitted adds no row and no display login, and
/// uses no row id, whatever its body mentions.
pub proof fn lemma_unadmitted_event_adds_nothing(
    directory: Directory,
    event: Event,
    rows: Seq<RowView>,
    next: i64,
    names: Map<i64, Seq<char>>,
)
    requires
        !event.admitted(),
    ensures
        recordings_for(directory, event) == Seq::<RecordingView>::empty(),
        recorded(rows, next, recordings_for(directory, event)) == rows,
        named(names, recordings_for(directory, event)) == names,
        next_after(next, recordings_for(directory, event).len()) == next,
{
    lemma_unadmitted_event_records_nothing(event, directory.answers(requests_of(event)));
}

/// An event whose mention tokens all name single users, which the directory
/// knows under different ids that fit: one recording for each token, in the
/// tokens' order, with the token as login and without a team.
pub proof fn lemma_direct_mentions_of_event(directory: Directory, event: Event)
    requires
        notifies(event),
        directory.reachable,
        forall|i: int|
            0 <= i < mention_tokens(event).len() ==> {
                &&& !is_team_token(#[trigger] mention_tokens(event)[i])
                &&& find_user(member_views(directory.users@), mention_tokens(event)[i]) is Some
                &&& fits(find_user(member_views(directory.users@), mention_tokens(event)[i])->0)
            },
        forall|i: int, j: int|
            0 <= i < j < mention_tokens(event).len() ==> find_user(
                member_views(directory.users@),
                mention_tokens(event)[i],
            ) != find_user(member_views(directory.users@), mention_tokens(event)[j]),
    ensures
        recordings_for(directory, event).len() == mention_tokens(event).len(),
        forall|i: int|
            0 <= i < mention_tokens(event).len() ==> {
                &&& (#[trigger] recordings_for(directory, event)[i]).notification.team_name is None
                &&& recordings_for(directory, event)[i].login == mention_tokens(event)[i]
                &&& recordings_for(directory, event)[i].notification.user_id == find_user(
                    member_views(directory.users@),
                    mention_tokens(event)[i],
                )->0 as i64
            },
{
    let tokens = mention_tokens(event);
    let users = member_views(directory.users@);
    let rs = directory.answers(requests_of(event));
    assert forall|i: int| 0 <= i < rs.len() implies is_known_user(#[trigger] rs[i]) && rs[i]
        == (ResolutionView::User { login: tokens[i], id: find_user(users, tokens[i]) }) by {
        assert(!is_team_token(tokens[i]));
    }
    assert forall|i: int, j: int| 0 <= i < j < rs.len() implies known_user_id(rs[i])
        != known_user_id(rs[j]) by {
        assert(is_known_user(rs[i]) && is_known_user(rs[j]));
        assert(find_user(users, tokens[i]) != find_user(users, tokens[j]));
    }
    lemma_direct_mentions(event, rs);
}

/// An event whose only mention token names a team that the directory
/// knows, with members of different ids that all fit: one recording for each
/// member, in the members' order, each with the team's name.
pub proof fn lemma_team_mention_of_event(directory: Directory, event: Event, team: TeamView)
    requires
        notifies(event),
        directory.reachable,
        mention_tokens(event).len() == 1,
        is_team_token(mention_tokens(event)[0]),
        find_team(team_views(directory.teams@), team_segment(mention_tokens(event)[0])) == Some(team),
        forall|i: int| 0 <= i < team.members.len() ==> fits((#[trigger] team.members[i]).id),
        forall|i: int, j: int|
            0 <= i < j < team.members.len() ==> team.members[i].id != team.members[j].id,
    ensures
        recordings_for(directory, event).len() == team.members.len(),
        forall|i: int|
            0 <= i < team.members.len() ==> {
                &&& (#[trigger] recordings_for(directory, event)[i]).notification.team_name == Some(
                    team.name,
                )
                &&& recordings_for(directory, event)[i].login == team.members[i].login
                &&& recordings_for(directory, event)[i].notification.user_id
                    == team.members[i].id as i64
            },
{
    let rs = directory.answers(requests_of(event));
    assert(rs =~= seq![ResolutionView::Team(Some(team))]);
    lemma_team_mention(event, team);
}

} // verus!
