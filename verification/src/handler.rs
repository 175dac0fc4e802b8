//! Handling one event against a directory and a ledger.

use crate::directory::Directory;
use crate::ledger::{without, Ledger, RowView};
use crate::model::{Event, Identifier, IdentifierView};
use crate::ping::{
    acknowledged_urls, acknowledgements, mention_requests, plan, planned, recording_views,
    requests_of, RecordingView,
};
use crate::scan::texts;
use vstd::prelude::*;
use vstd::string::*;

verus! {

/// The rows that stay after the notifications addressed to `user` have been
/// deleted for each of `urls`, one URL after the other.
pub open spec fn retracted(rows: Seq<RowView>, user: i64, urls: Seq<Seq<char>>) -> Seq<RowView>
    decreases urls.len(),
{
    if urls.len() == 0 {
        rows
    } else {
        without(retracted(rows, user, urls.drop_last()), user, IdentifierView::Url(urls.last()))
    }
}

/// The rows after the acknowledgement pass of `event`.
pub open spec fn acknowledged_rows(rows: Seq<RowView>, event: Event) -> Seq<RowView> {
    match event.actor_id() {
        Some(actor) => retracted(rows, actor, acknowledged_urls(event)),
        None => rows,
    }
}

/// The rows after `recordings` have been appended in order, the first with
/// the row id `next` and each with the id after that of the one before it.
/// A recording for which no row id is left is not stored.
pub open spec fn recorded(rows: Seq<RowView>, next: i64, recordings: Seq<RecordingView>) -> Seq<RowView>
    decreases recordings.len(),
{
    if recordings.len() == 0 {
        rows
    } else {
        let before = recorded(rows, next, recordings.drop_last());
        let id = next + recordings.len() - 1;
        if id < i64::MAX {
            before.push(RowView { id: id as i64, notification: recordings.last().notification })
        } else {
            before
        }
    }
}

/// The row id that comes next after `count` recordings.
pub open spec fn next_after(next: i64, count: nat) -> int {
    if next + count < i64::MAX {
        next + count
    } else {
        i64::MAX as int
    }
}

/// The display logins after those of `recordings` have been recorded in order.
pub open spec fn named(names: Map<i64, Seq<char>>, recordings: Seq<RecordingView>) -> Map<i64, Seq<char>>
    decreases recordings.len(),
{
    if recordings.len() == 0 {
        names
    } else {
        named(names, recordings.drop_last()).insert(
            recordings.last().notification.user_id,
            recordings.last().login,
        )
    }
}

/// What is recorded for `event` with the answers of `directory`.
pub open spec fn recordings_for(directory: Directory, event: Event) -> Seq<RecordingView> {
    planned(event, directory.answers(requests_of(event)))
}

/// Deletes the notifications addressed to `user` for each of `urls`.
pub fn retract(ledger: &mut Ledger, user: i64, urls: &Vec<String>)
    requires
        old(ledger).wf(),
    ensures
        final(ledger).wf(),
        final(ledger).rows() == retracted(old(ledger).rows(), user, texts(urls@)),
        final(ledger).usernames() == old(ledger).usernames(),
        final(ledger).next_id() == old(ledger).next_id(),
{
    let ghost all = texts(urls@);
    let mut i: usize = 0;
    assert(all.take(0) =~= Seq::<Seq<char>>::empty());
    while i < urls.len()
        invariant
            i <= urls.len(),
            ledger.wf(),
            all == texts(urls@),
            ledger.rows() == retracted(old(ledger).rows(), user, all.take(i as int)),
            ledger.usernames() == old(ledger).usernames(),
            ledger.next_id() == old(ledger).next_id(),
        decreases urls.len() - i,
    {
        proof {
            assert(all.take(i + 1).drop_last() =~= all.take(i as int));
            assert(all.take(i + 1).last() == urls@[i as int]@);
        }
        let key = Identifier::Url(urls[i].clone());
        let _ = ledger.delete_notification(user, &key);
        i += 1;
    }
    assert(all.take(urls.len() as int) =~= all);
}

/// Handles one event. First the acknowledgements of its body retract the
/// actor's notifications for the acknowledged URLs, whatever the event's
/// action. Then, for an admitted event, every user that its mentions reach
/// gets a display login and one notification. A lookup or a write that
/// fails is passed over and the rest goes on.
pub fn handle(ledger: &mut Ledger, directory: &Directory, event: &Event)
    requires
        old(ledger).wf(),
    ensures
        final(ledger).wf(),
        final(ledger).rows() == recorded(
            acknowledged_rows(old(ledger).rows(), *event),
            old(ledger).next_id(),
            recordings_for(*directory, *event),
        ),
        final(ledger).next_id() == next_after(
            old(ledger).next_id(),
            recordings_for(*directory, *event).len(),
        ),
        final(ledger).usernames() == named(old(ledger).usernames(), recordings_for(*directory, *event)),
{
    let urls = acknowledgements(event);
    match event.actor().id {
        Some(actor) => {
            retract(ledger, actor, &urls);
        },
        None => {},
    }
    let requests = mention_requests(event);
    let resolutions = directory.resolve_all(&requests);
    let recordings = plan(event, &resolutions);
    let ghost all = recording_views(recordings@);
    let ghost rows = ledger.rows();
    let ghost names = ledger.usernames();
    let ghost next = ledger.next_id();
    let mut i: usize = 0;
    assert(all.take(0) =~= Seq::<RecordingView>::empty());
    while i < recordings.len()
        invariant
            i <= recordings.len(),
            ledger.wf(),
            all == recording_views(recordings@),
            ledger.rows() == recorded(rows, next, all.take(i as int)),
            ledger.next_id() == next_after(next, i as nat),
            ledger.usernames() == named(names, all.take(i as int)),
        decreases recordings.len() - i,
    {
        let r = &recordings[i];
        proof {
            assert(all.take(i + 1).drop_last() =~= all.take(i as int));
            assert(all.take(i + 1).last() == r@);
        }
        ledger.record_username(r.notification.user_id, r.login.as_str());
        let _ = ledger.record_notification(&r.notification);
        i += 1;
    }
    assert(all.take(recordings.len() as int) =~= all);
}

} // verus!
