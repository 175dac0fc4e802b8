//! The notification ledger, held in memory: rows of notifications and the
//! display logins recorded for numeric ids.

use crate::model::{Identifier, IdentifierView, Notification, NotificationView};
use std::collections::HashMap;
use vstd::prelude::*;
use vstd::string::*;

verus! {

broadcast use vstd::std_specs::hash::group_hash_axioms;

/// A stored notification with the row id that the ledger gave it.
pub struct Row {
    pub id: i64,
    pub notification: Notification,
}

/// What a row holds, as plain values.
pub struct RowView {
    pub id: i64,
    pub notification: NotificationView,
}

impl View for Row {
    type V = RowView;

    open spec fn view(&self) -> RowView {
        RowView { id: self.id, notification: self.notification@ }
    }
}

/// Why a write to the ledger failed.
#[derive(Clone, Copy, Debug, PartialEq, Eq, Structural)]
pub enum LedgerError {
    /// No row id is left to give.
    Full,
}

/// Whether `row` is addressed to `user_id` and is the one that `key` names.
pub open spec fn row_matches(row: RowView, user_id: i64, key: IdentifierView) -> bool {
    row.notification.user_id == user_id && match key {
        IdentifierView::Id(id) => row.id == id,
        IdentifierView::Url(url) => row.notification.origin_url == url,
    }
}

/// The rows that stay when those matching `user_id` and `key` are deleted.
pub open spec fn without(rows: Seq<RowView>, user_id: i64, key: IdentifierView) -> Seq<RowView> {
    rows.filter(|r: RowView| !row_matches(r, user_id, key))
}

/// The views of the rows.
pub open spec fn row_views(rows: Seq<Row>) -> Seq<RowView> {
    Seq::new(rows.len(), |i: int| rows[i]@)
}

/// The views of the notifications.
pub open spec fn notification_views(v: Seq<Notification>) -> Seq<NotificationView> {
    Seq::new(v.len(), |i: int| v[i]@)
}

/// The ledger: the stored rows, the id that the next row gets, and the
/// display login recorded for each numeric id.
pub struct Ledger {
    rows: Vec<Row>,
    next_id: i64,
    names: HashMap<i64, String>,
}

impl Ledger {
    /// The stored rows, oldest first.
    pub closed spec fn rows(&self) -> Seq<RowView> {
        row_views(self.rows@)
    }

    /// The id that the next row will get.
    pub closed spec fn next_id(&self) -> i64 {
        self.next_id
    }

    /// The display login recorded for each numeric id.
    pub closed spec fn usernames(&self) -> Map<i64, Seq<char>> {
        self.names@.map_values(|s: String| s@)
    }

    /// Every stored row has an id below the next one to give, so that no two
    /// rows share an id.
    pub closed spec fn wf(&self) -> bool {
        forall|i: int| 0 <= i < self.rows.len() ==> (#[trigger] self.rows[i]).id < self.next_id
    }

    /// An empty ledger.
    pub fn new() -> (l: Ledger)
        ensures
            l.wf(),
            l.rows() == Seq::<RowView>::empty(),
            l.usernames() == Map::<i64, Seq<char>>::empty(),
            l.next_id() == 0,
    {
        let l = Ledger { rows: Vec::new(), next_id: 0, names: HashMap::new() };
        assert(l.rows() =~= Seq::<RowView>::empty());
        assert(l.usernames() =~= Map::<i64, Seq<char>>::empty());
        l
    }

    /// An empty ledger whose first row will get the id `first`.
    pub fn starting_at(first: i64) -> (l: Ledger)
        ensures
            l.wf(),
            l.rows() == Seq::<RowView>::empty(),
            l.usernames() == Map::<i64, Seq<char>>::empty(),
            l.next_id() == first,
    {
        let l = Ledger { rows: Vec::new(), next_id: first, names: HashMap::new() };
        assert(l.rows() =~= Seq::<RowView>::empty());
        assert(l.usernames() =~= Map::<i64, Seq<char>>::empty());
        l
    }

    /// The ids of the stored rows, oldest first.
    pub fn row_ids(&self) -> (out: Vec<i64>)
        ensures
            out@.len() == self.rows().len(),
            forall|i: int| 0 <= i < out@.len() ==> #[trigger] out@[i] == self.rows()[i].id,
    {
        let mut out: Vec<i64> = Vec::new();
        let mut i: usize = 0;
        while i < self.rows.len()
            invariant
                i <= self.rows.len(),
                out@.len() == i,
                forall|k: int| 0 <= k < i ==> #[trigger] out@[k] == self.rows()[k].id,
            decreases self.rows.len() - i,
        {
            out.push(self.rows[i].id);
            i += 1;
        }
        out
    }

    /// Records `login` as the display login of `id`, replacing an earlier one.
    pub fn record_username(&mut self, id: i64, login: &str)
        requires
            old(self).wf(),
        ensures
            final(self).wf(),
            final(self).usernames() == old(self).usernames().insert(id, login@),
            final(self).rows() == old(self).rows(),
            final(self).next_id() == old(self).next_id(),
    {
        self.names.insert(id, login.to_owned());
        assert(self.usernames() =~= old(self).usernames().insert(id, login@));
    }

    /// Appends `notification` as a new row and returns the row's id. Fails,
    /// and changes nothing, when no row id is left.
    pub fn record_notification(&mut self, notification: &Notification) -> (r: Result<i64, LedgerError>)
        requires
            old(self).wf(),
        ensures
            final(self).wf(),
            final(self).usernames() == old(self).usernames(),
            old(self).next_id() == i64::MAX <==> r is Err,
            match r {
                Ok(id) => {
                    &&& id == old(self).next_id()
                    &&& final(self).next_id() == id + 1
                    &&& final(self).rows() == old(self).rows().push(
                        RowView { id, notification: notification@ },
                    )
                },
                Err(e) => {
                    &&& e == LedgerError::Full
                    &&& final(self).rows() == old(self).rows()
                    &&& final(self).next_id() == old(self).next_id()
                },
            },
    {
        if self.next_id == i64::MAX {
            return Err(LedgerError::Full);
        }
        let id = self.next_id;
        self.rows.push(Row { id, notification: notification.duplicate() });
        self.next_id = id + 1;
        assert(self.rows() =~= old(self).rows().push(RowView { id, notification: notification@ }));
        Ok(id)
    }

    /// Deletes every notification addressed to `user_id` that `key` names,
    /// and returns how many there were. That there is none is no failure.
    pub fn delete_notification(&mut self, user_id: i64, key: &Identifier) -> (removed: usize)
        requires
            old(self).wf(),
        ensures
            final(self).wf(),
            final(self).rows() == without(old(self).rows(), user_id, key@),
            removed == old(self).rows().len() - final(self).rows().len(),
            final(self).usernames() == old(self).usernames(),
            final(self).next_id() == old(self).next_id(),
    {
        let mut kept: Vec<Row> = Vec::new();
        let mut removed: usize = 0;
        let mut i: usize = 0;
        let ghost all = self.rows();
        let ghost pred = |r: RowView| !row_matches(r, user_id, key@);
        proof {
            reveal(Seq::filter);
            assert(all.take(0) =~= Seq::<RowView>::empty());
            assert(row_views(kept@) =~= Seq::<RowView>::empty());
        }
        while i < self.rows.len()
            invariant
                i <= self.rows.len(),
                *self == *old(self),
                self.wf(),
                all == self.rows(),
                pred == |r: RowView| !row_matches(r, user_id, key@),
                row_views(kept@) == all.take(i as int).filter(pred),
                removed + kept.len() == i,
                forall|k: int| 0 <= k < kept.len() ==> (#[trigger] kept[k]).id < self.next_id,
            decreases self.rows.len() - i,
        {
            let row = &self.rows[i];
            let hit = row.notification.user_id == user_id && match key {
                Identifier::Id(id) => row.id == *id,
                Identifier::Url(url) => row.notification.origin_url == *url,
            };
            let ghost before = row_views(kept@);
            proof {
                reveal(Seq::filter);
                assert(all.take(i + 1).drop_last() =~= all.take(i as int));
                assert(all.take(i + 1).last() == row@);
                assert(hit == row_matches(row@, user_id, key@));
            }
            if hit {
                removed += 1;
            } else {
                kept.push(Row { id: row.id, notification: row.notification.duplicate() });
                assert(row_views(kept@) =~= before.push(row@));
            }
            i += 1;
        }
        assert(all.take(self.rows.len() as int) =~= all);
        self.rows = kept;
        removed
    }

    /// The number of stored rows.
    pub fn len(&self) -> (n: usize)
        ensures
            n == self.rows().len(),
    {
        self.rows.len()
    }

    /// The stored notifications, oldest first.
    pub fn notifications(&self) -> (out: Vec<Notification>)
        ensures
            out@.len() == self.rows().len(),
            forall|i: int| 0 <= i < out@.len() ==> (#[trigger] out@[i])@ == self.rows()[i].notification,
    {
        let mut out: Vec<Notification> = Vec::new();
        let mut i: usize = 0;
        while i < self.rows.len()
            invariant
                i <= self.rows.len(),
                out@.len() == i,
                forall|k: int| 0 <= k < i ==> (#[trigger] out@[k])@ == self.rows()[k].notification,
            decreases self.rows.len() - i,
        {
            out.push(self.rows[i].notification.duplicate());
            i += 1;
        }
        out
    }

    /// The display login recorded for `id`, if there is one.
    pub fn username(&self, id: i64) -> (r: Option<String>)
        ensures
            match r {
                Some(s) => self.usernames().contains_key(id) && self.usernames()[id] == s@,
                None => !self.usernames().contains_key(id),
            },
    {
        match self.names.get(&id) {
            Some(s) => Some(s.clone()),
            None => None,
        }
    }
}

/// Deleting by a key that no row addressed to the user matches leaves the
/// rows as they were.
pub proof fn lemma_delete_absent_changes_nothing(rows: Seq<RowView>, user_id: i64, key: IdentifierView)
    requires
        forall|i: int| 0 <= i < rows.len() ==> !row_matches(#[trigger] rows[i], user_id, key),
    ensures
        without(rows, user_id, key) == rows,
    decreases rows.len(),
{
    reveal(Seq::filter);
    if rows.len() > 0 {
        lemma_delete_absent_changes_nothing(rows.drop_last(), user_id, key);
        assert(rows.drop_last().push(rows.last()) =~= rows);
    }
}

/// After a delete no row addressed to the user matches the key, and every
/// row that stays was there before.
pub proof fn lemma_delete_leaves_no_match(rows: Seq<RowView>, user_id: i64, key: IdentifierView)
    ensures
        forall|i: int|
            0 <= i < without(rows, user_id, key).len() ==> !row_matches(
                #[trigger] without(rows, user_id, key)[i],
                user_id,
                key,
            ),
        without(without(rows, user_id, key), user_id, key) == without(rows, user_id, key),
{
    let pred = |r: RowView| !row_matches(r, user_id, key);
    let kept = rows.filter(pred);
    assert forall|i: int| 0 <= i < kept.len() implies !row_matches(#[trigger] kept[i], user_id, key) by {
        rows.lemma_filter_pred(pred, i);
    }
    lemma_delete_absent_changes_nothing(kept, user_id, key);
}

/// Recording a notification and then deleting by its user and URL leaves no
/// row for that user and URL: what stays is what the delete alone would have
/// left of the earlier rows.
pub proof fn lemma_record_then_delete(rows: Seq<RowView>, row: RowView)
    ensures
        without(rows.push(row), row.notification.user_id, IdentifierView::Url(row.notification.origin_url))
            == without(rows, row.notification.user_id, IdentifierView::Url(row.notification.origin_url)),
        forall|i: int|
            0 <= i < without(
                rows.push(row),
                row.notification.user_id,
                IdentifierView::Url(row.notification.origin_url),
            ).len() ==> !row_matches(
                #[trigger] without(
                    rows.push(row),
                    row.notification.user_id,
                    IdentifierView::Url(row.notification.origin_url),
                )[i],
                row.notification.user_id,
                IdentifierView::Url(row.notification.origin_url),
            ),
{
    let key = IdentifierView::Url(row.notification.origin_url);
    reveal(Seq::filter);
    assert(rows.push(row).drop_last() =~= rows);
    lemma_delete_leaves_no_match(rows, row.notification.user_id, key);
}

} // verus!
