//! Usage aggregation: per window and calendar day, one usage row whose
//! accumulated seconds only ever grow.
//!
//! A tick that finds a row for (window, today) adds the elapsed seconds to
//! it; a tick that finds none creates the row seeded at zero and adds
//! nothing — the first observation of a pair records no time, only the
//! later ones accumulate.

use vstd::prelude::*;

use crate::store::can_assign_id;
use crate::store::has_log;
use crate::store::has_user;
use crate::store::lemma_log_index_unique;
use crate::store::lemma_user_id_unique;
use crate::store::log_index;
use crate::store::log_matches;
use crate::store::logs_unique;
use crate::store::user_id_of;
use crate::store::Date;
use crate::store::Store;
use crate::store::StoreError;
use crate::store::StoreView;
use crate::store::UsageLog;

verus! {

/// The usage-log table and result a record call leaves behind: increment
/// the day's row when it exists, create it seeded at zero when it does not.
pub open spec fn manage_usage_logs_spec(
    pre: StoreView,
    user_name: Seq<char>,
    window_id: Option<i64>,
    date: Date,
    interval_seconds: i64,
) -> (Seq<UsageLog>, Result<(), StoreError>) {
    if !has_user(pre.users, user_name) {
        (pre.usage_logs, Err(StoreError::RowNotFound))
    } else {
        match window_id {
            None => (pre.usage_logs, Ok(())),
            Some(wid) => {
                if has_log(pre.usage_logs, wid, date) {
                    let idx = log_index(pre.usage_logs, wid, date);
                    let row = pre.usage_logs[idx];
                    if row.time_spent + interval_seconds <= i64::MAX {
                        (
                            pre.usage_logs.update(
                                idx,
                                UsageLog {
                                    time_spent: (row.time_spent + interval_seconds) as i64,
                                    ..row
                                },
                            ),
                            Ok(()),
                        )
                    } else {
                        (pre.usage_logs, Err(StoreError::IntegerOverflow))
                    }
                } else if can_assign_id(pre.usage_logs.len()) {
                    (
                        pre.usage_logs.push(
                            UsageLog {
                                log_id: (pre.usage_logs.len() + 1) as i64,
                                user_id: user_id_of(pre.users, user_name),
                                window_id: wid,
                                date,
                                time_spent: 0,
                            },
                        ),
                        Ok(()),
                    )
                } else {
                    (pre.usage_logs, Err(StoreError::IntegerOverflow))
                }
            },
        }
    }
}

/// The full effect of a record call on the store.
pub open spec fn manage_usage_logs_post(
    pre: StoreView,
    post: StoreView,
    user_name: Seq<char>,
    window_id: Option<i64>,
    date: Date,
    interval_seconds: i64,
    r: Result<(), StoreError>,
) -> bool {
    let m = manage_usage_logs_spec(pre, user_name, window_id, date, interval_seconds);
    &&& post.users == pre.users
    &&& post.applications == pre.applications
    &&& post.windows == pre.windows
    &&& post.usage_logs == m.0
    &&& r == m.1
}

/// Records elapsed seconds against the window's usage row for the given
/// day, creating the row seeded at zero the first time the pair is seen.
pub fn manage_usage_logs(
    store: &mut Store,
    user_name: &str,
    window_id: Option<i64>,
    date: Date,
    interval_seconds: i64,
) -> (r: Result<(), StoreError>)
    requires
        old(store).wf(),
        logs_unique(old(store)@.usage_logs),
        interval_seconds >= 0,
    ensures
        final(store).wf(),
        logs_unique(final(store)@.usage_logs),
        manage_usage_logs_post(
            old(store)@,
            final(store)@,
            user_name@,
            window_id,
            date,
            interval_seconds,
            r,
        ),
{
    let user = match store.select_user_by_name(user_name) {
        Ok(u) => u,
        Err(e) => {
            return Err(e);
        },
    };
    proof {
        lemma_user_id_unique(store@.users, user@, user_name@);
    }
    let wid = match window_id {
        Some(w) => w,
        None => {
            return Ok(());
        },
    };
    if store.usage_logs_exists(wid, date) {
        match store.select_usage_log_by_window_id(wid, date) {
            Ok(usage_log) => {
                proof {
                    lemma_log_index_unique(store@.usage_logs, usage_log, wid, date);
                    let k = log_index(store@.usage_logs, wid, date);
                    assert(store@.usage_logs[k].log_id == k + 1);
                }
                match store.update_usage_logs_time(usage_log.log_id, interval_seconds) {
                    Ok(_) => {
                        proof {
                            let pre = old(store)@.usage_logs;
                            let post = store@.usage_logs;
                            let k = log_index(pre, wid, date);
                            assert forall|i: int, j: int|
                                0 <= i < j < post.len() implies !((#[trigger] post[i]).window_id
                                == (#[trigger] post[j]).window_id && post[i].date
                                == post[j].date) by {
                                assert(pre[i].window_id == post[i].window_id && pre[i].date
                                    == post[i].date);
                                assert(pre[j].window_id == post[j].window_id && pre[j].date
                                    == post[j].date);
                            }
                        }
                    },
                    Err(e) => {
                        return Err(e);
                    },
                }
            },
            Err(_) => {
                proof {
                    assert(false);
                }
            },
        }
    } else {
        match store.create_usage_logs(user.user_id, wid, date) {
            Ok(_) => {
                proof {
                    let pre = old(store)@.usage_logs;
                    let post = store@.usage_logs;
                    assert forall|i: int, j: int|
                        0 <= i < j < post.len() implies !((#[trigger] post[i]).window_id == (
                        #[trigger] post[j]).window_id && post[i].date == post[j].date) by {
                        if j == pre.len() as int {
                            assert(!log_matches(pre[i], wid, date));
                        }
                    }
                }
            },
            Err(e) => {
                return Err(e);
            },
        }
    }
    Ok(())
}

} // verus!
