//! The per-tick pipeline: one foreground-window snapshot runs through
//! identity resolution and usage aggregation, and every failure is
//! reported back instead of stopping the loop.
//!
//! The host drives the loop: it waits out the fixed interval, takes the
//! snapshot — or none, when the platform query fails — and calls `tick`.
//! A tick without a snapshot touches nothing; errors underneath leave the
//! store exactly as the contracts of the resolver and aggregator say.

use vstd::prelude::*;

use crate::aggregator::manage_usage_logs;
use crate::aggregator::manage_usage_logs_spec;
use crate::paths::executable_file_name;
use crate::paths::executable_name_from_path;
use crate::resolver::application_step_fails;
use crate::resolver::interned_application_id;
use crate::resolver::interned_applications;
use crate::resolver::interned_windows;
use crate::resolver::lemma_interned_application_stable;
use crate::resolver::lemma_interned_window_stable;
use crate::resolver::resolve;
use crate::resolver::resolve_result;
use crate::resolver::resolve_succeeds;
use crate::resolver::resolve_windows;
use crate::resolver::resolved_window_id;
use crate::store::can_assign_id;
use crate::store::has_log;
use crate::store::has_user;
use crate::store::lemma_log_index_unique;
use crate::store::log_index;
use crate::store::log_matches;
use crate::store::logs_unique;
use crate::store::store_inv;
use crate::store::user_id_of;
use crate::store::Date;
use crate::store::Store;
use crate::store::StoreError;
use crate::store::StoreView;
use crate::store::UsageLog;

verus! {

/// Seconds between two ticks of the sampling loop.
pub const MONITOR_INTERVAL: u64 = 60;

/// What the platform reports about the foreground window: the executable
/// path of the owning process and the window's title text.
pub struct Snapshot {
    pub executable_path: String,
    pub window_title: String,
}

pub ghost struct SnapshotView {
    pub executable_path: Seq<char>,
    pub window_title: Seq<char>,
}

impl View for Snapshot {
    type V = SnapshotView;

    open spec fn view(&self) -> SnapshotView {
        SnapshotView {
            executable_path: self.executable_path@,
            window_title: self.window_title@,
        }
    }
}

pub open spec fn snapshot_views(s: Option<Snapshot>) -> Option<SnapshotView> {
    match s {
        Some(v) => Some(v@),
        None => None,
    }
}

/// How one tick went; every variant is survivable and the loop goes on.
#[derive(Clone, Copy, PartialEq, Eq, Structural, Debug)]
pub enum TickOutcome {
    /// The platform snapshot failed; nothing was touched this tick.
    SkippedNoSnapshot,
    /// The pair resolved and the day's usage row was created or grown.
    Recorded { application_id: i64, window_id: i64 },
    /// Identity resolution stopped on a store error.
    ResolveFailed { error: StoreError },
    /// Resolution went through but recording the time did not.
    RecordFailed { error: StoreError },
}

/// The store and outcome one tick leaves behind.
pub open spec fn tick_spec(
    pre: StoreView,
    user_name: Seq<char>,
    snapshot: Option<SnapshotView>,
    today: Date,
    interval_seconds: i64,
) -> (StoreView, TickOutcome) {
    match snapshot {
        None => (pre, TickOutcome::SkippedNoSnapshot),
        Some(snap) => {
            let exe = executable_file_name(snap.executable_path);
            let title = snap.window_title;
            let mid = StoreView {
                applications: interned_applications(pre.applications, exe),
                windows: resolve_windows(pre, exe, title),
                ..pre
            };
            match resolve_result(pre, exe, title) {
                Err(e) => (mid, TickOutcome::ResolveFailed { error: e }),
                Ok(pair) => {
                    let m = manage_usage_logs_spec(
                        mid,
                        user_name,
                        Some(pair.1),
                        today,
                        interval_seconds,
                    );
                    let post = StoreView { usage_logs: m.0, ..mid };
                    match m.1 {
                        Ok(u) => (
                            post,
                            TickOutcome::Recorded {
                                application_id: pair.0,
                                window_id: pair.1,
                            },
                        ),
                        Err(e) => (post, TickOutcome::RecordFailed { error: e }),
                    }
                },
            }
        },
    }
}

/// One pass of the sampling pipeline: resolve the snapshot's identities,
/// then record the elapsed interval against today's usage row.
pub fn tick(
    store: &mut Store,
    user_name: &str,
    snapshot: Option<Snapshot>,
    today: Date,
    interval_seconds: i64,
) -> (outcome: TickOutcome)
    requires
        old(store).wf(),
        logs_unique(old(store)@.usage_logs),
        interval_seconds >= 0,
    ensures
        final(store).wf(),
        logs_unique(final(store)@.usage_logs),
        final(store)@ == tick_spec(
            old(store)@,
            user_name@,
            snapshot_views(snapshot),
            today,
            interval_seconds,
        ).0,
        outcome == tick_spec(
            old(store)@,
            user_name@,
            snapshot_views(snapshot),
            today,
            interval_seconds,
        ).1,
{
    let snap = match snapshot {
        Some(s) => s,
        None => {
            return TickOutcome::SkippedNoSnapshot;
        },
    };
    let exe = executable_name_from_path(snap.executable_path.as_str());
    match resolve(store, exe.as_str(), snap.window_title.as_str()) {
        Err(e) => {
            proof {
                assert(store@ =~= StoreView {
                    applications: interned_applications(
                        old(store)@.applications,
                        executable_file_name(snap@.executable_path),
                    ),
                    windows: resolve_windows(
                        old(store)@,
                        executable_file_name(snap@.executable_path),
                        snap@.window_title,
                    ),
                    ..old(store)@
                });
            }
            TickOutcome::ResolveFailed { error: e }
        },
        Ok((application_id, window_id)) => {
            proof {
                assert(store@ =~= StoreView {
                    applications: interned_applications(
                        old(store)@.applications,
                        executable_file_name(snap@.executable_path),
                    ),
                    windows: resolve_windows(
                        old(store)@,
                        executable_file_name(snap@.executable_path),
                        snap@.window_title,
                    ),
                    ..old(store)@
                });
            }
            match manage_usage_logs(store, user_name, Some(window_id), today, interval_seconds) {
                Ok(_) => TickOutcome::Recorded { application_id, window_id },
                Err(e) => TickOutcome::RecordFailed { error: e },
            }
        },
    }
}

/// One element of a sampling trace: everything a single tick is given.
pub ghost struct TickInput {
    pub user_name: Seq<char>,
    pub snapshot: Option<SnapshotView>,
    pub today: Date,
    pub interval_seconds: i64,
}

/// The store a sequence of ticks leaves behind, first input first.
pub open spec fn run_ticks(pre: StoreView, inputs: Seq<TickInput>) -> StoreView
    decreases inputs.len(),
{
    if inputs.len() == 0 {
        pre
    } else {
        let mid = run_ticks(pre, inputs.drop_last());
        let last = inputs.last();
        tick_spec(mid, last.user_name, last.snapshot, last.today, last.interval_seconds).0
    }
}

/// The same observation handed to n ticks in a row.
pub open spec fn repeated_observation(
    user_name: Seq<char>,
    snap: SnapshotView,
    today: Date,
    interval_seconds: i64,
    n: nat,
) -> Seq<TickInput> {
    Seq::new(
        n,
        |k: int| TickInput { user_name, snapshot: Some(snap), today, interval_seconds },
    )
}

/// Every row of the older usage table still stands at its index in the
/// newer one, identity fields untouched and the counter no smaller.
pub open spec fn logs_only_grow(pre: Seq<UsageLog>, post: Seq<UsageLog>) -> bool {
    &&& post.len() >= pre.len()
    &&& forall|i: int|
        0 <= i < pre.len() ==> {
            let a = #[trigger] pre[i];
            let b = #[trigger] post[i];
            &&& b.log_id == a.log_id
            &&& b.user_id == a.user_id
            &&& b.window_id == a.window_id
            &&& b.date == a.date
            &&& b.time_spent >= a.time_spent
        }
}

/// One tick never removes a usage row, never reassigns one to another
/// window or day, and never shrinks a counter.
pub proof fn lemma_tick_monotonic(
    pre: StoreView,
    user_name: Seq<char>,
    snapshot: Option<SnapshotView>,
    today: Date,
    interval_seconds: i64,
)
    requires
        interval_seconds >= 0,
    ensures
        logs_only_grow(
            pre.usage_logs,
            tick_spec(pre, user_name, snapshot, today, interval_seconds).0.usage_logs,
        ),
{
}

/// Accumulated seconds never decrease across any sequence of ticks, nor is
/// a usage row ever removed or reassigned.
pub proof fn lemma_run_ticks_monotonic(pre: StoreView, inputs: Seq<TickInput>)
    requires
        forall|k: int| 0 <= k < inputs.len() ==> (#[trigger] inputs[k]).interval_seconds >= 0,
    ensures
        logs_only_grow(pre.usage_logs, run_ticks(pre, inputs).usage_logs),
    decreases inputs.len(),
{
    if inputs.len() > 0 {
        let rest = inputs.drop_last();
        lemma_run_ticks_monotonic(pre, rest);
        let mid = run_ticks(pre, rest);
        let last = inputs.last();
        lemma_tick_monotonic(mid, last.user_name, last.snapshot, last.today, last.interval_seconds);
    }
}

/// A window observed on n consecutive ticks of one calendar day: the first
/// tick creates the day's row seeded at zero and each later tick adds the
/// interval, so exactly one new row exists and it holds (n - 1) times the
/// interval, while everything already stored stays as it was.
pub proof fn lemma_consecutive_ticks_accumulate(
    pre: StoreView,
    user_name: Seq<char>,
    snap: SnapshotView,
    today: Date,
    interval_seconds: i64,
    n: nat,
)
    requires
        store_inv(pre),
        logs_unique(pre.usage_logs),
        has_user(pre.users, user_name),
        interval_seconds >= 0,
        n >= 1,
        resolve_succeeds(pre, executable_file_name(snap.executable_path), snap.window_title),
        !has_log(
            pre.usage_logs,
            resolved_window_id(pre, executable_file_name(snap.executable_path), snap.window_title),
            today,
        ),
        can_assign_id(pre.usage_logs.len()),
        (n - 1) * interval_seconds <= i64::MAX,
    ensures
        ({
            let exe = executable_file_name(snap.executable_path);
            let title = snap.window_title;
            let wid = resolved_window_id(pre, exe, title);
            let post = run_ticks(
                pre,
                repeated_observation(user_name, snap, today, interval_seconds, n),
            );
            &&& post.users == pre.users
            &&& post.applications == interned_applications(pre.applications, exe)
            &&& post.windows == resolve_windows(pre, exe, title)
            &&& post.usage_logs == pre.usage_logs.push(
                UsageLog {
                    log_id: (pre.usage_logs.len() + 1) as i64,
                    user_id: user_id_of(pre.users, user_name),
                    window_id: wid,
                    date: today,
                    time_spent: ((n - 1) * interval_seconds) as i64,
                },
            )
        }),
    decreases n,
{
    let exe = executable_file_name(snap.executable_path);
    let title = snap.window_title;
    let aid = interned_application_id(pre.applications, exe);
    let wid = resolved_window_id(pre, exe, title);
    let inputs = repeated_observation(user_name, snap, today, interval_seconds, n);
    let input = TickInput { user_name, snapshot: Some(snap), today, interval_seconds };
    assert(inputs.last() == input);
    assert(0 <= (n - 1) * interval_seconds) by (nonlinear_arith)
        requires
            n >= 1,
            interval_seconds >= 0,
    ;
    if n == 1 {
        assert(inputs.drop_last() =~= repeated_observation(
            user_name,
            snap,
            today,
            interval_seconds,
            0,
        ));
        assert(run_ticks(pre, inputs.drop_last()) == pre);
        assert(resolve_result(pre, exe, title) == Ok::<(i64, i64), StoreError>((aid, wid)));
        assert((n - 1) * interval_seconds == 0) by (nonlinear_arith)
            requires
                n == 1,
        ;
        let s = tick_spec(pre, user_name, Some(snap), today, interval_seconds).0;
        assert(s.usage_logs =~= pre.usage_logs.push(
            UsageLog {
                log_id: (pre.usage_logs.len() + 1) as i64,
                user_id: user_id_of(pre.users, user_name),
                window_id: wid,
                date: today,
                time_spent: 0,
            },
        ));
    } else {
        assert((n - 2) * interval_seconds <= (n - 1) * interval_seconds) by (nonlinear_arith)
            requires
                n >= 2,
                interval_seconds >= 0,
        ;
        lemma_consecutive_ticks_accumulate(
            pre,
            user_name,
            snap,
            today,
            interval_seconds,
            (n - 1) as nat,
        );
        assert((n - 2) * interval_seconds + interval_seconds == (n - 1) * interval_seconds)
            by (nonlinear_arith)
            requires
                n >= 2,
        ;
        assert(0 <= (n - 2) * interval_seconds) by (nonlinear_arith)
            requires
                n >= 2,
                interval_seconds >= 0,
        ;
        assert(inputs.drop_last() =~= repeated_observation(
            user_name,
            snap,
            today,
            interval_seconds,
            (n - 1) as nat,
        ));
        let mid = run_ticks(pre, inputs.drop_last());
        let prev_row = UsageLog {
            log_id: (pre.usage_logs.len() + 1) as i64,
            user_id: user_id_of(pre.users, user_name),
            window_id: wid,
            date: today,
            time_spent: ((n - 2) * interval_seconds) as i64,
        };
        assert(mid.usage_logs == pre.usage_logs.push(prev_row));
        // The identities interned by the first tick are found again.
        lemma_interned_application_stable(pre.applications, exe);
        assert(mid.applications == interned_applications(pre.applications, exe));
        assert(!application_step_fails(mid.applications, exe));
        assert(interned_application_id(mid.applications, exe) == aid);
        lemma_interned_window_stable(pre.windows, aid, title);
        assert(mid.windows == interned_windows(pre.windows, aid, title));
        assert(crate::store::has_window_pair(mid.windows, Some(aid), title));
        assert(crate::store::window_id_by_title(mid.windows, title) == wid);
        assert(resolve_result(mid, exe, title) == Ok::<(i64, i64), StoreError>((aid, wid)));
        assert(interned_applications(mid.applications, exe) == mid.applications);
        assert(interned_windows(mid.windows, aid, title) == mid.windows);
        assert(resolve_windows(mid, exe, title) == mid.windows);
        let mid2 = StoreView {
            applications: interned_applications(mid.applications, exe),
            windows: resolve_windows(mid, exe, title),
            ..mid
        };
        assert(mid2 =~= mid);
        // Today's row is the one the first tick pushed, and no other.
        let k = pre.usage_logs.len() as int;
        assert(log_matches(mid.usage_logs[k], wid, today));
        assert(has_log(mid.usage_logs, wid, today));
        assert(logs_unique(mid.usage_logs)) by {
            assert forall|i: int, j: int|
                0 <= i < j < mid.usage_logs.len() implies !((
            #[trigger] mid.usage_logs[i]).window_id == (#[trigger] mid.usage_logs[j]).window_id
                && mid.usage_logs[i].date == mid.usage_logs[j].date) by {
                if j == k {
                    assert(mid.usage_logs[i] == pre.usage_logs[i]);
                    assert(!log_matches(pre.usage_logs[i], wid, today));
                }
            }
        }
        lemma_log_index_unique(mid.usage_logs, prev_row, wid, today);
        assert(log_index(mid.usage_logs, wid, today) == k);
        assert(has_user(mid.users, user_name));
        let m = manage_usage_logs_spec(mid, user_name, Some(wid), today, interval_seconds);
        assert(m.0 =~= pre.usage_logs.push(
            UsageLog {
                log_id: (pre.usage_logs.len() + 1) as i64,
                user_id: user_id_of(pre.users, user_name),
                window_id: wid,
                date: today,
                time_spent: ((n - 1) * interval_seconds) as i64,
            },
        ));
    }
}

/// Day rollover: the first tick of a new day pushes a zero row for the
/// window, and every row recorded for earlier days stays exactly as it
/// was.
pub proof fn lemma_day_rollover(
    pre: StoreView,
    user_name: Seq<char>,
    snap: SnapshotView,
    today: Date,
    interval_seconds: i64,
)
    requires
        store_inv(pre),
        logs_unique(pre.usage_logs),
        has_user(pre.users, user_name),
        interval_seconds >= 0,
        resolve_succeeds(pre, executable_file_name(snap.executable_path), snap.window_title),
        !has_log(
            pre.usage_logs,
            resolved_window_id(pre, executable_file_name(snap.executable_path), snap.window_title),
            today,
        ),
        can_assign_id(pre.usage_logs.len()),
    ensures
        ({
            let exe = executable_file_name(snap.executable_path);
            let title = snap.window_title;
            let wid = resolved_window_id(pre, exe, title);
            let post = tick_spec(pre, user_name, Some(snap), today, interval_seconds).0;
            &&& post.usage_logs == pre.usage_logs.push(
                UsageLog {
                    log_id: (pre.usage_logs.len() + 1) as i64,
                    user_id: user_id_of(pre.users, user_name),
                    window_id: wid,
                    date: today,
                    time_spent: 0,
                },
            )
            &&& forall|i: int|
                0 <= i < pre.usage_logs.len() ==> (#[trigger] post.usage_logs[i])
                    == pre.usage_logs[i]
        }),
{
    lemma_consecutive_ticks_accumulate(pre, user_name, snap, today, interval_seconds, 1);
    let inputs = repeated_observation(user_name, snap, today, interval_seconds, 1);
    assert(inputs.drop_last() =~= repeated_observation(
        user_name,
        snap,
        today,
        interval_seconds,
        0,
    ));
    assert(run_ticks(pre, inputs.drop_last()) == pre);
    assert(inputs.last() == TickInput { user_name, snapshot: Some(snap), today, interval_seconds });
}

} // verus!
