//! Identity resolution: a raw (executable name, window title) pair becomes
//! a durable (application id, window id) pair, creating rows the first time
//! a key is seen and reusing them ever after.
//!
//! The window-existence check compares title and application id together,
//! while the title alone is the unique key. So a title first seen under one
//! application is reused when the same application shows it again, and a
//! second application producing an already-stored title has its insert
//! refused — no second row for a title, ever.

use vstd::prelude::*;

use crate::store::application_id_of;
use crate::store::can_assign_id;
use crate::store::has_application;
use crate::store::has_window_pair;
use crate::store::has_window_title;
use crate::store::store_inv;
use crate::store::window_id_by_title;
use crate::store::ApplicationView;
use crate::store::Store;
use crate::store::StoreError;
use crate::store::StoreView;
use crate::store::WindowView;
use crate::store::lemma_application_id_unique;
use crate::store::lemma_window_id_unique;

verus! {

/// Whether the get-or-create of the application row cannot go through:
/// the name is new and the table cannot hand out another identifier.
pub open spec fn application_step_fails(apps: Seq<ApplicationView>, exe: Seq<char>) -> bool {
    !has_application(apps, exe) && !can_assign_id(apps.len())
}

/// The application table after the executable name is interned.
pub open spec fn interned_applications(apps: Seq<ApplicationView>, exe: Seq<char>) -> Seq<
    ApplicationView,
> {
    if !has_application(apps, exe) && can_assign_id(apps.len()) {
        apps.push(
            ApplicationView { application_id: (apps.len() + 1) as i64, executable_name: exe },
        )
    } else {
        apps
    }
}

/// The identifier the executable name resolves to: the stored one, or the
/// next free one when the row is first created.
pub open spec fn interned_application_id(apps: Seq<ApplicationView>, exe: Seq<char>) -> i64 {
    if has_application(apps, exe) {
        application_id_of(apps, exe)
    } else {
        (apps.len() + 1) as i64
    }
}

/// The window table after the title is interned under this application id.
pub open spec fn interned_windows(ws: Seq<WindowView>, aid: i64, title: Seq<char>) -> Seq<
    WindowView,
> {
    if !has_window_title(ws, title) && can_assign_id(ws.len()) {
        ws.push(
            WindowView {
                window_id: (ws.len() + 1) as i64,
                application_id: Some(aid),
                window_name: title,
            },
        )
    } else {
        ws
    }
}

/// The window table a resolve call leaves behind.
pub open spec fn resolve_windows(pre: StoreView, exe: Seq<char>, title: Seq<char>) -> Seq<
    WindowView,
> {
    if application_step_fails(pre.applications, exe) {
        pre.windows
    } else {
        interned_windows(pre.windows, interned_application_id(pre.applications, exe), title)
    }
}

/// What a resolve call returns: the resolved pair, or the store error that
/// stopped it.
pub open spec fn resolve_result(pre: StoreView, exe: Seq<char>, title: Seq<char>) -> Result<
    (i64, i64),
    StoreError,
> {
    if application_step_fails(pre.applications, exe) {
        Err(StoreError::IntegerOverflow)
    } else {
        let aid = interned_application_id(pre.applications, exe);
        if has_window_pair(pre.windows, Some(aid), title) {
            Ok((aid, window_id_by_title(pre.windows, title)))
        } else if has_window_title(pre.windows, title) {
            Err(StoreError::UniqueViolation)
        } else if can_assign_id(pre.windows.len()) {
            Ok((aid, (pre.windows.len() + 1) as i64))
        } else {
            Err(StoreError::IntegerOverflow)
        }
    }
}

/// Whether a resolve call returns a pair at all: the application step can
/// go through, and the title either pairs up with the resolved id or is
/// free to be created.
pub open spec fn resolve_succeeds(pre: StoreView, exe: Seq<char>, title: Seq<char>) -> bool {
    &&& !application_step_fails(pre.applications, exe)
    &&& {
        let aid = interned_application_id(pre.applications, exe);
        ||| has_window_pair(pre.windows, Some(aid), title)
        ||| (!has_window_title(pre.windows, title) && can_assign_id(pre.windows.len()))
    }
}

/// The window identifier a successful resolve call returns.
pub open spec fn resolved_window_id(pre: StoreView, exe: Seq<char>, title: Seq<char>) -> i64 {
    let aid = interned_application_id(pre.applications, exe);
    if has_window_pair(pre.windows, Some(aid), title) {
        window_id_by_title(pre.windows, title)
    } else {
        (pre.windows.len() + 1) as i64
    }
}

/// Interning an executable name a second time changes nothing: the row
/// exists afterwards, holds the same identifier, and interning is
/// idempotent.
pub proof fn lemma_interned_application_stable(apps: Seq<ApplicationView>, exe: Seq<char>)
    requires
        forall|i: int, j: int|
            0 <= i < j < apps.len() ==> (#[trigger] apps[i]).executable_name != (
            #[trigger] apps[j]).executable_name,
        !application_step_fails(apps, exe),
    ensures
        ({
            let apps1 = interned_applications(apps, exe);
            &&& has_application(apps1, exe)
            &&& interned_applications(apps1, exe) == apps1
            &&& interned_application_id(apps1, exe) == interned_application_id(apps, exe)
            &&& forall|i: int, j: int|
                0 <= i < j < apps1.len() ==> (#[trigger] apps1[i]).executable_name != (
                #[trigger] apps1[j]).executable_name
        }),
{
    let apps1 = interned_applications(apps, exe);
    if has_application(apps, exe) {
        assert(apps1 == apps);
    } else {
        let n = apps.len() as int;
        let row = ApplicationView { application_id: (n + 1) as i64, executable_name: exe };
        assert(apps1 == apps.push(row));
        assert(apps1[n] == row);
        assert(has_application(apps1, exe));
        assert forall|i: int, j: int|
            0 <= i < j < apps1.len() implies (#[trigger] apps1[i]).executable_name != (
        #[trigger] apps1[j]).executable_name by {
            if j < n {
            } else {
                assert(j == n);
                if apps1[i].executable_name == exe {
                    assert(apps[i].executable_name == exe);
                    assert(has_application(apps, exe));
                }
            }
        }
        lemma_application_id_unique(apps1, row, exe);
    }
}

/// Interning a title a second time under the same application id changes
/// nothing: the pair lookup succeeds afterwards and yields the identifier
/// the first interning produced.
pub proof fn lemma_interned_window_stable(ws: Seq<WindowView>, aid: i64, title: Seq<char>)
    requires
        forall|i: int, j: int|
            0 <= i < j < ws.len() ==> (#[trigger] ws[i]).window_name != (
            #[trigger] ws[j]).window_name,
        has_window_pair(ws, Some(aid), title) || (!has_window_title(ws, title) && can_assign_id(
            ws.len(),
        )),
    ensures
        ({
            let ws1 = interned_windows(ws, aid, title);
            &&& has_window_pair(ws1, Some(aid), title)
            &&& interned_windows(ws1, aid, title) == ws1
            &&& window_id_by_title(ws1, title) == (if has_window_pair(ws, Some(aid), title) {
                window_id_by_title(ws, title)
            } else {
                (ws.len() + 1) as i64
            })
            &&& forall|i: int, j: int|
                0 <= i < j < ws1.len() ==> (#[trigger] ws1[i]).window_name != (
                #[trigger] ws1[j]).window_name
        }),
{
    let ws1 = interned_windows(ws, aid, title);
    if has_window_pair(ws, Some(aid), title) {
        let i = choose|i: int|
            0 <= i < ws.len() && crate::store::window_pair_matches(
                #[trigger] ws[i],
                Some(aid),
                title,
            );
        assert(ws[i].window_name == title);
        assert(has_window_title(ws, title));
        assert(ws1 == ws);
    } else {
        let n = ws.len() as int;
        let row = WindowView {
            window_id: (n + 1) as i64,
            application_id: Some(aid),
            window_name: title,
        };
        assert(ws1 == ws.push(row));
        assert(ws1[n] == row);
        assert(crate::store::window_pair_matches(ws1[n], Some(aid), title));
        assert(has_window_pair(ws1, Some(aid), title));
        assert(has_window_title(ws1, title));
        assert forall|i: int, j: int|
            0 <= i < j < ws1.len() implies (#[trigger] ws1[i]).window_name != (
        #[trigger] ws1[j]).window_name by {
            if j < n {
            } else {
                assert(j == n);
                if ws1[i].window_name == title {
                    assert(ws[i].window_name == title);
                    assert(has_window_title(ws, title));
                }
            }
        }
        lemma_window_id_unique(ws1, row, title);
    }
}

/// The full effect of a resolve call on the store.
pub open spec fn resolve_post(
    pre: StoreView,
    post: StoreView,
    exe: Seq<char>,
    title: Seq<char>,
    r: Result<(i64, i64), StoreError>,
) -> bool {
    &&& post.users == pre.users
    &&& post.usage_logs == pre.usage_logs
    &&& post.applications == interned_applications(pre.applications, exe)
    &&& post.windows == resolve_windows(pre, exe, title)
    &&& r == resolve_result(pre, exe, title)
}

/// Resolves a raw (executable name, window title) pair to durable row
/// identifiers, creating the rows on first sight.
pub fn resolve(store: &mut Store, executable_name: &str, window_name: &str) -> (r: Result<
    (i64, i64),
    StoreError,
>)
    requires
        old(store).wf(),
    ensures
        final(store).wf(),
        resolve_post(old(store)@, final(store)@, executable_name@, window_name@, r),
{
    let application_id: i64;
    if !store.application_exists(executable_name) {
        application_id = match store.create_application(executable_name) {
            Ok(id) => id,
            Err(e) => {
                return Err(e);
            },
        };
    } else {
        application_id = match store.select_application_by_executable_name(executable_name) {
            Ok(a) => {
                proof {
                    lemma_application_id_unique(store@.applications, a@, executable_name@);
                }
                a.application_id
            },
            Err(e) => {
                proof {
                    assert(false);
                }
                return Err(e);
            },
        };
    }
    assert(application_id == interned_application_id(old(store)@.applications, executable_name@));
    let window_id: i64;
    if !store.application_window_exists(Some(application_id), window_name) {
        window_id = match store.create_application_window(Some(application_id), window_name) {
            Ok(id) => id,
            Err(e) => {
                return Err(e);
            },
        };
    } else {
        window_id = match store.select_application_window_by_window_name(window_name) {
            Ok(w) => {
                proof {
                    lemma_window_id_unique(store@.windows, w@, window_name@);
                }
                w.window_id
            },
            Err(e) => {
                proof {
                    let ws = store@.windows;
                    let i = choose|i: int|
                        0 <= i < ws.len() && crate::store::window_pair_matches(
                            #[trigger] ws[i],
                            Some(application_id),
                            window_name@,
                        );
                    assert(ws[i].window_name == window_name@);
                    assert(false);
                }
                return Err(e);
            },
        };
    }
    Ok((application_id, window_id))
}

/// Interning of applications: a resolve call leaves exactly one
/// application row holding the observed executable name, and a name that
/// already has its row gains no second one, however often resolution runs.
pub proof fn lemma_resolve_interns_application(
    pre: StoreView,
    post: StoreView,
    exe: Seq<char>,
    title: Seq<char>,
    r: Result<(i64, i64), StoreError>,
)
    requires
        store_inv(pre),
        resolve_post(pre, post, exe, title, r),
        can_assign_id(pre.applications.len()),
    ensures
        has_application(post.applications, exe),
        has_application(pre.applications, exe) ==> post.applications == pre.applications,
        forall|i: int, j: int|
            0 <= i < post.applications.len() && 0 <= j < post.applications.len() && (
            #[trigger] post.applications[i]).executable_name == exe && (
            #[trigger] post.applications[j]).executable_name == exe ==> i == j,
{
    if has_application(pre.applications, exe) {
        assert(post.applications == pre.applications);
    } else {
        let n = pre.applications.len() as int;
        assert(post.applications == pre.applications.push(
            ApplicationView { application_id: (n + 1) as i64, executable_name: exe },
        ));
        assert(post.applications[n].executable_name == exe);
        assert forall|i: int, j: int|
            0 <= i < post.applications.len() && 0 <= j < post.applications.len() && (
            #[trigger] post.applications[i]).executable_name == exe && (
            #[trigger] post.applications[j]).executable_name == exe implies i == j by {
            if i < n {
                assert(pre.applications[i].executable_name == exe);
                assert(has_application(pre.applications, exe));
            }
            if j < n {
                assert(pre.applications[j].executable_name == exe);
                assert(has_application(pre.applications, exe));
            }
        }
    }
}

/// Interning of windows: a title that already has its row leaves the
/// window table unchanged — also when a different executable produces it —
/// and no two window rows ever hold the same title.
pub proof fn lemma_resolve_interns_window(
    pre: StoreView,
    post: StoreView,
    exe: Seq<char>,
    title: Seq<char>,
    r: Result<(i64, i64), StoreError>,
)
    requires
        store_inv(pre),
        resolve_post(pre, post, exe, title, r),
    ensures
        has_window_title(pre.windows, title) ==> post.windows == pre.windows,
        r is Ok ==> has_window_title(post.windows, title),
        forall|i: int, j: int|
            0 <= i < post.windows.len() && 0 <= j < post.windows.len() && (
            #[trigger] post.windows[i]).window_name == title && (
            #[trigger] post.windows[j]).window_name == title ==> i == j,
{
    if application_step_fails(pre.applications, exe) {
        assert(post.windows == pre.windows);
    } else {
        let aid = interned_application_id(pre.applications, exe);
        if has_window_pair(pre.windows, Some(aid), title) {
            let i = choose|i: int|
                0 <= i < pre.windows.len() && crate::store::window_pair_matches(
                    #[trigger] pre.windows[i],
                    Some(aid),
                    title,
                );
            assert(pre.windows[i].window_name == title);
            assert(has_window_title(pre.windows, title));
        } else if !has_window_title(pre.windows, title) && can_assign_id(pre.windows.len()) {
            assert(post.windows[pre.windows.len() as int].window_name == title);
            assert(has_window_title(post.windows, title));
        }
    }
    let ws = post.windows;
    if !has_window_title(pre.windows, title) && ws != pre.windows {
        let n = pre.windows.len() as int;
        assert forall|i: int, j: int|
            0 <= i < ws.len() && 0 <= j < ws.len() && (#[trigger] ws[i]).window_name == title && (
            #[trigger] ws[j]).window_name == title implies i == j by {
            if i < n {
                assert(pre.windows[i].window_name == title);
                assert(has_window_title(pre.windows, title));
            }
            if j < n {
                assert(pre.windows[j].window_name == title);
                assert(has_window_title(pre.windows, title));
            }
        }
    }
}

} // verus!
