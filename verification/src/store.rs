//! The entity store: rows for users (the tracked principal), applications,
//! application windows and usage logs, with get-by-natural-key and create
//! primitives.
//!
//! Rows live in four append-only tables. Row identifiers are assigned on
//! creation, counting up from 1, so the row with identifier `n` stands at
//! index `n - 1` of its table. `UserName`, `ExecutableName` and `WindowName`
//! are unique keys; window-title uniqueness is global, not scoped to an
//! application. Usage-log rows carry no uniqueness constraint of their own:
//! keeping at most one row per (window, day) is the aggregator's duty.

use vstd::prelude::*;

verus! {

/// A calendar day in the machine's local time zone.
#[derive(Clone, Copy, PartialEq, Eq, Structural, Debug)]
pub struct Date {
    pub year: i32,
    pub month: u8,
    pub day: u8,
}

/// How a store operation fails: the in-memory analogues of the constraint
/// and lookup failures a relational backend reports.
#[derive(Clone, Copy, PartialEq, Eq, Structural, Debug)]
pub enum StoreError {
    /// A lookup that must return a row found none.
    RowNotFound,
    /// An insert would duplicate a unique natural key.
    UniqueViolation,
    /// A counter or a row identifier would leave its integer range.
    IntegerOverflow,
}

/// The tracked principal: the local account usage is recorded for.
#[derive(Debug)]
pub struct User {
    pub user_id: i64,
    pub user_name: String,
}

pub ghost struct UserView {
    pub user_id: i64,
    pub user_name: Seq<char>,
}

impl View for User {
    type V = UserView;

    open spec fn view(&self) -> UserView {
        UserView { user_id: self.user_id, user_name: self.user_name@ }
    }
}

/// One row per distinct executable file name observed in the foreground.
#[derive(Debug)]
pub struct Application {
    pub application_id: i64,
    pub executable_name: String,
}

pub ghost struct ApplicationView {
    pub application_id: i64,
    pub executable_name: Seq<char>,
}

impl View for Application {
    type V = ApplicationView;

    open spec fn view(&self) -> ApplicationView {
        ApplicationView {
            application_id: self.application_id,
            executable_name: self.executable_name@,
        }
    }
}

/// One row per distinct window title observed, pointing at the application
/// that first produced it. The application reference may be absent.
#[derive(Debug)]
pub struct ApplicationWindow {
    pub window_id: i64,
    pub application_id: Option<i64>,
    pub window_name: String,
}

pub ghost struct WindowView {
    pub window_id: i64,
    pub application_id: Option<i64>,
    pub window_name: Seq<char>,
}

impl View for ApplicationWindow {
    type V = WindowView;

    open spec fn view(&self) -> WindowView {
        WindowView {
            window_id: self.window_id,
            application_id: self.application_id,
            window_name: self.window_name@,
        }
    }
}

/// The seconds a window held focus on one calendar day.
#[derive(Clone, Copy, PartialEq, Eq, Structural, Debug)]
pub struct UsageLog {
    pub log_id: i64,
    pub user_id: i64,
    pub window_id: i64,
    pub date: Date,
    pub time_spent: i64,
}

/// One row of the reporting query: a usage log joined with the window title
/// and the executable name it belongs to.
#[derive(Debug)]
pub struct UsageLogData {
    pub log_id: i64,
    pub window_name: String,
    pub executable_name: String,
    pub time_spent: i64,
    pub date: Date,
}

pub ghost struct UsageLogDataView {
    pub log_id: i64,
    pub window_name: Seq<char>,
    pub executable_name: Seq<char>,
    pub time_spent: i64,
    pub date: Date,
}

impl View for UsageLogData {
    type V = UsageLogDataView;

    open spec fn view(&self) -> UsageLogDataView {
        UsageLogDataView {
            log_id: self.log_id,
            window_name: self.window_name@,
            executable_name: self.executable_name@,
            time_spent: self.time_spent,
            date: self.date,
        }
    }
}

/// Durable storage for the four entity kinds, one table each.
pub struct Store {
    users: Vec<User>,
    applications: Vec<Application>,
    windows: Vec<ApplicationWindow>,
    usage_logs: Vec<UsageLog>,
}

#[verifier::ext_equal]
pub ghost struct StoreView {
    pub users: Seq<UserView>,
    pub applications: Seq<ApplicationView>,
    pub windows: Seq<WindowView>,
    pub usage_logs: Seq<UsageLog>,
}

impl View for Store {
    type V = StoreView;

    closed spec fn view(&self) -> StoreView {
        StoreView {
            users: self.users@.map_values(|u: User| u@),
            applications: self.applications@.map_values(|a: Application| a@),
            windows: self.windows@.map_values(|w: ApplicationWindow| w@),
            usage_logs: self.usage_logs@,
        }
    }
}

/// The structural facts every reachable store satisfies: row identifiers
/// count up from 1 in creation order, each unique key is unique, and no
/// usage counter is negative.
pub open spec fn store_inv(sv: StoreView) -> bool {
    &&& sv.users.len() <= i64::MAX
    &&& sv.applications.len() <= i64::MAX
    &&& sv.windows.len() <= i64::MAX
    &&& sv.usage_logs.len() <= i64::MAX
    &&& (forall|i: int| 0 <= i < sv.users.len() ==> (#[trigger] sv.users[i]).user_id == i + 1)
    &&& (forall|i: int|
        0 <= i < sv.applications.len() ==> (#[trigger] sv.applications[i]).application_id == i
            + 1)
    &&& (forall|i: int| 0 <= i < sv.windows.len() ==> (#[trigger] sv.windows[i]).window_id == i + 1)
    &&& (forall|i: int|
        0 <= i < sv.usage_logs.len() ==> (#[trigger] sv.usage_logs[i]).log_id == i + 1)
    &&& (forall|i: int, j: int|
        0 <= i < j < sv.users.len() ==> (#[trigger] sv.users[i]).user_name != (
        #[trigger] sv.users[j]).user_name)
    &&& (forall|i: int, j: int|
        0 <= i < j < sv.applications.len() ==> (#[trigger] sv.applications[i]).executable_name
            != (#[trigger] sv.applications[j]).executable_name)
    &&& (forall|i: int, j: int|
        0 <= i < j < sv.windows.len() ==> (#[trigger] sv.windows[i]).window_name != (
        #[trigger] sv.windows[j]).window_name)
    &&& (forall|i: int|
        0 <= i < sv.usage_logs.len() ==> (#[trigger] sv.usage_logs[i]).time_spent >= 0)
}

impl Store {
    pub open spec fn wf(&self) -> bool {
        store_inv(self@)
    }
}

/// Whether a table of this size can hand out one more row identifier.
pub open spec fn can_assign_id(len: nat) -> bool {
    len < i64::MAX
}

pub open spec fn has_user(users: Seq<UserView>, name: Seq<char>) -> bool {
    exists|i: int| 0 <= i < users.len() && (#[trigger] users[i]).user_name == name
}

/// The identifier of the user row holding this name; meaningful when the
/// name is present and the table's keys are unique.
pub open spec fn user_id_of(users: Seq<UserView>, name: Seq<char>) -> i64 {
    let i = choose|i: int| 0 <= i < users.len() && (#[trigger] users[i]).user_name == name;
    users[i].user_id
}

pub open spec fn has_application(apps: Seq<ApplicationView>, name: Seq<char>) -> bool {
    exists|i: int| 0 <= i < apps.len() && (#[trigger] apps[i]).executable_name == name
}

/// The identifier of the application row holding this executable name;
/// meaningful when the name is present and the table's keys are unique.
pub open spec fn application_id_of(apps: Seq<ApplicationView>, name: Seq<char>) -> i64 {
    let i = choose|i: int| 0 <= i < apps.len() && (#[trigger] apps[i]).executable_name == name;
    apps[i].application_id
}

/// The pair lookup the window-existence check performs: the title must
/// match, and the stored application id must equal the given one. An absent
/// given id compares equal to no stored id, so it can match no row.
pub open spec fn window_pair_matches(
    w: WindowView,
    application_id: Option<i64>,
    name: Seq<char>,
) -> bool {
    &&& w.window_name == name
    &&& application_id is Some
    &&& w.application_id == application_id
}

pub open spec fn has_window_pair(
    ws: Seq<WindowView>,
    application_id: Option<i64>,
    name: Seq<char>,
) -> bool {
    exists|i: int| 0 <= i < ws.len() && window_pair_matches(#[trigger] ws[i], application_id, name)
}

pub open spec fn has_window_title(ws: Seq<WindowView>, name: Seq<char>) -> bool {
    exists|i: int| 0 <= i < ws.len() && (#[trigger] ws[i]).window_name == name
}

/// The identifier of the window row holding this title; meaningful when the
/// title is present and titles are unique.
pub open spec fn window_id_by_title(ws: Seq<WindowView>, name: Seq<char>) -> i64 {
    let i = choose|i: int| 0 <= i < ws.len() && (#[trigger] ws[i]).window_name == name;
    ws[i].window_id
}

pub open spec fn log_matches(l: UsageLog, window_id: i64, date: Date) -> bool {
    l.window_id == window_id && l.date == date
}

pub open spec fn has_log(logs: Seq<UsageLog>, window_id: i64, date: Date) -> bool {
    exists|i: int| 0 <= i < logs.len() && log_matches(#[trigger] logs[i], window_id, date)
}

/// The index of the usage row for this window and day; meaningful when such
/// a row exists and days are not duplicated per window.
pub open spec fn log_index(logs: Seq<UsageLog>, window_id: i64, date: Date) -> int {
    choose|i: int| 0 <= i < logs.len() && log_matches(#[trigger] logs[i], window_id, date)
}

/// At most one usage row per (window, day): the aggregator's invariant.
pub open spec fn logs_unique(logs: Seq<UsageLog>) -> bool {
    forall|i: int, j: int|
        0 <= i < j < logs.len() ==> !((#[trigger] logs[i]).window_id == (
        #[trigger] logs[j]).window_id && logs[i].date == logs[j].date)
}

/// The window row a given identifier denotes, when the table's positional
/// identifier layout holds.
pub open spec fn window_with_id(ws: Seq<WindowView>, id: i64) -> Option<WindowView> {
    if 1 <= id && id as int <= ws.len() as int {
        Some(ws[id as int - 1])
    } else {
        None
    }
}

/// The application row a given identifier denotes, when the table's
/// positional identifier layout holds.
pub open spec fn application_with_id(apps: Seq<ApplicationView>, id: i64) -> Option<
    ApplicationView,
> {
    if 1 <= id && id as int <= apps.len() as int {
        Some(apps[id as int - 1])
    } else {
        None
    }
}

/// A usage row joined with its window and application, or nothing when one
/// of the two references dangles or the window has no application.
pub open spec fn joined_usage_row(sv: StoreView, l: UsageLog) -> Option<UsageLogDataView> {
    match window_with_id(sv.windows, l.window_id) {
        Some(w) => match w.application_id {
            Some(aid) => match application_with_id(sv.applications, aid) {
                Some(a) => Some(
                    UsageLogDataView {
                        log_id: l.log_id,
                        window_name: w.window_name,
                        executable_name: a.executable_name,
                        time_spent: l.time_spent,
                        date: l.date,
                    },
                ),
                None => None,
            },
            None => None,
        },
        None => None,
    }
}

/// The reporting rows for one day: each usage row of that day that joins
/// onto a window and an application, in storage order.
pub open spec fn usage_log_data_for(sv: StoreView, logs: Seq<UsageLog>, date: Date) -> Seq<
    UsageLogDataView,
>
    decreases logs.len(),
{
    if logs.len() == 0 {
        Seq::empty()
    } else {
        let init = usage_log_data_for(sv, logs.drop_last(), date);
        let l = logs.last();
        if l.date == date {
            match joined_usage_row(sv, l) {
                Some(d) => init.push(d),
                None => init,
            }
        } else {
            init
        }
    }
}

/// With unique user names, any row holding a name carries the identifier
/// `user_id_of` denotes for it.
pub proof fn lemma_user_id_unique(users: Seq<UserView>, u: UserView, name: Seq<char>)
    requires
        forall|i: int, j: int|
            0 <= i < j < users.len() ==> (#[trigger] users[i]).user_name != (
            #[trigger] users[j]).user_name,
        users.contains(u),
        u.user_name == name,
    ensures
        has_user(users, name),
        user_id_of(users, name) == u.user_id,
{
    let i = choose|i: int| 0 <= i < users.len() && users[i] == u;
    assert(users[i].user_name == name);
    let k = choose|k: int| 0 <= k < users.len() && (#[trigger] users[k]).user_name == name;
    assert(i == k);
}

/// With unique executable names, any row holding a name carries the
/// identifier `application_id_of` denotes for it.
pub proof fn lemma_application_id_unique(
    apps: Seq<ApplicationView>,
    a: ApplicationView,
    name: Seq<char>,
)
    requires
        forall|i: int, j: int|
            0 <= i < j < apps.len() ==> (#[trigger] apps[i]).executable_name != (
            #[trigger] apps[j]).executable_name,
        apps.contains(a),
        a.executable_name == name,
    ensures
        has_application(apps, name),
        application_id_of(apps, name) == a.application_id,
{
    let i = choose|i: int| 0 <= i < apps.len() && apps[i] == a;
    assert(apps[i].executable_name == name);
    let k = choose|k: int| 0 <= k < apps.len() && (#[trigger] apps[k]).executable_name == name;
    assert(i == k);
}

/// With unique titles, any row holding a title carries the identifier
/// `window_id_by_title` denotes for it.
pub proof fn lemma_window_id_unique(ws: Seq<WindowView>, w: WindowView, name: Seq<char>)
    requires
        forall|i: int, j: int|
            0 <= i < j < ws.len() ==> (#[trigger] ws[i]).window_name != (
            #[trigger] ws[j]).window_name,
        ws.contains(w),
        w.window_name == name,
    ensures
        has_window_title(ws, name),
        window_id_by_title(ws, name) == w.window_id,
{
    let i = choose|i: int| 0 <= i < ws.len() && ws[i] == w;
    assert(ws[i].window_name == name);
    let k = choose|k: int| 0 <= k < ws.len() && (#[trigger] ws[k]).window_name == name;
    assert(i == k);
}

/// With at most one usage row per (window, day), any matching row sits at
/// the index `log_index` denotes.
pub proof fn lemma_log_index_unique(logs: Seq<UsageLog>, l: UsageLog, window_id: i64, date: Date)
    requires
        logs_unique(logs),
        logs.contains(l),
        log_matches(l, window_id, date),
    ensures
        has_log(logs, window_id, date),
        0 <= log_index(logs, window_id, date) < logs.len(),
        logs[log_index(logs, window_id, date)] == l,
{
    let i = choose|i: int| 0 <= i < logs.len() && logs[i] == l;
    assert(log_matches(logs[i], window_id, date));
    let k = log_index(logs, window_id, date);
    assert(log_matches(logs[k], window_id, date));
    if i < k {
        assert(false);
    } else if k < i {
        assert(false);
    }
}

pub open spec fn create_user_post(
    pre: StoreView,
    post: StoreView,
    name: Seq<char>,
    r: Result<i64, StoreError>,
) -> bool {
    &&& post.applications == pre.applications
    &&& post.windows == pre.windows
    &&& post.usage_logs == pre.usage_logs
    &&& if has_user(pre.users, name) {
        &&& post.users == pre.users
        &&& r == Err::<i64, StoreError>(StoreError::UniqueViolation)
    } else if !can_assign_id(pre.users.len()) {
        &&& post.users == pre.users
        &&& r == Err::<i64, StoreError>(StoreError::IntegerOverflow)
    } else {
        &&& post.users == pre.users.push(
            UserView { user_id: (pre.users.len() + 1) as i64, user_name: name },
        )
        &&& r == Ok::<i64, StoreError>((pre.users.len() + 1) as i64)
    }
}

pub open spec fn create_application_post(
    pre: StoreView,
    post: StoreView,
    name: Seq<char>,
    r: Result<i64, StoreError>,
) -> bool {
    &&& post.users == pre.users
    &&& post.windows == pre.windows
    &&& post.usage_logs == pre.usage_logs
    &&& if has_application(pre.applications, name) {
        &&& post.applications == pre.applications
        &&& r == Err::<i64, StoreError>(StoreError::UniqueViolation)
    } else if !can_assign_id(pre.applications.len()) {
        &&& post.applications == pre.applications
        &&& r == Err::<i64, StoreError>(StoreError::IntegerOverflow)
    } else {
        &&& post.applications == pre.applications.push(
            ApplicationView {
                application_id: (pre.applications.len() + 1) as i64,
                executable_name: name,
            },
        )
        &&& r == Ok::<i64, StoreError>((pre.applications.len() + 1) as i64)
    }
}

pub open spec fn create_application_window_post(
    pre: StoreView,
    post: StoreView,
    application_id: Option<i64>,
    name: Seq<char>,
    r: Result<i64, StoreError>,
) -> bool {
    &&& post.users == pre.users
    &&& post.applications == pre.applications
    &&& post.usage_logs == pre.usage_logs
    &&& if has_window_title(pre.windows, name) {
        &&& post.windows == pre.windows
        &&& r == Err::<i64, StoreError>(StoreError::UniqueViolation)
    } else if !can_assign_id(pre.windows.len()) {
        &&& post.windows == pre.windows
        &&& r == Err::<i64, StoreError>(StoreError::IntegerOverflow)
    } else {
        &&& post.windows == pre.windows.push(
            WindowView {
                window_id: (pre.windows.len() + 1) as i64,
                application_id,
                window_name: name,
            },
        )
        &&& r == Ok::<i64, StoreError>((pre.windows.len() + 1) as i64)
    }
}

pub open spec fn create_usage_log_post(
    pre: StoreView,
    post: StoreView,
    user_id: i64,
    window_id: i64,
    date: Date,
    r: Result<i64, StoreError>,
) -> bool {
    &&& post.users == pre.users
    &&& post.applications == pre.applications
    &&& post.windows == pre.windows
    &&& if !can_assign_id(pre.usage_logs.len()) {
        &&& post.usage_logs == pre.usage_logs
        &&& r == Err::<i64, StoreError>(StoreError::IntegerOverflow)
    } else {
        &&& post.usage_logs == pre.usage_logs.push(
            UsageLog {
                log_id: (pre.usage_logs.len() + 1) as i64,
                user_id,
                window_id,
                date,
                time_spent: 0,
            },
        )
        &&& r == Ok::<i64, StoreError>((pre.usage_logs.len() + 1) as i64)
    }
}

pub open spec fn update_usage_logs_time_post(
    pre: StoreView,
    post: StoreView,
    usage_logs_id: i64,
    time: i64,
    r: Result<u64, StoreError>,
) -> bool {
    &&& post.users == pre.users
    &&& post.applications == pre.applications
    &&& post.windows == pre.windows
    &&& if 1 <= usage_logs_id && usage_logs_id as int <= pre.usage_logs.len() as int {
        let row = pre.usage_logs[usage_logs_id as int - 1];
        if row.time_spent + time <= i64::MAX {
            &&& post.usage_logs == pre.usage_logs.update(
                usage_logs_id as int - 1,
                (UsageLog { time_spent: (row.time_spent + time) as i64, ..row }),
            )
            &&& r == Ok::<u64, StoreError>(1u64)
        } else {
            &&& post.usage_logs == pre.usage_logs
            &&& r == Err::<u64, StoreError>(StoreError::IntegerOverflow)
        }
    } else {
        &&& post.usage_logs == pre.usage_logs
        &&& r == Ok::<u64, StoreError>(0u64)
    }
}

impl Store {
    /// An empty store: the state right after the tables are first created.
    pub fn new() -> (s: Store)
        ensures
            s.wf(),
            logs_unique(s@.usage_logs),
            s@.users == Seq::<UserView>::empty(),
            s@.applications == Seq::<ApplicationView>::empty(),
            s@.windows == Seq::<WindowView>::empty(),
            s@.usage_logs == Seq::<UsageLog>::empty(),
    {
        let s = Store {
            users: Vec::new(),
            applications: Vec::new(),
            windows: Vec::new(),
            usage_logs: Vec::new(),
        };
        proof {
            assert(s@.users =~= Seq::<UserView>::empty());
            assert(s@.applications =~= Seq::<ApplicationView>::empty());
            assert(s@.windows =~= Seq::<WindowView>::empty());
            assert(s@.usage_logs =~= Seq::<UsageLog>::empty());
        }
        s
    }

    /// Whether a user row with this name exists.
    pub fn user_exists(&self, user_name: &str) -> (present: bool)
        ensures
            present == has_user(self@.users, user_name@),
    {
        let key = user_name.to_owned();
        let n = self.users.len();
        let mut i: usize = 0;
        while i < n
            invariant
                n == self.users.len(),
                i <= n,
                key@ == user_name@,
                forall|j: int| 0 <= j < i ==> (#[trigger] self@.users[j]).user_name != user_name@,
            decreases n - i,
        {
            if self.users[i].user_name == key {
                assert(self@.users[i as int].user_name == user_name@);
                return true;
            }
            i += 1;
        }
        false
    }

    /// Creates a user row, or reports which constraint refused it.
    pub fn create_user(&mut self, user_name: &str) -> (r: Result<i64, StoreError>)
        requires
            old(self).wf(),
        ensures
            final(self).wf(),
            create_user_post(old(self)@, final(self)@, user_name@, r),
    {
        if self.user_exists(user_name) {
            return Err(StoreError::UniqueViolation);
        }
        let n = self.users.len();
        if n as u64 >= i64::MAX as u64 {
            return Err(StoreError::IntegerOverflow);
        }
        let id = n as i64 + 1;
        let row = User { user_id: id, user_name: user_name.to_owned() };
        self.users.push(row);
        proof {
            let pre = old(self)@.users;
            let post = self@.users;
            assert(post =~= pre.push(
                UserView { user_id: (pre.len() + 1) as i64, user_name: user_name@ },
            ));
            assert forall|j: int| 0 <= j < pre.len() implies (#[trigger] pre[j]).user_name
                != user_name@ by {
                assert(!has_user(pre, user_name@));
            }
        }
        Ok(id)
    }

    /// Returns the user row with this name, or reports that none exists.
    pub fn select_user_by_name(&self, user_name: &str) -> (r: Result<User, StoreError>)
        ensures
            match r {
                Ok(u) => has_user(self@.users, user_name@) && self@.users.contains(u@)
                    && u@.user_name == user_name@,
                Err(e) => !has_user(self@.users, user_name@) && e == StoreError::RowNotFound,
            },
    {
        let key = user_name.to_owned();
        let n = self.users.len();
        let mut i: usize = 0;
        while i < n
            invariant
                n == self.users.len(),
                i <= n,
                key@ == user_name@,
                forall|j: int| 0 <= j < i ==> (#[trigger] self@.users[j]).user_name != user_name@,
            decreases n - i,
        {
            if self.users[i].user_name == key {
                let u = User {
                    user_id: self.users[i].user_id,
                    user_name: self.users[i].user_name.clone(),
                };
                assert(u@ == self@.users[i as int]);
                return Ok(u);
            }
            i += 1;
        }
        Err(StoreError::RowNotFound)
    }

    /// Whether an application row with this executable name exists.
    pub fn application_exists(&self, executable_name: &str) -> (present: bool)
        ensures
            present == has_application(self@.applications, executable_name@),
    {
        let key = executable_name.to_owned();
        let n = self.applications.len();
        let mut i: usize = 0;
        while i < n
            invariant
                n == self.applications.len(),
                i <= n,
                key@ == executable_name@,
                forall|j: int|
                    0 <= j < i ==> (#[trigger] self@.applications[j]).executable_name
                        != executable_name@,
            decreases n - i,
        {
            if self.applications[i].executable_name == key {
                assert(self@.applications[i as int].executable_name == executable_name@);
                return true;
            }
            i += 1;
        }
        false
    }

    /// Creates an application row, or reports which constraint refused it.
    pub fn create_application(&mut self, executable_name: &str) -> (r: Result<i64, StoreError>)
        requires
            old(self).wf(),
        ensures
            final(self).wf(),
            create_application_post(old(self)@, final(self)@, executable_name@, r),
    {
        if self.application_exists(executable_name) {
            return Err(StoreError::UniqueViolation);
        }
        let n = self.applications.len();
        if n as u64 >= i64::MAX as u64 {
            return Err(StoreError::IntegerOverflow);
        }
        let id = n as i64 + 1;
        let row = Application { application_id: id, executable_name: executable_name.to_owned() };
        self.applications.push(row);
        proof {
            let pre = old(self)@.applications;
            let post = self@.applications;
            assert(post =~= pre.push(
                ApplicationView {
                    application_id: (pre.len() + 1) as i64,
                    executable_name: executable_name@,
                },
            ));
            assert forall|j: int| 0 <= j < pre.len() implies (#[trigger] pre[j]).executable_name
                != executable_name@ by {
                assert(!has_application(pre, executable_name@));
            }
        }
        Ok(id)
    }

    /// Returns the application row with this executable name, or reports
    /// that none exists.
    pub fn select_application_by_executable_name(&self, executable_name: &str) -> (r: Result<
        Application,
        StoreError,
    >)
        ensures
            match r {
                Ok(a) => has_application(self@.applications, executable_name@)
                    && self@.applications.contains(a@) && a@.executable_name == executable_name@,
                Err(e) => !has_application(self@.applications, executable_name@) && e
                    == StoreError::RowNotFound,
            },
    {
        let key = executable_name.to_owned();
        let n = self.applications.len();
        let mut i: usize = 0;
        while i < n
            invariant
                n == self.applications.len(),
                i <= n,
                key@ == executable_name@,
                forall|j: int|
                    0 <= j < i ==> (#[trigger] self@.applications[j]).executable_name
                        != executable_name@,
            decreases n - i,
        {
            if self.applications[i].executable_name == key {
                let a = Application {
                    application_id: self.applications[i].application_id,
                    executable_name: self.applications[i].executable_name.clone(),
                };
                assert(a@ == self@.applications[i as int]);
                return Ok(a);
            }
            i += 1;
        }
        Err(StoreError::RowNotFound)
    }

    /// Whether a window row matches both the title and the given application
    /// id. An absent id matches no row, whatever the row stores.
    pub fn application_window_exists(
        &self,
        application_id: Option<i64>,
        window_name: &str,
    ) -> (present: bool)
        ensures
            present == has_window_pair(self@.windows, application_id, window_name@),
    {
        let aid = match application_id {
            Some(a) => a,
            None => {
                return false;
            },
        };
        let key = window_name.to_owned();
        let n = self.windows.len();
        let mut i: usize = 0;
        while i < n
            invariant
                n == self.windows.len(),
                i <= n,
                key@ == window_name@,
                application_id == Some(aid),
                forall|j: int|
                    0 <= j < i ==> !window_pair_matches(
                        #[trigger] self@.windows[j],
                        application_id,
                        window_name@,
                    ),
            decreases n - i,
        {
            if self.windows[i].window_name == key {
                let row_matches = match self.windows[i].application_id {
                    Some(b) => b == aid,
                    None => false,
                };
                if row_matches {
                    assert(window_pair_matches(self@.windows[i as int], application_id, window_name@));
                    return true;
                }
            }
            i += 1;
        }
        false
    }

    /// Creates a window row, or reports which constraint refused it. The
    /// title is the unique key, whatever application id is given.
    pub fn create_application_window(
        &mut self,
        application_id: Option<i64>,
        window_name: &str,
    ) -> (r: Result<i64, StoreError>)
        requires
            old(self).wf(),
        ensures
            final(self).wf(),
            create_application_window_post(
                old(self)@,
                final(self)@,
                application_id,
                window_name@,
                r,
            ),
    {
        if self.window_title_exists(window_name) {
            return Err(StoreError::UniqueViolation);
        }
        let n = self.windows.len();
        if n as u64 >= i64::MAX as u64 {
            return Err(StoreError::IntegerOverflow);
        }
        let id = n as i64 + 1;
        let row = ApplicationWindow {
            window_id: id,
            application_id,
            window_name: window_name.to_owned(),
        };
        self.windows.push(row);
        proof {
            let pre = old(self)@.windows;
            let post = self@.windows;
            assert(post =~= pre.push(
                WindowView {
                    window_id: (pre.len() + 1) as i64,
                    application_id,
                    window_name: window_name@,
                },
            ));
            assert forall|j: int| 0 <= j < pre.len() implies (#[trigger] pre[j]).window_name
                != window_name@ by {
                assert(!has_window_title(pre, window_name@));
            }
        }
        Ok(id)
    }

    /// Returns the window row with this title, or reports that none exists.
    /// The lookup goes by the title alone.
    pub fn select_application_window_by_window_name(&self, window_name: &str) -> (r: Result<
        ApplicationWindow,
        StoreError,
    >)
        ensures
            match r {
                Ok(w) => has_window_title(self@.windows, window_name@)
                    && self@.windows.contains(w@) && w@.window_name == window_name@,
                Err(e) => !has_window_title(self@.windows, window_name@) && e
                    == StoreError::RowNotFound,
            },
    {
        let key = window_name.to_owned();
        let n = self.windows.len();
        let mut i: usize = 0;
        while i < n
            invariant
                n == self.windows.len(),
                i <= n,
                key@ == window_name@,
                forall|j: int|
                    0 <= j < i ==> (#[trigger] self@.windows[j]).window_name != window_name@,
            decreases n - i,
        {
            if self.windows[i].window_name == key {
                let w = ApplicationWindow {
                    window_id: self.windows[i].window_id,
                    application_id: self.windows[i].application_id,
                    window_name: self.windows[i].window_name.clone(),
                };
                assert(w@ == self@.windows[i as int]);
                return Ok(w);
            }
            i += 1;
        }
        Err(StoreError::RowNotFound)
    }

    /// Whether any window row carries this title.
    fn window_title_exists(&self, window_name: &str) -> (present: bool)
        ensures
            present == has_window_title(self@.windows, window_name@),
    {
        let key = window_name.to_owned();
        let n = self.windows.len();
        let mut i: usize = 0;
        while i < n
            invariant
                n == self.windows.len(),
                i <= n,
                key@ == window_name@,
                forall|j: int|
                    0 <= j < i ==> (#[trigger] self@.windows[j]).window_name != window_name@,
            decreases n - i,
        {
            if self.windows[i].window_name == key {
                assert(self@.windows[i as int].window_name == window_name@);
                return true;
            }
            i += 1;
        }
        false
    }

    /// Whether a usage row exists for this window on this day.
    pub fn usage_logs_exists(&self, window_id: i64, date: Date) -> (present: bool)
        ensures
            present == has_log(self@.usage_logs, window_id, date),
    {
        let n = self.usage_logs.len();
        let mut i: usize = 0;
        while i < n
            invariant
                n == self.usage_logs.len(),
                i <= n,
                forall|j: int|
                    0 <= j < i ==> !log_matches(#[trigger] self@.usage_logs[j], window_id, date),
            decreases n - i,
        {
            if self.usage_logs[i].window_id == window_id && self.usage_logs[i].date == date {
                assert(log_matches(self@.usage_logs[i as int], window_id, date));
                return true;
            }
            i += 1;
        }
        false
    }

    /// Creates a usage row for this window on this day, seeded at zero
    /// seconds. Nothing constrains duplicates here: the aggregator checks
    /// for an existing row first.
    pub fn create_usage_logs(&mut self, user_id: i64, window_id: i64, date: Date) -> (r: Result<
        i64,
        StoreError,
    >)
        requires
            old(self).wf(),
        ensures
            final(self).wf(),
            create_usage_log_post(old(self)@, final(self)@, user_id, window_id, date, r),
    {
        let n = self.usage_logs.len();
        if n as u64 >= i64::MAX as u64 {
            return Err(StoreError::IntegerOverflow);
        }
        let id = n as i64 + 1;
        let row = UsageLog { log_id: id, user_id, window_id, date, time_spent: 0 };
        self.usage_logs.push(row);
        Ok(id)
    }

    /// Adds seconds to the usage row with this identifier and says how many
    /// rows that touched; an addition that would leave the counter's range
    /// is refused whole.
    pub fn update_usage_logs_time(&mut self, usage_logs_id: i64, time: i64) -> (r: Result<
        u64,
        StoreError,
    >)
        requires
            old(self).wf(),
            time >= 0,
        ensures
            final(self).wf(),
            update_usage_logs_time_post(old(self)@, final(self)@, usage_logs_id, time, r),
    {
        let n = self.usage_logs.len();
        if usage_logs_id < 1 || usage_logs_id as u64 > n as u64 {
            return Ok(0);
        }
        let idx = (usage_logs_id - 1) as usize;
        let row = self.usage_logs[idx];
        if row.time_spent > i64::MAX - time {
            return Err(StoreError::IntegerOverflow);
        }
        let updated = UsageLog { time_spent: row.time_spent + time, ..row };
        self.usage_logs[idx] = updated;
        Ok(1)
    }

    /// Returns the usage row for this window and day, or reports that none
    /// exists.
    pub fn select_usage_log_by_window_id(&self, window_id: i64, date: Date) -> (r: Result<
        UsageLog,
        StoreError,
    >)
        ensures
            match r {
                Ok(l) => has_log(self@.usage_logs, window_id, date) && self@.usage_logs.contains(l)
                    && log_matches(l, window_id, date),
                Err(e) => !has_log(self@.usage_logs, window_id, date) && e
                    == StoreError::RowNotFound,
            },
    {
        let n = self.usage_logs.len();
        let mut i: usize = 0;
        while i < n
            invariant
                n == self.usage_logs.len(),
                i <= n,
                forall|j: int|
                    0 <= j < i ==> !log_matches(#[trigger] self@.usage_logs[j], window_id, date),
            decreases n - i,
        {
            if self.usage_logs[i].window_id == window_id && self.usage_logs[i].date == date {
                let l = self.usage_logs[i];
                assert(l == self@.usage_logs[i as int]);
                return Ok(l);
            }
            i += 1;
        }
        Err(StoreError::RowNotFound)
    }

    /// The reporting query: every usage row of the given day, joined with
    /// the window title and the executable name it belongs to.
    pub fn get_usage_log_data(&self, date: Date) -> (r: Vec<UsageLogData>)
        requires
            self.wf(),
        ensures
            r@.map_values(|d: UsageLogData| d@) == usage_log_data_for(
                self@,
                self@.usage_logs,
                date,
            ),
    {
        let n = self.usage_logs.len();
        let mut out: Vec<UsageLogData> = Vec::new();
        let mut i: usize = 0;
        proof {
            assert(out@.map_values(|d: UsageLogData| d@) =~= usage_log_data_for(
                self@,
                self@.usage_logs.take(0),
                date,
            ));
        }
        while i < n
            invariant
                self.wf(),
                n == self.usage_logs.len(),
                i <= n,
                out@.map_values(|d: UsageLogData| d@) == usage_log_data_for(
                    self@,
                    self@.usage_logs.take(i as int),
                    date,
                ),
            decreases n - i,
        {
            let ghost prefix = self@.usage_logs.take(i as int);
            let l = self.usage_logs[i];
            if l.date == date {
                // A row joins only when its window reference lands on a row
                // and that window in turn points at a stored application.
                if l.window_id >= 1 && (l.window_id as u64) <= (self.windows.len() as u64) {
                    let w = &self.windows[(l.window_id - 1) as usize];
                    if let Some(aid) = w.application_id {
                        if aid >= 1 && (aid as u64) <= (self.applications.len() as u64) {
                            let a = &self.applications[(aid - 1) as usize];
                            let d = UsageLogData {
                                log_id: l.log_id,
                                window_name: w.window_name.clone(),
                                executable_name: a.executable_name.clone(),
                                time_spent: l.time_spent,
                                date: l.date,
                            };
                            assert(joined_usage_row(self@, l) == Some(d@));
                            out.push(d);
                        }
                    }
                }
            }
            proof {
                let logs = self@.usage_logs;
                assert(logs.take(i as int + 1).drop_last() =~= prefix);
                assert(logs.take(i as int + 1).last() == l);
                assert(out@.map_values(|d: UsageLogData| d@) =~= usage_log_data_for(
                    self@,
                    logs.take(i as int + 1),
                    date,
                ));
            }
            i += 1;
        }
        proof {
            assert(self@.usage_logs.take(n as int) =~= self@.usage_logs);
        }
        out
    }
}

} // verus!
