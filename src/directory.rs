//! The directory of users, applications and groups, and the queries over it.

use vstd::prelude::*;
use crate::models::{
    ApiError, App, AppResponse, UpdateUserRequest, User, UserResponse, app_response_of,
    user_response_of,
};
use crate::paging::{
    PaginatedResponse, effective_page, effective_page_size, lemma_page_window_len,
    lemma_window_push, page_len, page_offset, page_request_valid, page_window, resolve_page,
    window,
};
use crate::text_order::{lemma_text_lt_total, lemma_text_lt_transitive, text_less, text_lt};
use crate::search::{opt_contains_ignoring_case, contains_ignoring_case, field_matches, opt_field_matches};

verus! {

/// A user matches a search when its first, last or middle name, or its
/// email, contains the pattern, ignoring case.
pub open spec fn user_matches(u: User, pattern: Seq<char>) -> bool {
    ||| opt_contains_ignoring_case(u.first_name, pattern)
    ||| opt_contains_ignoring_case(u.last_name, pattern)
    ||| opt_contains_ignoring_case(u.middle_name, pattern)
    ||| contains_ignoring_case(u.email_id@, pattern)
}

/// Without a search every user is selected.
pub open spec fn user_selected(u: User, search: Option<Seq<char>>) -> bool {
    match search {
        Some(p) => user_matches(u, p),
        None => true,
    }
}

/// The users of `s` that a search selects, in the order of `s`.
pub open spec fn selected_users(s: Seq<User>, search: Option<Seq<char>>) -> Seq<User> {
    s.filter(|u: User| user_selected(u, search))
}

/// The view of an optional search text.
pub open spec fn search_view(search: Option<String>) -> Option<Seq<char>> {
    match search {
        Some(s) => Some(s@),
        None => None,
    }
}

/// An application matches a search when its name or client identifier
/// contains the pattern, ignoring case.
pub open spec fn app_matches(a: App, pattern: Seq<char>) -> bool {
    contains_ignoring_case(a.name@, pattern) || contains_ignoring_case(a.client_id@, pattern)
}

/// Without a search every application is selected.
pub open spec fn app_selected(a: App, search: Option<Seq<char>>) -> bool {
    match search {
        Some(p) => app_matches(a, p),
        None => true,
    }
}

/// The applications of `s` that a search selects, in the order of `s`.
pub open spec fn selected_apps(s: Seq<App>, search: Option<Seq<char>>) -> Seq<App> {
    s.filter(|a: App| app_selected(a, search))
}

/// Some application of `s` has this client identifier.
pub open spec fn has_client_id(s: Seq<App>, client_id: Seq<char>) -> bool {
    exists|i: int| 0 <= i < s.len() && s[i].client_id@ == client_id
}

/// Users are ordered newest first.
pub open spec fn users_ordered(s: Seq<User>) -> bool {
    forall|i: int, j: int| 0 <= i < j < s.len() ==> s[i].created_at >= s[j].created_at
}

/// Applications are ordered by name, from last to first.
pub open spec fn apps_ordered(s: Seq<App>) -> bool {
    forall|i: int, j: int| 0 <= i < j < s.len() ==> !text_lt(s[i].name@, s[j].name@)
}

/// No two applications share a client identifier.
pub open spec fn client_ids_unique(s: Seq<App>) -> bool {
    forall|i: int, j: int|
        0 <= i < s.len() && 0 <= j < s.len() && i != j ==> s[i].client_id@ != s[j].client_id@
}

/// No two users share an email.
pub open spec fn emails_unique(s: Seq<User>) -> bool {
    forall|i: int, j: int|
        0 <= i < s.len() && 0 <= j < s.len() && i != j ==> s[i].email_id@ != s[j].email_id@
}

/// Some user of `s` has this email.
pub open spec fn has_email(s: Seq<User>, email: Seq<char>) -> bool {
    exists|i: int| 0 <= i < s.len() && s[i].email_id@ == email
}

/// A user after an update: identity, email and creation time kept, the five
/// mutable attributes replaced.
pub open spec fn updated_user(u: User, req: UpdateUserRequest) -> User {
    User {
        first_name: req.first_name,
        middle_name: req.middle_name,
        last_name: req.last_name,
        is_active: req.is_active,
        is_root: req.is_root,
        ..u
    }
}

/// The system of record for users, applications and groups.
pub struct Directory {
    users: Vec<User>,
    apps: Vec<App>,
    groups: Vec<String>,
}

impl Directory {
    /// The users, newest first.
    pub closed spec fn users(&self) -> Seq<User> {
        self.users@
    }

    /// The applications, by name from last to first.
    pub closed spec fn apps(&self) -> Seq<App> {
        self.apps@
    }

    /// The identifiers of the access-control groups.
    pub closed spec fn groups(&self) -> Seq<Seq<char>> {
        self.groups@.map_values(|g: String| g@)
    }

    /// The orders and uniqueness that every directory keeps.
    pub open spec fn wf(&self) -> bool {
        &&& users_ordered(self.users())
        &&& emails_unique(self.users())
        &&& apps_ordered(self.apps())
        &&& client_ids_unique(self.apps())
    }

    /// An empty directory.
    pub fn new() -> (r: Directory)
        ensures
            r.wf(),
            r.users() == Seq::<User>::empty(),
            r.apps() == Seq::<App>::empty(),
            r.groups() == Seq::<Seq<char>>::empty(),
    {
        let r = Directory { users: Vec::new(), apps: Vec::new(), groups: Vec::new() };
        assert(r.groups() =~= Seq::<Seq<char>>::empty());
        r
    }

    /// Adds a user in its place by creation time, after users created at the
    /// same time; refused when its email is taken.
    pub fn insert_user(&mut self, user: User) -> (r: Result<(), ApiError>)
        requires
            old(self).wf(),
        ensures
            final(self).wf(),
            final(self).apps() == old(self).apps(),
            final(self).groups() == old(self).groups(),
            has_email(old(self).users(), user.email_id@) <==> r is Err,
            r is Err ==> r == Err::<(), ApiError>(ApiError::Validation) && *final(self) == *old(
                self,
            ),
            r is Ok ==> exists|p: int|
                0 <= p <= old(self).users().len() && final(self).users() == old(self).users().insert(
                    p,
                    user,
                ) && (forall|i: int| 0 <= i < p ==> old(self).users()[i].created_at >= user.created_at)
                    && (forall|i: int|
                    p <= i < old(self).users().len() ==> old(self).users()[i].created_at
                        < user.created_at),
    {
        let n = self.users.len();
        let mut i: usize = 0;
        while i < n
            invariant
                *self == *old(self),
                self.wf(),
                n == self.users@.len(),
                i <= n,
                forall|k: int| 0 <= k < i ==> self.users@[k].email_id@ != user.email_id@,
            decreases n - i,
        {
            if self.users[i].email_id == user.email_id {
                return Err(ApiError::Validation);
            }
            i = i + 1;
        }
        let mut p: usize = 0;
        while p < n && self.users[p].created_at >= user.created_at
            invariant
                *self == *old(self),
                self.wf(),
                n == self.users@.len(),
                p <= n,
                forall|k: int| 0 <= k < p ==> self.users@[k].created_at >= user.created_at,
            decreases n - p,
        {
            p = p + 1;
        }
        let ghost before = self.users@;
        assert forall|k: int| p <= k < n implies before[k].created_at < user.created_at by {
            if p < n {
                assert(before[p as int].created_at < user.created_at);
                assert(before[p as int].created_at >= before[k].created_at);
            }
        }
        self.users.insert(p, user);
        assert(self.users@ == before.insert(p as int, user));
        Ok(())
    }

    /// Adds an application in its place by name, after applications of the
    /// same name; refused when its client identifier is taken.
    pub fn insert_app(&mut self, app: App) -> (r: Result<(), ApiError>)
        requires
            old(self).wf(),
        ensures
            final(self).wf(),
            final(self).users() == old(self).users(),
            final(self).groups() == old(self).groups(),
            has_client_id(old(self).apps(), app.client_id@) <==> r is Err,
            r is Err ==> r == Err::<(), ApiError>(ApiError::Validation) && *final(self) == *old(
                self,
            ),
            r is Ok ==> exists|p: int|
                0 <= p <= old(self).apps().len() && final(self).apps() == old(self).apps().insert(
                    p,
                    app,
                ) && (forall|i: int| 0 <= i < p ==> !text_lt(old(self).apps()[i].name@, app.name@))
                    && (forall|i: int|
                    p <= i < old(self).apps().len() ==> text_lt(
                        old(self).apps()[i].name@,
                        app.name@,
                    )),
    {
        let n = self.apps.len();
        let mut i: usize = 0;
        while i < n
            invariant
                *self == *old(self),
                self.wf(),
                n == self.apps@.len(),
                i <= n,
                forall|k: int| 0 <= k < i ==> self.apps@[k].client_id@ != app.client_id@,
            decreases n - i,
        {
            if self.apps[i].client_id == app.client_id {
                return Err(ApiError::Validation);
            }
            i = i + 1;
        }
        let mut p: usize = 0;
        while p < n && !text_less(self.apps[p].name.as_str(), app.name.as_str())
            invariant
                *self == *old(self),
                self.wf(),
                n == self.apps@.len(),
                p <= n,
                forall|k: int| 0 <= k < p ==> !text_lt(self.apps@[k].name@, app.name@),
            decreases n - p,
        {
            p = p + 1;
        }
        let ghost before = self.apps@;
        assert forall|k: int| p <= k < n implies text_lt(before[k].name@, app.name@) by {
            if p < k {
                let x = before[p as int].name@;
                let y = before[k].name@;
                assert(text_lt(x, app.name@));
                assert(!text_lt(x, y));
                lemma_text_lt_total(x, y);
                if x != y {
                    lemma_text_lt_transitive(y, x, app.name@);
                }
            }
        }
        self.apps.insert(p, app);
        assert(self.apps@ == before.insert(p as int, app));
        assert forall|a: int, b: int| 0 <= a < b < self.apps@.len() implies !text_lt(
            self.apps@[a].name@,
            self.apps@[b].name@,
        ) by {
            if a == p && b > p {
                let c = before[b - 1].name@;
                if text_lt(app.name@, c) {
                    lemma_text_lt_transitive(before[p as int].name@, app.name@, c);
                }
            }
        }
        Ok(())
    }

    /// Adds an access-control group identifier.
    pub fn insert_group(&mut self, identifier: String)
        requires
            old(self).wf(),
        ensures
            final(self).wf(),
            final(self).users() == old(self).users(),
            final(self).apps() == old(self).apps(),
            final(self).groups() == old(self).groups().push(identifier@),
    {
        let ghost before = self.groups@;
        self.groups.push(identifier);
        assert(self.groups().len() == before.len() + 1);
        assert(self.groups() =~= before.map_values(|g: String| g@).push(identifier@));
    }
}

/// Whether a user matches a search pattern.
pub fn user_matches_pattern(u: &User, pattern: &str) -> (r: bool)
    ensures
        r == user_matches(*u, pattern@),
{
    opt_field_matches(&u.first_name, pattern) || opt_field_matches(&u.last_name, pattern)
        || opt_field_matches(&u.middle_name, pattern) || field_matches(u.email_id.as_str(), pattern)
}

/// One page of the users that a search selects, newest first, with the
/// number of users it selects. Rejected when the page or the page size is zero.
pub fn get_paginated_users(
    rdb: &Directory,
    page: Option<usize>,
    page_size: Option<usize>,
    search: Option<String>,
) -> (r: Result<PaginatedResponse<UserResponse>, ApiError>)
    requires
        rdb.wf(),
    ensures
        !page_request_valid(page, page_size) <==> r is Err,
        page_size == Some(0usize) ==> r == Err::<PaginatedResponse<UserResponse>, ApiError>(
            ApiError::Validation,
        ),
        r is Err ==> r == Err::<PaginatedResponse<UserResponse>, ApiError>(ApiError::Validation),
        r matches Ok(resp) ==> {
            let sel = selected_users(rdb.users(), search_view(search));
            let pg = effective_page(page) as int;
            let sz = effective_page_size(page_size) as int;
            &&& resp.total_count == sel.len()
            &&& resp.data@ == page_window(sel, pg, sz).map_values(|u: User| user_response_of(u))
            &&& resp.data@.len() == page_len(sel.len() as int, pg, sz)
        },
{
    let (size, off) = match resolve_page(page, page_size) {
        Ok(v) => v,
        Err(e) => return Err(e),
    };
    let ghost sv = search_view(search);
    let ghost s = rdb.users@;
    let ghost pred = |u: User| user_selected(u, sv);
    let ghost offi: int = page_offset(effective_page(page) as int, size as int);
    proof {
        assert(offi >= 0) by (nonlinear_arith)
            requires
                offi == (effective_page(page) - 1) * size,
                effective_page(page) >= 1,
        ;
    }
    let n = rdb.users.len();
    let mut count: usize = 0;
    let mut data: Vec<UserResponse> = Vec::new();
    let mut i: usize = 0;
    while i < n
        invariant
            n == s.len(),
            s == rdb.users@,
            pred == (|u: User| user_selected(u, sv)),
            sv == search_view(search),
            i <= n,
            offi >= 0,
            off matches Some(o) ==> o == offi,
            off is None ==> offi > usize::MAX,
            count == s.take(i as int).filter(pred).len(),
            data@ == window(s.take(i as int).filter(pred), offi, size as int).map_values(
                |u: User| user_response_of(u),
            ),
        decreases n - i,
    {
        proof {
            s.take(i as int).lemma_filter_len(pred);
        }
        let u = &rdb.users[i];
        let selected = match &search {
            Some(p) => user_matches_pattern(u, p.as_str()),
            None => true,
        };
        let ghost q = s.take(i as int).filter(pred);
        proof {
            reveal(Seq::filter);
            assert(s.take(i + 1).drop_last() =~= s.take(i as int));
            assert(s.take(i + 1).last() == s[i as int]);
            lemma_window_push(q, s[i as int], offi, size as int);
        }
        if selected {
            let in_page = match off {
                Some(o) => o <= count && count - o < size,
                None => false,
            };
            if in_page {
                data.push(u.to_response());
                assert(data@ =~= window(q, offi, size as int).push(s[i as int]).map_values(
                    |u: User| user_response_of(u),
                ));
            }
            count = count + 1;
        }
        i = i + 1;
    }
    let ghost sel = s.filter(pred);
    proof {
        assert(s.take(n as int) =~= s);
        lemma_page_window_len(sel, effective_page(page) as int, size as int);
    }
    Ok(PaginatedResponse { total_count: count, data })
}

} // verus!

verus! {

/// Whether an application matches a search pattern.
pub fn app_matches_pattern(a: &App, pattern: &str) -> (r: bool)
    ensures
        r == app_matches(*a, pattern@),
{
    field_matches(a.name.as_str(), pattern) || field_matches(a.client_id.as_str(), pattern)
}

/// One page of the applications that a search selects, by name from last to
/// first, with the number of applications it selects. Rejected when the page
/// or the page size is zero.
pub fn list_paginated_applications(
    rdb: &Directory,
    page: Option<usize>,
    page_size: Option<usize>,
    search: Option<String>,
) -> (r: Result<PaginatedResponse<AppResponse>, ApiError>)
    requires
        rdb.wf(),
    ensures
        !page_request_valid(page, page_size) <==> r is Err,
        page_size == Some(0usize) ==> r == Err::<PaginatedResponse<AppResponse>, ApiError>(
            ApiError::Validation,
        ),
        r is Err ==> r == Err::<PaginatedResponse<AppResponse>, ApiError>(ApiError::Validation),
        r matches Ok(resp) ==> {
            let sel = selected_apps(rdb.apps(), search_view(search));
            let pg = effective_page(page) as int;
            let sz = effective_page_size(page_size) as int;
            &&& resp.total_count == sel.len()
            &&& resp.data@ == page_window(sel, pg, sz).map_values(|a: App| app_response_of(a))
            &&& resp.data@.len() == page_len(sel.len() as int, pg, sz)
        },
{
    let (size, off) = match resolve_page(page, page_size) {
        Ok(v) => v,
        Err(e) => return Err(e),
    };
    let ghost sv = search_view(search);
    let ghost s = rdb.apps@;
    let ghost pred = |a: App| app_selected(a, sv);
    let ghost offi: int = page_offset(effective_page(page) as int, size as int);
    proof {
        assert(offi >= 0) by (nonlinear_arith)
            requires
                offi == (effective_page(page) - 1) * size,
                effective_page(page) >= 1,
        ;
    }
    let n = rdb.apps.len();
    let mut count: usize = 0;
    let mut data: Vec<AppResponse> = Vec::new();
    let mut i: usize = 0;
    while i < n
        invariant
            n == s.len(),
            s == rdb.apps@,
            pred == (|a: App| app_selected(a, sv)),
            sv == search_view(search),
            i <= n,
            offi >= 0,
            off matches Some(o) ==> o == offi,
            off is None ==> offi > usize::MAX,
            count == s.take(i as int).filter(pred).len(),
            data@ == window(s.take(i as int).filter(pred), offi, size as int).map_values(
                |a: App| app_response_of(a),
            ),
        decreases n - i,
    {
        proof {
            s.take(i as int).lemma_filter_len(pred);
        }
        let a = &rdb.apps[i];
        let selected = match &search {
            Some(p) => app_matches_pattern(a, p.as_str()),
            None => true,
        };
        let ghost q = s.take(i as int).filter(pred);
        proof {
            reveal(Seq::filter);
            assert(s.take(i + 1).drop_last() =~= s.take(i as int));
            assert(s.take(i + 1).last() == s[i as int]);
            lemma_window_push(q, s[i as int], offi, size as int);
        }
        if selected {
            let in_page = match off {
                Some(o) => o <= count && count - o < size,
                None => false,
            };
            if in_page {
                data.push(a.to_response());
                assert(data@ =~= window(q, offi, size as int).push(s[i as int]).map_values(
                    |a: App| app_response_of(a),
                ));
            }
            count = count + 1;
        }
        i = i + 1;
    }
    let ghost sel = s.filter(pred);
    proof {
        assert(s.take(n as int) =~= s);
        lemma_page_window_len(sel, effective_page(page) as int, size as int);
    }
    Ok(PaginatedResponse { total_count: count, data })
}

/// Position of the user with this email, if any.
fn find_user(rdb: &Directory, email: &String) -> (r: Option<usize>)
    requires
        rdb.wf(),
    ensures
        r is None <==> !has_email(rdb.users(), email@),
        r matches Some(i) ==> i < rdb.users().len() && rdb.users()[i as int].email_id@ == email@,
{
    let n = rdb.users.len();
    let mut i: usize = 0;
    while i < n
        invariant
            n == rdb.users@.len(),
            i <= n,
            forall|k: int| 0 <= k < i ==> rdb.users@[k].email_id@ != email@,
        decreases n - i,
    {
        if rdb.users[i].email_id == *email {
            return Some(i);
        }
        i = i + 1;
    }
    None
}

/// The user with this email, or `NotFound`.
pub fn get_user_by_email(rdb: &Directory, email: String) -> (r: Result<UserResponse, ApiError>)
    requires
        rdb.wf(),
    ensures
        !has_email(rdb.users(), email@) <==> r is Err,
        r is Err ==> r == Err::<UserResponse, ApiError>(ApiError::NotFound),
        r is Ok ==> exists|i: int|
            0 <= i < rdb.users().len() && rdb.users()[i].email_id@ == email@ && r == Ok::<
                UserResponse,
                ApiError,
            >(user_response_of(rdb.users()[i])),
{
    match find_user(rdb, &email) {
        Some(i) => Ok(rdb.users[i].to_response()),
        None => Err(ApiError::NotFound),
    }
}

/// Replaces the five mutable attributes of the user with this email and
/// returns the updated user; `NotFound`, with nothing changed, when no user
/// has it.
pub fn update_user_by_email(
    rdb: &mut Directory,
    email: String,
    update_request: UpdateUserRequest,
) -> (r: Result<UserResponse, ApiError>)
    requires
        old(rdb).wf(),
    ensures
        final(rdb).wf(),
        !has_email(old(rdb).users(), email@) <==> r is Err,
        r is Err ==> r == Err::<UserResponse, ApiError>(ApiError::NotFound) && *final(rdb) == *old(
            rdb,
        ),
        r is Ok ==> exists|i: int|
            0 <= i < old(rdb).users().len() && old(rdb).users()[i].email_id@ == email@
                && final(rdb).users() == old(rdb).users().update(
                i,
                updated_user(old(rdb).users()[i], update_request),
            ) && r == Ok::<UserResponse, ApiError>(
                user_response_of(updated_user(old(rdb).users()[i], update_request)),
            ),
        final(rdb).apps() == old(rdb).apps(),
        final(rdb).groups() == old(rdb).groups(),
{
    match find_user(rdb, &email) {
        None => Err(ApiError::NotFound),
        Some(i) => {
            let ghost before = rdb.users@;
            let cur = &rdb.users[i];
            let u = User {
                id: cur.id,
                first_name: update_request.first_name,
                middle_name: update_request.middle_name,
                last_name: update_request.last_name,
                email_id: cur.email_id.clone(),
                is_root: update_request.is_root,
                is_active: update_request.is_active,
                created_at: cur.created_at,
            };
            let resp = u.to_response();
            rdb.users.set(i, u);
            assert(rdb.users@ == before.update(i as int, u));
            Ok(resp)
        }
    }
}

/// Whether some user has this email.
pub fn check_user_exists(email: String, rdb: &Directory) -> (r: bool)
    requires
        rdb.wf(),
    ensures
        r == has_email(rdb.users(), email@),
{
    find_user(rdb, &email).is_some()
}

/// Whether an access-control group has this identifier.
pub fn check_group_exists(uuid: String, rdb: &Directory) -> (r: bool)
    ensures
        r == rdb.groups().contains(uuid@),
{
    let n = rdb.groups.len();
    let mut i: usize = 0;
    while i < n
        invariant
            n == rdb.groups@.len(),
            i <= n,
            forall|k: int| 0 <= k < i ==> rdb.groups@[k]@ != uuid@,
        decreases n - i,
    {
        if rdb.groups[i] == uuid {
            assert(rdb.groups()[i as int] == uuid@);
            return true;
        }
        i = i + 1;
    }
    assert(!rdb.groups().contains(uuid@)) by {
        if rdb.groups().contains(uuid@) {
            let k = choose|k: int| 0 <= k < rdb.groups().len() && rdb.groups()[k] == uuid@;
            assert(rdb.groups@[k]@ == uuid@);
        }
    }
    false
}

} // verus!

verus! {

/// A search selects a user of the directory exactly when its first, last or
/// middle name, or its email, contains the pattern, ignoring case.
pub proof fn lemma_search_selects_exactly_matching(s: Seq<User>, pattern: Seq<char>, u: User)
    ensures
        selected_users(s, Some(pattern)).contains(u) <==> s.contains(u) && (opt_contains_ignoring_case(
            u.first_name,
            pattern,
        ) || opt_contains_ignoring_case(u.last_name, pattern) || opt_contains_ignoring_case(
            u.middle_name,
            pattern,
        ) || contains_ignoring_case(u.email_id@, pattern)),
{
    let pred = |x: User| user_selected(x, Some(pattern));
    if s.filter(pred).contains(u) {
        s.lemma_filter_contains_rev(pred, u);
        let i = choose|i: int| 0 <= i < s.filter(pred).len() && s.filter(pred)[i] == u;
        s.lemma_filter_pred(pred, i);
    }
    if s.contains(u) && user_matches(u, pattern) {
        let i = choose|i: int| 0 <= i < s.len() && s[i] == u;
        s.lemma_filter_contains(pred, i);
    }
}

/// Adding a user never lowers the number of users that a search selects;
/// without a search the number grows by one.
pub proof fn lemma_insert_keeps_selected(
    s: Seq<User>,
    p: int,
    u: User,
    search: Option<Seq<char>>,
)
    requires
        0 <= p <= s.len(),
    ensures
        selected_users(s.insert(p, u), search).len() >= selected_users(s, search).len(),
        search is None ==> selected_users(s.insert(p, u), search).len() == selected_users(
            s,
            search,
        ).len() + 1,
{
    let pred = |x: User| user_selected(x, search);
    let a = s.take(p);
    let c = s.skip(p);
    assert(s =~= a + c);
    assert(s.insert(p, u) =~= a + seq![u] + c);
    Seq::filter_distributes_over_add(a, c, pred);
    Seq::filter_distributes_over_add(a + seq![u], c, pred);
    Seq::filter_distributes_over_add(a, seq![u], pred);
    reveal_with_fuel(Seq::filter, 2);
    assert(seq![u].drop_last() =~= Seq::<User>::empty());
    if search is None {
        lemma_select_all(s);
        lemma_select_all(s.insert(p, u));
    }
}

/// Without a search every user is selected, in order.
pub proof fn lemma_select_all(s: Seq<User>)
    ensures
        selected_users(s, None) == s,
    decreases s.len(),
{
    reveal(Seq::filter);
    if s.len() > 0 {
        lemma_select_all(s.drop_last());
        assert(s.drop_last().push(s.last()) =~= s);
    }
}

} // verus!
