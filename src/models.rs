//! Records of the directory, request payloads, response views and errors.

use vstd::prelude::*;

verus! {

/// A stored user row. `created_at` is the creation time in microseconds
/// since the Unix epoch; it orders users in listings.
pub struct User {
    pub id: i64,
    pub first_name: Option<String>,
    pub middle_name: Option<String>,
    pub last_name: Option<String>,
    pub email_id: String,
    pub is_root: bool,
    pub is_active: bool,
    pub created_at: i64,
}

/// A stored client application row.
pub struct App {
    pub id: i64,
    pub client_id: String,
    pub name: String,
    pub logo_url: Option<String>,
    pub disabled: bool,
    pub group_id: Option<i64>,
    pub tnc_link: Option<String>,
    pub allow_registration: bool,
}

/// Full replacement of the mutable attributes of a user.
pub struct UpdateUserRequest {
    pub first_name: Option<String>,
    pub middle_name: Option<String>,
    pub last_name: Option<String>,
    pub is_active: bool,
    pub is_root: bool,
}

/// Payload of an invitation: who is invited and with which privileges.
pub struct InviteRequest {
    pub email_id: String,
    pub first_name: String,
    pub middle_name: Option<String>,
    pub last_name: String,
    pub is_root: bool,
}

/// What callers see of a user: never identifiers or credentials.
pub struct UserResponse {
    pub first_name: Option<String>,
    pub last_name: Option<String>,
    pub middle_name: Option<String>,
    pub email_id: String,
    pub is_root: bool,
    pub is_active: bool,
}

/// What callers see of an application.
pub struct AppResponse {
    pub client_id: String,
    pub name: String,
    pub logo_url: Option<String>,
    pub disabled: bool,
    pub group_id: Option<i64>,
    pub tnc_link: Option<String>,
    pub allow_registration: bool,
    pub id: i64,
}

/// Coarse outcome of a failed operation.
#[derive(Clone, Copy, Debug, PartialEq, Eq, Structural)]
pub enum ApiError {
    /// Malformed input, such as a page size of zero.
    Validation,
    /// No entity matched.
    NotFound,
    /// A store, cache or notifier could not be reached.
    BackendUnavailable,
    /// Required delivery credentials are missing.
    Configuration,
}

impl ApiError {
    /// The HTTP status code that reports this outcome.
    pub fn status_code(&self) -> (r: u16)
        ensures
            r == match *self {
                ApiError::Validation => 400u16,
                ApiError::NotFound => 404u16,
                ApiError::BackendUnavailable => 503u16,
                ApiError::Configuration => 500u16,
            },
    {
        match self {
            ApiError::Validation => 400,
            ApiError::NotFound => 404,
            ApiError::BackendUnavailable => 503,
            ApiError::Configuration => 500,
        }
    }
}

/// A copy of an optional string, equal to it.
pub fn clone_opt_string(o: &Option<String>) -> (r: Option<String>)
    ensures
        r == *o,
{
    match o {
        Some(s) => Some(s.clone()),
        None => None,
    }
}

/// The view of a user that callers receive.
pub open spec fn user_response_of(u: User) -> UserResponse {
    UserResponse {
        first_name: u.first_name,
        last_name: u.last_name,
        middle_name: u.middle_name,
        email_id: u.email_id,
        is_root: u.is_root,
        is_active: u.is_active,
    }
}

/// The view of an application that callers receive.
pub open spec fn app_response_of(a: App) -> AppResponse {
    AppResponse {
        client_id: a.client_id,
        name: a.name,
        logo_url: a.logo_url,
        disabled: a.disabled,
        group_id: a.group_id,
        tnc_link: a.tnc_link,
        allow_registration: a.allow_registration,
        id: a.id,
    }
}

impl From<User> for UserResponse {
    fn from(user: User) -> (r: Self) {
        UserResponse {
            first_name: user.first_name,
            last_name: user.last_name,
            middle_name: user.middle_name,
            email_id: user.email_id,
            is_root: user.is_root,
            is_active: user.is_active,
        }
    }
}

impl vstd::std_specs::convert::FromSpecImpl<User> for UserResponse {
    open spec fn obeys_from_spec() -> bool {
        true
    }

    open spec fn from_spec(v: User) -> UserResponse {
        user_response_of(v)
    }
}

impl From<App> for AppResponse {
    fn from(app: App) -> (r: Self) {
        AppResponse {
            client_id: app.client_id,
            name: app.name,
            logo_url: app.logo_url,
            disabled: app.disabled,
            group_id: app.group_id,
            tnc_link: app.tnc_link,
            allow_registration: app.allow_registration,
            id: app.id,
        }
    }
}

impl vstd::std_specs::convert::FromSpecImpl<App> for AppResponse {
    open spec fn obeys_from_spec() -> bool {
        true
    }

    open spec fn from_spec(v: App) -> AppResponse {
        app_response_of(v)
    }
}

impl User {
    /// The response view of this user, leaving the record in place.
    pub fn to_response(&self) -> (r: UserResponse)
        ensures
            r == user_response_of(*self),
    {
        UserResponse {
            first_name: clone_opt_string(&self.first_name),
            last_name: clone_opt_string(&self.last_name),
            middle_name: clone_opt_string(&self.middle_name),
            email_id: self.email_id.clone(),
            is_root: self.is_root,
            is_active: self.is_active,
        }
    }
}

impl App {
    /// The response view of this application, leaving the record in place.
    pub fn to_response(&self) -> (r: AppResponse)
        ensures
            r == app_response_of(*self),
    {
        AppResponse {
            client_id: self.client_id.clone(),
            name: self.name.clone(),
            logo_url: clone_opt_string(&self.logo_url),
            disabled: self.disabled,
            group_id: self.group_id,
            tnc_link: clone_opt_string(&self.tnc_link),
            allow_registration: self.allow_registration,
            id: self.id,
        }
    }
}

} // verus!
