//! Decisions of the client's pages: navigation, forms and messages.

use vstd::prelude::*;
use crate::access::{UserAccess, UserAccessExt, UserId, access_can_edit};
use crate::text::{decimal_text, i64_to_text, trim, trim_spec, parse_i32, parse_i32_spec, lemma_parse_decimal_roundtrip};

verus! {

/// The pages of the client.
#[derive(Debug, Clone, Copy, PartialEq, Eq, Structural)]
pub enum Route {
    /// The landing page (web client only).
    Index,
    /// The user's saves.
    Saves,
    /// One save, its versions and its access list.
    SaveDetails { id: i32 },
    Login,
    Register,
}

/// The URL path of a page. On the desktop client the saves are the start page.
pub open spec fn route_path_spec(r: Route, desktop: bool) -> Seq<char> {
    match r {
        Route::Index => "/"@,
        Route::Saves => if desktop { "/"@ } else { "/saves"@ },
        Route::SaveDetails { id } => "/save/"@ + decimal_text(id as int),
        Route::Login => "/login"@,
        Route::Register => "/register"@,
    }
}

impl Route {
    /// The URL path of the page.
    pub fn path(&self, desktop: bool) -> (p: String)
        requires
            desktop ==> !(*self is Index),
        ensures
            p@ == route_path_spec(*self, desktop),
    {
        match self {
            Route::Index => String::from_str("/"),
            Route::Saves => if desktop {
                String::from_str("/")
            } else {
                String::from_str("/saves")
            },
            Route::SaveDetails { id } => {
                let mut p = String::from_str("/save/");
                let n = i64_to_text(*id as i64);
                p.append(n.as_str());
                p
            },
            Route::Login => String::from_str("/login"),
            Route::Register => String::from_str("/register"),
        }
    }

    /// The login tab is the active one on the login page.
    pub fn is_login(&self) -> (r: bool)
        ensures
            r == (*self == Route::Login),
    {
        match self {
            Route::Login => true,
            _ => false,
        }
    }
}

/// The page at a URL path, if any.
pub open spec fn parse_route_spec(p: Seq<char>, desktop: bool) -> Option<Route> {
    if p == "/"@ {
        if desktop { Some(Route::Saves) } else { Some(Route::Index) }
    } else if !desktop && p == "/saves"@ {
        Some(Route::Saves)
    } else if p == "/login"@ {
        Some(Route::Login)
    } else if p == "/register"@ {
        Some(Route::Register)
    } else if p.len() >= 6 && p.subrange(0, 6) == "/save/"@ {
        match parse_i32_spec(p.subrange(6, p.len() as int)) {
            Some(id) => Some(Route::SaveDetails { id }),
            None => None,
        }
    } else {
        None
    }
}

fn text_eq(a: &str, b: &str) -> (r: bool)
    ensures
        r == (a@ == b@),
{
    String::from_str(a) == String::from_str(b)
}

/// The page at a URL path (the router's table).
pub fn parse_route(path: &str, desktop: bool) -> (r: Option<Route>)
    ensures
        r == parse_route_spec(path@, desktop),
{
    if text_eq(path, "/") {
        return if desktop { Some(Route::Saves) } else { Some(Route::Index) };
    }
    if !desktop && text_eq(path, "/saves") {
        return Some(Route::Saves);
    }
    if text_eq(path, "/login") {
        return Some(Route::Login);
    }
    if text_eq(path, "/register") {
        return Some(Route::Register);
    }
    let n = path.unicode_len();
    if n < 6 {
        return None;
    }
    let head = path.substring_char(0, 6);
    if !text_eq(head, "/save/") {
        return None;
    }
    let tail = path.substring_char(6, n);
    match parse_i32(tail) {
        Some(id) => Some(Route::SaveDetails { id }),
        None => None,
    }
}

/// Every page is found again at its own path.
pub proof fn lemma_route_roundtrip(r: Route, desktop: bool)
    requires
        desktop ==> !(r is Index),
    ensures
        parse_route_spec(route_path_spec(r, desktop), desktop) == Some(r),
{
    reveal_strlit("/");
    reveal_strlit("/saves");
    reveal_strlit("/login");
    reveal_strlit("/register");
    reveal_strlit("/save/");
    match r {
        Route::SaveDetails { id } => {
            let p = route_path_spec(r, desktop);
            lemma_parse_decimal_roundtrip(id);
            assert(p.len() >= 6);
            assert(p.subrange(0, 6) =~= "/save/"@);
            assert(p.subrange(6, p.len() as int) =~= decimal_text(id as int));
            assert(p != "/"@);
            assert(p[5] == '/');
            assert(p != "/saves"@);
            assert(p[1] == 's');
            assert(p != "/login"@);
            assert(p != "/register"@);
            assert(parse_i32_spec(p.subrange(6, p.len() as int)) == Some(id));
            assert(!(p == "/"@));
            assert(!(!desktop && p == "/saves"@));
            assert(!(p == "/login"@));
            assert(!(p == "/register"@));
            assert(p.len() >= 6 && p.subrange(0, 6) == "/save/"@);
            assert(parse_route_spec(p, desktop) == Some(Route::SaveDetails { id }));
        },
        _ => {
            assert("/"@.len() == 1);
            assert("/saves"@.len() == 6);
            assert("/login"@.len() == 6);
            assert("/register"@.len() == 9);
            assert("/saves"@[1] == 's' && "/login"@[1] == 'l');
        },
    }
}

/// Pages that need a user send visitors without one to the login page.
pub fn auth_required_redirect(user_logged_in: bool) -> (r: Option<Route>)
    ensures
        r == (if user_logged_in { None } else { Some(Route::Login) }),
{
    if user_logged_in {
        None
    } else {
        Some(Route::Login)
    }
}

/// The login and register pages send a user who turns out to be logged in to the saves.
pub fn auth_layout_redirect(user_checked: bool, user_logged_in: bool) -> (r: Option<Route>)
    ensures
        r == (if user_checked && user_logged_in { Some(Route::Saves) } else { None }),
{
    if user_checked && user_logged_in {
        Some(Route::Saves)
    } else {
        None
    }
}

/// Position of the user menu in the navigation bar (after "Home" and "Saves" on the web,
/// after "Saves" on the desktop).
pub fn user_menu_index(desktop: bool) -> (i: usize)
    ensures
        i == (if desktop { 1usize } else { 2usize }),
{
    if desktop {
        1
    } else {
        2
    }
}

/// The "remember me" flag sent with a login: the desktop client always stays logged in.
pub fn remember_flag(desktop: bool, remember: bool) -> (r: Option<bool>)
    ensures
        r == Some(desktop || remember),
{
    if desktop {
        Some(true)
    } else {
        Some(remember)
    }
}

/// A failed call as the client sees it.
pub enum ClientError {
    /// The server refused with a message.
    ServerError { message: String, code: u16 },
    /// Anything else (network, decoding, ...).
    Other,
}

/// The message shown for a failed call: the server's own message, or `fallback` for any
/// other failure (the new-version dialog says "Failed to create version", the access
/// dialog "Failed to add access").
pub fn failure_message_or(e: ClientError, fallback: &str) -> (m: String)
    ensures
        e matches ClientError::ServerError { message, .. } ==> m@ == message@,
        e is Other ==> m@ == fallback@,
{
    match e {
        ClientError::ServerError { message, .. } => message,
        ClientError::Other => String::from_str(fallback),
    }
}

/// The message shown under the login or register form for a failed call.
pub fn failure_message(e: ClientError) -> (m: String)
    ensures
        e matches ClientError::ServerError { message, .. } ==> m@ == message@,
        e is Other ==> m@ == "An unknown error occurred"@,
{
    failure_message_or(e, "An unknown error occurred")
}

/// Registration stops before calling the server when the passwords differ.
pub fn check_passwords(password: &str, confirm: &str) -> (r: Option<String>)
    ensures
        password@ == confirm@ ==> r is None,
        password@ != confirm@ ==> (r matches Some(m) && m@ == "Passwords do not match"@),
{
    let a = String::from_str(password);
    let b = String::from_str(confirm);
    if a != b {
        Some(String::from_str("Passwords do not match"))
    } else {
        None
    }
}

/// The logged-in user owns the save (and so sees the delete and access controls).
pub fn is_owner(user: Option<UserId>, owner: UserId) -> (r: bool)
    ensures
        r == (user == Some(owner)),
{
    match user {
        Some(u) => u == owner,
        None => false,
    }
}

/// Whether the save page offers editing: the access query answered with a level that
/// may edit; no answer, a failed query or no access means no.
pub fn can_modify<E>(answer: Option<Result<Option<UserAccess>, E>>) -> (r: bool)
    ensures
        r == (answer matches Some(Ok(Some(a))) && access_can_edit(a)),
{
    match answer {
        Some(Ok(access)) => access.can_edit(),
        _ => false,
    }
}

/// The access dialog ignores a blank username.
pub fn should_add_username(username: &str) -> (r: bool)
    ensures
        r == (trim_spec(username@).len() > 0),
{
    let t = trim(username);
    t.as_str().unicode_len() > 0
}

/// The message shown when the owner adds a user who is already listed.
pub fn already_has_access_message() -> (m: String)
    ensures
        m@ == "User already has access"@,
{
    String::from_str("User already has access")
}

/// A new-version form with more than one field is sent as it is; otherwise the client
/// builds the form from the file it located itself.
pub fn submit_form_as_is(field_count: usize) -> (r: bool)
    ensures
        r == (field_count > 1),
{
    field_count > 1
}

/// The default class of a dialog's panel.
pub open spec fn dialog_class_spec() -> Seq<char> {
    "bg-neutral-700 p-6 rounded shadow-lg w-96 border border-neutral-500 text-white"@
}

/// The class of a dialog's panel: the given one, or the default.
pub fn dialog_class(class: Option<String>) -> (r: String)
    ensures
        class matches Some(c) ==> r@ == c@,
        class is None ==> r@ == dialog_class_spec(),
{
    match class {
        Some(c) => c,
        None => String::from_str("bg-neutral-700 p-6 rounded shadow-lg w-96 border border-neutral-500 text-white"),
    }
}

/// The backdrop class of a dialog: `bg-<color>` for a given color, or a translucent black.
pub fn backdrop_class(color: Option<&str>) -> (r: String)
    ensures
        color matches Some(c) ==> r@ == "bg-"@ + c@,
        color is None ==> r@ == "bg-black/50"@,
{
    match color {
        Some(c) => {
            let mut r = String::from_str("bg-");
            r.append(c);
            r
        },
        None => String::from_str("bg-black/50"),
    }
}

} // verus!
