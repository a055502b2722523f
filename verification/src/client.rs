//! What the client does with the server's answers: who is logged in, which dialogs close,
//! which lists reload, what is undone and what the user is told.
//!
//! The client makes the call; these functions take its answer and say what follows.

use vstd::prelude::*;
use crate::access::{
    NamedUserAccess, UserAccess, UserPreview, set_access_at, toggled_access,
};
use crate::server::is_save_name_valid;
use crate::versions::{Version, add_created_version};
use crate::toast::{Toast, ToastKind, invalid_save_name_notice};
use crate::ui::{ClientError, failure_message, failure_message_or};

verus! {

/// What follows a call: whether the list it changed is loaded again from the server,
/// and the notification shown, if any.
pub struct AfterCall {
    pub reload: bool,
    pub notice: Option<Toast>,
}

/// An error notification: a title, and the error's text as its message.
pub open spec fn error_notice(t: Toast, title: Seq<char>, text: Seq<char>) -> bool {
    t.kind == ToastKind::Error && t.title@ == title && t.message@ == text
}

/// The answer to a login or a registration: the user is logged in on success, otherwise
/// stays as they were and the failure's message is shown under the form.
pub fn signed_in(user: &mut Option<UserPreview>, answer: Result<UserPreview, ClientError>) -> (shown: Option<String>)
    ensures
        answer matches Ok(u) ==> *final(user) == Some(u) && shown is None,
        answer matches Err(ClientError::ServerError { message, .. }) ==> *final(user) == *old(user)
            && (shown matches Some(m) && m@ == message@),
        answer matches Err(ClientError::Other) ==> *final(user) == *old(user)
            && (shown matches Some(m) && m@ == "An unknown error occurred"@),
{
    match answer {
        Ok(u) => {
            *user = Some(u);
            None
        },
        Err(e) => Some(failure_message(e)),
    }
}

/// The navigation bar asks the server who is logged in: the answer's user, or nobody when
/// the question fails.
pub fn refreshed_user<E>(user: &mut Option<UserPreview>, answer: Result<UserPreview, E>)
    ensures
        answer matches Ok(u) ==> *final(user) == Some(u),
        answer is Err ==> *final(user) is None,
{
    match answer {
        Ok(u) => *user = Some(u),
        Err(_) => *user = None,
    }
}

/// Logging out forgets the user, whatever the server answered.
pub fn logged_out<E>(user: &mut Option<UserPreview>, answer: Result<(), E>)
    ensures
        *final(user) is None,
{
    *user = None;
}

/// Before a new save is sent: a name with a path separator is refused with a notification
/// and nothing is sent.
pub fn new_save_refusal(name: &str) -> (notice: Option<Toast>)
    ensures
        (!name@.contains('/') && !name@.contains('\\')) <==> notice is None,
        notice matches Some(t) ==> error_notice(t, "Invalid Save Name"@, "Save name cannot contain '/' or '\\' characters."@),
{
    if is_save_name_valid(name) {
        None
    } else {
        Some(invalid_save_name_notice())
    }
}

/// After a new save was sent: the dialog closes only when the server created it; the save
/// list reloads either way.
pub fn save_created<T, E>(answer: &Result<T, E>) -> (r: (bool, AfterCall))
    ensures
        r.0 == answer is Ok,
        r.1.reload,
        r.1.notice is None,
{
    (answer.is_ok(), AfterCall { reload: true, notice: None })
}

/// The answer to a new-version upload. On success the new version goes to the top of
/// the shown list, the label field is cleared and the dialog closes (`true`); on failure
/// the list, the label and the dialog stay as they were, and the message to show under
/// the form is handed back: the server's own, or "Failed to create version".
pub fn version_created(
    list: &mut Vec<Version>,
    label: &mut String,
    answer: Result<Version, ClientError>,
) -> (r: (bool, Option<String>))
    ensures
        answer matches Ok(v) ==> r.0 && r.1 is None && final(list)@ == seq![v] + old(list)@
            && final(label)@ == Seq::<char>::empty(),
        answer is Err ==> !r.0 && final(list)@ == old(list)@ && final(label)@ == old(label)@,
        answer matches Err(ClientError::ServerError { message, .. }) ==> (r.1 matches Some(m) && m@ == message@),
        answer matches Err(ClientError::Other) ==> (r.1 matches Some(m) && m@ == "Failed to create version"@),
{
    match answer {
        Ok(v) => {
            add_created_version(list, v);
            *label = String::new();
            (true, None)
        },
        Err(e) => (false, Some(failure_message_or(e, "Failed to create version"))),
    }
}

/// After deleting a version (already gone from the shown list): a refusal shows
/// "Failed to delete version" with the error's text (as the client prints it) and reloads the list.
pub fn version_deleted(answer: Result<(), String>) -> (r: AfterCall)
    ensures
        answer is Ok ==> !r.reload && r.notice is None,
        answer matches Err(e) ==> r.reload && (r.notice matches Some(t)
            && error_notice(t, "Failed to delete version"@, e@)),
{
    match answer {
        Ok(()) => AfterCall { reload: false, notice: None },
        Err(e) => AfterCall {
            reload: true,
            notice: Some(Toast {
                title: String::from_str("Failed to delete version"),
                message: e,
                kind: ToastKind::Error,
            }),
        },
    }
}

/// The owner clicks a user's access button: the shown level changes at once, and the
/// level before and the level asked of the server are handed back.
pub fn toggle_access(list: &mut Vec<NamedUserAccess>, index: usize) -> (r: (UserAccess, UserAccess))
    requires
        index < old(list)@.len(),
    ensures
        r.0 == old(list)@[index as int].access,
        r.1 == toggled_access(r.0),
        final(list)@.len() == old(list)@.len(),
        final(list)@[index as int].access == r.1,
        final(list)@[index as int].user == old(list)@[index as int].user,
        forall|i: int| 0 <= i < old(list)@.len() && i != index ==> final(list)@[i] == old(list)@[i],
{
    let previous = list[index].access;
    let requested = previous.toggled();
    set_access_at(list, index, requested);
    (previous, requested)
}

/// The server's answer to a change of level: a refusal puts the level back as it was and
/// shows "Failed to update access" with the error's text (as the client prints it); success keeps the change.
pub fn access_updated(
    list: &mut Vec<NamedUserAccess>,
    index: usize,
    previous: UserAccess,
    answer: Result<(), String>,
) -> (notice: Option<Toast>)
    requires
        index < old(list)@.len(),
    ensures
        answer is Ok ==> final(list)@ == old(list)@ && notice is None,
        answer matches Err(e) ==> final(list)@.len() == old(list)@.len()
            && final(list)@[index as int].access == previous
            && final(list)@[index as int].user == old(list)@[index as int].user
            && (forall|i: int| 0 <= i < old(list)@.len() && i != index ==> final(list)@[i] == old(list)@[i])
            && (notice matches Some(t) && error_notice(t, "Failed to update access"@, e@)),
{
    match answer {
        Ok(()) => None,
        Err(e) => {
            set_access_at(list, index, previous);
            Some(Toast {
                title: String::from_str("Failed to update access"),
                message: e,
                kind: ToastKind::Error,
            })
        },
    }
}

/// After removing a user's access (already gone from the shown list): a refusal reloads
/// the access list and shows "Failed to remove access" with the error's text (as the client prints it).
pub fn access_removed(answer: Result<(), String>) -> (r: AfterCall)
    ensures
        answer is Ok ==> !r.reload && r.notice is None,
        answer matches Err(e) ==> r.reload && (r.notice matches Some(t)
            && error_notice(t, "Failed to remove access"@, e@)),
{
    match answer {
        Ok(()) => AfterCall { reload: false, notice: None },
        Err(e) => AfterCall {
            reload: true,
            notice: Some(Toast {
                title: String::from_str("Failed to remove access"),
                message: e,
                kind: ToastKind::Error,
            }),
        },
    }
}

/// After adding a user's access: a refusal reloads the access list and shows the server's
/// message under the form, or "Failed to add access"; success leaves both alone.
pub fn access_added(answer: Result<(), ClientError>) -> (r: (bool, Option<String>))
    ensures
        answer is Ok ==> !r.0 && r.1 is None,
        answer matches Err(ClientError::ServerError { message, .. }) ==> r.0 && (r.1 matches Some(m) && m@ == message@),
        answer matches Err(ClientError::Other) ==> r.0 && (r.1 matches Some(m) && m@ == "Failed to add access"@),
{
    match answer {
        Ok(()) => (false, None),
        Err(e) => (true, Some(failure_message_or(e, "Failed to add access"))),
    }
}

} // verus!
