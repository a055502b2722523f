//! The rules the server applies to each request, and the files it keeps.
//!
//! The server reads the session, the database and the request form; it hands what it
//! read to these functions, and acts on their answers.

use vstd::prelude::*;
use crate::access::{
    UserAccess, UserAccessExt, UserId, SaveId, UserPreview, UserSaveAccess,
    access_can_edit, effective_access, query_user_save_access,
};
use crate::game::{Game, game_debug_name};
use crate::saves::Save;
use crate::text::{
    compare_text, lemma_lex_order_antisym, contains_char, decimal_text, i64_to_text, is_blank_spec, trim, trim_spec,
};

verus! {

/// Why the server refuses a request.
#[derive(Debug, Clone, Copy, PartialEq, Eq, Structural)]
pub enum ApiError {
    /// No user is logged in.
    Unauthenticated,
    /// A user asked for another user's saves.
    NotYourSaves { you: UserId, them: UserId },
    /// The user has no access to the save.
    CannotViewSave,
    /// Only the owner may delete a save.
    CannotDeleteSave,
    /// Only the owner may change who has access.
    CannotModifySave,
    /// Creating a version needs edit access.
    CannotCreateVersion,
    /// Deleting a version needs edit access.
    CannotDeleteVersion,
    /// The owner's own access cannot be changed.
    OwnerAccessFixed,
    /// The version form lacks its label or file.
    MissingFields,
    /// The uploaded file has no name.
    MissingFileName,
    /// The version label is not a valid name.
    InvalidLabel,
    /// No user has the given name.
    UnknownUser,
    /// The user lacks the permissions for the endpoint.
    NoPermission,
    /// The database or the file system failed.
    Internal,
}

/// The HTTP status of a refusal.
pub open spec fn error_status(e: ApiError) -> int {
    match e {
        ApiError::OwnerAccessFixed | ApiError::MissingFields | ApiError::MissingFileName
        | ApiError::InvalidLabel => 400,
        ApiError::UnknownUser | ApiError::Internal => 500,
        _ => 401,
    }
}

/// The message of a refusal.
pub open spec fn error_message(e: ApiError) -> Seq<char> {
    match e {
        ApiError::Unauthenticated => "You are not authenticated"@,
        ApiError::NotYourSaves { you, them } => "You are not authorized to view this user's saves (You: "@
            + decimal_text(you as int) + "| Them: "@ + decimal_text(them as int) + ")"@,
        ApiError::CannotViewSave => "You do not have permission to view this save"@,
        ApiError::CannotDeleteSave => "You do not have permission to delete this save"@,
        ApiError::CannotModifySave => "You do not have permission to modify this save"@,
        ApiError::CannotCreateVersion => "You do not have permission to create a version for this save"@,
        ApiError::CannotDeleteVersion => "You do not have permission to delete this version"@,
        ApiError::OwnerAccessFixed => "Cannot modify access for the owner of the save"@,
        ApiError::MissingFields => "Missing required fields"@,
        ApiError::MissingFileName => "Missing file name"@,
        ApiError::InvalidLabel => "Invalid version label"@,
        ApiError::UnknownUser => "User does not exist."@,
        ApiError::NoPermission => "You do not have permission to view categories"@,
        ApiError::Internal => "Internal server error"@,
    }
}

impl ApiError {
    /// The HTTP status code.
    pub fn status(&self) -> (s: u16)
        ensures
            s as int == error_status(*self),
    {
        match self {
            ApiError::OwnerAccessFixed | ApiError::MissingFields | ApiError::MissingFileName
            | ApiError::InvalidLabel => 400,
            ApiError::UnknownUser | ApiError::Internal => 500,
            _ => 401,
        }
    }

    /// The message sent to the client.
    pub fn message(&self) -> (m: String)
        ensures
            m@ == error_message(*self),
    {
        match self {
            ApiError::Unauthenticated => String::from_str("You are not authenticated"),
            ApiError::NotYourSaves { you, them } => {
                let mut m = String::from_str("You are not authorized to view this user's saves (You: ");
                let a = i64_to_text(*you as i64);
                m.append(a.as_str());
                m.append("| Them: ");
                let b = i64_to_text(*them as i64);
                m.append(b.as_str());
                m.append(")");
                m
            },
            ApiError::CannotViewSave => String::from_str("You do not have permission to view this save"),
            ApiError::CannotDeleteSave => String::from_str("You do not have permission to delete this save"),
            ApiError::CannotModifySave => String::from_str("You do not have permission to modify this save"),
            ApiError::CannotCreateVersion => String::from_str("You do not have permission to create a version for this save"),
            ApiError::CannotDeleteVersion => String::from_str("You do not have permission to delete this version"),
            ApiError::OwnerAccessFixed => String::from_str("Cannot modify access for the owner of the save"),
            ApiError::MissingFields => String::from_str("Missing required fields"),
            ApiError::MissingFileName => String::from_str("Missing file name"),
            ApiError::InvalidLabel => String::from_str("Invalid version label"),
            ApiError::UnknownUser => String::from_str("User does not exist."),
            ApiError::NoPermission => String::from_str("You do not have permission to view categories"),
            ApiError::Internal => String::from_str("Internal server error"),
        }
    }
}

/// The greeting endpoint's answer: `Hello, <name>!`.
pub fn get_greeting(name: &str) -> (r: String)
    ensures
        r@ == "Hello, "@ + name@ + "!"@,
{
    let mut r = String::from_str("Hello, ");
    r.append(name);
    r.append("!");
    r
}

/// The logged-in user, or `Unauthenticated`.
pub fn require_user(current: Option<UserId>) -> (r: Result<UserId, ApiError>)
    ensures
        current matches Some(u) ==> r == Ok::<UserId, ApiError>(u),
        current is None ==> r == Err::<UserId, ApiError>(ApiError::Unauthenticated),
{
    match current {
        Some(u) => Ok(u),
        None => Err(ApiError::Unauthenticated),
    }
}

/// A user may list only their own saves.
pub fn check_user_saves_request(user: UserId, requested: UserId) -> (r: Result<(), ApiError>)
    ensures
        user == requested ==> r is Ok,
        user != requested ==> r == Err::<(), ApiError>(ApiError::NotYourSaves { you: user, them: requested }),
{
    if user != requested {
        Err(ApiError::NotYourSaves { you: user, them: requested })
    } else {
        Ok(())
    }
}

/// Reading a save, its details, name, versions or access list needs some access.
pub fn check_can_view(access: Option<UserAccess>) -> (r: Result<(), ApiError>)
    ensures
        r is Ok <==> access is Some,
        r is Err ==> r == Err::<(), ApiError>(ApiError::CannotViewSave),
{
    match access {
        Some(_) => Ok(()),
        None => Err(ApiError::CannotViewSave),
    }
}

/// Deleting a save needs ownership.
pub fn check_can_delete_save(access: Option<UserAccess>) -> (r: Result<(), ApiError>)
    ensures
        r is Ok <==> access == Some(UserAccess::Owner),
        r is Err ==> r == Err::<(), ApiError>(ApiError::CannotDeleteSave),
{
    match access {
        Some(UserAccess::Owner) => Ok(()),
        _ => Err(ApiError::CannotDeleteSave),
    }
}

/// Creating a version needs edit access.
pub fn check_can_create_version(access: Option<UserAccess>) -> (r: Result<(), ApiError>)
    ensures
        r is Ok <==> (access matches Some(a) && access_can_edit(a)),
        r is Err ==> r == Err::<(), ApiError>(ApiError::CannotCreateVersion),
{
    if access.can_edit() {
        Ok(())
    } else {
        Err(ApiError::CannotCreateVersion)
    }
}

/// Deleting a version needs edit access.
pub fn check_can_delete_version(access: Option<UserAccess>) -> (r: Result<(), ApiError>)
    ensures
        r is Ok <==> (access matches Some(a) && access_can_edit(a)),
        r is Err ==> r == Err::<(), ApiError>(ApiError::CannotDeleteVersion),
{
    if access.can_edit() {
        Ok(())
    } else {
        Err(ApiError::CannotDeleteVersion)
    }
}

/// Only the owner of a save may add, remove or change other users' access.
pub fn check_save_owner(user: UserId, owner: UserId) -> (r: Result<(), ApiError>)
    ensures
        r is Ok <==> user == owner,
        r is Err ==> r == Err::<(), ApiError>(ApiError::CannotModifySave),
{
    if user != owner {
        Err(ApiError::CannotModifySave)
    } else {
        Ok(())
    }
}

/// The owner's own entry cannot be added, removed or changed.
pub fn check_target_not_owner(target: UserId, owner: UserId) -> (r: Result<(), ApiError>)
    ensures
        r is Ok <==> target != owner,
        r is Err ==> r == Err::<(), ApiError>(ApiError::OwnerAccessFixed),
{
    if target == owner {
        Err(ApiError::OwnerAccessFixed)
    } else {
        Ok(())
    }
}

/// The whole decision on a request to change who has access: the user must be logged
/// in and own the save, and the target must exist and not be the owner.
pub fn authorize_access_change(
    current: Option<UserId>,
    owner: UserId,
    target: Option<UserId>,
) -> (r: Result<UserId, ApiError>)
    ensures
        current is None ==> r == Err::<UserId, ApiError>(ApiError::Unauthenticated),
        current matches Some(u) && u != owner ==> r == Err::<UserId, ApiError>(ApiError::CannotModifySave),
        current == Some(owner) && target is None ==> r == Err::<UserId, ApiError>(ApiError::UnknownUser),
        current == Some(owner) && target == Some(owner) ==> r == Err::<UserId, ApiError>(ApiError::OwnerAccessFixed),
        r matches Ok(t) ==> current == Some(owner) && target == Some(t) && t != owner,
        target matches Some(t) ==> (current == Some(owner) && t != owner ==> r == Ok::<UserId, ApiError>(t)),
{
    let user = require_user(current)?;
    check_save_owner(user, owner)?;
    let t = match target {
        Some(t) => t,
        None => return Err(ApiError::UnknownUser),
    };
    check_target_not_owner(t, owner)?;
    Ok(t)
}

/// The access of the logged-in user to a save: none without a logged-in user.
pub fn get_user_save_access(
    current: Option<UserId>,
    save_id: SaveId,
    save_owner: Option<UserId>,
    grants: &Vec<UserSaveAccess>,
) -> (r: Option<UserAccess>)
    ensures
        current is None ==> r is None,
        current matches Some(u) ==> r == effective_access(u, save_id, save_owner, grants@),
{
    match current {
        None => None,
        Some(u) => query_user_save_access(u, save_id, save_owner, grants),
    }
}

/// Among a user's permissions is one of the two that open the permissions endpoint.
pub open spec fn has_view_permission(perms: Seq<Seq<char>>) -> bool {
    exists|i: int| 0 <= i < perms.len() && (#[trigger] perms[i] == "Category::View"@ || perms[i] == "Admin::View"@)
}

/// The permissions endpoint needs `Category::View` or `Admin::View`.
pub fn check_permissions(perms: &Vec<String>) -> (r: Result<(), ApiError>)
    ensures
        r is Ok <==> has_view_permission(perms@.map_values(|p: String| p@)),
        r is Err ==> r == Err::<(), ApiError>(ApiError::NoPermission),
{
    let ghost views = perms@.map_values(|p: String| p@);
    let category = String::from_str("Category::View");
    let admin = String::from_str("Admin::View");
    let mut i: usize = 0;
    while i < perms.len()
        invariant
            i <= perms@.len(),
            views == perms@.map_values(|p: String| p@),
            category@ == "Category::View"@,
            admin@ == "Admin::View"@,
            forall|k: int| 0 <= k < i ==> !(#[trigger] views[k] == "Category::View"@ || views[k] == "Admin::View"@),
        decreases perms.len() - i,
    {
        if perms[i] == category || perms[i] == admin {
            assert(views[i as int] == perms@[i as int]@);
            return Ok(());
        }
        i = i + 1;
    }
    Err(ApiError::NoPermission)
}

/// The name the client shows for the session: the user's name, or `Unknown`.
pub fn get_username(current: Option<&UserPreview>) -> (r: String)
    ensures
        current matches Some(u) ==> r@ == u.username@,
        current is None ==> r@ == "Unknown"@,
{
    match current {
        Some(u) => String::from_str(u.username.as_str()),
        None => String::from_str("Unknown"),
    }
}

/// A valid version label: not blank, without path separators.
pub open spec fn version_name_valid(name: Seq<char>) -> bool {
    trim_spec(name).len() > 0 && !name.contains('/') && !name.contains('\\')
}

/// Whether a label may name a version.
pub fn is_version_name_valid(name: &str) -> (r: bool)
    ensures
        r == version_name_valid(name@),
        r == (trim_spec(name@).len() > 0 && !name@.contains('/') && !name@.contains('\\')),
{
    let t = trim(name);
    t.as_str().unicode_len() > 0 && !contains_char(name, '/') && !contains_char(name, '\\')
}

/// A save name may not contain path separators (the client's check).
pub fn is_save_name_valid(name: &str) -> (r: bool)
    ensures
        r == (!name@.contains('/') && !name@.contains('\\')),
{
    !contains_char(name, '/') && !contains_char(name, '\\')
}

/// The fields of a version upload, as the server reads them from the form.
pub struct VersionForm {
    /// The text of the last `label` field.
    pub label: Option<String>,
    /// The (trimmed) file name of the last `file` field, when it had one.
    pub file_name: Option<String>,
    /// The size of the last `file` field's content.
    pub file_len: Option<usize>,
}

/// A version upload that passed the checks. Only `VersionForm::validate` makes one.
pub struct ValidVersionForm {
    label: String,
    file_name: String,
}

impl View for ValidVersionForm {
    /// The trimmed label and the name of the uploaded file.
    type V = (Seq<char>, Seq<char>);

    closed spec fn view(&self) -> (Seq<char>, Seq<char>) {
        (self.label@, self.file_name@)
    }
}

impl ValidVersionForm {
    /// The trimmed label.
    pub fn label(&self) -> (r: &str)
        ensures
            r@ == self@.0,
    {
        self.label.as_str()
    }

    /// The name of the uploaded file.
    pub fn file_name(&self) -> (r: &str)
        ensures
            r@ == self@.1,
    {
        self.file_name.as_str()
    }
}

/// The form is acceptable: a non-blank label and a non-empty file, a file name, and a
/// valid trimmed label.
pub open spec fn version_form_error(
    label: Option<Seq<char>>,
    file_name: Option<Seq<char>>,
    file_len: Option<usize>,
) -> Option<ApiError> {
    if label is None || file_len is None || trim_spec(label->0).len() == 0 || file_len->0 == 0 {
        Some(ApiError::MissingFields)
    } else if file_name is None || file_name->0.len() == 0 {
        Some(ApiError::MissingFileName)
    } else if !version_name_valid(trim_spec(label->0)) {
        Some(ApiError::InvalidLabel)
    } else {
        None
    }
}

/// The view of an optional string.
pub open spec fn opt_view(s: Option<String>) -> Option<Seq<char>> {
    match s {
        Some(t) => Some(t@),
        None => None,
    }
}

/// What the upload checks come to, on the label, file name and size themselves: a form
/// is refused for missing fields when the label or file is missing, the label is blank or
/// the file is empty; then for a missing file name; then for a trimmed label holding `/`
/// or `\\`; and it is accepted otherwise.
pub proof fn lemma_version_form_rules(label: Option<Seq<char>>, file_name: Option<Seq<char>>, file_len: Option<usize>)
    ensures
        label is None || file_len is None || trim_spec(label->0).len() == 0 || file_len->0 == 0
            ==> version_form_error(label, file_name, file_len) == Some(ApiError::MissingFields),
        label is Some && trim_spec(label->0).len() > 0 && (file_len matches Some(n) && n > 0)
            && (file_name is None || file_name->0.len() == 0)
            ==> version_form_error(label, file_name, file_len) == Some(ApiError::MissingFileName),
        label is Some && trim_spec(label->0).len() > 0 && (file_len matches Some(n) && n > 0)
            && (file_name matches Some(f) && f.len() > 0)
            && (trim_spec(label->0).contains('/') || trim_spec(label->0).contains('\\'))
            ==> version_form_error(label, file_name, file_len) == Some(ApiError::InvalidLabel),
        version_form_error(label, file_name, file_len) is None ==> (label matches Some(l)
            && trim_spec(l).len() > 0 && !trim_spec(l).contains('/') && !trim_spec(l).contains('\\')
            && (file_len matches Some(n) && n > 0) && (file_name matches Some(f) && f.len() > 0)),
{
}

impl VersionForm {
    /// A form with no fields read yet.
    pub fn new() -> (f: VersionForm)
        ensures
            f.label is None && f.file_name is None && f.file_len is None,
    {
        VersionForm { label: None, file_name: None, file_len: None }
    }

    /// Reads a `label` field.
    pub fn set_label(&mut self, text: String)
        ensures
            final(self).label == Some(text),
            final(self).file_name == old(self).file_name,
            final(self).file_len == old(self).file_len,
    {
        self.label = Some(text);
    }

    /// Reads a `file` field: its (optional) file name, trimmed, and its size.
    pub fn set_file(&mut self, file_name: Option<&str>, len: usize)
        ensures
            final(self).label == old(self).label,
            final(self).file_len == Some(len),
            opt_view(final(self).file_name) == (match file_name {
                Some(n) => Some(trim_spec(n@)),
                None => None::<Seq<char>>,
            }),
    {
        self.file_name = match file_name {
            Some(n) => Some(trim(n)),
            None => None,
        };
        self.file_len = Some(len);
    }

    /// Reads one field of the upload, whatever its kind: a field named `label` gives the
    /// label (its content as text), a field named `file` gives the file name and size, and
    /// any other field is ignored; a later field of the same name replaces an earlier one.
    /// Tells whether the field's content is the uploaded file.
    pub fn read_field(&mut self, name: &str, text: String, file_name: Option<&str>, len: usize) -> (is_file: bool)
        ensures
            is_file == (name@ == "file"@),
            name@ == "label"@ ==> final(self).label == Some(text) && final(self).file_name == old(self).file_name
                && final(self).file_len == old(self).file_len,
            name@ == "file"@ ==> final(self).label == old(self).label && final(self).file_len == Some(len)
                && opt_view(final(self).file_name) == (match file_name {
                    Some(n) => Some(trim_spec(n@)),
                    None => None::<Seq<char>>,
                }),
            name@ != "label"@ && name@ != "file"@ ==> *final(self) == *old(self),
    {
        proof {
            lemma_lex_order_antisym(name@, "label"@);
            lemma_lex_order_antisym(name@, "file"@);
        }
        if compare_text(name, "label") == 0 {
            proof {
                reveal_strlit("label");
                reveal_strlit("file");
            }
            self.set_label(text);
            false
        } else if compare_text(name, "file") == 0 {
            self.set_file(file_name, len);
            true
        } else {
            false
        }
    }

    /// Checks the form; on success hands back the trimmed label and the file name.
    pub fn validate(self) -> (r: Result<ValidVersionForm, ApiError>)
        ensures
            version_form_error(opt_view(self.label), opt_view(self.file_name), self.file_len) matches Some(e)
                ==> r == Err::<ValidVersionForm, ApiError>(e),
            version_form_error(opt_view(self.label), opt_view(self.file_name), self.file_len) is None
                ==> r is Ok,
            r matches Ok(v) ==> v@ == (trim_spec(self.label->0@), self.file_name->0@),
            r matches Ok(v) ==> v@.0.len() > 0 && !v@.0.contains('/') && !v@.0.contains('\\')
                && v@.1.len() > 0 && (self.file_len matches Some(n) && n > 0),
            self.label is None || self.file_len is None || trim_spec(self.label->0@).len() == 0
                || self.file_len->0 == 0 ==> r == Err::<ValidVersionForm, ApiError>(ApiError::MissingFields),
            self.label is Some && trim_spec(self.label->0@).len() > 0 && (self.file_len matches Some(n) && n > 0)
                && (self.file_name is None || self.file_name->0@.len() == 0)
                ==> r == Err::<ValidVersionForm, ApiError>(ApiError::MissingFileName),
            self.label is Some && trim_spec(self.label->0@).len() > 0 && (self.file_len matches Some(n) && n > 0)
                && (self.file_name matches Some(f) && f@.len() > 0)
                && (trim_spec(self.label->0@).contains('/') || trim_spec(self.label->0@).contains('\\'))
                ==> r == Err::<ValidVersionForm, ApiError>(ApiError::InvalidLabel),
    {
        let ghost lv = opt_view(self.label);
        let ghost fv = opt_view(self.file_name);
        let ghost fl = self.file_len;
        let label = match self.label {
            Some(l) => l,
            None => return Err(ApiError::MissingFields),
        };
        let len = match self.file_len {
            Some(n) => n,
            None => return Err(ApiError::MissingFields),
        };
        let trimmed = trim(label.as_str());
        if trimmed.as_str().unicode_len() == 0 || len == 0 {
            return Err(ApiError::MissingFields);
        }
        let file_name = match self.file_name {
            Some(n) => n,
            None => return Err(ApiError::MissingFileName),
        };
        if file_name.as_str().unicode_len() == 0 {
            return Err(ApiError::MissingFileName);
        }
        if !is_version_name_valid(trimmed.as_str()) {
            return Err(ApiError::InvalidLabel);
        }
        Ok(ValidVersionForm { label: trimmed, file_name })
    }
}

/// The folder of a save on the server: `./saves/<owner name>/<game>/<save name>`.
pub open spec fn save_folder_spec(username: Seq<char>, game: Game, name: Seq<char>) -> Seq<char> {
    "./saves/"@ + username + "/"@ + game_debug_name(game) + "/"@ + name
}

/// The folder of a save on the server.
pub fn save_folder(username: &str, game: Game, name: &str) -> (r: String)
    ensures
        r@ == save_folder_spec(username@, game, name@),
{
    let mut r = String::from_str("./saves/");
    r.append(username);
    r.append("/");
    r.append(game.debug_name());
    r.append("/");
    r.append(name);
    r
}

/// The archive of a version on the server: `<save folder>/<version>.zip`.
pub fn version_file(username: &str, game: Game, name: &str, version: i32) -> (r: String)
    ensures
        r@ == save_folder_spec(username@, game, name@) + "/"@ + decimal_text(version as int) + ".zip"@,
{
    let mut r = save_folder(username, game, name);
    r.append("/");
    let v = i64_to_text(version as i64);
    r.append(v.as_str());
    r.append(".zip");
    r
}

/// The name under which a version is downloaded: `<game>_<save name>_v<version>.zip`.
pub fn download_file_name(game: Game, save_name: &str, version: i32) -> (r: String)
    ensures
        r@ == game_debug_name(game) + "_"@ + save_name@ + "_v"@ + decimal_text(version as int) + ".zip"@,
{
    let mut r = String::from_str(game.debug_name());
    r.append("_");
    r.append(save_name);
    r.append("_v");
    let v = i64_to_text(version as i64);
    r.append(v.as_str());
    r.append(".zip");
    r
}

/// The save the server reports after creating one: owned by its creator, no versions yet.
pub fn new_save(id: SaveId, name: String, game: Game, owner: UserId) -> (s: Save)
    ensures
        s == (Save { id, name, game, owner, version_count: 0, most_recent_version: None }),
{
    Save { id, name, game, owner, version_count: 0, most_recent_version: None }
}

} // verus!
