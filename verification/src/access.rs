//! Who may do what with a save: access levels, the access query, and the
//! owner's editable list of users with access.

use vstd::prelude::*;
use crate::text::{compare_text, lex_order, lemma_lex_order_antisym, lemma_lex_order_trans};

verus! {

/// Identifier of a user.
pub type UserId = i32;

/// Identifier of a save.
pub type SaveId = i32;

/// Identifier of a version.
pub type VersionId = i32;

/// Access level of a user to a save.
#[derive(Debug, Clone, Copy, PartialEq, Eq, Structural)]
pub enum UserAccess {
    View,
    Edit,
    Owner,
}

/// Name of an access level, as shown in the UI.
pub open spec fn access_name(a: UserAccess) -> Seq<char> {
    match a {
        UserAccess::View => "View"@,
        UserAccess::Edit => "Edit"@,
        UserAccess::Owner => "Owner"@,
    }
}

/// Numeric code of an access level in the database.
pub open spec fn access_code(a: UserAccess) -> int {
    match a {
        UserAccess::View => 0,
        UserAccess::Edit => 1,
        UserAccess::Owner => 2,
    }
}

/// The level may change the save's versions.
pub open spec fn access_can_edit(a: UserAccess) -> bool {
    a == UserAccess::Edit || a == UserAccess::Owner
}

/// The level may see the save.
pub open spec fn access_can_view(a: UserAccess) -> bool {
    a == UserAccess::View || a == UserAccess::Edit || a == UserAccess::Owner
}

/// The level the owner's access button switches to: `View` becomes `Edit`, anything
/// else becomes `View`.
pub open spec fn toggled_access(a: UserAccess) -> UserAccess {
    if a == UserAccess::View {
        UserAccess::Edit
    } else {
        UserAccess::View
    }
}

impl UserAccess {
    /// The level allows changing versions.
    pub fn can_edit(&self) -> (r: bool)
        ensures
            r == access_can_edit(*self),
    {
        match self {
            UserAccess::Edit | UserAccess::Owner => true,
            UserAccess::View => false,
        }
    }

    /// The level allows seeing the save.
    pub fn can_view(&self) -> (r: bool)
        ensures
            r == access_can_view(*self),
    {
        match self {
            UserAccess::View | UserAccess::Edit | UserAccess::Owner => true,
        }
    }

    /// The name of the level (what `Display` writes).
    pub fn to_string(&self) -> (r: String)
        ensures
            r@ == access_name(*self),
    {
        match self {
            UserAccess::View => String::from_str("View"),
            UserAccess::Edit => String::from_str("Edit"),
            UserAccess::Owner => String::from_str("Owner"),
        }
    }

    /// The database code of the level.
    pub fn code(&self) -> (c: u8)
        ensures
            c as int == access_code(*self),
    {
        match self {
            UserAccess::View => 0,
            UserAccess::Edit => 1,
            UserAccess::Owner => 2,
        }
    }

    /// The level stored under a database code, if any.
    pub fn from_code(code: i64) -> (a: Option<UserAccess>)
        ensures
            a matches Some(x) ==> access_code(x) == code,
            a is None <==> !(0 <= code <= 2),
    {
        if code == 0 {
            Some(UserAccess::View)
        } else if code == 1 {
            Some(UserAccess::Edit)
        } else if code == 2 {
            Some(UserAccess::Owner)
        } else {
            None
        }
    }

    /// The level requested when the owner clicks a user's access button.
    pub fn toggled(&self) -> (r: UserAccess)
        ensures
            r == toggled_access(*self),
    {
        match self {
            UserAccess::View => UserAccess::Edit,
            _ => UserAccess::View,
        }
    }
}

/// Access checks on a possibly missing access level (no access at all).
pub trait UserAccessExt {
    /// Some level that allows changing versions.
    fn can_edit(&self) -> bool;

    /// Some level that allows seeing the save.
    fn can_view(&self) -> bool;
}

impl UserAccessExt for Option<UserAccess> {
    fn can_edit(&self) -> (r: bool)
        ensures
            r == (*self matches Some(a) && access_can_edit(a)),
    {
        match self {
            Some(a) => a.can_edit(),
            None => false,
        }
    }

    fn can_view(&self) -> (r: bool)
        ensures
            r == (*self matches Some(a) && access_can_view(a)),
    {
        match self {
            Some(a) => a.can_view(),
            None => false,
        }
    }
}

/// Whoever may edit may also view, and any level at all may view.
pub proof fn lemma_edit_implies_view(a: UserAccess)
    ensures
        access_can_edit(a) ==> access_can_view(a),
        access_can_view(a),
{
}

/// The owner's access button never hands out ownership, and clicking it twice on a
/// `View` or `Edit` user gives the level back.
pub proof fn lemma_toggle(a: UserAccess)
    ensures
        toggled_access(a) != UserAccess::Owner,
        a != UserAccess::Owner ==> toggled_access(toggled_access(a)) == a,
{
}

/// Decoding the code of a level gives the level back.
pub proof fn lemma_access_code_roundtrip(a: UserAccess)
    ensures
        0 <= access_code(a) <= 2,
        forall|b: UserAccess| access_code(b) == access_code(a) ==> b == a,
{
}

/// A row of the table that grants users access to saves.
#[derive(Debug, Clone, Copy, PartialEq, Eq, Structural)]
pub struct UserSaveAccess {
    pub user_id: UserId,
    pub save_id: SaveId,
    pub access: UserAccess,
}

/// Index of the first grant for `user` on `save` at or after `i`, or `grants.len()`.
pub open spec fn first_grant_from(grants: Seq<UserSaveAccess>, user: UserId, save: SaveId, i: int) -> int
    decreases grants.len() - i,
{
    if i < 0 || i >= grants.len() {
        grants.len() as int
    } else if grants[i].user_id == user && grants[i].save_id == save {
        i
    } else {
        first_grant_from(grants, user, save, i + 1)
    }
}

/// The access of `user` to save `save` whose owner is `owner` (`None` when the save
/// does not exist): the owner has `Owner`; anyone else has the level of their first
/// grant for that save, or no access.
pub open spec fn effective_access(
    user: UserId,
    save: SaveId,
    owner: Option<UserId>,
    grants: Seq<UserSaveAccess>,
) -> Option<UserAccess> {
    match owner {
        None => None,
        Some(o) => if o == user {
            Some(UserAccess::Owner)
        } else {
            let k = first_grant_from(grants, user, save, 0);
            if k < grants.len() {
                Some(grants[k].access)
            } else {
                None
            }
        },
    }
}

/// The access of a user to a save, from the save's owner (`None` when there is no such
/// save) and the grant rows.
pub fn query_user_save_access(
    user_id: UserId,
    save_id: SaveId,
    save_owner: Option<UserId>,
    grants: &Vec<UserSaveAccess>,
) -> (r: Option<UserAccess>)
    ensures
        r == effective_access(user_id, save_id, save_owner, grants@),
{
    match save_owner {
        None => None,
        Some(owner) => {
            if owner == user_id {
                return Some(UserAccess::Owner);
            }
            let mut i: usize = 0;
            while i < grants.len()
                invariant
                    i <= grants@.len(),
                    save_owner == Some(owner),
                    owner != user_id,
                    first_grant_from(grants@, user_id, save_id, 0) == first_grant_from(
                        grants@,
                        user_id,
                        save_id,
                        i as int,
                    ),
                decreases grants.len() - i,
            {
                if grants[i].user_id == user_id && grants[i].save_id == save_id {
                    assert(first_grant_from(grants@, user_id, save_id, i as int) == i);
                    assert(effective_access(user_id, save_id, save_owner, grants@) == Some(grants@[i as int].access));
                    return Some(grants[i].access);
                }
                i = i + 1;
            }
            None
        },
    }
}

/// The owner of a save always has full access; a user who is neither owner nor granted
/// anything has none; and without any grant of `Owner`, only the owner has `Owner`.
pub proof fn lemma_effective_access(
    user: UserId,
    save: SaveId,
    owner: Option<UserId>,
    grants: Seq<UserSaveAccess>,
)
    ensures
        owner == Some(user) ==> effective_access(user, save, owner, grants) == Some(UserAccess::Owner),
        owner is None ==> effective_access(user, save, owner, grants) is None,
        owner is Some && owner != Some(user) && (forall|i: int| 0 <= i < grants.len() ==> !(#[trigger] grants[i].user_id == user && grants[i].save_id == save))
            ==> effective_access(user, save, owner, grants) is None,
        (forall|i: int| 0 <= i < grants.len() ==> #[trigger] grants[i].access != UserAccess::Owner)
            && effective_access(user, save, owner, grants) == Some(UserAccess::Owner) ==> owner == Some(user),
{
    lemma_first_grant_bounds(grants, user, save, 0);
    if owner is Some && owner != Some(user) && (forall|i: int| 0 <= i < grants.len() ==> !(#[trigger] grants[i].user_id == user && grants[i].save_id == save)) {
        lemma_first_grant_none(grants, user, save, 0);
    }
}

proof fn lemma_first_grant_bounds(grants: Seq<UserSaveAccess>, user: UserId, save: SaveId, i: int)
    requires
        0 <= i,
    ensures
        i <= first_grant_from(grants, user, save, i) <= grants.len() || i > grants.len(),
        first_grant_from(grants, user, save, i) < grants.len() ==> grants[first_grant_from(grants, user, save, i)].user_id == user
            && grants[first_grant_from(grants, user, save, i)].save_id == save,
    decreases grants.len() - i,
{
    if i < grants.len() {
        lemma_first_grant_bounds(grants, user, save, i + 1);
    }
}

proof fn lemma_first_grant_none(grants: Seq<UserSaveAccess>, user: UserId, save: SaveId, i: int)
    requires
        0 <= i,
        forall|k: int| 0 <= k < grants.len() ==> !(#[trigger] grants[k].user_id == user && grants[k].save_id == save),
    ensures
        first_grant_from(grants, user, save, i) == grants.len(),
    decreases grants.len() - i,
{
    if i < grants.len() {
        lemma_first_grant_none(grants, user, save, i + 1);
    }
}

/// A user, by id and name.
#[derive(Debug, Clone, PartialEq, Eq)]
pub struct UserPreview {
    pub id: UserId,
    pub username: String,
}

/// A user with access to a save, and the level of that access.
#[derive(Debug, Clone, PartialEq, Eq)]
pub struct NamedUserAccess {
    pub user: UserPreview,
    pub access: UserAccess,
}

/// A save's owner and the users granted access to it.
#[derive(Debug, Clone, PartialEq, Eq)]
pub struct SaveAccess {
    pub owner: UserPreview,
    pub access_list: Vec<NamedUserAccess>,
}

/// The entries are ordered by username, strictly (so no username occurs twice).
pub open spec fn sorted_by_username(list: Seq<NamedUserAccess>) -> bool {
    forall|i: int, j: int|
        0 <= i < j < list.len() ==> lex_order(list[i].user.username@, list[j].user.username@) < 0
}

/// Some entry has this username.
pub open spec fn has_username(list: Seq<NamedUserAccess>, name: Seq<char>) -> bool {
    exists|i: int| 0 <= i < list.len() && #[trigger] list[i].user.username@ == name
}

/// Where a username is, or would go, in an access list (`slice::binary_search_by` on the
/// usernames): `Ok(i)` when entry `i` has it, `Err(p)` with the position that keeps the
/// list ordered otherwise. On a list that is not ordered the position is still in range,
/// but need not be where the name belongs.
pub fn search_username(list: &Vec<NamedUserAccess>, name: &str) -> (r: Result<usize, usize>)
    ensures
        r matches Ok(i) ==> i < list@.len() && list@[i as int].user.username@ == name@,
        r matches Err(p) ==> p <= list@.len(),
        sorted_by_username(list@) ==> (r is Err <==> !has_username(list@, name@)),
        r matches Err(p) ==> (sorted_by_username(list@) ==> (forall|k: int|
            0 <= k < p ==> lex_order(#[trigger] list@[k].user.username@, name@) < 0) && (forall|k: int|
            p <= k < list@.len() ==> lex_order(name@, #[trigger] list@[k].user.username@) < 0)),
{
    let mut lo: usize = 0;
    let mut hi: usize = list.len();
    while lo < hi
        invariant
            lo <= hi <= list@.len(),
            sorted_by_username(list@) ==> forall|k: int| 0 <= k < lo ==> lex_order(#[trigger] list@[k].user.username@, name@) < 0,
            sorted_by_username(list@) ==> forall|k: int| hi <= k < list@.len() ==> lex_order(name@, #[trigger] list@[k].user.username@) < 0,
        decreases hi - lo,
    {
        let mid = lo + (hi - lo) / 2;
        let c = compare_text(list[mid].user.username.as_str(), name);
        proof {
            lemma_lex_order_antisym(list@[mid as int].user.username@, name@);
        }
        if c == 0 {
            return Ok(mid);
        } else if c < 0 {
            proof {
                if sorted_by_username(list@) {
                    assert forall|k: int| 0 <= k < mid + 1 implies lex_order(#[trigger] list@[k].user.username@, name@) < 0 by {
                        if k < mid {
                            lemma_lex_order_trans(list@[k].user.username@, list@[mid as int].user.username@, name@);
                        }
                    }
                }
            }
            lo = mid + 1;
        } else {
            proof {
                if sorted_by_username(list@) {
                    assert forall|k: int| mid <= k < list@.len() implies lex_order(name@, #[trigger] list@[k].user.username@) < 0 by {
                        if k > mid {
                            lemma_lex_order_trans(name@, list@[mid as int].user.username@, list@[k].user.username@);
                        }
                    }
                }
            }
            hi = mid;
        }
    }
    proof {
        if sorted_by_username(list@) && has_username(list@, name@) {
            let k = choose|k: int| 0 <= k < list@.len() && #[trigger] list@[k].user.username@ == name@;
            lemma_lex_order_antisym(name@, name@);
            if k < lo {
                assert(lex_order(list@[k].user.username@, name@) < 0);
            } else {
                assert(lex_order(name@, list@[k].user.username@) < 0);
            }
        }
    }
    Err(lo)
}

/// Adds a user with `View` access to the owner's list, at its place by username, unless
/// the username is already listed. Tells whether it was added.
pub fn add_access_entry(list: &mut Vec<NamedUserAccess>, username: String) -> (added: bool)
    ensures
        sorted_by_username(old(list)@) ==> (added <==> !has_username(old(list)@, username@)),
        !added ==> final(list)@ == old(list)@,
        added ==> exists|p: int| 0 <= p <= old(list)@.len() && final(list)@ == old(list)@.insert(
            p,
            NamedUserAccess { user: UserPreview { id: 0, username }, access: UserAccess::View },
        ),
        sorted_by_username(old(list)@) ==> sorted_by_username(final(list)@),
        sorted_by_username(old(list)@) ==> has_username(final(list)@, username@),
{
    let pos = search_username(list, username.as_str());
    match pos {
        Ok(_) => false,
        Err(p) => {
            let ghost name = username@;
            let ghost old_list = list@;
            let entry = NamedUserAccess {
                user: UserPreview { id: 0, username },
                access: UserAccess::View,
            };
            list.insert(p, entry);
            proof {
                let new_list = list@;
                assert(new_list[p as int].user.username@ == name);
                if sorted_by_username(old_list) {
                    assert forall|i: int, j: int| 0 <= i < j < new_list.len() implies lex_order(new_list[i].user.username@, new_list[j].user.username@) < 0 by {
                        if j < p {
                            assert(new_list[i] == old_list[i] && new_list[j] == old_list[j]);
                        } else if j == p {
                            assert(new_list[i] == old_list[i]);
                        } else if i == p {
                            assert(new_list[j] == old_list[j - 1]);
                        } else if i < p {
                            assert(new_list[i] == old_list[i] && new_list[j] == old_list[j - 1]);
                        } else {
                            assert(new_list[i] == old_list[i - 1] && new_list[j] == old_list[j - 1]);
                        }
                    }
                }
            }
            true
        },
    }
}

/// The entries of `list` whose user is not `id`, in their order.
pub open spec fn without_user(list: Seq<NamedUserAccess>, id: UserId) -> Seq<NamedUserAccess>
    decreases list.len(),
{
    if list.len() == 0 {
        Seq::empty()
    } else {
        let rest = without_user(list.drop_last(), id);
        if list.last().user.id != id {
            rest.push(list.last())
        } else {
            rest
        }
    }
}

/// Removes every entry of user `id` from the list (`Vec::retain`), keeping the order of
/// the others.
pub fn remove_access_entry(list: &mut Vec<NamedUserAccess>, id: UserId)
    ensures
        final(list)@ == without_user(old(list)@, id),
        final(list)@ == old(list)@.filter(|e: NamedUserAccess| e.user.id != id),
{
    proof {
        lemma_without_user_is_filter(old(list)@, id);
    }
    let mut rest: Vec<NamedUserAccess> = Vec::new();
    std::mem::swap(list, &mut rest);
    let ghost orig = rest@;
    let n = rest.len();
    let mut done: usize = 0;
    while rest.len() > 0
        invariant
            n == orig.len(),
            done + rest@.len() == n,
            rest@ == orig.skip(done as int),
            list@ == without_user(orig.take(done as int), id),
        decreases rest.len(),
    {
        let entry = rest.remove(0);
        proof {
            assert(orig.take(done + 1).drop_last() =~= orig.take(done as int));
            assert(orig.take(done + 1).last() == orig[done as int]);
            assert(rest@ =~= orig.skip(done + 1));
        }
        if entry.user.id != id {
            list.push(entry);
        }
        done = done + 1;
    }
    assert(orig.take(n as int) =~= orig);
}

/// What removing a user's entries leaves: no entry of that user, every other entry, and
/// nothing that was not there before.
pub proof fn lemma_without_user(list: Seq<NamedUserAccess>, id: UserId)
    ensures
        forall|i: int| 0 <= i < without_user(list, id).len() ==> (#[trigger] without_user(list, id)[i]).user.id != id,
        forall|i: int| 0 <= i < without_user(list, id).len() ==> list.contains(#[trigger] without_user(list, id)[i]),
        forall|i: int| 0 <= i < list.len() && (#[trigger] list[i]).user.id != id ==> without_user(list, id).contains(list[i]),
    decreases list.len(),
{
    if list.len() > 0 {
        let init = list.drop_last();
        lemma_without_user(init, id);
        let r = without_user(init, id);
        assert forall|i: int| 0 <= i < without_user(list, id).len() implies list.contains(#[trigger] without_user(list, id)[i]) by {
            if i < r.len() {
                let x = r[i];
                assert(init.contains(x));
                let k = choose|k: int| 0 <= k < init.len() && init[k] == x;
                assert(list[k] == x);
            } else {
                assert(list[list.len() - 1] == list.last());
            }
        }
        assert forall|i: int| 0 <= i < list.len() && (#[trigger] list[i]).user.id != id implies without_user(list, id).contains(list[i]) by {
            if i < list.len() - 1 {
                assert(init[i] == list[i]);
                assert(r.contains(list[i]));
                let k = choose|k: int| 0 <= k < r.len() && r[k] == list[i];
                assert(without_user(list, id)[k] == list[i]);
            } else {
                assert(without_user(list, id)[r.len() as int] == list[i]);
            }
        }
    }
}

/// Removing a user's entries keeps exactly the other entries, in the order they had: it
/// is the list filtered by "another user".
pub proof fn lemma_without_user_is_filter(list: Seq<NamedUserAccess>, id: UserId)
    ensures
        without_user(list, id) == list.filter(|e: NamedUserAccess| e.user.id != id),
    decreases list.len(),
{
    reveal_with_fuel(Seq::filter, 1);
    if list.len() > 0 {
        lemma_without_user_is_filter(list.drop_last(), id);
    }
}

/// Removing entries keeps the list ordered by username.
pub proof fn lemma_without_user_sorted(list: Seq<NamedUserAccess>, id: UserId)
    requires
        sorted_by_username(list),
    ensures
        sorted_by_username(without_user(list, id)),
    decreases list.len(),
{
    if list.len() > 0 {
        let init = list.drop_last();
        assert(sorted_by_username(init));
        lemma_without_user_sorted(init, id);
        lemma_without_user(init, id);
        let r = without_user(init, id);
        if list.last().user.id != id {
            let w = r.push(list.last());
            assert forall|i: int, j: int| 0 <= i < j < w.len() implies lex_order(w[i].user.username@, w[j].user.username@) < 0 by {
                if j == w.len() - 1 {
                    assert(init.contains(r[i]));
                    let k = choose|k: int| 0 <= k < init.len() && init[k] == r[i];
                    assert(list[k] == r[i]);
                    assert(w[j] == list[list.len() - 1]);
                } else {
                    assert(w[i] == r[i] && w[j] == r[j]);
                }
            }
        }
    }
}

/// Sets the access level of entry `index` (the owner's button, or undoing it when the
/// server refuses).
pub fn set_access_at(list: &mut Vec<NamedUserAccess>, index: usize, access: UserAccess)
    requires
        index < old(list)@.len(),
    ensures
        final(list)@.len() == old(list)@.len(),
        final(list)@[index as int].access == access,
        final(list)@[index as int].user == old(list)@[index as int].user,
        forall|i: int| 0 <= i < old(list)@.len() && i != index ==> final(list)@[i] == old(list)@[i],
{
    let mut entry = list.remove(index);
    entry.access = access;
    list.insert(index, entry);
}

/// Changing an entry's level keeps the list ordered, and keeps every username.
pub proof fn lemma_set_access_keeps_order(before: Seq<NamedUserAccess>, after: Seq<NamedUserAccess>, index: int)
    requires
        0 <= index < before.len(),
        after.len() == before.len(),
        after[index].user == before[index].user,
        forall|i: int| 0 <= i < before.len() && i != index ==> after[i] == before[i],
    ensures
        sorted_by_username(before) ==> sorted_by_username(after),
        forall|name: Seq<char>| has_username(before, name) <==> has_username(after, name),
{
    assert forall|i: int| 0 <= i < before.len() implies #[trigger] after[i].user == before[i].user by {
        if i != index {
            assert(after[i] == before[i]);
        }
    }
    assert forall|name: Seq<char>| has_username(before, name) implies has_username(after, name) by {
        let k = choose|k: int| 0 <= k < before.len() && #[trigger] before[k].user.username@ == name;
        assert(after[k].user == before[k].user);
    }
    assert forall|name: Seq<char>| has_username(after, name) implies has_username(before, name) by {
        let k = choose|k: int| 0 <= k < after.len() && #[trigger] after[k].user.username@ == name;
        assert(after[k].user == before[k].user);
    }
}

/// Undoing a change of level: setting entry `index` back to the level it had before
/// gives back the list as it was before the change.
pub proof fn lemma_set_access_undo(
    before: Seq<NamedUserAccess>,
    changed: Seq<NamedUserAccess>,
    restored: Seq<NamedUserAccess>,
    index: int,
)
    requires
        0 <= index < before.len(),
        changed.len() == before.len(),
        changed[index].user == before[index].user,
        forall|i: int| 0 <= i < before.len() && i != index ==> changed[i] == before[i],
        restored.len() == changed.len(),
        restored[index].access == before[index].access,
        restored[index].user == changed[index].user,
        forall|i: int| 0 <= i < changed.len() && i != index ==> restored[i] == changed[i],
    ensures
        restored == before,
{
    assert(restored[index] == before[index]);
    assert(restored =~= before);
}

} // verus!
