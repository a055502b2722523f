//! Versions of a save, and the version list of the UI.

use vstd::prelude::*;
use crate::access::{SaveId, UserPreview, VersionId};
use crate::game::{CanAuto, Game};
use crate::text::{decimal_text, i64_to_text};
use crate::time::{timestamp_text, utc_timestamp_text, date_time_format};

verus! {

/// A stored version of a save.
#[derive(Debug, Clone, PartialEq, Eq)]
pub struct Version {
    pub id: VersionId,
    pub save_id: SaveId,
    pub version: i32,
    pub label: String,
    pub timestamp: i32,
    pub by: UserPreview,
}

/// Shows a newly created version at the top of the list.
pub fn add_created_version(list: &mut Vec<Version>, v: Version)
    ensures
        final(list)@ == seq![v] + old(list)@,
{
    list.insert(0, v);
    assert(list@ =~= seq![v] + old(list)@);
}

/// The versions of `list` other than `id`, in their order.
pub open spec fn without_version(list: Seq<Version>, id: VersionId) -> Seq<Version>
    decreases list.len(),
{
    if list.len() == 0 {
        Seq::empty()
    } else {
        let rest = without_version(list.drop_last(), id);
        if list.last().id != id {
            rest.push(list.last())
        } else {
            rest
        }
    }
}

/// Removes a deleted version from the list (`Vec::retain`).
pub fn remove_version(list: &mut Vec<Version>, id: VersionId)
    ensures
        final(list)@ == without_version(old(list)@, id),
        final(list)@ == old(list)@.filter(|v: Version| v.id != id),
{
    proof {
        lemma_without_version_is_filter(old(list)@, id);
    }
    let mut rest: Vec<Version> = Vec::new();
    std::mem::swap(list, &mut rest);
    let ghost orig = rest@;
    let n = rest.len();
    let mut done: usize = 0;
    while rest.len() > 0
        invariant
            n == orig.len(),
            done + rest@.len() == n,
            rest@ == orig.skip(done as int),
            list@ == without_version(orig.take(done as int), id),
        decreases rest.len(),
    {
        let v = rest.remove(0);
        proof {
            assert(orig.take(done + 1).drop_last() =~= orig.take(done as int));
            assert(orig.take(done + 1).last() == orig[done as int]);
            assert(rest@ =~= orig.skip(done + 1));
        }
        if v.id != id {
            list.push(v);
        }
        done = done + 1;
    }
    assert(orig.take(n as int) =~= orig);
}

/// After removing a version, no version with its id is left, and the others stay.
pub proof fn lemma_without_version(list: Seq<Version>, id: VersionId)
    ensures
        forall|i: int| 0 <= i < without_version(list, id).len() ==> (#[trigger] without_version(list, id)[i]).id != id,
        forall|i: int| 0 <= i < list.len() && (#[trigger] list[i]).id != id ==> without_version(list, id).contains(list[i]),
    decreases list.len(),
{
    if list.len() > 0 {
        let init = list.drop_last();
        lemma_without_version(init, id);
        let r = without_version(init, id);
        assert forall|i: int| 0 <= i < list.len() && (#[trigger] list[i]).id != id implies without_version(list, id).contains(list[i]) by {
            if i < list.len() - 1 {
                assert(init[i] == list[i]);
                assert(r.contains(list[i]));
                let k = choose|k: int| 0 <= k < r.len() && r[k] == list[i];
                assert(without_version(list, id)[k] == list[i]);
            } else {
                assert(without_version(list, id)[r.len() as int] == list[i]);
            }
        }
    }
}

/// Removing a version keeps exactly the other versions, in the order they had: it is the
/// list filtered by "another id".
pub proof fn lemma_without_version_is_filter(list: Seq<Version>, id: VersionId)
    ensures
        without_version(list, id) == list.filter(|v: Version| v.id != id),
    decreases list.len(),
{
    reveal_with_fuel(Seq::filter, 1);
    if list.len() > 0 {
        lemma_without_version_is_filter(list.drop_last(), id);
    }
}

/// The highest version number, or 0 for a save without versions (`COALESCE(MAX(version), 0)`).
pub open spec fn max_version(s: Seq<i32>) -> int
    decreases s.len(),
{
    if s.len() == 0 {
        0
    } else if s.len() == 1 {
        s[0] as int
    } else {
        let m = max_version(s.drop_last());
        if s.last() as int > m {
            s.last() as int
        } else {
            m
        }
    }
}

/// The number the next version of a save gets: one above the highest, or `None` when
/// that does not fit in an `i32`.
pub fn next_version_number(existing: &Vec<i32>) -> (r: Option<i32>)
    ensures
        max_version(existing@) + 1 <= i32::MAX ==> r == Some((max_version(existing@) + 1) as i32),
        max_version(existing@) + 1 > i32::MAX ==> r is None,
{
    if existing.len() == 0 {
        return Some(1);
    }
    let mut m: i32 = existing[0];
    let mut i: usize = 1;
    while i < existing.len()
        invariant
            1 <= i <= existing@.len(),
            m as int == max_version(existing@.take(i as int)),
        decreases existing.len() - i,
    {
        assert(existing@.take(i + 1).drop_last() =~= existing@.take(i as int));
        if existing[i] > m {
            m = existing[i];
        }
        i = i + 1;
    }
    assert(existing@.take(existing@.len() as int) =~= existing@);
    if m == i32::MAX {
        None
    } else {
        Some(m + 1)
    }
}

/// The highest version number is at least every version number.
pub proof fn lemma_max_version(s: Seq<i32>)
    ensures
        forall|i: int| 0 <= i < s.len() ==> s[i] <= max_version(s),
    decreases s.len(),
{
    if s.len() > 1 {
        lemma_max_version(s.drop_last());
        assert forall|i: int| 0 <= i < s.len() implies s[i] <= max_version(s) by {
            if i < s.len() - 1 {
                assert(s.drop_last()[i] == s[i]);
            }
        }
    }
}

/// A new version number is above every existing one.
pub proof fn lemma_next_version_is_newest(s: Seq<i32>, next: int)
    requires
        next == max_version(s) + 1,
    ensures
        forall|i: int| 0 <= i < s.len() ==> s[i] < next,
{
    lemma_max_version(s);
}

/// Number of columns after the label in the version list: version, timestamp, author
/// and download; on the desktop also the reveal button and, for games it can install,
/// the install button; and the delete button for users who may edit.
pub fn version_list_columns(desktop: bool, game: Game, modify: bool) -> (cols: u32)
    ensures
        cols == 4 + (if desktop { 1 + (if game == Game::IntoTheRadius2 { 1int } else { 0 }) } else { 0 }) + (if modify { 1int } else { 0 }),
{
    let mut cols: u32 = 4;
    if desktop {
        cols = cols + 1;
        if game.can_deploy() {
            cols = cols + 1;
        }
    }
    if modify {
        cols = cols + 1;
    }
    cols
}

/// The date of a version, as the version list shows it.
pub fn version_time_text(v: &Version) -> (r: String)
    ensures
        r@ == utc_timestamp_text(v.timestamp as int, date_time_format()),
{
    timestamp_text(v.timestamp)
}

/// The address the web client downloads a version from.
pub fn download_url(save_id: SaveId, version_id: VersionId) -> (r: String)
    ensures
        r@ == "/api/save/"@ + decimal_text(save_id as int) + "/"@ + decimal_text(version_id as int) + "/download"@,
{
    let mut r = String::from_str("/api/save/");
    let a = i64_to_text(save_id as i64);
    r.append(a.as_str());
    r.append("/");
    let b = i64_to_text(version_id as i64);
    r.append(b.as_str());
    r.append("/download");
    r
}

/// The question asked before deleting a version.
pub fn delete_version_prompt(v: &Version) -> (r: String)
    ensures
        r@ == "Are you sure you want to delete version "@ + decimal_text(v.version as int) + " (\""@
            + v.label@ + "\")?"@,
{
    let mut r = String::from_str("Are you sure you want to delete version ");
    let n = i64_to_text(v.version as i64);
    r.append(n.as_str());
    r.append(" (\"");
    r.append(v.label.as_str());
    r.append("\")?");
    r
}

/// One step of downloading a version: a chunk is appended and the download goes on;
/// the end of the stream, or an error, stops it with what was received so far.
pub fn accept_chunk<E>(bytes: &mut Vec<u8>, next: Option<Result<Vec<u8>, E>>) -> (more: bool)
    ensures
        next matches Some(Ok(chunk)) ==> more && final(bytes)@ == old(bytes)@ + chunk@,
        !(next matches Some(Ok(_))) ==> !more && final(bytes)@ == old(bytes)@,
{
    match next {
        Some(Ok(chunk)) => {
            let ghost before = bytes@;
            let mut i: usize = 0;
            while i < chunk.len()
                invariant
                    i <= chunk@.len(),
                    bytes@ == before + chunk@.subrange(0, i as int),
                decreases chunk.len() - i,
            {
                bytes.push(chunk[i]);
                assert(before + chunk@.subrange(0, i + 1) =~= (before + chunk@.subrange(0, i as int)).push(chunk@[i as int]));
                i = i + 1;
            }
            assert(chunk@.subrange(0, chunk@.len() as int) =~= chunk@);
            true
        },
        _ => false,
    }
}

} // verus!
