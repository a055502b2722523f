//! The queue of notifications shown in a corner of the client.

use vstd::prelude::*;

verus! {

/// The kind of a notification, which picks its icon.
#[derive(Debug, Clone, Copy, PartialEq, Eq, Structural)]
pub enum ToastKind {
    Success,
    Error,
    Info,
}

/// A notification.
pub struct Toast {
    pub title: String,
    pub message: String,
    pub kind: ToastKind,
}

/// Shows a notification after those already shown.
pub fn toast(queue: &mut Vec<Toast>, title: String, message: String, kind: ToastKind)
    ensures
        final(queue)@ == old(queue)@.push(Toast { title, message, kind }),
{
    queue.push(Toast { title, message, kind });
}

/// Shows a success notification.
pub fn toast_success(queue: &mut Vec<Toast>, title: String, message: String)
    ensures
        final(queue)@ == old(queue)@.push(Toast { title, message, kind: ToastKind::Success }),
{
    toast(queue, title, message, ToastKind::Success);
}

/// Shows an error notification.
pub fn toast_error(queue: &mut Vec<Toast>, title: String, message: String)
    ensures
        final(queue)@ == old(queue)@.push(Toast { title, message, kind: ToastKind::Error }),
{
    toast(queue, title, message, ToastKind::Error);
}

/// Shows an informational notification.
pub fn toast_info(queue: &mut Vec<Toast>, title: String, message: String)
    ensures
        final(queue)@ == old(queue)@.push(Toast { title, message, kind: ToastKind::Info }),
{
    toast(queue, title, message, ToastKind::Info);
}

/// Removes the oldest notification when its time is up. Each notification starts its
/// own timer, so the queue is never empty when one fires.
pub fn expire_oldest(queue: &mut Vec<Toast>) -> (t: Toast)
    requires
        old(queue)@.len() > 0,
    ensures
        t == old(queue)@[0],
        final(queue)@ == old(queue)@.drop_first(),
{
    let t = queue.remove(0);
    assert(queue@ =~= old(queue)@.drop_first());
    t
}

/// What the desktop client tells the user after downloading a version: where the archive
/// was stored, or that the download failed.
pub fn download_notice(saved_to: Option<&str>) -> (t: Toast)
    ensures
        saved_to matches Some(p) ==> t.kind == ToastKind::Success && t.title@ == "Download Complete"@
            && t.message@ == "Version downloaded to "@ + p@,
        saved_to is None ==> t.kind == ToastKind::Error && t.title@ == "Download Failed"@
            && t.message@ == "Failed to download version. Please try again."@,
{
    match saved_to {
        Some(p) => {
            let mut message = String::from_str("Version downloaded to ");
            message.append(p);
            Toast { title: String::from_str("Download Complete"), message, kind: ToastKind::Success }
        },
        None => Toast {
            title: String::from_str("Download Failed"),
            message: String::from_str("Failed to download version. Please try again."),
            kind: ToastKind::Error,
        },
    }
}

/// What the client tells the user when a new save's name holds a path separator.
pub fn invalid_save_name_notice() -> (t: Toast)
    ensures
        t.kind == ToastKind::Error && t.title@ == "Invalid Save Name"@
            && t.message@ == "Save name cannot contain '/' or '\\' characters."@,
{
    Toast {
        title: String::from_str("Invalid Save Name"),
        message: String::from_str("Save name cannot contain '/' or '\\' characters."),
        kind: ToastKind::Error,
    }
}

/// Notifications leave in the order they came: pushing one and expiring the oldest of a
/// non-empty queue is the same as expiring first and pushing after.
pub proof fn lemma_queue_fifo(q: Seq<Toast>, t: Toast)
    requires
        q.len() > 0,
    ensures
        q.push(t).drop_first() == q.drop_first().push(t),
        q.push(t)[0] == q[0],
{
    assert(q.push(t).drop_first() =~= q.drop_first().push(t));
}

} // verus!
