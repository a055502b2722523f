use save_manager::toast::{
    download_notice, expire_oldest, invalid_save_name_notice, toast_error, toast_info, toast_success, Toast,
    ToastKind,
};

#[test]
fn toasts_leave_in_order() {
    let mut q: Vec<Toast> = Vec::new();
    toast_success(&mut q, "Download Complete".to_string(), "done".to_string());
    toast_error(&mut q, "Download Failed".to_string(), "try again".to_string());
    toast_info(&mut q, "Note".to_string(), "hi".to_string());
    assert_eq!(q.len(), 3);
    let first = expire_oldest(&mut q);
    assert_eq!(first.title, "Download Complete");
    assert_eq!(first.kind, ToastKind::Success);
    assert_eq!(expire_oldest(&mut q).kind, ToastKind::Error);
    assert_eq!(q.len(), 1);
    assert_eq!(q[0].kind, ToastKind::Info);
}

#[test]
fn download_notices() {
    let ok = download_notice(Some("C:/downloads/Test Save/1.zip"));
    assert_eq!(ok.kind, ToastKind::Success);
    assert_eq!(ok.title, "Download Complete");
    assert_eq!(ok.message, "Version downloaded to C:/downloads/Test Save/1.zip");
    let failed = download_notice(None);
    assert_eq!(failed.kind, ToastKind::Error);
    assert_eq!(failed.title, "Download Failed");
    assert_eq!(failed.message, "Failed to download version. Please try again.");
}

#[test]
fn invalid_save_name_notice_text() {
    let t = invalid_save_name_notice();
    assert_eq!(t.kind, ToastKind::Error);
    assert_eq!(t.title, "Invalid Save Name");
    assert_eq!(t.message, "Save name cannot contain '/' or '\\' characters.");
}
