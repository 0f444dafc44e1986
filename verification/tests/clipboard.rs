use ttgtiso_desk::audit::AuditLog;
use ttgtiso_desk::clipboard::policy::ConfigurableClipboardPolicy;
use ttgtiso_desk::clipboard::providers::{ClipboardSync, MockClipboardProvider, X11ClipboardProvider};
use ttgtiso_desk::clipboard::sync::DefaultClipboardSyncService;
use ttgtiso_desk::clipboard::traits::{ClipboardContent, ClipboardError, ClipboardPolicy, ClipboardProvider, ClipboardSyncService};

#[test]
fn test_text_clipboard_sync() {
    let policy = ConfigurableClipboardPolicy::new_default();
    let audit = AuditLog::new("test_clipboard_audit.log");
    let mut sync_service = DefaultClipboardSyncService::new(policy, audit);

    let local_provider = MockClipboardProvider::new(Some(ClipboardContent::Text("Hello, Astra!".to_string())));
    let mut remote_provider = MockClipboardProvider::new(None);

    assert!(sync_service.sync_to_remote(&local_provider, &mut remote_provider).is_ok());

    let remote_content = remote_provider.read().unwrap();
    assert_eq!(remote_content, Some(ClipboardContent::Text("Hello, Astra!".to_string())));
}

#[test]
fn test_clipboard_size_limit() {
    let mut policy = ConfigurableClipboardPolicy::new_default();
    policy.max_text_len = 10;

    let audit = AuditLog::new("test_clipboard_size.log");
    let mut sync_service = DefaultClipboardSyncService::new(policy, audit);

    let local_ok = MockClipboardProvider::new(Some(ClipboardContent::Text("1234567".to_string())));
    let mut remote_dest = MockClipboardProvider::new(None);
    assert!(sync_service.sync_to_remote(&local_ok, &mut remote_dest).is_ok());

    let local_bad = MockClipboardProvider::new(Some(ClipboardContent::Text("12345678901".to_string())));
    let mut remote_dest_bad = MockClipboardProvider::new(None);
    assert!(sync_service.sync_to_remote(&local_bad, &mut remote_dest_bad).is_err());
}

#[test]
fn refused_content_leaves_destination_unchanged() {
    let mut policy = ConfigurableClipboardPolicy::new_default();
    policy.allow_image = false;
    let mut svc = DefaultClipboardSyncService::new(policy, AuditLog::new("x.log"));
    let remote = MockClipboardProvider::new(Some(ClipboardContent::Image(vec![1, 2, 3])));
    let mut local = MockClipboardProvider::new(Some(ClipboardContent::Text("keep".to_string())));
    assert_eq!(svc.sync_to_local(&remote, &mut local), Err(ClipboardError::PolicyViolation));
    assert_eq!(local.read().unwrap(), Some(ClipboardContent::Text("keep".to_string())));
}

#[test]
fn policy_measures_text_in_bytes() {
    let mut policy = ConfigurableClipboardPolicy::new_default();
    policy.max_text_len = 4;
    assert!(policy.is_allowed(&ClipboardContent::Text("abcd".to_string())));
    assert!(!policy.is_allowed(&ClipboardContent::Text("абв".to_string())));
}

#[test]
fn clipboard_sync_text_helpers() {
    let sync = ClipboardSync::new(":0");
    assert_eq!(sync.display_name(), ":0");
    assert_eq!(sync.set_text("hi"), ClipboardContent::Text("hi".to_string()));
    assert_eq!(sync.get_text(Ok(Some(ClipboardContent::Text("t".to_string())))), Ok(Some("t".to_string())));
    assert_eq!(sync.get_text(Ok(Some(ClipboardContent::Image(vec![1])))), Ok(None));
    let x = X11ClipboardProvider::new(":1");
    assert_eq!(x.display_name(), ":1");
}
