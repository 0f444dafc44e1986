use ttgtiso_desk::audit::AuditLog;
use ttgtiso_desk::file_transfer::hashing::DefaultHashVerifier;
use ttgtiso_desk::file_transfer::manager::{FileTransferManager, PathAccessError};
use ttgtiso_desk::file_transfer::policy::SecureTransferPolicy;
use ttgtiso_desk::file_transfer::service::DefaultFileTransferService;
use ttgtiso_desk::file_transfer::traits::{FileTransferService, HashVerifier, TransferError, TransferPolicy};

fn service(log: &str) -> DefaultFileTransferService<SecureTransferPolicy, DefaultHashVerifier> {
    DefaultFileTransferService::new(SecureTransferPolicy::new_default(), DefaultHashVerifier, AuditLog::new(log))
}

#[test]
fn test_file_upload_and_verify() {
    let verifier = DefaultHashVerifier;
    let mut service = service("test_upload.log");
    let session_id = service.start_upload("document.txt", 12).unwrap();
    service.upload_chunk(&session_id, 0, b"Hello ").unwrap();
    service.upload_chunk(&session_id, 6, b"World!").unwrap();
    let expected_hash = verifier.calculate_hash(b"Hello World!");
    let is_ok = service.verify_upload(&session_id, &expected_hash).unwrap();
    assert!(is_ok);
}

#[test]
fn test_file_upload_hash_mismatch() {
    let mut service = service("test_mismatch.log");
    let session_id = service.start_upload("data.csv", 5).unwrap();
    service.upload_chunk(&session_id, 0, b"rules").unwrap();
    let is_ok = service.verify_upload(&session_id, "wronghash123").unwrap();
    assert!(!is_ok);
}

#[test]
fn test_resume_out_of_order() {
    let verifier = DefaultHashVerifier;
    let mut service = service("test_resume.log");
    let session_id = service.start_upload("resume.dat", 10).unwrap();
    service.upload_chunk(&session_id, 5, b"world").unwrap();
    service.upload_chunk(&session_id, 0, b"hello").unwrap();
    let expected_hash = verifier.calculate_hash(b"helloworld");
    let is_ok = service.verify_upload(&session_id, &expected_hash).unwrap();
    assert!(is_ok);
}

#[test]
fn test_blocked_extension() {
    let mut service = service("test_blocked.log");
    let result = service.start_upload("malicious.sh", 100);
    assert!(result.is_err());
}

#[test]
fn transfer_errors() {
    let mut service = service("e.log");
    assert_eq!(service.upload_chunk("nope", 0, b"x"), Err(TransferError::SessionNotFound));
    let id = service.start_upload("a.txt", 4).unwrap();
    assert!(id.starts_with("tx-"));
    assert_eq!(service.upload_chunk(&id, 3, b"xy"), Err(TransferError::OutOfBounds));
    assert_eq!(service.verify_upload(&id, "whatever"), Err(TransferError::Incomplete));
    assert_eq!(service.verify_upload(&id, "whatever"), Err(TransferError::SessionNotFound));
    assert_eq!(service.start_upload("big.txt", 200 * 1024 * 1024), Err(TransferError::Blocked));
}

#[test]
fn policy_rules() {
    let p = SecureTransferPolicy::new_default();
    assert!(p.is_allowed("report.PDF", 10));
    assert!(!p.is_allowed("setup.EXE", 10));
    assert!(!p.allow_execution());
}

#[test]
fn digest_is_sixteen_hex_digits_and_detects_change() {
    let v = DefaultHashVerifier;
    let h = v.calculate_hash(b"abc");
    assert_eq!(h.len(), 16);
    assert!(h.chars().all(|c| c.is_ascii_hexdigit() && !c.is_ascii_uppercase()));
    assert_ne!(h, v.calculate_hash(b"abd"));
    assert!(v.verify(b"abc", &h));
}

#[test]
fn manager_refuses_paths_outside_base() {
    let m = FileTransferManager::new("/srv/files");
    assert_eq!(m.write_chunk("docs/a.txt", 0, b"x"), Ok(()));
    assert_eq!(m.write_chunk("/etc/passwd", 0, b"x"), Err(PathAccessError::Unauthorized));
    assert_eq!(m.read_chunk("a.txt", 0, 10), Ok(vec![]));
    assert_eq!(m.read_chunk("/tmp/x", 0, 10), Err(PathAccessError::Unauthorized));
    assert_eq!(PathAccessError::Unauthorized.message(), "Unauthorized path access attempt");
}
