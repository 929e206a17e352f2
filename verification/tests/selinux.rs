use hybrid_mount::error::EngineError;
use hybrid_mount::selinux::{lgetfilecon, lsetfilecon, LabelRequest};

#[test]
fn a_label_is_written_as_its_bytes() {
    let request = lsetfilecon("/data/adb/x", "u:object_r:system_file:s0");
    assert_eq!(
        request,
        LabelRequest {
            path: "/data/adb/x".to_string(),
            attribute: "security.selinux".to_string(),
            value: b"u:object_r:system_file:s0".to_vec(),
        }
    );
    assert_eq!(lsetfilecon("p", "").value, Vec::<u8>::new());
    assert_eq!(lsetfilecon("p", "é").value, vec![0xc3, 0xa9]);
}

#[test]
fn a_failed_write_names_the_path() {
    let request = lsetfilecon("/data/adb/x", "u:object_r:system_file:s0");
    assert_eq!(request.outcome(true), Ok(()));
    let error = request.outcome(false).unwrap_err();
    assert_eq!(error, EngineError::LabelUnwritable { path: "/data/adb/x".to_string() });
    assert_eq!(error.message(), "Failed to change SELinux context for /data/adb/x");
}

#[test]
fn a_label_is_read_from_its_bytes() {
    assert_eq!(
        lgetfilecon("/system", Some(b"u:object_r:system_file:s0".to_vec())),
        Ok("u:object_r:system_file:s0".to_string())
    );
    assert_eq!(lgetfilecon("/system", Some(Vec::new())), Ok(String::new()));
    assert_eq!(lgetfilecon("/system", Some(vec![0xc3, 0xa9])), Ok("é".to_string()));
}

#[test]
fn a_written_label_reads_back() {
    for con in ["u:object_r:system_file:s0", "", "é:ü"] {
        let request = lsetfilecon("/x", con);
        assert_eq!(lgetfilecon("/x", Some(request.value)), Ok(con.to_string()));
    }
}

#[test]
fn bytes_that_are_no_text_are_replaced() {
    assert_eq!(
        lgetfilecon("/system", Some(vec![b'a', 0xff, b'b'])),
        Ok("a\u{fffd}b".to_string())
    );
}

#[test]
fn a_missing_label_names_the_path() {
    let error = lgetfilecon("/system/bin", None).unwrap_err();
    assert_eq!(error, EngineError::LabelUnreadable { path: "/system/bin".to_string() });
    assert_eq!(error.message(), "Failed to get SELinux context for /system/bin");
}
