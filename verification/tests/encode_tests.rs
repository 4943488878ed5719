use hoststate::encode::{format_user_info, photo_data_url};
use hoststate::reboot::is_reboot_required;

#[test]
fn data_url_encodes_the_bytes() {
    let bytes = b"hello".to_vec();
    assert_eq!(photo_data_url(&bytes, "jpg"), "data:image/jpeg;base64,aGVsbG8=");
    assert_eq!(photo_data_url(&bytes, "png"), "data:image/png;base64,aGVsbG8=");
}

#[test]
fn data_url_of_empty_image() {
    let bytes: Vec<u8> = Vec::new();
    assert_eq!(photo_data_url(&bytes, "png"), "data:image/png;base64,");
}

#[test]
fn user_info_record_shape() {
    assert_eq!(
        format_user_info("alice", "Alice A."),
        "{\"username\": \"alice\", \"realname\": \"Alice A.\"}"
    );
}

#[test]
fn reboot_sentinel_check_runs() {
    // advisory flag: only exercise the call, the answer depends on the host
    let _ = is_reboot_required();
}
