use std::time::Duration;

use openssh_sftp_client::SftpOptions;

#[test]
fn options_defaults() {
    let o = SftpOptions::new();
    assert_eq!(o.get_flush_interval(), Duration::from_micros(500));
    assert_eq!(o.get_max_pending_requests(), 100);
    assert_eq!(o.get_write_end_buffer_size(), 100);
    assert_eq!(o.get_read_end_buffer_size(), 1024);
    assert_eq!(o.get_tokio_compat_file_write_limit(), usize::MAX);
    assert_eq!(o.get_max_read_len(), None);
    assert_eq!(o.get_max_write_len(), None);
}

#[test]
fn options_default_trait_matches_new() {
    let o = SftpOptions::default();
    assert_eq!(o.get_flush_interval(), Duration::from_micros(500));
    assert_eq!(o.get_max_pending_requests(), 100);
}

#[test]
fn options_setters_set_their_value() {
    let o = SftpOptions::new()
        .flush_interval(Duration::from_millis(3))
        .max_pending_requests(7)
        .requests_buffer_size(11)
        .responses_buffer_size(13)
        .tokio_compat_file_write_limit(17)
        .max_read_len(19)
        .max_write_len(23);
    assert_eq!(o.get_flush_interval(), Duration::from_millis(3));
    assert_eq!(o.get_max_pending_requests(), 7);
    assert_eq!(o.get_write_end_buffer_size(), 11);
    assert_eq!(o.get_read_end_buffer_size(), 13);
    assert_eq!(o.get_tokio_compat_file_write_limit(), 17);
    assert_eq!(o.get_max_read_len(), Some(19));
    assert_eq!(o.get_max_write_len(), Some(23));
}

#[test]
fn options_setting_one_leaves_the_others() {
    let o = SftpOptions::new().responses_buffer_size(4096);
    assert_eq!(o.get_read_end_buffer_size(), 4096);
    assert_eq!(o.get_write_end_buffer_size(), 100);
    assert_eq!(o.get_max_pending_requests(), 100);
    assert_eq!(o.get_flush_interval(), Duration::from_micros(500));
}

#[test]
fn options_last_setting_wins() {
    let o = SftpOptions::new().max_pending_requests(5).max_pending_requests(9);
    assert_eq!(o.get_max_pending_requests(), 9);
}

#[test]
fn options_zero_flush_interval() {
    let o = SftpOptions::new().flush_interval(Duration::from_secs(0));
    assert_eq!(o.get_flush_interval(), Duration::ZERO);
}
