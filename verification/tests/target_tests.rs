use rdma_handshake::target::connection_target;

#[test]
fn ipv4_target_is_host_colon_port() {
    let t = connection_target(b"10.0.0.1", false, 8080);
    assert_eq!(t, b"10.0.0.1:8080".to_vec());
}

#[test]
fn ipv6_target_is_bracketed() {
    let t = connection_target(b"fe80::1", true, 443);
    assert_eq!(t, b"[fe80::1]:443".to_vec());
}

#[test]
fn port_boundaries_render_in_decimal() {
    assert_eq!(connection_target(b"h", false, 0), b"h:0".to_vec());
    assert_eq!(connection_target(b"h", false, 65535), b"h:65535".to_vec());
    assert_eq!(connection_target(b"::", true, 1), b"[::]:1".to_vec());
}
