use lode::http::{
    bare_host, follow_redirect, guard_download_url, is_blocked_ip, is_retryable, CappedBody,
    GuardFault, Ip, OverCap, RequestFault, Retry, MAX_ATTEMPTS, MAX_REDIRECTS,
};

/// Run an operation the way a client does: repeat it as long as the schedule grants another try.
fn with_retry(retryable: bool, op: &mut dyn FnMut() -> Result<u32, ()>) -> Result<u32, ()> {
    let mut retry = Retry::start();
    loop {
        match op() {
            Ok(value) => return Ok(value),
            Err(()) => {
                if retry.failed(retryable).is_none() {
                    return Err(());
                }
            }
        }
    }
}

fn read_capped(data: &[u8], max: u64) -> Result<Vec<u8>, OverCap> {
    let mut body = CappedBody::start(max, None)?;
    for chunk in data.chunks(64) {
        body.take(chunk)?;
    }
    Ok(body.bytes)
}

#[test]
fn read_capped_accepts_a_body_within_the_cap() {
    let data = vec![7u8; 1000];
    let out = read_capped(&data, 1000).unwrap();
    assert_eq!(out, data);
}

#[test]
fn read_capped_aborts_past_the_cap() {
    let data = vec![0u8; 2000];
    assert!(read_capped(&data, 1024).is_err());
}

#[test]
fn an_advertised_length_past_the_cap_is_refused_before_reading() {
    assert!(CappedBody::start(10, Some(10)).is_ok());
    assert!(CappedBody::start(10, Some(11)).is_err());
}

#[test]
fn with_retry_returns_on_first_success_without_looping() {
    let mut calls = 0;
    let out = with_retry(true, &mut || {
        calls += 1;
        Ok(7)
    });
    assert_eq!(out.unwrap(), 7);
    assert_eq!(calls, 1);
}

#[test]
fn with_retry_does_not_retry_a_non_retryable_error() {
    // An error that is no transport fault is treated as definitive, so the op runs exactly once.
    let mut calls = 0;
    let out = with_retry(is_retryable(None), &mut || {
        calls += 1;
        Err(())
    });
    assert!(out.is_err());
    assert_eq!(calls, 1);
}

#[test]
fn a_transient_error_is_tried_three_times_with_growing_delays() {
    let mut calls = 0;
    let out = with_retry(true, &mut || {
        calls += 1;
        Err(())
    });
    assert!(out.is_err());
    assert_eq!(calls, MAX_ATTEMPTS);

    let mut retry = Retry::start();
    assert_eq!(retry.failed(true), Some(200));
    assert_eq!(retry.failed(true), Some(400));
    assert_eq!(retry.failed(true), None);
}

#[test]
fn only_transport_faults_and_busy_servers_are_retried() {
    let fault = RequestFault {
        status: None,
        connect: false,
        timeout: false,
        request: false,
    };
    assert!(!is_retryable(Some(fault)));
    assert!(is_retryable(Some(RequestFault { connect: true, ..fault })));
    assert!(is_retryable(Some(RequestFault { timeout: true, ..fault })));
    assert!(is_retryable(Some(RequestFault { request: true, ..fault })));
    for busy in [429, 500, 503, 599] {
        let answer = RequestFault { status: Some(busy), ..fault };
        assert!(is_retryable(Some(answer)), "{busy}");
    }
    for definitive in [400, 401, 404, 428, 430, 499, 600] {
        let answer = RequestFault { status: Some(definitive), ..fault };
        assert!(!is_retryable(Some(answer)), "{definitive}");
    }
}

#[test]
fn blocks_internal_and_metadata_addresses() {
    for bad in [
        Ip::V4(127, 0, 0, 1),
        Ip::V4(10, 0, 0, 5),
        Ip::V4(172, 16, 9, 9),
        Ip::V4(192, 168, 1, 1),
        Ip::V4(169, 254, 169, 254), // cloud metadata
        Ip::V4(100, 64, 0, 1),      // CGNAT
        Ip::V4(0, 0, 0, 0),
        Ip::V6(0, 0, 0, 0, 0, 0, 0, 1),
        Ip::V6(0xfe80, 0, 0, 0, 0, 0, 0, 1),
        Ip::V6(0xfc00, 0, 0, 0, 0, 0, 0, 1),
        Ip::V6(0, 0, 0, 0, 0, 0xffff, 0x7f00, 1), // IPv4-mapped loopback
    ] {
        assert!(is_blocked_ip(bad), "should block {bad:?}");
    }
}

#[test]
fn allows_public_addresses() {
    for ok in [
        Ip::V4(1, 1, 1, 1),
        Ip::V4(8, 8, 8, 8),
        Ip::V4(140, 82, 112, 3),
        Ip::V6(0x2606, 0x4700, 0x4700, 0, 0, 0, 0, 0x1111),
    ] {
        assert!(!is_blocked_ip(ok), "should allow {ok:?}");
    }
}

#[test]
fn the_edges_of_the_blocked_ranges() {
    assert!(is_blocked_ip(Ip::V4(172, 31, 255, 255)));
    assert!(!is_blocked_ip(Ip::V4(172, 32, 0, 0)));
    assert!(!is_blocked_ip(Ip::V4(172, 15, 255, 255)));
    assert!(is_blocked_ip(Ip::V4(100, 127, 255, 255)));
    assert!(!is_blocked_ip(Ip::V4(100, 128, 0, 0)));
    assert!(!is_blocked_ip(Ip::V4(100, 63, 255, 255)));
    assert!(is_blocked_ip(Ip::V4(255, 255, 255, 255)));
    assert!(is_blocked_ip(Ip::V6(0xfdff, 0, 0, 0, 0, 0, 0, 1)));
    assert!(is_blocked_ip(Ip::V6(0xfebf, 0, 0, 0, 0, 0, 0, 1)));
    assert!(is_blocked_ip(Ip::V6(0, 0, 0, 0, 0, 0, 0, 0)));
    // A public address stays public when mapped, and an internal one stays internal.
    assert!(!is_blocked_ip(Ip::V6(0, 0, 0, 0, 0, 0xffff, 0x0808, 0x0808)));
    assert!(is_blocked_ip(Ip::V6(0, 0, 0, 0, 0, 0xffff, 0xa9fe, 0xa9fe)));
}

#[test]
fn guard_rejects_non_https_and_literal_internal_hosts() {
    // http://example.com/x
    assert!(guard_download_url("http", true, &vec![Ip::V4(93, 184, 216, 34)]).is_err());
    // https://127.0.0.1/x
    assert!(guard_download_url("https", true, &vec![Ip::V4(127, 0, 0, 1)]).is_err());
    // https://[::1]/x
    assert!(guard_download_url("https", true, &vec![Ip::V6(0, 0, 0, 0, 0, 0, 0, 1)]).is_err());
    // https://169.254.169.254/latest
    assert!(guard_download_url("https", true, &vec![Ip::V4(169, 254, 169, 254)]).is_err());
}

#[test]
fn the_guard_names_its_objection() {
    let public = vec![Ip::V4(1, 1, 1, 1)];
    let mixed = vec![Ip::V4(1, 1, 1, 1), Ip::V4(10, 0, 0, 1)];
    assert_eq!(guard_download_url("https", true, &public), Ok(()));
    assert_eq!(guard_download_url("http", true, &public), Err(GuardFault::NotHttps));
    assert_eq!(guard_download_url("https", false, &public), Err(GuardFault::NoHost));
    assert_eq!(
        guard_download_url("https", true, &mixed),
        Err(GuardFault::Internal(Ip::V4(10, 0, 0, 1)))
    );
}

#[test]
fn every_hop_of_a_redirect_is_guarded() {
    let public = vec![Ip::V4(1, 1, 1, 1)];
    let internal = vec![Ip::V4(127, 0, 0, 1)];
    assert_eq!(follow_redirect(1, "https", true, &public), Ok(()));
    assert_eq!(
        follow_redirect(MAX_REDIRECTS, "https", true, &public),
        Err(GuardFault::TooManyRedirects)
    );
    assert_eq!(follow_redirect(1, "http", true, &public), Err(GuardFault::NotHttps));
    assert!(follow_redirect(1, "https", true, &internal).is_err());
}

#[test]
fn brackets_are_taken_off_a_literal_host() {
    assert_eq!(bare_host("[::1]"), "::1");
    assert_eq!(bare_host("example.com"), "example.com");
}
