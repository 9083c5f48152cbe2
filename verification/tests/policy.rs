//! The status acceptance rule and the combined initial check.

use httping::colo::ResponseHeaders;
use httping::config::Config;
use httping::ping::status_accepted;
use httping::ping::HttpPing;

fn config(status_rule: u16, colo_list: &str) -> Config {
    Config {
        url: "http://127.0.0.1:8080/".to_string(),
        tcp_port: 443,
        ping_times: 3,
        httping_status_code: status_rule,
        httping_cf_colo: colo_list.to_string(),
    }
}

fn prober(status_rule: u16, colo_list: &str) -> HttpPing {
    let cfg = config(status_rule, colo_list);
    let list = cfg.httping_cf_colo.clone();
    HttpPing::new(cfg, Some(&list))
}

fn no_cdn_headers() -> ResponseHeaders {
    ResponseHeaders { server: None, cf_ray: None, x_amz_cf_pop: None }
}

#[test]
fn exact_rule_accepts_only_itself() {
    assert!(status_accepted(200, 200));
    assert!(!status_accepted(200, 301));
    assert!(!status_accepted(200, 302));
    assert!(!status_accepted(200, 404));
}

#[test]
fn zero_rule_rejects_every_real_status() {
    assert!(!status_accepted(0, 200));
    assert!(!status_accepted(0, 301));
    assert!(!status_accepted(0, 302));
    assert!(!status_accepted(0, 404));
    assert!(!status_accepted(0, 599));
}

#[test]
fn out_of_range_rule_uses_default_set() {
    assert!(status_accepted(700, 200));
    assert!(status_accepted(700, 301));
    assert!(status_accepted(700, 302));
    assert!(!status_accepted(700, 404));
    assert!(status_accepted(99, 200));
    assert!(status_accepted(65535, 302));
}

#[test]
fn strict_status_rejects_initial_check() {
    let ping = prober(301, "");
    assert!(!ping.accept_initial(200, &no_cdn_headers()));
    assert!(ping.accept_initial(301, &no_cdn_headers()));
}

#[test]
fn no_colo_constraint_skips_matcher() {
    let ping = prober(200, "");
    assert!(ping.accept_initial(200, &no_cdn_headers()));
}

#[test]
fn colo_constraint_with_absent_headers_rejects() {
    let ping = prober(200, "LAX,SJC");
    assert!(!ping.accept_initial(200, &no_cdn_headers()));
}

#[test]
fn colo_constraint_with_matching_headers_accepts() {
    let ping = prober(200, "LAX,SJC");
    let h = ResponseHeaders {
        server: Some(b"cloudflare".to_vec()),
        cf_ray: Some("7abc-LAX".to_string()),
        x_amz_cf_pop: None,
    };
    assert!(ping.accept_initial(200, &h));
}

#[test]
fn colo_constraint_with_mismatch_rejects() {
    let ping = prober(200, "LAX,SJC");
    let h = ResponseHeaders {
        server: Some(b"cloudflare".to_vec()),
        cf_ray: Some("7abc-NRT".to_string()),
        x_amz_cf_pop: None,
    };
    assert!(!ping.accept_initial(200, &h));
}

#[test]
fn cloudfront_pop_accepted() {
    let ping = prober(200, "IAD");
    let h = ResponseHeaders {
        server: None,
        cf_ray: None,
        x_amz_cf_pop: Some("IAD89-P3".to_string()),
    };
    assert!(ping.accept_initial(200, &h));
}
