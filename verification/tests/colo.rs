//! Colo extraction from header values and what the matcher decides.

use httping::colo::get_colo;
use httping::colo::ResponseHeaders;
use httping::config::Config;
use httping::ping::HttpPing;

fn config(status_rule: u16, colo_list: &str) -> Config {
    Config {
        url: "http://127.0.0.1:8080/".to_string(),
        tcp_port: 443,
        ping_times: 4,
        httping_status_code: status_rule,
        httping_cf_colo: colo_list.to_string(),
    }
}

fn prober(status_rule: u16, colo_list: &str) -> HttpPing {
    let cfg = config(status_rule, colo_list);
    let list = cfg.httping_cf_colo.clone();
    HttpPing::new(cfg, Some(&list))
}

fn cloudflare_headers(cf_ray: &str) -> ResponseHeaders {
    ResponseHeaders {
        server: Some(b"cloudflare".to_vec()),
        cf_ray: Some(cf_ray.to_string()),
        x_amz_cf_pop: None,
    }
}

#[test]
fn get_colo_finds_first_three_letter_run() {
    assert_eq!(get_colo("7abc-LAX"), Some("LAX".to_string()));
    assert_eq!(get_colo("IAD89-P3"), Some("IAD".to_string()));
    assert_eq!(get_colo("SJCLAX"), Some("SJC".to_string()));
}

#[test]
fn get_colo_needs_three_consecutive_uppercase() {
    assert_eq!(get_colo(""), None);
    assert_eq!(get_colo("ab"), None);
    assert_eq!(get_colo("7abc-lax"), None);
    assert_eq!(get_colo("aABcCDe"), None);
}

#[test]
fn cloudflare_server_reads_cf_ray() {
    let ping = prober(200, "LAX,SJC");
    let h = cloudflare_headers("7abc-LAX");
    assert_eq!(ping.matched_colo(&h), Some("LAX".to_string()));
}

#[test]
fn mismatched_colo_not_accepted() {
    let ping = prober(200, "LAX,SJC");
    let h = cloudflare_headers("7abc-NRT");
    assert_eq!(ping.matched_colo(&h), None);
}

#[test]
fn other_server_reads_amz_pop() {
    let ping = prober(200, "IAD");
    let h = ResponseHeaders {
        server: None,
        cf_ray: None,
        x_amz_cf_pop: Some("IAD89-P3".to_string()),
    };
    assert_eq!(ping.matched_colo(&h), Some("IAD".to_string()));
}

#[test]
fn cloudflare_server_ignores_amz_pop() {
    let ping = prober(200, "IAD");
    let h = ResponseHeaders {
        server: Some(b"cloudflare".to_vec()),
        cf_ray: None,
        x_amz_cf_pop: Some("IAD89-P3".to_string()),
    };
    assert_eq!(ping.matched_colo(&h), None);
}

#[test]
fn absent_location_headers_never_match() {
    let ping = prober(200, "LAX");
    let h = ResponseHeaders { server: None, cf_ray: None, x_amz_cf_pop: None };
    assert_eq!(ping.matched_colo(&h), None);
    let h2 = ResponseHeaders {
        server: Some(b"cloudflare".to_vec()),
        cf_ray: None,
        x_amz_cf_pop: None,
    };
    assert_eq!(ping.matched_colo(&h2), None);
}

#[test]
fn no_allow_set_accepts_any_extracted_colo() {
    let ping = prober(200, "");
    let h = cloudflare_headers("7abc-NRT");
    assert_eq!(ping.matched_colo(&h), Some("NRT".to_string()));
}

#[test]
fn non_cloudflare_server_bytes_select_amz_pop() {
    let ping = prober(200, "FRA");
    let h = ResponseHeaders {
        server: Some(b"nginx".to_vec()),
        cf_ray: Some("7abc-FRA".to_string()),
        x_amz_cf_pop: Some("FRA56-C1".to_string()),
    };
    assert_eq!(ping.matched_colo(&h), Some("FRA".to_string()));
}
