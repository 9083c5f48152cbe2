//! Allow-list parsing: splitting, trimming, uppercasing, duplicate folding.

use httping::ping::HttpPing;

#[test]
fn empty_list_is_no_constraint() {
    assert_eq!(HttpPing::map_colo_map(""), None);
}

#[test]
fn simple_list_uppercased() {
    let v = HttpPing::map_colo_map("a,b,c").unwrap();
    assert_eq!(v, vec!["A".to_string(), "B".to_string(), "C".to_string()]);
}

#[test]
fn trimmed_folded_deduplicated() {
    let v = HttpPing::map_colo_map("lax, sjc , LAX").unwrap();
    assert_eq!(v, vec!["LAX".to_string(), "SJC".to_string()]);
}

#[test]
fn single_entry() {
    let v = HttpPing::map_colo_map("IAD").unwrap();
    assert_eq!(v, vec!["IAD".to_string()]);
}

#[test]
fn whitespace_variants_trimmed() {
    let v = HttpPing::map_colo_map("\tnrt ,\n hkg\r").unwrap();
    assert_eq!(v, vec!["NRT".to_string(), "HKG".to_string()]);
}

#[test]
fn lone_commas_fold_to_one_empty_entry() {
    let v = HttpPing::map_colo_map(",,").unwrap();
    assert_eq!(v, vec!["".to_string()]);
}
