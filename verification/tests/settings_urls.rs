use oic_fox_fuckery::decimal::{decimal_i64, decimal_u64};
use oic_fox_fuckery::settings::{default_overlap_window_hours, oic_cache_key, oic_calendar_url, tm_cache_key, tm_events_url, Settings};

fn settings() -> Settings {
    Settings {
        tm_api_base: "http://0.0.0.0:4000".to_string(),
        tm_api_key: "test_key".to_string(),
        tm_venue_id: "abc".to_string(),
        tm_page_size: 15,
        oic_cal_base_url: "http://0.0.0.0:4000".to_string(),
        cache_duration: 60,
        overlap_window_hours: 3,
    }
}

#[test]
fn default_window_is_three_hours() {
    assert_eq!(default_overlap_window_hours(), 3);
}

#[test]
fn calendar_url_matches_the_mocked_route() {
    let url = oic_calendar_url(&settings(), "123", "456");
    assert_eq!(url, "http://0.0.0.0:4000/team-cal.php?team=123&tlev=0&tseq=0&season=456&format=iCal");
}

#[test]
fn events_url_matches_the_mocked_route() {
    let url = tm_events_url(&settings(), "abc");
    assert_eq!(url, "http://0.0.0.0:4000/discovery/v2/events.json?venueId=abc&size=15&sort=date,asc&apikey=test_key");
}

#[test]
fn cache_keys() {
    assert_eq!(oic_cache_key("123", "456"), "oic:123:456");
    assert_eq!(tm_cache_key("abc"), "tm:abc");
}

#[test]
fn decimal_text_matches_to_string() {
    for n in [0u64, 7, 10, 15, 99, 100, 4907, u64::MAX] {
        assert_eq!(decimal_u64(n), n.to_string());
    }
    for n in [0i64, 1, -1, 69, -4907, i64::MAX, i64::MIN] {
        assert_eq!(decimal_i64(n), n.to_string());
    }
}
