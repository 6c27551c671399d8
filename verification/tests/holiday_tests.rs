use niumaren::date::Date;
use niumaren::holiday::{
    holiday_inputs, lookup_cached_holiday, FetchOutcome, HolidayAction, HolidayCheck,
    HolidayEvent,
};

fn ymd(y: i32, m: u32, d: u32) -> Date {
    Date::from_ymd_opt(y, m, d).unwrap()
}

fn done(a: HolidayAction) -> Result<(bool, String, String, i32), String> {
    match a {
        HolidayAction::Done(r) => r,
        _ => panic!("expected Done"),
    }
}

#[test]
fn test_holiday_from_cache() {
    let cache = r#"{"2026-01-01":true,"2026-06-13":false}"#;
    let date = ymd(2026, 1, 1);
    let (_, a) = HolidayCheck::start(date, cache, 2026);
    let (is_hol, _, source, _) = done(a).unwrap();
    assert!(is_hol);
    assert_eq!(source, "cache");
}

#[test]
fn test_non_holiday_from_cache() {
    let cache = r#"{"2026-01-01":true}"#;
    let date = ymd(2026, 6, 13);
    let (_, a) = HolidayCheck::start(date, cache, 2026);
    let (is_hol, _, _source, _) = done(a).unwrap();
    assert!(!is_hol);
}

#[test]
fn cached_false_and_non_bool_entries() {
    let cache = r#"{"2026-06-13":false,"2026-06-14":"yes","2026-06-15":1}"#;
    assert_eq!(lookup_cached_holiday(cache, "2026-06-13"), Ok(false));
    assert_eq!(lookup_cached_holiday(cache, "2026-06-14"), Ok(false));
    assert_eq!(lookup_cached_holiday(cache, "2026-06-15"), Ok(false));
    assert_eq!(lookup_cached_holiday("[true]", "2026-06-15"), Ok(false));
}

#[test]
fn broken_cache_is_an_error() {
    let (_, a) = HolidayCheck::start(ymd(2026, 1, 1), "{not json", 2026);
    match done(a) {
        Err(e) => assert!(e.starts_with("缓存解析失败: ")),
        Ok(_) => panic!("a broken cache was read"),
    }
}

#[test]
fn stale_or_empty_cache_asks_the_api() {
    for (cache, year) in [(r#"{"2025-01-01":true}"#, 2025), ("", 2026), ("{}", 2026)] {
        let (_, a) = HolidayCheck::start(ymd(2026, 1, 1), cache, year);
        match a {
            HolidayAction::Fetch { url } => assert_eq!(url, "https://timor.tech/api/holiday/year/2026"),
            _ => panic!("expected Fetch"),
        }
    }
}

#[test]
fn api_answer_is_cached_and_read() {
    let (c, a) = HolidayCheck::start(ymd(2026, 10, 3), "{}", 0);
    assert!(matches!(a, HolidayAction::Fetch { .. }));
    let body = r#"{"code":0,"holiday":{"10-01":{"holiday":true,"name":"国庆节"},"2026-10-03":{"holiday":true},"10-10":{"holiday":false},"10-11":{"name":"x"}}}"#;
    let ev = HolidayEvent::Fetched(FetchOutcome::Body(body.to_string()));
    assert!(c.accepts_event(&ev));
    let (c, a) = c.step(ev);
    let list = match a {
        HolidayAction::SaveSetting { key, value } => {
            assert_eq!(key, "holiday_cache");
            value
        }
        _ => panic!("expected SaveSetting"),
    };
    assert_eq!(list, r#"{"10-01":true,"10-10":false,"10-11":false,"2026-10-03":true}"#);
    let (c, a) = c.step(HolidayEvent::Saved(Ok(())));
    match a {
        HolidayAction::SaveSetting { key, value } => {
            assert_eq!(key, "holiday_cache_year");
            assert_eq!(value, "2026");
        }
        _ => panic!("expected SaveSetting"),
    }
    let (_, a) = c.step(HolidayEvent::Saved(Ok(())));
    let (is_hol, cache, source, year) = done(a).unwrap();
    assert!(is_hol);
    assert_eq!(cache, list);
    assert_eq!(source, "api");
    assert_eq!(year, 2026);
}

#[test]
fn api_failures() {
    let start = || HolidayCheck::start(ymd(2026, 5, 1), "", 0).0;
    let (_, a) = start().step(HolidayEvent::Fetched(FetchOutcome::RequestFailed("dns".to_string())));
    assert_eq!(done(a), Err("节假日 API 请求失败: dns".to_string()));
    let (_, a) = start().step(HolidayEvent::Fetched(FetchOutcome::ReadFailed("eof".to_string())));
    assert_eq!(done(a), Err("节假日 API 解析失败: eof".to_string()));
    let (_, a) = start().step(HolidayEvent::Fetched(FetchOutcome::Body("<html>".to_string())));
    assert!(done(a).unwrap_err().starts_with("节假日 API 解析失败: "));
    let (c, _) = start().step(HolidayEvent::Fetched(FetchOutcome::Body("{}".to_string())));
    let (_, a) = c.step(HolidayEvent::Saved(Err("设置保存失败: locked".to_string())));
    assert_eq!(done(a), Err("设置保存失败: locked".to_string()));
}

#[test]
fn answer_without_holidays_caches_an_empty_list() {
    let (c, _) = HolidayCheck::start(ymd(2026, 5, 1), "", 0);
    let (_, a) = c.step(HolidayEvent::Fetched(FetchOutcome::Body(r#"{"code":-1}"#.to_string())));
    match a {
        HolidayAction::SaveSetting { value, .. } => assert_eq!(value, "{}"),
        _ => panic!("expected SaveSetting"),
    }
}

#[test]
fn settings_defaults() {
    assert_eq!(holiday_inputs(&None, &None), (String::new(), 0));
    assert_eq!(holiday_inputs(&Some("{}".to_string()), &Some("2026".to_string())), ("{}".to_string(), 2026));
    assert_eq!(holiday_inputs(&Some("x".to_string()), &Some("abc".to_string())), ("x".to_string(), 0));
}

#[test]
fn cached_list_answers_like_the_api() {
    let body = r#"{"holiday":{"2026-10-01":{"holiday":true},"2026-10-10":{"holiday":false}}}"#;
    for (m, d) in [(10, 1), (10, 10), (10, 2)] {
        let date = ymd(2026, m, d);
        let (c, _) = HolidayCheck::start(date, "", 0);
        let (c, a) = c.step(HolidayEvent::Fetched(FetchOutcome::Body(body.to_string())));
        let list = match a {
            HolidayAction::SaveSetting { value, .. } => value,
            _ => panic!("expected SaveSetting"),
        };
        let (c, _) = c.step(HolidayEvent::Saved(Ok(())));
        let (_, a) = c.step(HolidayEvent::Saved(Ok(())));
        let (from_api, cache, _, year) = done(a).unwrap();
        let (_, a) = HolidayCheck::start(date, &cache, year);
        let (from_cache, _, source, _) = done(a).unwrap();
        assert_eq!(source, "cache");
        assert_eq!(from_api, from_cache);
        assert_eq!(cache, list);
    }
}
