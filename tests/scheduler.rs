use apisvr::config::Timer;
use apisvr::fetch::FetchError;
use apisvr::response;
use apisvr::scheduler::{clamp_interval, CacheCell, Caches, ScheduleEntry, Scheduler, Source};

#[test]
fn interval_is_clamped() {
    assert_eq!(clamp_interval(0), 10);
    assert_eq!(clamp_interval(9), 10);
    assert_eq!(clamp_interval(10), 10);
    assert_eq!(clamp_interval(1800), 1800);
    assert_eq!(ScheduleEntry::new(Source::Market, 3).interval, 10);
}

#[test]
fn interval_ten_fires_at_multiples_over_hundred_ticks() {
    let mut s = Scheduler::new(vec![ScheduleEntry::new(Source::Market, 10)]);
    let mut fired_at = Vec::new();
    for _ in 0..100 {
        let tick = s.current_tick();
        let fired = s.tick();
        for src in fired {
            assert_eq!(src, Source::Market);
            fired_at.push(tick);
            s.finish(src);
        }
    }
    assert_eq!(fired_at, vec![0, 10, 20, 30, 40, 50, 60, 70, 80, 90]);
}

#[test]
fn sources_are_multiplexed_on_one_clock() {
    let mut s = Scheduler::new(vec![
        ScheduleEntry::new(Source::GreedFear, 60),
        ScheduleEntry::new(Source::EthereumGasFee, 30),
    ]);
    let mut greed = 0;
    let mut gas = 0;
    for _ in 0..120 {
        for src in s.tick() {
            match src {
                Source::GreedFear => greed += 1,
                Source::EthereumGasFee => gas += 1,
                _ => unreachable!(),
            }
            s.finish(src);
        }
    }
    assert_eq!(greed, 2);
    assert_eq!(gas, 4);
}

#[test]
fn fetch_in_flight_is_not_started_again() {
    let mut s = Scheduler::new(vec![ScheduleEntry::new(Source::Global, 10)]);
    assert_eq!(s.tick(), vec![Source::Global]);
    for _ in 1..20 {
        assert!(s.tick().is_empty());
    }
    s.finish(Source::Global);
    assert_eq!(s.tick(), vec![Source::Global]);
}

#[test]
fn default_schedule() {
    let s = response::init(&Timer::default());
    assert_eq!(s.current_tick(), 0);
    let crypto = response::cryptocurrency::init(&Timer { coinmarketcap_latest: 5, awtmt_market: 30 });
    assert_eq!(crypto[0], ScheduleEntry { source: Source::CryptoLatest, interval: 10 });
    assert_eq!(crypto[1].interval, 60);
    assert_eq!(crypto[3].interval, 30);
    let market = response::market::init(&Timer { coinmarketcap_latest: 5, awtmt_market: 45 });
    assert_eq!(market, ScheduleEntry { source: Source::Market, interval: 45 });
}

#[test]
fn cache_keeps_value_after_failure() {
    let mut c = CacheCell::new();
    assert_eq!(c.latest(), None);
    c.record(0, Err(FetchError::Network("down".to_string())));
    assert_eq!(c.latest(), None);
    assert!(c.last_error().is_some());
    c.record(10, Ok("v10".to_string()));
    assert_eq!(c.latest(), Some("v10".to_string()));
    assert!(c.last_error().is_none());
    c.record(20, Err(FetchError::Parse("bad".to_string())));
    assert_eq!(c.latest(), Some("v10".to_string()));
    assert!(c.last_error().is_some());
    c.record(30, Ok("v30".to_string()));
    assert_eq!(c.latest(), Some("v30".to_string()));
}

#[test]
fn caches_are_independent() {
    let mut caches = Caches::new();
    caches.record(Source::Market, 0, Ok("m".to_string()));
    caches.record(Source::CryptoLatest, 0, Err(FetchError::Network("x".to_string())));
    assert_eq!(caches.latest(Source::Market), Some("m".to_string()));
    assert_eq!(caches.latest(Source::CryptoLatest), None);
    assert_eq!(caches.latest(Source::Global), None);
}

#[test]
fn market_keys_keep_complete_rows_in_key_order() {
    let rows = vec![
        ("US500.OTC".to_string(), 7),
        ("000001.SS".to_string(), 7),
        ("DXY.OTC".to_string(), 3),
        ("399006.SZ".to_string(), 7),
        ("USDCNH.OTC".to_string(), 8),
    ];
    assert_eq!(
        response::market::market_keys(&rows),
        vec!["000001.SS".to_string(), "399006.SZ".to_string(), "US500.OTC".to_string()]
    );
    assert!(response::market::market_keys(&vec![]).is_empty());
}
