use std::time::Duration;

use zarr_tiles::cache::{weigh, TileCoord, WarpCache, WarpCacheKey};
use zarr_tiles::config::{
    as_option, could_configure_store, ConfigValue, ProfileCredentials, ProfileUse, StorePlan,
    StoreScheme, ZarrConfig,
};
use zarr_tiles::interval::{default_reload_interval, is_default_reload_interval, Interval};
use zarr_tiles::map::TextMap;
use zarr_tiles::warp::WarpGrid;

fn with_options(entries: &[(&str, &str)]) -> ZarrConfig {
    let mut config = ZarrConfig::default();
    for (key, value) in entries {
        config.options.insert(key.to_string(), value.to_string());
    }
    config
}

#[test]
fn default_interval_is_ten_minutes() {
    assert_eq!(default_reload_interval(), Interval { secs: 600, nanos: 0 });
    assert!(is_default_reload_interval(&default_reload_interval()));
    assert!(!is_default_reload_interval(&Interval { secs: 600, nanos: 1 }));
    assert!(!is_default_reload_interval(&Interval { secs: 0, nanos: 0 }));
}

#[test]
fn maps_replace_and_forget() {
    let mut map: TextMap<u32> = TextMap::new();
    map.insert("a".to_string(), 1);
    map.insert("b".to_string(), 2);
    map.insert("a".to_string(), 3);
    assert_eq!(map.len(), 2);
    assert_eq!(map.get("a"), Some(&3));
    assert_eq!(map.entry(1), (&"b".to_string(), &2));
    map.remove("a");
    map.remove("c");
    assert!(!map.contains_key("a"));
    assert!(map.contains_key("b"));
    assert_eq!(map.get("a"), None);
}

#[test]
fn caches_are_made_with_their_settings() {
    let cache = WarpCache::new(
        5_000_000,
        Some(Interval { secs: 60, nanos: 5 }),
        Some(Interval { secs: 7, nanos: 0 }),
    );
    assert_eq!(cache.cache.name(), Some("zarr_warp_cache"));
    let policy = cache.cache.policy();
    assert_eq!(policy.max_capacity(), Some(5_000_000));
    assert_eq!(policy.time_to_live(), Some(Duration::new(60, 5)));
    assert_eq!(policy.time_to_idle(), Some(Duration::from_secs(7)));
    let shared = cache.clone();
    assert_eq!(shared.cache.policy().max_capacity(), Some(5_000_000));

    let policy = WarpCache::default().cache.policy();
    assert_eq!(policy.max_capacity(), Some(0));
    assert_eq!(policy.time_to_live(), None);
    assert_eq!(policy.time_to_idle(), None);
    let longest = Some(Interval { secs: 31_536_000_000, nanos: 0 });
    WarpCache::new(1, longest, longest);
}

#[test]
fn grids_weigh_four_bytes_an_index() {
    let grid = WarpGrid { indices: vec![-1; 32], bbox: [0, 3, 3, 0] };
    assert_eq!(weigh(&Some(grid)), 160);
    assert_eq!(weigh(&None), 0);
}

#[test]
fn keys_are_tiles_of_sources() {
    let tile = TileCoord { z: 10, x: 558, y: 356 };
    let key = WarpCacheKey(tile, "snow".to_string());
    assert_eq!(*key.borrow(), tile);
    assert_eq!(key, WarpCacheKey(tile, "snow".to_string()));
    assert_ne!(key, WarpCacheKey(tile, "rain".to_string()));
    assert_ne!(key, WarpCacheKey(TileCoord { z: 9, ..tile }, "snow".to_string()));
}

#[test]
fn the_default_has_no_options() {
    let config = ZarrConfig::default();
    assert_eq!(config.reload_interval, default_reload_interval());
    assert_eq!(config.profile, None);
    assert_eq!(config.options.len(), 0);
    assert_eq!(config.unrecognized.len(), 0);
    assert!(!config.profile_credentials);
    assert!(ZarrConfig::parse_urls());
}

#[test]
fn configurations_are_equal_by_what_they_say() {
    assert!(ZarrConfig::default() == ZarrConfig::default());
    let ab = with_options(&[("a", "1"), ("b", "2")]);
    let ba = with_options(&[("b", "2"), ("a", "1")]);
    assert!(ab == ba);
    assert!(ab != with_options(&[("a", "1")]));
    assert!(with_options(&[("a", "1")]) != ab);
    assert!(ab != with_options(&[("a", "1"), ("b", "3")]));

    let mut other = ZarrConfig::default();
    other.profile_credentials = true;
    assert!(other == ZarrConfig::default());
    other.profile = Some("dev".to_string());
    assert!(other != ZarrConfig::default());
    let mut other = ZarrConfig::default();
    other.reload_interval = Interval { secs: 1, nanos: 0 };
    assert!(other != ZarrConfig::default());

    let unrecognized = |value| {
        let mut config = ZarrConfig::default();
        config.unrecognized.insert("k".to_string(), value);
        config
    };
    let number = |text: &str| unrecognized(ConfigValue::Number(text.to_string()));
    assert!(number("1") == number("1"));
    assert!(number("1") != number("2"));
    assert!(number("0.0") == number("-0.0"));
    assert!(number("1") != unrecognized(ConfigValue::Text("1".to_string())));
    assert!(unrecognized(ConfigValue::Bool(true)) != unrecognized(ConfigValue::Bool(false)));
    assert!(unrecognized(ConfigValue::Other("[]".into())) == unrecognized(ConfigValue::Other("[]".into())));
    assert!(number("1") != ZarrConfig::default());
}

#[test]
fn store_keys_are_known() {
    for key in ["aws_region", "google_service_account", "azure_storage_account_key", "allow_http"] {
        assert!(could_configure_store(key), "{key}");
    }
    assert!(!could_configure_store("warp_cache"));
    assert!(!could_configure_store(""));
}

#[test]
fn values_become_options() {
    assert_eq!(as_option(&ConfigValue::Bool(true)), Some("true".to_string()));
    assert_eq!(as_option(&ConfigValue::Bool(false)), Some("false".to_string()));
    assert_eq!(as_option(&ConfigValue::Number("1.5".into())), Some("1.5".to_string()));
    assert_eq!(as_option(&ConfigValue::Text("a b".into())), Some("a b".to_string()));
    assert_eq!(as_option(&ConfigValue::Other("null".into())), None);
}

fn unrecognized() -> ZarrConfig {
    let mut config = with_options(&[("token", "old"), ("aws_bucket", "kept")]);
    let values = &mut config.unrecognized;
    values.insert("skip_signature".to_string(), ConfigValue::Bool(true));
    values.insert("typo".to_string(), ConfigValue::Text("t".to_string()));
    values.insert("timeout".to_string(), ConfigValue::Number("30".to_string()));
    values.insert("token".to_string(), ConfigValue::Text("new".to_string()));
    values.insert("region".to_string(), ConfigValue::Other("[]".to_string()));
    config
}

#[test]
fn store_options_are_told_from_unknown_values() {
    let mut config = unrecognized();
    config.partition_options_and_unrecognized();
    assert_eq!(config.unrecognized.len(), 1);
    assert!(config.unrecognized.contains_key("typo"));
    assert_eq!(config.options.len(), 4);
    for (key, value) in
        [("skip_signature", "true"), ("timeout", "30"), ("token", "new"), ("aws_bucket", "kept")]
    {
        assert_eq!(config.options.get(key).map(String::as_str), Some(value));
    }
    // what cannot be an option is dropped
    assert!(!config.options.contains_key("region"));
}

#[test]
fn telling_options_again_changes_nothing() {
    let mut once = unrecognized();
    once.partition_options_and_unrecognized();
    let mut twice = unrecognized();
    twice.partition_options_and_unrecognized();
    twice.partition_options_and_unrecognized();
    assert!(once == twice);
}

#[test]
fn a_profile_gives_region_and_credentials() {
    let mut config = ZarrConfig::default();
    let used = config.apply_aws_config(Some("eu-central-1"), true);
    assert_eq!(
        used,
        ProfileUse { region_overridden: false, credentials: ProfileCredentials::Used }
    );
    assert_eq!(config.options.get("region").map(String::as_str), Some("eu-central-1"));
    assert!(config.profile_credentials);

    let mut config = ZarrConfig::default();
    let used = config.apply_aws_config(None, false);
    assert_eq!(used.credentials, ProfileCredentials::Missing);
    assert_eq!(config.options.len(), 0);
    assert!(!config.profile_credentials);
}

#[test]
fn options_override_a_profile() {
    for key in ["region", "aws_region", "default_region", "aws_default_region"] {
        let mut config = with_options(&[(key, "us-east-1")]);
        let used = config.apply_aws_config(Some("eu-central-1"), true);
        assert!(used.region_overridden);
        assert_eq!(used.credentials, ProfileCredentials::Used);
        assert_eq!(config.options.len(), 1);
        assert_eq!(config.options.get(key).map(String::as_str), Some("us-east-1"));
    }
    for key in ["access_key_id", "aws_token", "role_arn", "imdsv1_fallback", "aws_endpoint_url_sts"] {
        let mut config = with_options(&[(key, "v"), ("skip_signature", "true")]);
        let used = config.apply_aws_config(Some("eu-central-1"), true);
        assert_eq!(used.credentials, ProfileCredentials::Overridden, "{key}");
        assert!(!used.region_overridden);
        assert!(!config.profile_credentials);
        assert_eq!(config.options.len(), 3);
    }
    for (key, value) in [("skip_signature", "TrUe"), ("aws_skip_signature", "1")] {
        let mut config = with_options(&[(key, value)]);
        let used = config.apply_aws_config(None, true);
        assert_eq!(used.credentials, ProfileCredentials::Unsigned);
        assert!(!config.profile_credentials);
    }
    for value in ["yes", "false", "0", "true "] {
        let mut config = with_options(&[("skip_signature", value)]);
        assert_eq!(config.apply_aws_config(None, true).credentials, ProfileCredentials::Used);
    }
}

#[test]
fn stores_are_planned_by_their_url() {
    let mut config = with_options(&[("region", "us-east-1"), ("typo", "t"), ("token", "x")]);
    config.profile_credentials = true;
    match config.parse_url_opts("s3://bucket/a/b").unwrap() {
        StorePlan::AmazonS3 { path, config, profile_credentials } => {
            assert_eq!(path, "a/b");
            assert_eq!(
                config,
                vec![
                    ("region".to_string(), "us-east-1".to_string()),
                    ("token".to_string(), "x".to_string())
                ]
            );
            assert!(profile_credentials);
        }
        StorePlan::General => panic!("should be on Amazon S3"),
    }
    for url in ["file:///tmp/store", "https://example.com/store", "gs://bucket/store"] {
        assert!(matches!(config.parse_url_opts(url), Ok(StorePlan::General)));
    }
    assert!(config.parse_url_opts("unknown://x/y").is_err());
    assert!(config.parse_url_opts("no url").is_err());
    assert!(matches!(
        config.plan_store(StoreScheme::Http, String::new()),
        StorePlan::General
    ));
    assert!(matches!(
        config.plan_store(StoreScheme::AmazonS3, String::new()),
        StorePlan::AmazonS3 { .. }
    ));
}

struct Idle;

impl std::task::Wake for Idle {
    fn wake(self: std::sync::Arc<Self>) {}
}

fn wait<F: std::future::Future>(future: F) -> F::Output {
    let waker = std::sync::Arc::new(Idle).into();
    let mut future = Box::pin(future);
    loop {
        let mut context = std::task::Context::from_waker(&waker);
        if let std::task::Poll::Ready(output) = future.as_mut().poll(&mut context) {
            return output;
        }
    }
}

#[test]
fn a_cache_weighs_its_grids_and_is_shared_by_its_handles() {
    let cache = WarpCache::new(100, None, None);
    let shared = cache.clone();
    let tile = TileCoord { z: 1, x: 0, y: 1 };
    let key = |id: &str| WarpCacheKey(tile, id.to_string());
    let grid = |n: usize| Some(WarpGrid { indices: vec![0; n], bbox: [0; 4] });

    wait(cache.cache.insert(key("snow"), grid(8)));
    wait(cache.cache.insert(key("outside"), None));
    wait(cache.cache.run_pending_tasks());
    assert_eq!(cache.cache.weighted_size(), 64);
    assert!(shared.cache.contains_key(&key("snow")));
    assert!(shared.cache.contains_key(&key("outside")));
    assert_eq!(shared.cache.weighted_size(), 64);

    // heavier than the cache may be
    wait(cache.cache.insert(key("rain"), grid(18)));
    wait(cache.cache.run_pending_tasks());
    assert!(!shared.cache.contains_key(&key("rain")));
}
