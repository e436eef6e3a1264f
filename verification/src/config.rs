//! The configuration of Zarr sources.

use vstd::prelude::*;

use crate::cache::WarpCache;
use crate::interval::{default_reload_interval, Interval};
use crate::map::TextMap;
use crate::text::{eq_ignore_ascii_case, same};

#[allow(unused_imports)]
use crate::attributes::text_view;
#[allow(unused_imports)]
use crate::cache::{by_weight, cache_settings, CacheSettings};
#[allow(unused_imports)]
use crate::interval::default_interval;
#[allow(unused_imports)]
use crate::map::{as_map, distinct, has_key};
#[allow(unused_imports)]
use crate::text::ascii_lowered;

verus! {

/// A value in a configuration file.
pub enum ConfigValue {
    Bool(bool),
    /// A number, as JSON writes it.
    Number(String),
    Text(String),
    /// Any other value: its JSON text, with every zero written without a sign and the
    /// keys of objects in order.
    Other(String),
}

/// The configuration of Zarr sources.
pub struct ZarrConfig {
    /// How often remote prefixes are listed again to find sources. No time at all
    /// turns this off.
    pub reload_interval: Interval,
    /// The AWS profile for credentials and region.
    pub profile: Option<String>,
    /// The options of the object store.
    pub options: TextMap<String>,
    /// Values that no setting is known for.
    pub unrecognized: TextMap<ConfigValue>,
    /// The cache of warp grids.
    pub warp_cache: WarpCache,
    /// Whether requests are signed with the credentials of the profile.
    pub profile_credentials: bool,
}

/// The texts of the values of a map.
pub open spec fn value_texts(options: Map<Seq<char>, String>) -> Map<Seq<char>, Seq<char>> {
    options.map_values(|s: String| s@)
}

/// Whether a number is zero, with either sign.
pub open spec fn is_zero(number: Seq<char>) -> bool {
    number == "0.0"@ || number == "-0.0"@
}

/// Whether two values are equal. The two zeros are.
pub open spec fn same_value(a: ConfigValue, b: ConfigValue) -> bool {
    match (a, b) {
        (ConfigValue::Bool(x), ConfigValue::Bool(y)) => x == y,
        (ConfigValue::Number(x), ConfigValue::Number(y)) => x@ == y@ || (is_zero(x@) && is_zero(y@)),
        (ConfigValue::Text(x), ConfigValue::Text(y)) => x@ == y@,
        (ConfigValue::Other(x), ConfigValue::Other(y)) => x@ == y@,
        _ => false,
    }
}

/// Whether two maps hold equal values under the same keys.
pub open spec fn same_values(
    a: Map<Seq<char>, ConfigValue>,
    b: Map<Seq<char>, ConfigValue>,
) -> bool {
    &&& forall|k: Seq<char>| #[trigger] a.dom().contains(k) <==> b.dom().contains(k)
    &&& forall|k: Seq<char>| #[trigger] a.dom().contains(k) ==> same_value(a[k], b[k])
}

/// Whether two configurations say the same. What was built from them, such as the
/// cache, is left out.
pub open spec fn same_config(a: ZarrConfig, b: ZarrConfig) -> bool {
    &&& a.reload_interval == b.reload_interval
    &&& text_view(a.profile) == text_view(b.profile)
    &&& value_texts(a.options@) == value_texts(b.options@)
    &&& same_values(a.unrecognized@, b.unrecognized@)
}

/// Saying the same is an equivalence: a configuration says the same as itself, what
/// one says of another the other says of it, and two that say the same as a third
/// say the same.
pub proof fn law_same_config_is_equivalence(a: ZarrConfig, b: ZarrConfig, c: ZarrConfig)
    ensures
        same_config(a, a),
        same_config(a, b) ==> same_config(b, a),
        same_config(a, b) && same_config(b, c) ==> same_config(a, c),
{
    if same_config(a, b) {
        assert forall|k: Seq<char>| #[trigger] b.unrecognized@.dom().contains(k) implies same_value(
            b.unrecognized@[k],
            a.unrecognized@[k],
        ) by {
            assert(a.unrecognized@.dom().contains(k));
        }
        if same_config(b, c) {
            assert forall|k: Seq<char>| #[trigger]
                a.unrecognized@.dom().contains(k) implies same_value(
                a.unrecognized@[k],
                c.unrecognized@[k],
            ) by {
                assert(b.unrecognized@.dom().contains(k));
            }
            assert forall|k: Seq<char>| #[trigger]
                a.unrecognized@.dom().contains(k) <==> c.unrecognized@.dom().contains(k) by {
                assert(a.unrecognized@.dom().contains(k) <==> b.unrecognized@.dom().contains(k));
                assert(b.unrecognized@.dom().contains(k) <==> c.unrecognized@.dom().contains(k));
            }
        }
    }
}

/// Whether two values are equal.
fn equal_values(a: &ConfigValue, b: &ConfigValue) -> (r: bool)
    ensures
        r <==> same_value(*a, *b),
{
    match (a, b) {
        (ConfigValue::Bool(x), ConfigValue::Bool(y)) => *x == *y,
        (ConfigValue::Number(x), ConfigValue::Number(y)) => {
            let x_is_zero = same(x.as_str(), "0.0") || same(x.as_str(), "-0.0");
            let y_is_zero = same(y.as_str(), "0.0") || same(y.as_str(), "-0.0");
            *x == *y || (x_is_zero && y_is_zero)
        },
        (ConfigValue::Text(x), ConfigValue::Text(y)) => *x == *y,
        (ConfigValue::Other(x), ConfigValue::Other(y)) => *x == *y,
        _ => false,
    }
}

/// Whether a key of the map is an entry of the list.
proof fn lemma_listed<V>(entries: Seq<(String, V)>, key: Seq<char>) -> (at: int)
    requires
        as_map(entries).dom().contains(key),
    ensures
        has_key(entries, key, at),
{
    choose|at: int| has_key(entries, key, at)
}

/// Whether every option of `a` is in `b` with the same value.
fn options_within(a: &TextMap<String>, b: &TextMap<String>) -> (r: bool)
    ensures
        r <==> forall|k: Seq<char>| #[trigger]
            a@.dom().contains(k) ==> b@.dom().contains(k) && a@[k]@ == b@[k]@,
{
    let n: usize = a.len();
    for i in 0..n
        invariant
            n == a.listed().len(),
            forall|j: int|
                0 <= j < i ==> b@.dom().contains((#[trigger] a.listed()[j]).0@) && a@[a.listed()[j].0@]@
                    == b@[a.listed()[j].0@]@,
    {
        let (key, value) = a.entry(i);
        match b.get(key.as_str()) {
            Some(other) => {
                if !(*value == *other) {
                    return false;
                }
            },
            None => {
                return false;
            },
        }
    }
    proof {
        assert forall|k: Seq<char>| #[trigger] a@.dom().contains(k) implies b@.dom().contains(k)
            && a@[k]@ == b@[k]@ by {
            let at = lemma_listed(a.listed(), k);
            assert(a.listed()[at].0@ == k);
        }
    }
    true
}

/// Whether every value of `a` is in `b` too.
fn values_within(a: &TextMap<ConfigValue>, b: &TextMap<ConfigValue>) -> (r: bool)
    ensures
        r <==> forall|k: Seq<char>| #[trigger]
            a@.dom().contains(k) ==> b@.dom().contains(k) && same_value(a@[k], b@[k]),
{
    let n: usize = a.len();
    for i in 0..n
        invariant
            n == a.listed().len(),
            forall|j: int|
                0 <= j < i ==> b@.dom().contains((#[trigger] a.listed()[j]).0@) && same_value(
                    a@[a.listed()[j].0@],
                    b@[a.listed()[j].0@],
                ),
    {
        let (key, value) = a.entry(i);
        match b.get(key.as_str()) {
            Some(other) => {
                if !equal_values(value, other) {
                    return false;
                }
            },
            None => {
                return false;
            },
        }
    }
    proof {
        assert forall|k: Seq<char>| #[trigger] a@.dom().contains(k) implies b@.dom().contains(k)
            && same_value(a@[k], b@[k]) by {
            let at = lemma_listed(a.listed(), k);
            assert(a.listed()[at].0@ == k);
        }
    }
    true
}

/// Whether two texts that may be missing are equal.
fn same_text(a: &Option<String>, b: &Option<String>) -> (r: bool)
    ensures
        r <==> text_view(*a) == text_view(*b),
{
    match (a, b) {
        (Some(x), Some(y)) => *x == *y,
        (None, None) => true,
        _ => false,
    }
}

impl PartialEq for ZarrConfig {
    fn eq(&self, other: &ZarrConfig) -> (r: bool) {
        let options = options_within(&self.options, &other.options) && options_within(
            &other.options,
            &self.options,
        );
        proof {
            let a = value_texts(self.options@);
            let b = value_texts(other.options@);
            if options {
                assert forall|k: Seq<char>| #[trigger] a.dom().contains(k) <==> b.dom().contains(k) by {
                    assert(self.options@.dom().contains(k) ==> other.options@.dom().contains(k));
                    assert(other.options@.dom().contains(k) ==> self.options@.dom().contains(k));
                }
                assert(a =~= b);
            } else if a == b {
                assert forall|k: Seq<char>| #[trigger]
                    self.options@.dom().contains(k) implies other.options@.dom().contains(k)
                    && self.options@[k]@ == other.options@[k]@ by {
                    assert(a.dom().contains(k) && b.dom().contains(k));
                    assert(a[k] == b[k]);
                }
                assert forall|k: Seq<char>| #[trigger]
                    other.options@.dom().contains(k) implies self.options@.dom().contains(k)
                    && other.options@[k]@ == self.options@[k]@ by {
                    assert(b.dom().contains(k) && a.dom().contains(k));
                    assert(a[k] == b[k]);
                }
            }
        }
        let values = values_within(&self.unrecognized, &other.unrecognized) && values_within(
            &other.unrecognized,
            &self.unrecognized,
        );
        self.reload_interval == other.reload_interval && same_text(&self.profile, &other.profile)
            && options && values
    }
}

impl vstd::std_specs::cmp::PartialEqSpecImpl for ZarrConfig {
    open spec fn obeys_eq_spec() -> bool {
        true
    }

    open spec fn eq_spec(&self, other: &ZarrConfig) -> bool {
        same_config(*self, *other)
    }
}

impl Default for ZarrConfig {
    /// A configuration without options.
    fn default() -> (r: ZarrConfig)
        ensures
            r.reload_interval == default_interval(),
            r.profile is None,
            r.options@ == Map::<Seq<char>, String>::empty(),
            r.unrecognized@ == Map::<Seq<char>, ConfigValue>::empty(),
            !r.profile_credentials,
            cache_settings(r.warp_cache.cache) == (CacheSettings {
                name: "zarr_warp_cache"@,
                capacity: 0,
                weigher: by_weight(),
                expiry: None,
                idle: None,
            }),
    {
        ZarrConfig {
            reload_interval: default_reload_interval(),
            profile: None,
            options: TextMap::new(),
            unrecognized: TextMap::new(),
            warp_cache: WarpCache::default(),
            profile_credentials: false,
        }
    }
}

/// An error of the `object_store` crate: why there is no store.
#[verifier::external_type_specification]
#[verifier::external_body]
pub struct ExStoreError(object_store::Error);

/// Whether a key configures stores on Amazon S3.
pub uninterp spec fn s3_key(key: Seq<char>) -> bool;

/// Whether a key configures stores on Amazon S3: whether `FromStr` knows it as an
/// `object_store::aws::AmazonS3ConfigKey`.
#[verifier::external_body]
fn is_s3_key(key: &str) -> (r: bool)
    ensures
        r == s3_key(key@),
{
    key.parse::<object_store::aws::AmazonS3ConfigKey>().is_ok()
}

/// Whether a key configures stores on Google Cloud.
pub uninterp spec fn google_key(key: Seq<char>) -> bool;

/// Whether a key configures stores on Google Cloud: whether `FromStr` knows it as
/// an `object_store::gcp::GoogleConfigKey`.
#[verifier::external_body]
fn is_google_key(key: &str) -> (r: bool)
    ensures
        r == google_key(key@),
{
    key.parse::<object_store::gcp::GoogleConfigKey>().is_ok()
}

/// Whether a key configures stores on Azure.
pub uninterp spec fn azure_key(key: Seq<char>) -> bool;

/// Whether a key configures stores on Azure: whether `FromStr` knows it as an
/// `object_store::azure::AzureConfigKey`.
#[verifier::external_body]
fn is_azure_key(key: &str) -> (r: bool)
    ensures
        r == azure_key(key@),
{
    key.parse::<object_store::azure::AzureConfigKey>().is_ok()
}

/// Whether a key configures the HTTP client of a store.
pub uninterp spec fn client_key(key: Seq<char>) -> bool;

/// Whether a key configures the HTTP client of a store: whether `FromStr` knows it
/// as an `object_store::client::ClientConfigKey`.
#[verifier::external_body]
fn is_client_key(key: &str) -> (r: bool)
    ensures
        r == client_key(key@),
{
    key.parse::<object_store::client::ClientConfigKey>().is_ok()
}

/// Whether a key configures some store.
pub open spec fn store_key(key: Seq<char>) -> bool {
    s3_key(key) || google_key(key) || azure_key(key) || client_key(key)
}

/// Whether a key configures some store.
pub fn could_configure_store(key: &str) -> (r: bool)
    ensures
        r <==> store_key(key@),
        r <==> s3_key(key@) || google_key(key@) || azure_key(key@) || client_key(key@),
{
    is_s3_key(key) || is_google_key(key) || is_azure_key(key) || is_client_key(key)
}

/// A value as an option of a store; none where it is no truth value, number or
/// text.
pub open spec fn option_text(value: ConfigValue) -> Option<Seq<char>> {
    match value {
        ConfigValue::Bool(b) => Some(if b { "true"@ } else { "false"@ }),
        ConfigValue::Number(n) => Some(n@),
        ConfigValue::Text(t) => Some(t@),
        ConfigValue::Other(_) => None,
    }
}

/// A value as an option of a store.
pub fn as_option(value: &ConfigValue) -> (r: Option<String>)
    ensures
        text_view(r) == option_text(*value),
{
    match value {
        ConfigValue::Bool(b) => if *b {
            Some("true".to_owned())
        } else {
            Some("false".to_owned())
        },
        ConfigValue::Number(n) => Some(n.clone()),
        ConfigValue::Text(t) => Some(t.clone()),
        ConfigValue::Other(_) => None,
    }
}

/// What is left of unrecognized values without the keys that `taken` takes.
pub open spec fn without(
    values: Map<Seq<char>, ConfigValue>,
    taken: spec_fn(Seq<char>) -> bool,
) -> Map<Seq<char>, ConfigValue> {
    values.restrict(Set::new(|k: Seq<char>| !taken(k)))
}

/// The options with those values that `taken` takes and that can be options.
pub open spec fn with_values(
    options: Map<Seq<char>, Seq<char>>,
    values: Map<Seq<char>, ConfigValue>,
    taken: spec_fn(Seq<char>) -> bool,
) -> Map<Seq<char>, Seq<char>> {
    Map::new(
        |k: Seq<char>|
            options.dom().contains(k) || (taken(k) && values.dom().contains(k) && option_text(
                values[k],
            ) is Some),
        |k: Seq<char>|
            if taken(k) && values.dom().contains(k) && option_text(values[k]) is Some {
                option_text(values[k])->Some_0
            } else {
                options[k]
            },
    )
}

impl ZarrConfig {
    /// Moves the unrecognized values that configure a store to its options. One
    /// that is no truth value, number or text is dropped.
    pub fn partition_options_and_unrecognized(&mut self)
        ensures
            final(self).unrecognized@ == without(
                old(self).unrecognized@,
                |k: Seq<char>| store_key(k),
            ),
            value_texts(final(self).options@) == with_values(
                value_texts(old(self).options@),
                old(self).unrecognized@,
                |k: Seq<char>| store_key(k),
            ),
            final(self).reload_interval == old(self).reload_interval,
            final(self).profile == old(self).profile,
            final(self).warp_cache == old(self).warp_cache,
            final(self).profile_credentials == old(self).profile_credentials,
    {
        let ghost values = self.unrecognized@;
        let ghost options = value_texts(self.options@);
        let ghost listed = self.unrecognized.listed();
        let mut keys: Vec<String> = Vec::new();
        let n: usize = self.unrecognized.len();
        for i in 0..n
            invariant
                n == self.unrecognized.listed().len(),
                keys@.len() == i,
                forall|j: int| 0 <= j < i ==> (#[trigger] keys@[j])@ == self.unrecognized.listed()[j].0@,
        {
            let (key, _value) = self.unrecognized.entry(i);
            keys.push(key.clone());
        }
        proof {
            let none = |k: Seq<char>| taken_before(keys@, 0, k);
            assert(self.unrecognized@ =~= without(values, none));
            assert(value_texts(self.options@) =~= with_values(options, values, none));
        }
        for i in 0..n
            invariant
                n == keys@.len(),
                n == listed.len(),
                distinct(listed),
                values == as_map(listed),
                forall|j: int| 0 <= j < n ==> (#[trigger] keys@[j])@ == listed[j].0@,
                self.unrecognized@ == without(values, |k: Seq<char>| taken_before(keys@, i as int, k)),
                value_texts(self.options@) == with_values(
                    options,
                    values,
                    |k: Seq<char>| taken_before(keys@, i as int, k),
                ),
                self.reload_interval == old(self).reload_interval,
                self.profile == old(self).profile,
                self.warp_cache == old(self).warp_cache,
                self.profile_credentials == old(self).profile_credentials,
        {
            let key = keys[i].as_str();
            let ghost now = |k: Seq<char>| taken_before(keys@, i as int, k);
            let ghost next = |k: Seq<char>| taken_before(keys@, i + 1, k);
            let ghost left = self.unrecognized@;
            let ghost given = value_texts(self.options@);
            proof {
                lemma_next_key(keys@, listed, i as int);
            }
            if could_configure_store(key) {
                let value = match self.unrecognized.get(key) {
                    Some(value) => as_option(value),
                    None => None,
                };
                self.unrecognized.remove(key);
                let ghost text = text_view(value);
                match value {
                    Some(value) => {
                        self.options.insert(key.to_owned(), value);
                    },
                    None => {},
                }
                proof {
                    assert(values.dom().contains(key@));
                    assert(left.dom().contains(key@) && left[key@] == values[key@]);
                    assert(text == option_text(values[key@]));
                    assert(self.unrecognized@ =~= without(values, next));
                    match text {
                        Some(t) => {
                            assert(value_texts(self.options@) =~= given.insert(key@, t));
                            assert(given.insert(key@, t) =~= with_values(options, values, next));
                        },
                        None => {
                            assert(given =~= with_values(options, values, next));
                        },
                    }
                }
            } else {
                proof {
                    assert(left =~= without(values, next));
                    assert(given =~= with_values(options, values, next));
                }
            }
        }
        proof {
            let all = |k: Seq<char>| taken_before(keys@, n as int, k);
            let taken = |k: Seq<char>| store_key(k);
            assert forall|k: Seq<char>| values.dom().contains(k) implies all(k) == #[trigger] store_key(k) by {
                let at = lemma_listed(listed, k);
                assert(keys@[at]@ == k);
            }
            assert(without(values, all) =~= without(values, taken));
            assert(with_values(options, values, all) =~= with_values(options, values, taken));
        }
    }
}

/// Whether a key configures a store and is among the first `count` of the keys.
spec fn taken_before(keys: Seq<String>, count: int, key: Seq<char>) -> bool {
    store_key(key) && exists|j: int| 0 <= j < count && (#[trigger] keys[j])@ == key
}

/// What a key more adds to those that were taken, and that it was none of them.
proof fn lemma_next_key(keys: Seq<String>, listed: Seq<(String, ConfigValue)>, i: int)
    requires
        0 <= i < keys.len(),
        keys.len() == listed.len(),
        distinct(listed),
        forall|j: int| 0 <= j < keys.len() ==> (#[trigger] keys[j])@ == listed[j].0@,
    ensures
        as_map(listed).dom().contains(keys[i]@),
        !taken_before(keys, i, keys[i]@),
        forall|k: Seq<char>| #[trigger]
            taken_before(keys, i + 1, k) <==> taken_before(keys, i, k) || (k == keys[i]@ && store_key(
                k,
            )),
{
    assert(has_key(listed, keys[i]@, i));
    assert forall|j: int| 0 <= j < i implies (#[trigger] keys[j])@ != keys[i]@ by {
        assert(listed[j].0@ != listed[i].0@);
    }
    assert forall|k: Seq<char>| #[trigger]
        taken_before(keys, i + 1, k) <==> taken_before(keys, i, k) || (k == keys[i]@ && store_key(k)) by {
        if taken_before(keys, i, k) {
            let j = choose|j: int| 0 <= j < i && (#[trigger] keys[j])@ == k;
            assert(keys[j]@ == k);
        }
        if taken_before(keys, i + 1, k) {
            let j = choose|j: int| 0 <= j < i + 1 && (#[trigger] keys[j])@ == k;
            assert(keys[j]@ == k);
        }
    }
}

/// Once the unrecognized values that configure a store were moved, there are none
/// left to move: moving them again changes nothing.
pub proof fn law_partition_settles(
    options: Map<Seq<char>, Seq<char>>,
    values: Map<Seq<char>, ConfigValue>,
)
    ensures
        ({
            let taken = |k: Seq<char>| store_key(k);
            let left = without(values, taken);
            &&& without(left, taken) == left
            &&& with_values(options, left, taken) == options
        }),
{
    let taken = |k: Seq<char>| store_key(k);
    let left = without(values, taken);
    assert(without(left, taken) =~= left);
    assert(with_values(options, left, taken) =~= options);
}

/// The options that name a region.
pub open spec fn region_keys() -> Seq<Seq<char>> {
    seq!["region"@, "aws_region"@, "default_region"@, "aws_default_region"@]
}

/// The options that say where credentials come from.
pub open spec fn credential_keys() -> Seq<Seq<char>> {
    seq![
        "access_key_id"@,
        "aws_access_key_id"@,
        "secret_access_key"@,
        "aws_secret_access_key"@,
        "session_token"@,
        "aws_session_token"@,
        "token"@,
        "aws_token"@,
        "web_identity_token_file"@,
        "aws_web_identity_token_file"@,
        "role_arn"@,
        "aws_role_arn"@,
        "role_session_name"@,
        "aws_role_session_name"@,
        "container_credentials_relative_uri"@,
        "aws_container_credentials_relative_uri"@,
        "container_credentials_full_uri"@,
        "aws_container_credentials_full_uri"@,
        "container_authorization_token_file"@,
        "aws_container_authorization_token_file"@,
        "metadata_endpoint"@,
        "aws_metadata_endpoint"@,
        "imdsv1_fallback"@,
        "aws_imdsv1_fallback"@,
        "endpoint_url_sts"@,
        "aws_endpoint_url_sts"@,
    ]
}

/// The options that say that requests are not signed.
pub open spec fn unsigned_keys() -> Seq<Seq<char>> {
    seq!["skip_signature"@, "aws_skip_signature"@]
}

/// Whether one of the keys is an option.
pub open spec fn sets_any(options: Map<Seq<char>, String>, keys: Seq<Seq<char>>) -> bool {
    exists|i: int| 0 <= i < keys.len() && options.dom().contains(#[trigger] keys[i])
}

/// Whether a text says yes.
pub open spec fn says_yes(text: Seq<char>) -> bool {
    ascii_lowered(text) == ascii_lowered("true"@) || text == "1"@
}

/// Whether an option says yes under one of the keys.
pub open spec fn affirms_any(options: Map<Seq<char>, String>, keys: Seq<Seq<char>>) -> bool {
    exists|i: int|
        0 <= i < keys.len() && options.dom().contains(#[trigger] keys[i]) && says_yes(
            options[keys[i]]@,
        )
}

/// The texts of some words.
pub open spec fn words(keys: Seq<&str>) -> Seq<Seq<char>> {
    keys.map_values(|k: &str| k@)
}

/// Whether one of the keys is an option.
fn any_set(options: &TextMap<String>, keys: &Vec<&str>) -> (r: bool)
    ensures
        r <==> sets_any(options@, words(keys@)),
{
    for i in 0..keys.len()
        invariant
            forall|j: int| 0 <= j < i ==> !options@.dom().contains(#[trigger] words(keys@)[j]),
    {
        if options.contains_key(keys[i]) {
            assert(words(keys@)[i as int] == keys@[i as int]@);
            return true;
        }
    }
    false
}

/// Whether an option says yes under one of the keys.
fn any_affirmed(options: &TextMap<String>, keys: &Vec<&str>) -> (r: bool)
    ensures
        r <==> affirms_any(options@, words(keys@)),
{
    for i in 0..keys.len()
        invariant
            forall|j: int|
                0 <= j < i ==> !(options@.dom().contains(#[trigger] words(keys@)[j]) && says_yes(
                    options@[words(keys@)[j]]@,
                )),
    {
        assert(words(keys@)[i as int] == keys@[i as int]@);
        match options.get(keys[i]) {
            Some(value) => {
                if eq_ignore_ascii_case(value.as_str(), "true") || same(value.as_str(), "1") {
                    return true;
                }
            },
            None => {},
        }
    }
    false
}

/// What became of the credentials of a profile.
#[derive(Clone, Copy, Debug, PartialEq, Eq, Structural)]
pub enum ProfileCredentials {
    /// Options say where credentials come from.
    Overridden,
    /// Requests are not signed.
    Unsigned,
    /// The profile has none.
    Missing,
    /// Requests are signed with them.
    Used,
}

/// What became of a profile.
#[derive(Clone, Copy, Debug, PartialEq, Eq, Structural)]
pub struct ProfileUse {
    /// Whether its region was left aside because an option names one.
    pub region_overridden: bool,
    /// What became of its credentials.
    pub credentials: ProfileCredentials,
}

/// What becomes of the credentials of a profile.
pub open spec fn credentials_use(
    options: Map<Seq<char>, String>,
    has_provider: bool,
) -> ProfileCredentials {
    if sets_any(options, credential_keys()) {
        ProfileCredentials::Overridden
    } else if affirms_any(options, unsigned_keys()) {
        ProfileCredentials::Unsigned
    } else if has_provider {
        ProfileCredentials::Used
    } else {
        ProfileCredentials::Missing
    }
}

impl ZarrConfig {
    /// Applies an AWS profile, as far as the options leave it room: its region
    /// where none is named, its credentials where requests are signed and the
    /// options do not say where credentials come from.
    ///
    /// `region` is the region of the profile, `has_provider` whether it has
    /// credentials.
    pub fn apply_aws_config(&mut self, region: Option<&str>, has_provider: bool) -> (r: ProfileUse)
        ensures
            r.region_overridden <==> sets_any(old(self).options@, region_keys()),
            r.credentials == credentials_use(old(self).options@, has_provider),
            value_texts(final(self).options@) == (match region {
                Some(name) => if sets_any(old(self).options@, region_keys()) {
                    value_texts(old(self).options@)
                } else {
                    value_texts(old(self).options@).insert("region"@, name@)
                },
                None => value_texts(old(self).options@),
            }),
            forall|k: Seq<char>| #[trigger]
                old(self).options@.dom().contains(k) ==> final(self).options@.dom().contains(k)
                    && final(self).options@[k]@ == old(self).options@[k]@,
            final(self).profile_credentials == (old(self).profile_credentials || r.credentials
                == ProfileCredentials::Used),
            final(self).reload_interval == old(self).reload_interval,
            final(self).profile == old(self).profile,
            final(self).unrecognized == old(self).unrecognized,
            final(self).warp_cache == old(self).warp_cache,
    {
        let names_region: Vec<&str> = vec![
            "region",
            "aws_region",
            "default_region",
            "aws_default_region",
        ];
        assert(words(names_region@) =~= region_keys());
        let region_overridden = any_set(&self.options, &names_region);

        let gives_credentials: Vec<&str> = vec![
            "access_key_id",
            "aws_access_key_id",
            "secret_access_key",
            "aws_secret_access_key",
            "session_token",
            "aws_session_token",
            "token",
            "aws_token",
            "web_identity_token_file",
            "aws_web_identity_token_file",
            "role_arn",
            "aws_role_arn",
            "role_session_name",
            "aws_role_session_name",
            "container_credentials_relative_uri",
            "aws_container_credentials_relative_uri",
            "container_credentials_full_uri",
            "aws_container_credentials_full_uri",
            "container_authorization_token_file",
            "aws_container_authorization_token_file",
            "metadata_endpoint",
            "aws_metadata_endpoint",
            "imdsv1_fallback",
            "aws_imdsv1_fallback",
            "endpoint_url_sts",
            "aws_endpoint_url_sts",
        ];
        assert(words(gives_credentials@) =~= credential_keys());
        let overridden = any_set(&self.options, &gives_credentials);

        let skips_signature: Vec<&str> = vec!["skip_signature", "aws_skip_signature"];
        assert(words(skips_signature@) =~= unsigned_keys());
        let unsigned = any_affirmed(&self.options, &skips_signature);

        let ghost given = value_texts(self.options@);
        if !region_overridden {
            assert(region_keys()[0] == "region"@);
            if let Some(name) = region {
                self.options.insert("region".to_owned(), name.to_owned());
                assert(value_texts(self.options@) =~= given.insert("region"@, name@));
            }
        }
        let credentials = if overridden {
            ProfileCredentials::Overridden
        } else if unsigned {
            ProfileCredentials::Unsigned
        } else if has_provider {
            self.profile_credentials = true;
            ProfileCredentials::Used
        } else {
            ProfileCredentials::Missing
        };
        ProfileUse { region_overridden, credentials }
    }
}

/// The kind of store that a URL leads to.
#[derive(Clone, Copy, Debug, PartialEq, Eq, Structural)]
pub enum StoreScheme {
    Local,
    Memory,
    AmazonS3,
    GoogleCloudStorage,
    MicrosoftAzure,
    Http,
    Other,
}

/// The kind of store that a URL leads to, and the path in it; none where it leads
/// to none.
pub uninterp spec fn url_store(url: Seq<char>) -> Option<(StoreScheme, Seq<char>)>;

/// The kind of store that a URL leads to, and the path in it:
/// `object_store::ObjectStoreScheme::parse`, of the URL that `url::Url::parse`
/// reads from its text.
#[verifier::external_body]
fn parse_scheme(url: &str) -> (r: Result<(StoreScheme, String), object_store::Error>)
    ensures
        match r {
            Ok((scheme, path)) => url_store(url@) == Some((scheme, path@)),
            Err(_) => url_store(url@) is None,
        },
{
    let url = url::Url::parse(url)
        .map_err(|e| object_store::Error::Generic { store: "URL", source: Box::new(e) })?;
    let (scheme, path) = object_store::ObjectStoreScheme::parse(&url)?;
    let scheme = match scheme {
        object_store::ObjectStoreScheme::Local => StoreScheme::Local,
        object_store::ObjectStoreScheme::Memory => StoreScheme::Memory,
        object_store::ObjectStoreScheme::AmazonS3 => StoreScheme::AmazonS3,
        object_store::ObjectStoreScheme::GoogleCloudStorage => StoreScheme::GoogleCloudStorage,
        object_store::ObjectStoreScheme::MicrosoftAzure => StoreScheme::MicrosoftAzure,
        object_store::ObjectStoreScheme::Http => StoreScheme::Http,
        _ => StoreScheme::Other,
    };
    Ok((scheme, path.to_string()))
}

/// How to open a store.
pub enum StorePlan {
    /// With all options, by the kind of store that the URL names.
    General,
    /// On Amazon S3, with the options that configure such a store, and with the
    /// credentials of the profile where they are used.
    AmazonS3 { path: String, config: Vec<(String, String)>, profile_credentials: bool },
}

/// The options that configure a store on Amazon S3, in their order.
pub open spec fn s3_options(options: Seq<(String, String)>) -> Seq<(String, String)> {
    options.filter(|entry: (String, String)| s3_key(entry.0@))
}

impl ZarrConfig {
    /// How to open the store that a URL leads to. `scheme` is its kind, `path` the
    /// path in it.
    pub fn plan_store(&self, scheme: StoreScheme, path: String) -> (r: StorePlan)
        ensures
            match r {
                StorePlan::General => scheme != StoreScheme::AmazonS3,
                StorePlan::AmazonS3 { path: p, config, profile_credentials } => {
                    &&& scheme == StoreScheme::AmazonS3
                    &&& p == path
                    &&& config@ == s3_options(self.options.listed())
                    &&& profile_credentials == self.profile_credentials
                },
            },
    {
        if !(scheme == StoreScheme::AmazonS3) {
            return StorePlan::General;
        }
        let mut config: Vec<(String, String)> = Vec::new();
        let n: usize = self.options.len();
        let ghost listed = self.options.listed();
        let ghost known = |entry: (String, String)| s3_key(entry.0@);
        for i in 0..n
            invariant
                n == listed.len(),
                listed == self.options.listed(),
                known == (|entry: (String, String)| s3_key(entry.0@)),
                config@ == listed.take(i as int).filter(known),
        {
            let (key, value) = self.options.entry(i);
            proof {
                assert(listed.take(i + 1) =~= listed.take(i as int).push(listed[i as int]));
                reveal(Seq::filter);
                assert(listed.take(i + 1).drop_last() =~= listed.take(i as int));
            }
            if is_s3_key(key.as_str()) {
                config.push((key.clone(), value.clone()));
            }
        }
        assert(listed.take(n as int) =~= listed);
        StorePlan::AmazonS3 { path, config, profile_credentials: self.profile_credentials }
    }

    /// How to open the store that a URL leads to.
    pub fn parse_url_opts(&self, url: &str) -> (r: Result<StorePlan, object_store::Error>)
        ensures
            match url_store(url@) {
                None => r is Err,
                Some((scheme, path)) => match r {
                    Ok(StorePlan::General) => scheme != StoreScheme::AmazonS3,
                    Ok(StorePlan::AmazonS3 { path: p, config, profile_credentials }) => {
                        &&& scheme == StoreScheme::AmazonS3
                        &&& p@ == path
                        &&& config@ == s3_options(self.options.listed())
                        &&& profile_credentials == self.profile_credentials
                    },
                    Err(_) => false,
                },
            },
    {
        match parse_scheme(url) {
            Ok((scheme, path)) => Ok(self.plan_store(scheme, path)),
            Err(e) => Err(e),
        }
    }

    /// Whether sources may be given by URLs: they may.
    pub fn parse_urls() -> (r: bool)
        ensures
            r,
    {
        true
    }
}

/// Two configurations say the same exactly where their intervals, profiles and options
/// are equal, and where the same keys are unrecognized, with equal values.
pub proof fn law_configurations_are_told_apart(a: ZarrConfig, b: ZarrConfig)
    ensures
        same_config(a, b) <==> {
            &&& a.reload_interval.secs == b.reload_interval.secs
            &&& a.reload_interval.nanos == b.reload_interval.nanos
            &&& a.profile is Some <==> b.profile is Some
            &&& a.profile is Some ==> a.profile->Some_0@ == b.profile->Some_0@
            &&& forall|k: Seq<char>| #[trigger]
                a.options@.dom().contains(k) <==> b.options@.dom().contains(k)
            &&& forall|k: Seq<char>| #[trigger]
                a.options@.dom().contains(k) ==> a.options@[k]@ == b.options@[k]@
            &&& forall|k: Seq<char>| #[trigger]
                a.unrecognized@.dom().contains(k) <==> b.unrecognized@.dom().contains(k)
            &&& forall|k: Seq<char>| #[trigger]
                a.unrecognized@.dom().contains(k) ==> same_value(
                    a.unrecognized@[k],
                    b.unrecognized@[k],
                )
        },
{
    let s = value_texts(a.options@);
    let t = value_texts(b.options@);
    assert forall|k: Seq<char>| #[trigger] s.dom().contains(k) <==> a.options@.dom().contains(k) by {}
    assert forall|k: Seq<char>| #[trigger] t.dom().contains(k) <==> b.options@.dom().contains(k) by {}
    if same_config(a, b) {
        assert forall|k: Seq<char>| #[trigger]
            a.options@.dom().contains(k) <==> b.options@.dom().contains(k) by {
            assert(s.dom().contains(k) <==> t.dom().contains(k));
        }
        assert forall|k: Seq<char>| #[trigger] a.options@.dom().contains(k) implies a.options@[k]@
            == b.options@[k]@ by {
            assert(s.dom().contains(k) && t.dom().contains(k));
            assert(s[k] == t[k]);
        }
    }
    if (forall|k: Seq<char>| #[trigger]
        a.options@.dom().contains(k) <==> b.options@.dom().contains(k)) && (forall|k: Seq<char>| #[trigger]
        a.options@.dom().contains(k) ==> a.options@[k]@ == b.options@[k]@) {
        assert forall|k: Seq<char>| #[trigger] s.dom().contains(k) <==> t.dom().contains(k) by {
            assert(a.options@.dom().contains(k) <==> b.options@.dom().contains(k));
        }
        assert forall|k: Seq<char>| #[trigger] s.dom().contains(k) implies s[k] == t[k] by {
            assert(a.options@.dom().contains(k));
        }
        assert(s =~= t);
    }
}

/// Values are told apart by what they are and by what they say: a truth value, a number
/// or a text never equals one of another kind, nor one that says something else. Only
/// the two zeros are equal though they are written differently.
pub proof fn law_values_are_told_apart(a: ConfigValue, b: ConfigValue)
    ensures
        same_value(a, a),
        same_value(a, b) == same_value(b, a),
        same_value(a, b) ==> {
            &&& a is Bool <==> b is Bool
            &&& a is Number <==> b is Number
            &&& a is Text <==> b is Text
        },
        a matches ConfigValue::Bool(x) ==> b matches ConfigValue::Bool(y) ==> (same_value(a, b)
            <==> x == y),
        a matches ConfigValue::Text(x) ==> b matches ConfigValue::Text(y) ==> (same_value(a, b)
            <==> x@ == y@),
        a matches ConfigValue::Other(x) ==> b matches ConfigValue::Other(y) ==> (same_value(a, b)
            <==> x@ == y@),
        a matches ConfigValue::Number(x) ==> b matches ConfigValue::Number(y) ==> (same_value(a, b)
            <==> x@ == y@ || (x@ == "0.0"@ && y@ == "-0.0"@) || (x@ == "-0.0"@ && y@ == "0.0"@)),
{
}

/// Each unrecognized value goes its own way. One under a key of no store stays; one
/// under a key of a store leaves, and becomes the option of that key as it is
/// written, in place of the one that was there. Any other option keeps its value.
pub proof fn law_values_are_moved_key_by_key(
    options: Map<Seq<char>, Seq<char>>,
    values: Map<Seq<char>, ConfigValue>,
    key: Seq<char>,
)
    ensures
        ({
            let taken = |k: Seq<char>| store_key(k);
            let left = without(values, taken);
            let given = with_values(options, values, taken);
            let of_store = s3_key(key) || google_key(key) || azure_key(key) || client_key(key);
            let moves = of_store && values.dom().contains(key);
            &&& left.dom().contains(key) <==> values.dom().contains(key) && !of_store
            &&& left.dom().contains(key) ==> left[key] == values[key]
            &&& moves && values[key] is Bool ==> given.dom().contains(key) && given[key] == (
            if values[key]->Bool_0 {
                "true"@
            } else {
                "false"@
            })
            &&& moves && values[key] is Number ==> given.dom().contains(key) && given[key]
                == values[key]->Number_0@
            &&& moves && values[key] is Text ==> given.dom().contains(key) && given[key]
                == values[key]->Text_0@
            &&& !moves || values[key] is Other ==> {
                &&& given.dom().contains(key) <==> options.dom().contains(key)
                &&& given.dom().contains(key) ==> given[key] == options[key]
            }
        }),
{
}

/// The credentials of a profile are left aside exactly where one of these options is
/// there, under either of its names; else they are used exactly where requests are
/// signed and the profile has any.
pub proof fn law_options_come_before_credentials(
    options: Map<Seq<char>, String>,
    has_provider: bool,
)
    ensures
        credentials_use(options, has_provider) is Overridden <==> {
            ||| options.dom().contains("access_key_id"@)
            ||| options.dom().contains("aws_access_key_id"@)
            ||| options.dom().contains("secret_access_key"@)
            ||| options.dom().contains("aws_secret_access_key"@)
            ||| options.dom().contains("session_token"@)
            ||| options.dom().contains("aws_session_token"@)
            ||| options.dom().contains("token"@)
            ||| options.dom().contains("aws_token"@)
            ||| options.dom().contains("web_identity_token_file"@)
            ||| options.dom().contains("aws_web_identity_token_file"@)
            ||| options.dom().contains("role_arn"@)
            ||| options.dom().contains("aws_role_arn"@)
            ||| options.dom().contains("role_session_name"@)
            ||| options.dom().contains("aws_role_session_name"@)
            ||| options.dom().contains("container_credentials_relative_uri"@)
            ||| options.dom().contains("aws_container_credentials_relative_uri"@)
            ||| options.dom().contains("container_credentials_full_uri"@)
            ||| options.dom().contains("aws_container_credentials_full_uri"@)
            ||| options.dom().contains("container_authorization_token_file"@)
            ||| options.dom().contains("aws_container_authorization_token_file"@)
            ||| options.dom().contains("metadata_endpoint"@)
            ||| options.dom().contains("aws_metadata_endpoint"@)
            ||| options.dom().contains("imdsv1_fallback"@)
            ||| options.dom().contains("aws_imdsv1_fallback"@)
            ||| options.dom().contains("endpoint_url_sts"@)
            ||| options.dom().contains("aws_endpoint_url_sts"@)
        },
        credentials_use(options, has_provider) is Unsigned ==> affirms_any(options, unsigned_keys()),
        credentials_use(options, has_provider) is Used ==> has_provider && !affirms_any(
            options,
            unsigned_keys(),
        ),
        credentials_use(options, has_provider) is Missing ==> !has_provider && !affirms_any(
            options,
            unsigned_keys(),
        ),
        affirms_any(options, unsigned_keys()) <==> (options.dom().contains("skip_signature"@)
            && says_yes(options["skip_signature"@]@)) || (options.dom().contains(
            "aws_skip_signature"@,
        ) && says_yes(options["aws_skip_signature"@]@)),
        sets_any(options, region_keys()) <==> options.dom().contains("region"@)
            || options.dom().contains("aws_region"@) || options.dom().contains("default_region"@)
            || options.dom().contains("aws_default_region"@),
{
    assert(credential_keys()[0] == "access_key_id"@);
    assert(credential_keys()[1] == "aws_access_key_id"@);
    assert(credential_keys()[2] == "secret_access_key"@);
    assert(credential_keys()[3] == "aws_secret_access_key"@);
    assert(credential_keys()[4] == "session_token"@);
    assert(credential_keys()[5] == "aws_session_token"@);
    assert(credential_keys()[6] == "token"@);
    assert(credential_keys()[7] == "aws_token"@);
    assert(credential_keys()[8] == "web_identity_token_file"@);
    assert(credential_keys()[9] == "aws_web_identity_token_file"@);
    assert(credential_keys()[10] == "role_arn"@);
    assert(credential_keys()[11] == "aws_role_arn"@);
    assert(credential_keys()[12] == "role_session_name"@);
    assert(credential_keys()[13] == "aws_role_session_name"@);
    assert(credential_keys()[14] == "container_credentials_relative_uri"@);
    assert(credential_keys()[15] == "aws_container_credentials_relative_uri"@);
    assert(credential_keys()[16] == "container_credentials_full_uri"@);
    assert(credential_keys()[17] == "aws_container_credentials_full_uri"@);
    assert(credential_keys()[18] == "container_authorization_token_file"@);
    assert(credential_keys()[19] == "aws_container_authorization_token_file"@);
    assert(credential_keys()[20] == "metadata_endpoint"@);
    assert(credential_keys()[21] == "aws_metadata_endpoint"@);
    assert(credential_keys()[22] == "imdsv1_fallback"@);
    assert(credential_keys()[23] == "aws_imdsv1_fallback"@);
    assert(credential_keys()[24] == "endpoint_url_sts"@);
    assert(credential_keys()[25] == "aws_endpoint_url_sts"@);
    assert(region_keys()[0] == "region"@ && region_keys()[1] == "aws_region"@);
    assert(region_keys()[2] == "default_region"@ && region_keys()[3] == "aws_default_region"@);
    assert(unsigned_keys()[0] == "skip_signature"@ && unsigned_keys()[1] == "aws_skip_signature"@);
}

/// A text says yes exactly where it is `1`, or `true` with any of its letters in
/// upper case.
pub proof fn law_yes_is_true_or_one(text: Seq<char>)
    ensures
        says_yes(text) <==> text == seq!['1'] || (text.len() == 4 && (text[0] == 't' || text[0] == 'T')
            && (text[1] == 'r' || text[1] == 'R') && (text[2] == 'u' || text[2] == 'U') && (text[3]
            == 'e' || text[3] == 'E')),
{
    reveal_strlit("true");
    reveal_strlit("1");
    assert("1"@ =~= seq!['1']);
    let yes = "true"@;
    assert(yes.len() == 4 && yes[0] == 't' && yes[1] == 'r' && yes[2] == 'u' && yes[3] == 'e');
    let lowered = ascii_lowered(text);
    assert(lowered.len() == text.len());
    if lowered == ascii_lowered(yes) {
        assert(text.len() == 4);
        assert(lowered[0] == ascii_lowered(yes)[0]);
        assert(lowered[1] == ascii_lowered(yes)[1]);
        assert(lowered[2] == ascii_lowered(yes)[2]);
        assert(lowered[3] == ascii_lowered(yes)[3]);
    } else if text.len() == 4 {
        assert(!(lowered =~= ascii_lowered(yes)));
    }
}

/// The options of a store on Amazon S3 are taken one by one, in their order: those
/// whose key configures such a store, with their values, and no other.
pub proof fn law_s3_options_are_taken_one_by_one(
    first: Seq<(String, String)>,
    second: Seq<(String, String)>,
    entry: (String, String),
)
    ensures
        s3_options(first + second) == s3_options(first) + s3_options(second),
        s3_options(seq![entry]) == (if s3_key(entry.0@) {
            seq![entry]
        } else {
            Seq::<(String, String)>::empty()
        }),
    decreases second.len(),
{
    reveal(Seq::filter);
    let known = |entry: (String, String)| s3_key(entry.0@);
    let none = Seq::<(String, String)>::empty();
    assert(seq![entry].drop_last() =~= none);
    assert(none.filter(known) =~= none);
    assert(s3_options(seq![entry]) =~= (if s3_key(entry.0@) {
        seq![entry]
    } else {
        none
    }));
    if second.len() == 0 {
        assert(first + second =~= first);
        assert(s3_options(second) =~= none);
        assert(s3_options(first) + s3_options(second) =~= s3_options(first));
    } else {
        law_s3_options_are_taken_one_by_one(first, second.drop_last(), entry);
        assert((first + second).drop_last() =~= first + second.drop_last());
        assert((first + second).last() == second.last());
        assert(s3_options(first + second) =~= s3_options(first) + s3_options(second));
    }
}

/// The texts of the options are under the same keys, each the characters of its own.
pub proof fn law_texts_are_those_of_the_options(options: Map<Seq<char>, String>, key: Seq<char>)
    ensures
        value_texts(options).dom().contains(key) <==> options.dom().contains(key),
        options.dom().contains(key) ==> value_texts(options)[key] == options[key]@,
{
}

} // verus!
