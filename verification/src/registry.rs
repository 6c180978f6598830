//! The object stores of a session, with remote ones made on first use.

use std::sync::Arc;

use datafusion_common::DataFusionError;
use datafusion_execution::object_store::{DefaultObjectStoreRegistry, ObjectStoreRegistry};
use url::Url;
use vstd::prelude::*;
use zarrs_object_store::object_store::aws::AmazonS3Builder;
use zarrs_object_store::object_store::gcp::GoogleCloudStorageBuilder;
use zarrs_object_store::object_store::http::HttpBuilder;
use zarrs_object_store::object_store::ObjectStore;

use crate::location::{
    keys_hold_the_whole_host, keys_tell_scheme_host_and_port, parsed_url, StoreUrl, UrlParts,
};
use crate::text::{decimal, push_decimal, same_text};

verus! {

/// A handle on an object store. Nothing is claimed of what is behind it; two
/// handles are equal exactly where `Arc::ptr_eq` holds of them, so where they lead
/// to the same store.
#[verifier::external_body]
#[derive(Debug)]
pub struct Store {
    pub handle: Arc<dyn ObjectStore>,
}

/// DataFusion's own registry, of which only [`stores`] is known.
#[verifier::external_type_specification]
#[verifier::external_body]
pub struct ExDefaultObjectStoreRegistry(DefaultObjectStoreRegistry);

/// DataFusion's error, carried through.
#[verifier::external_type_specification]
#[verifier::external_body]
pub struct ExDataFusionError(DataFusionError);

/// The error of the object store builders, carried through.
#[verifier::external_type_specification]
#[verifier::external_body]
pub struct ExObjectStoreError(zarrs_object_store::object_store::Error);

/// The stores that a registry holds, by scheme, host and port.
pub uninterp spec fn stores(reg: DefaultObjectStoreRegistry) -> Map<Seq<char>, Store>;

/// `DefaultObjectStoreRegistry::new`: a registry with one store, for local files,
/// under `file://`.
#[verifier::external_body]
fn default_registry() -> (reg: DefaultObjectStoreRegistry)
    ensures
        stores(reg).dom() == set!["file://"@],
{
    DefaultObjectStoreRegistry::new()
}

/// The key of the URL that `source` denotes.
pub open spec fn source_key(source: Seq<char>) -> Seq<char> {
    let p = parsed_url(source)->0;
    UrlParts { text: p.0, scheme: p.1, host: p.2, port: p.3 }.store_key()
}

/// `DefaultObjectStoreRegistry::get_store`: the store under the URL's scheme, host
/// and port, where there is one.
#[verifier::external_body]
fn find_store(reg: &DefaultObjectStoreRegistry, source: &str) -> (r: Option<Store>)
    requires
        parsed_url(source@) is Some,
    ensures
        r == stores(*reg).get(source_key(source@)),
{
    let url = Url::parse(source).ok()?;
    reg.get_store(&url).ok().map(|handle| Store { handle })
}

/// `DefaultObjectStoreRegistry::register_store`: puts the store under the URL's
/// scheme, host and port, and hands back the one that stood there.
#[verifier::external_body]
fn put_store(reg: &mut DefaultObjectStoreRegistry, source: &str, store: Store) -> (r: Option<
    Store,
>)
    requires
        parsed_url(source@) is Some,
    ensures
        r == stores(*old(reg)).get(source_key(source@)),
        stores(*final(reg)) == stores(*old(reg)).insert(source_key(source@), store),
{
    let url = Url::parse(source).ok()?;
    reg.register_store(&url, store.handle).map(|handle| Store { handle })
}

/// `DefaultObjectStoreRegistry::deregister_store`: takes out the store under the
/// URL's scheme, host and port, or reports that there is none.
#[verifier::external_body]
fn take_store(reg: &mut DefaultObjectStoreRegistry, source: &str) -> (r: Result<
    Store,
    DataFusionError,
>)
    requires
        parsed_url(source@) is Some,
    ensures
        r is Ok <==> stores(*old(reg)).contains_key(source_key(source@)),
        r matches Ok(s) ==> s == stores(*old(reg))[source_key(source@)],
        stores(*final(reg)) == stores(*old(reg)).remove(source_key(source@)),
{
    let url = Url::parse(source).map_err(|e| DataFusionError::External(Box::new(e)))?;
    reg.deregister_store(&url).map(|handle| Store { handle })
}

/// `Arc::clone`: a second handle on the same store.
#[verifier::external_body]
fn share(store: &Store) -> (r: Store)
    ensures
        r == *store,
{
    Store { handle: Arc::clone(&store.handle) }
}

/// `r` is an outcome of building an `HttpStore` for the base URL `base`.
pub uninterp spec fn http_outcome(base: Seq<char>, r: BuildResult) -> bool;

/// `r` is an outcome of building a `GoogleCloudStorage` for `bucket` that signs no
/// requests.
pub uninterp spec fn gcs_anonymous_outcome(bucket: Seq<char>, r: BuildResult) -> bool;

/// `r` is an outcome of building a `GoogleCloudStorage` for `bucket` with the
/// credentials of the environment.
pub uninterp spec fn gcs_env_outcome(bucket: Seq<char>, r: BuildResult) -> bool;

/// `r` is an outcome of building an `AmazonS3` for `bucket` with the settings of
/// the environment.
pub uninterp spec fn s3_env_outcome(bucket: Seq<char>, r: BuildResult) -> bool;

/// What a builder of stores gives.
pub type BuildResult = Result<Store, zarrs_object_store::object_store::Error>;

/// Where a store was made, it is none of those that are held.
pub open spec fn made_new(held: Map<Seq<char>, Store>, r: Result<Store, StoreError>) -> bool {
    r matches Ok(s) ==> !held.contains_value(s)
}

/// `HttpBuilder::build` with the URL `base`. Whether it succeeds also rests on the
/// machine (its certificates, for one); what it gave is only tied to `base`.
/// The store goes into an `Arc` of its own, so it is none of those in `_held`.
#[verifier::external_body]
fn http_store(base: &str, _held: &DefaultObjectStoreRegistry) -> (r: BuildResult)
    ensures
        http_outcome(base@, r),
        r matches Ok(s) ==> !stores(*_held).contains_value(s),
{
    HttpBuilder::new().with_url(base).build().map(|s| Store { handle: Arc::new(s) })
}

/// `GoogleCloudStorageBuilder::build` with the bucket and without signatures. The
/// outcome also rests on the machine; it is only tied to the bucket. The store goes
/// into an `Arc` of its own, so it is none of those in `_held`.
#[verifier::external_body]
fn gcs_anonymous_store(bucket: &str, _held: &DefaultObjectStoreRegistry) -> (r: BuildResult)
    ensures
        gcs_anonymous_outcome(bucket@, r),
        r matches Ok(s) ==> !stores(*_held).contains_value(s),
{
    GoogleCloudStorageBuilder::new()
        .with_bucket_name(bucket)
        .with_skip_signature(true)
        .build()
        .map(|s| Store { handle: Arc::new(s) })
}

/// `GoogleCloudStorageBuilder::from_env` and `build` with the bucket. The outcome
/// also rests on the environment; it is only tied to the bucket. The store goes
/// into an `Arc` of its own, so it is none of those in `_held`.
#[verifier::external_body]
fn gcs_env_store(bucket: &str, _held: &DefaultObjectStoreRegistry) -> (r: BuildResult)
    ensures
        gcs_env_outcome(bucket@, r),
        r matches Ok(s) ==> !stores(*_held).contains_value(s),
{
    GoogleCloudStorageBuilder::from_env()
        .with_bucket_name(bucket)
        .build()
        .map(|s| Store { handle: Arc::new(s) })
}

/// `AmazonS3Builder::from_env` and `build` with the bucket. The outcome also rests
/// on the environment; it is only tied to the bucket. The store goes
/// into an `Arc` of its own, so it is none of those in `_held`.
#[verifier::external_body]
fn s3_env_store(bucket: &str, _held: &DefaultObjectStoreRegistry) -> (r: BuildResult)
    ensures
        s3_env_outcome(bucket@, r),
        r matches Ok(s) ==> !stores(*_held).contains_value(s),
{
    AmazonS3Builder::from_env()
        .with_bucket_name(bucket)
        .build()
        .map(|s| Store { handle: Arc::new(s) })
}

/// Why there is no store for a URL.
#[derive(Debug)]
pub enum StoreError {
    /// The URL is not one that a store can be made for; says why.
    Configuration(String),
    /// The store could not be made.
    ObjectStore(zarrs_object_store::object_store::Error),
    /// The registry's own refusal.
    Registry(DataFusionError),
}

/// The store to make for a remote URL.
pub enum RemoteTarget {
    /// A server, by its base URL.
    Http(String),
    /// A bucket on Google Cloud Storage.
    Gcs(String),
    /// A bucket on S3.
    S3(String),
}

/// [`RemoteTarget`], over texts.
pub ghost enum Target {
    Http(Seq<char>),
    Gcs(Seq<char>),
    S3(Seq<char>),
}

impl View for RemoteTarget {
    type V = Target;

    open spec fn view(&self) -> Target {
        match self {
            RemoteTarget::Http(s) => Target::Http(s@),
            RemoteTarget::Gcs(s) => Target::Gcs(s@),
            RemoteTarget::S3(s) => Target::S3(s@),
        }
    }
}

/// The store to make for `u`, or the message that says why there is none.
pub open spec fn target_of(u: UrlParts) -> Result<Target, Seq<char>> {
    match u.host {
        None => Err("Missing host in URL: "@ + u.text),
        Some(host) => if u.scheme == "http"@ || u.scheme == "https"@ {
            Ok(Target::Http(u.scheme + "://"@ + u.authority()))
        } else if u.scheme == "gs"@ {
            Ok(Target::Gcs(host))
        } else if u.scheme == "s3"@ {
            Ok(Target::S3(host))
        } else {
            Err(
                "No object store for scheme '"@ + u.scheme + "' ("@ + u.text
                    + "); supported: file, http(s), gs, s3"@,
            )
        },
    }
}

/// What comes back for a builder's outcome `b`.
pub open spec fn handed_on(b: BuildResult, r: Result<Store, StoreError>) -> bool {
    match b {
        Ok(s) => r == Ok::<Store, StoreError>(s),
        Err(e) => r == Err::<Store, StoreError>(StoreError::ObjectStore(e)),
    }
}

/// What may come back for a bucket on Google Cloud Storage, given the outcome
/// `anonymous` of building it without credentials: that store, or where there is
/// none, what building it with the environment's credentials gives.
pub open spec fn gcs_handed_on(
    bucket: Seq<char>,
    anonymous: BuildResult,
    r: Result<Store, StoreError>,
) -> bool {
    match anonymous {
        Ok(_) => handed_on(anonymous, r),
        Err(_) => exists|b: BuildResult| #[trigger]
            gcs_env_outcome(bucket, b) && handed_on(b, r),
    }
}

/// `r` is a result of making the store that `t` describes.
pub open spec fn target_built(t: Target, r: Result<Store, StoreError>) -> bool {
    match t {
        Target::Http(base) => exists|b: BuildResult| #[trigger]
            http_outcome(base, b) && handed_on(b, r),
        Target::Gcs(bucket) => exists|b: BuildResult| #[trigger]
            gcs_anonymous_outcome(bucket, b) && gcs_handed_on(bucket, b, r),
        Target::S3(bucket) => exists|b: BuildResult| #[trigger]
            s3_env_outcome(bucket, b) && handed_on(b, r),
    }
}

/// `r` is a result of making the store for `u`.
pub open spec fn built(u: UrlParts, r: Result<Store, StoreError>) -> bool {
    match target_of(u) {
        Err(message) => r matches Err(StoreError::Configuration(m)) && m@ == message,
        Ok(t) => target_built(t, r),
    }
}

/// `r` is a result of asking for the store of `u` while `before` is registered,
/// and `after` is registered then: a store under the same key is handed out, else a
/// new one is made and kept.
pub open spec fn resolved(
    before: Map<Seq<char>, Store>,
    u: UrlParts,
    after: Map<Seq<char>, Store>,
    r: Result<Store, StoreError>,
) -> bool {
    let key = u.store_key();
    if before.contains_key(key) {
        r == Ok::<Store, StoreError>(before[key]) && after == before
    } else {
        built(u, r) && made_new(before, r) && after == kept(before, key, r)
    }
}

/// What is registered once the outcome `r` of making a store came back.
pub open spec fn kept(
    before: Map<Seq<char>, Store>,
    key: Seq<char>,
    r: Result<Store, StoreError>,
) -> Map<Seq<char>, Store> {
    match r {
        Ok(s) => before.insert(key, s),
        Err(_) => before,
    }
}

/// The store to make for a remote URL.
pub fn remote_target(url: &StoreUrl) -> (r: Result<RemoteTarget, StoreError>)
    ensures
        match target_of(url@) {
            Ok(t) => r matches Ok(x) && x@ == t,
            Err(message) => r matches Err(StoreError::Configuration(m)) && m@ == message,
        },
{
    let host = match url.host() {
        Some(h) => h,
        None => {
            let mut m = "Missing host in URL: ".to_owned();
            m.append(url.text());
            return Err(StoreError::Configuration(m));
        },
    };
    let scheme = url.scheme();
    if same_text(scheme, "http") || same_text(scheme, "https") {
        let mut base = scheme.to_owned();
        base.append("://");
        base.append(host);
        if let Some(p) = url.port() {
            base.append(":");
            push_decimal(&mut base, p as u64);
            proof {
                reveal_strlit(":");
            }
            assert(base@ =~= url@.scheme + "://"@ + url@.authority());
        }
        Ok(RemoteTarget::Http(base))
    } else if same_text(scheme, "gs") {
        Ok(RemoteTarget::Gcs(host.to_owned()))
    } else if same_text(scheme, "s3") {
        Ok(RemoteTarget::S3(host.to_owned()))
    } else {
        let mut m = "No object store for scheme '".to_owned();
        m.append(scheme);
        m.append("' (");
        m.append(url.text());
        m.append("); supported: file, http(s), gs, s3");
        Err(StoreError::Configuration(m))
    }
}

/// Hands a builder's outcome on.
pub fn hand_on(b: BuildResult) -> (r: Result<Store, StoreError>)
    ensures
        handed_on(b, r),
{
    match b {
        Ok(s) => Ok(s),
        Err(e) => Err(StoreError::ObjectStore(e)),
    }
}

/// The store of a bucket on Google Cloud Storage once building it without
/// credentials gave `anonymous`: public buckets need no credential lookup, others
/// take the environment's.
pub fn gcs_store_after(
    bucket: &str,
    anonymous: BuildResult,
    held: &RemoteObjectStoreRegistry,
) -> (r: Result<Store, StoreError>)
    ensures
        gcs_handed_on(bucket@, anonymous, r),
        anonymous is Err ==> made_new(held@, r),
{
    match anonymous {
        Ok(s) => Ok(s),
        Err(_) => hand_on(gcs_env_store(bucket, &held.inner)),
    }
}

/// Makes the store that `target` describes.
fn build_target(target: &RemoteTarget, held: &RemoteObjectStoreRegistry) -> (r: Result<
    Store,
    StoreError,
>)
    ensures
        target_built(target@, r),
        made_new(held@, r),
{
    match target {
        RemoteTarget::Http(base) => {
            assert(target@->Http_0 == base@);
            hand_on(http_store(base.as_str(), &held.inner))
        },
        RemoteTarget::Gcs(bucket) => {
            assert(target@->Gcs_0 == bucket@);
            let anonymous = gcs_anonymous_store(bucket.as_str(), &held.inner);
            gcs_store_after(bucket.as_str(), anonymous, held)
        },
        RemoteTarget::S3(bucket) => {
            assert(target@->S3_0 == bucket@);
            hand_on(s3_env_store(bucket.as_str(), &held.inner))
        },
    }
}

/// Make a store for the scheme and host of `url`, one that `held` does not hold.
pub fn build_remote_store(url: &StoreUrl, held: &RemoteObjectStoreRegistry) -> (r: Result<
    Store,
    StoreError,
>)
    ensures
        built(url@, r),
        made_new(held@, r),
{
    match remote_target(url) {
        Err(e) => Err(e),
        Ok(target) => build_target(&target, held),
    }
}

/// A registry that makes and keeps `http(s)`, `gs` and `s3` stores as they are
/// asked for. Its view is what is registered, by scheme, host and port.
#[derive(Debug)]
pub struct RemoteObjectStoreRegistry {
    inner: DefaultObjectStoreRegistry,
}

impl View for RemoteObjectStoreRegistry {
    type V = Map<Seq<char>, Store>;

    closed spec fn view(&self) -> Map<Seq<char>, Store> {
        stores(self.inner)
    }
}

impl Default for RemoteObjectStoreRegistry {
    fn default() -> (r: Self)
        ensures
            r@.dom() == set!["file://"@],
    {
        RemoteObjectStoreRegistry { inner: default_registry() }
    }
}

impl RemoteObjectStoreRegistry {
    /// A registry that knows local files only.
    pub fn new() -> (r: Self)
        ensures
            r@.dom() == set!["file://"@],
    {
        Self::default()
    }

    /// Registers `store` for the scheme, host and port of `url`, and returns the one
    /// that it replaces.
    pub fn register_store(&mut self, url: &StoreUrl, store: Store) -> (r: Option<Store>)
        ensures
            r == old(self)@.get(url@.store_key()),
            final(self)@ == old(self)@.insert(url@.store_key(), store),
    {
        put_store(&mut self.inner, url.source_text(), store)
    }

    /// Takes out the store for the scheme, host and port of `url`.
    pub fn deregister_store(&mut self, url: &StoreUrl) -> (r: Result<Store, StoreError>)
        ensures
            match r {
                Ok(s) => old(self)@.contains_key(url@.store_key()) && s
                    == old(self)@[url@.store_key()],
                Err(e) => !old(self)@.contains_key(url@.store_key()) && e is Registry,
            },
            final(self)@ == old(self)@.remove(url@.store_key()),
    {
        match take_store(&mut self.inner, url.source_text()) {
            Ok(s) => Ok(s),
            Err(e) => Err(StoreError::Registry(e)),
        }
    }

    /// Whether a store is registered for the scheme, host and port of `url`.
    pub fn holds(&self, url: &StoreUrl) -> (r: bool)
        ensures
            r == self@.contains_key(url@.store_key()),
    {
        find_store(&self.inner, url.source_text()).is_some()
    }

    /// Keeps a store that was made for `url`, and hands the outcome on.
    pub fn keep_built(&mut self, url: &StoreUrl, made: Result<Store, StoreError>) -> (r: Result<
        Store,
        StoreError,
    >)
        ensures
            r == made,
            final(self)@ == kept(old(self)@, url@.store_key(), made),
    {
        match made {
            Ok(store) => {
                let _ = put_store(&mut self.inner, url.source_text(), share(&store));
                Ok(store)
            },
            Err(e) => Err(e),
        }
    }

    /// The store for `url`: the registered one, or a remote one that is made now and
    /// kept.
    pub fn get_store(&mut self, url: &StoreUrl) -> (r: Result<Store, StoreError>)
        ensures
            resolved(old(self)@, url@, final(self)@, r),
    {
        if let Some(store) = find_store(&self.inner, url.source_text()) {
            return Ok(store);
        }
        let made = build_remote_store(url, self);
        self.keep_built(url, made)
    }
}

/// Once a store was handed out for a URL, every URL with the same scheme, host and
/// port is answered by that store, and nothing new is registered.
pub proof fn same_host_reuses_the_store(
    before: Map<Seq<char>, Store>,
    u: UrlParts,
    between: Map<Seq<char>, Store>,
    store: Store,
    v: UrlParts,
    after: Map<Seq<char>, Store>,
    r: Result<Store, StoreError>,
)
    requires
        resolved(before, u, between, Ok(store)),
        v.scheme == u.scheme,
        v.host == u.host,
        v.port == u.port,
        resolved(between, v, after, r),
    ensures
        r == Ok::<Store, StoreError>(store),
        after == between,
{
    assert(v.store_key() == u.store_key());
}

/// Every store that was registered since `start` stands under one key only.
pub open spec fn added_apart(
    start: Map<Seq<char>, Store>,
    now: Map<Seq<char>, Store>,
) -> bool {
    &&& start.submap_of(now)
    &&& forall|j: Seq<char>, k: Seq<char>|
        #![trigger now[j], now[k]]
        now.contains_key(j) && now.contains_key(k) && j != k && !start.contains_key(k) ==> now[j]
            != now[k]
}

/// However often stores are asked for, those that were made since `start` stand under
/// one key each.
pub proof fn asking_keeps_stores_apart(
    start: Map<Seq<char>, Store>,
    before: Map<Seq<char>, Store>,
    u: UrlParts,
    after: Map<Seq<char>, Store>,
    r: Result<Store, StoreError>,
)
    requires
        added_apart(start, before),
        resolved(before, u, after, r),
    ensures
        added_apart(start, start),
        added_apart(start, after),
        before.submap_of(after),
{
    assert(start.submap_of(after)) by {
        assert forall|k: Seq<char>| #[trigger] start.dom().contains(k) implies after.dom().contains(
            k,
        ) && start[k] == after[k] by {
            assert(before.dom().contains(k));
        }
    }
    assert forall|j: Seq<char>, k: Seq<char>|
        #![trigger after[j], after[k]]
        after.contains_key(j) && after.contains_key(k) && j != k && !start.contains_key(
            k,
        ) implies after[j] != after[k] by {
        if before.contains_key(j) && before.contains_key(k) {
            assert(before[j] != before[k]);
        } else if before.contains_key(j) {
            assert(before.dom().contains(j));
        } else if before.contains_key(k) {
            assert(before.dom().contains(k));
        }
    }
}

/// Two URLs for which no store was registered at `start` are answered by the same store
/// exactly where they agree in scheme, host and port. Other URLs may have been asked
/// for before and in between; nothing was registered or taken out by hand.
pub proof fn only_the_same_host_shares_a_store(
    start: Map<Seq<char>, Store>,
    before: Map<Seq<char>, Store>,
    u: UrlParts,
    first: Map<Seq<char>, Store>,
    s: Store,
    between: Map<Seq<char>, Store>,
    v: UrlParts,
    after: Map<Seq<char>, Store>,
    t: Store,
)
    requires
        u.valid(),
        v.valid(),
        !start.contains_key(u.store_key()),
        !start.contains_key(v.store_key()),
        added_apart(start, before),
        resolved(before, u, first, Ok(s)),
        first.submap_of(between),
        added_apart(start, between),
        resolved(between, v, after, Ok(t)),
    ensures
        s == t <==> u.scheme == v.scheme && u.host == v.host && u.port == v.port,
{
    keys_tell_scheme_host_and_port(u, v);
    asking_keeps_stores_apart(start, between, v, after, Ok(t));
    assert(first.contains_key(u.store_key()) && first[u.store_key()] == s);
    assert(first.dom().contains(u.store_key()));
    assert(between.contains_key(u.store_key()) && between[u.store_key()] == s);
    assert(between.dom().contains(u.store_key()));
    assert(after.contains_key(u.store_key()) && after[u.store_key()] == s);
    assert(after.contains_key(v.store_key()) && after[v.store_key()] == t);
}

/// A registry that has the store for local files, as a new one does, answers for
/// them.
pub proof fn local_files_resolve(
    before: Map<Seq<char>, Store>,
    u: UrlParts,
    after: Map<Seq<char>, Store>,
    r: Result<Store, StoreError>,
)
    requires
        before.contains_key("file://"@),
        u.scheme == "file"@,
        u.host is None,
        u.port is None,
        resolved(before, u, after, r),
    ensures
        r == Ok::<Store, StoreError>(before["file://"@]),
        after == before,
{
    reveal_strlit("file://");
    reveal_strlit("file");
    reveal_strlit("://");
    assert(u.store_key() =~= "file://"@);
}

/// A scheme that has no stores is an error, unless a store was registered for the
/// URL by hand; so is a URL without a host. Neither is remembered.
pub proof fn unknown_schemes_are_errors(
    before: Map<Seq<char>, Store>,
    u: UrlParts,
    after: Map<Seq<char>, Store>,
    r: Result<Store, StoreError>,
)
    requires
        !before.contains_key(u.store_key()),
        u.host is None || (u.scheme != "http"@ && u.scheme != "https"@ && u.scheme != "gs"@
            && u.scheme != "s3"@),
        resolved(before, u, after, r),
    ensures
        r matches Err(StoreError::Configuration(_)),
        after == before,
{
}

/// Asking for a store never takes away or replaces one, and adds at most the one
/// that was asked for.
pub proof fn asking_keeps_what_is_registered(
    before: Map<Seq<char>, Store>,
    u: UrlParts,
    after: Map<Seq<char>, Store>,
    r: Result<Store, StoreError>,
)
    requires
        resolved(before, u, after, r),
    ensures
        before.submap_of(after),
        after.dom().subset_of(before.dom().insert(u.store_key())),
        r is Err ==> after == before,
        r matches Ok(s) ==> after.contains_key(u.store_key()) && after[u.store_key()] == s,
{
}

/// A store that was registered for a URL is the one that answers for it.
pub proof fn registered_stores_answer(
    before: Map<Seq<char>, Store>,
    u: UrlParts,
    store: Store,
    after: Map<Seq<char>, Store>,
    r: Result<Store, StoreError>,
)
    requires
        resolved(before.insert(u.store_key(), store), u, after, r),
    ensures
        r == Ok::<Store, StoreError>(store),
        after == before.insert(u.store_key(), store),
{
}

/// Where a bucket on Google Cloud Storage can be opened without credentials, the
/// environment's are not used.
pub proof fn public_buckets_need_no_credentials(
    bucket: Seq<char>,
    store: Store,
    r: Result<Store, StoreError>,
)
    requires
        gcs_handed_on(bucket, Ok(store), r),
    ensures
        r == Ok::<Store, StoreError>(store),
{
}

/// A URL of the scheme `gs` or `s3` means the bucket whose name is its whole host, so URLs
/// with different hosts mean different buckets.
pub proof fn buckets_are_named_by_the_whole_host(u: UrlParts, v: UrlParts)
    requires
        u.host is Some,
    ensures
        u.scheme == "gs"@ ==> target_of(u) == Ok::<Target, Seq<char>>(Target::Gcs(u.host->0)),
        u.scheme == "s3"@ ==> target_of(u) == Ok::<Target, Seq<char>>(Target::S3(u.host->0)),
        (u.scheme == "gs"@ || u.scheme == "s3"@) && v.host is Some && v.host != u.host
            ==> target_of(v) != target_of(u),
{
    lemma_schemes_differ();
}

proof fn lemma_schemes_differ()
    ensures
        "gs"@ != "http"@ && "gs"@ != "https"@ && "gs"@ != "s3"@,
        "s3"@ != "http"@ && "s3"@ != "https"@,
{
    reveal_strlit("gs");
    reveal_strlit("s3");
    reveal_strlit("http");
    reveal_strlit("https");
    assert("gs"@[0] != "s3"@[0]);
}

/// A URL of the scheme `http` or `https` means the server that its scheme, its whole host and
/// its port name; user, path and query have no part in it.
pub proof fn servers_are_named_by_scheme_host_and_port(u: UrlParts)
    requires
        u.scheme == "http"@ || u.scheme == "https"@,
        u.host is Some,
    ensures
        u.port is None ==> target_of(u) == Ok::<Target, Seq<char>>(
            Target::Http(u.scheme + seq![':', '/', '/'] + u.host->0),
        ),
        u.port matches Some(p) ==> target_of(u) == Ok::<Target, Seq<char>>(
            Target::Http(
                u.scheme + seq![':', '/', '/'] + u.host->0 + seq![':'] + decimal(p as nat),
            ),
        ),
{
    keys_hold_the_whole_host(u);
    reveal_strlit("://");
    assert("://"@ =~= seq![':', '/', '/']);
    if let Some(p) = u.port {
        assert(u.scheme + seq![':', '/', '/'] + (u.host->0 + seq![':'] + decimal(p as nat))
            =~= u.scheme + seq![':', '/', '/'] + u.host->0 + seq![':'] + decimal(p as nat));
    }
}

/// A URL without a host, or of another scheme, means no store, and the message says which of
/// the two it is and shows the URL.
pub proof fn urls_without_a_store_are_told(u: UrlParts)
    ensures
        u.host is None ==> target_of(u) == Err::<Target, Seq<char>>(
            "Missing host in URL: "@ + u.text,
        ),
        u.host is Some && u.scheme != "http"@ && u.scheme != "https"@ && u.scheme != "gs"@
            && u.scheme != "s3"@ ==> target_of(u) == Err::<Target, Seq<char>>(
            "No object store for scheme '"@ + u.scheme + "' ("@ + u.text
                + "); supported: file, http(s), gs, s3"@,
        ),
{
}

/// What a builder gave is what comes back: its store, or its error.
pub proof fn outcomes_are_handed_on(b: BuildResult, r: Result<Store, StoreError>)
    requires
        handed_on(b, r),
    ensures
        b matches Ok(s) ==> r == Ok::<Store, StoreError>(s),
        b matches Err(e) ==> r == Err::<Store, StoreError>(StoreError::ObjectStore(e)),
{
}

/// A store that was made for a URL came out of the one builder for its scheme, handed the
/// URL's own host, or base URL.
pub proof fn stores_come_from_the_builder_of_their_scheme(u: UrlParts, s: Store)
    requires
        built(u, Ok(s)),
    ensures
        u.host is Some,
        u.scheme == "http"@ || u.scheme == "https"@ ==> http_outcome(
            u.scheme + seq![':', '/', '/'] + u.authority(),
            Ok(s),
        ),
        u.scheme == "gs"@ ==> gcs_anonymous_outcome(u.host->0, Ok(s)) || (gcs_env_outcome(
            u.host->0,
            Ok(s),
        ) && exists|e: zarrs_object_store::object_store::Error| #[trigger]
            gcs_anonymous_outcome(u.host->0, Err(e))),
        u.scheme == "s3"@ ==> s3_env_outcome(u.host->0, Ok(s)),
        u.scheme == "http"@ || u.scheme == "https"@ || u.scheme == "gs"@ || u.scheme == "s3"@,
{
    lemma_schemes_differ();
    reveal_strlit("://");
    assert("://"@ =~= seq![':', '/', '/']);
    if u.scheme == "gs"@ {
        let t = Target::Gcs(u.host->0);
        assert(target_built(t, Ok(s)));
        let b = choose|b: BuildResult| #[trigger]
            gcs_anonymous_outcome(u.host->0, b) && gcs_handed_on(u.host->0, b, Ok(s));
        if let Err(e) = b {
            assert(gcs_anonymous_outcome(u.host->0, Err(e)));
        }
    }
}

/// A builder that fails is told by its own error, not taken for a missing host or scheme.
pub proof fn failed_builders_are_told(u: UrlParts, e: zarrs_object_store::object_store::Error)
    requires
        built(u, Err(StoreError::ObjectStore(e))),
    ensures
        u.host is Some,
        u.scheme == "http"@ || u.scheme == "https"@ ==> http_outcome(
            u.scheme + seq![':', '/', '/'] + u.authority(),
            Err(e),
        ),
        u.scheme == "gs"@ ==> gcs_env_outcome(u.host->0, Err(e)),
        u.scheme == "s3"@ ==> s3_env_outcome(u.host->0, Err(e)),
{
    lemma_schemes_differ();
    reveal_strlit("://");
    assert("://"@ =~= seq![':', '/', '/']);
}

/// A URL with a host and one of the schemes that have stores is never refused for its form:
/// what comes back is a store, or the error of a builder.
pub proof fn remote_urls_are_always_tried(u: UrlParts, r: Result<Store, StoreError>)
    requires
        u.host is Some,
        u.scheme == "http"@ || u.scheme == "https"@ || u.scheme == "gs"@ || u.scheme == "s3"@,
        built(u, r),
    ensures
        r is Ok || r matches Err(StoreError::ObjectStore(_)),
{
    lemma_schemes_differ();
}

/// Where no store is registered for a URL one is made for it, a new one, and that one alone
/// is kept under the URL's key; where none could be made nothing is kept.
pub proof fn missing_stores_are_made_and_kept(
    before: Map<Seq<char>, Store>,
    u: UrlParts,
    after: Map<Seq<char>, Store>,
    r: Result<Store, StoreError>,
)
    requires
        !before.contains_key(u.store_key()),
        resolved(before, u, after, r),
    ensures
        built(u, r),
        r matches Ok(s) ==> after == before.insert(u.store_key(), s),
        r matches Ok(s) ==> forall|k: Seq<char>| #[trigger]
            before.contains_key(k) ==> before[k] != s,
        r is Err ==> after == before,
{
    if let Ok(s) = r {
        assert forall|k: Seq<char>| #[trigger] before.contains_key(k) implies before[k] != s by {
            if before[k] == s {
                assert(before.dom().contains(k));
                assert(before.contains_value(s));
            }
        }
    }
}

/// Where a store is registered for a URL it answers, and nothing is made or kept.
pub proof fn held_stores_answer(
    before: Map<Seq<char>, Store>,
    u: UrlParts,
    after: Map<Seq<char>, Store>,
    r: Result<Store, StoreError>,
)
    requires
        before.contains_key(u.store_key()),
        resolved(before, u, after, r),
    ensures
        r == Ok::<Store, StoreError>(before[u.store_key()]),
        after == before,
{
}

/// Keeping the outcome of making a store registers that store under its key, over any that
/// stood there, and an error changes nothing.
pub proof fn outcomes_are_kept(
    before: Map<Seq<char>, Store>,
    key: Seq<char>,
    s: Store,
    e: StoreError,
)
    ensures
        kept(before, key, Ok(s)) == before.insert(key, s),
        kept(before, key, Err(e)) == before,
{
}

/// The view of a target shows its base URL or bucket as it is.
pub proof fn targets_are_shown_whole(s: String)
    ensures
        RemoteTarget::Http(s)@ == Target::Http(s@),
        RemoteTarget::Gcs(s)@ == Target::Gcs(s@),
        RemoteTarget::S3(s)@ == Target::S3(s@),
{
}

/// Where no store can be made for a URL, that is what comes back, with the message that says
/// why.
pub proof fn refusals_say_why(u: UrlParts, r: Result<Store, StoreError>)
    requires
        built(u, r),
    ensures
        target_of(u) matches Err(m) ==> (r matches Err(StoreError::Configuration(x)) && x@ == m),
        r matches Err(StoreError::Configuration(_)) ==> target_of(u) is Err,
        r matches Err(e) ==> e !is Registry,
{
}

/// Where a bucket cannot be opened without credentials, what comes back is what building it
/// with the environment's gave: that store, or that error.
pub proof fn other_buckets_take_the_environment(
    bucket: Seq<char>,
    anonymous: zarrs_object_store::object_store::Error,
    r: Result<Store, StoreError>,
)
    requires
        gcs_handed_on(bucket, Err(anonymous), r),
    ensures
        r matches Ok(s) ==> gcs_env_outcome(bucket, Ok(s)),
        r matches Err(e) ==> (e matches StoreError::ObjectStore(x) && gcs_env_outcome(
            bucket,
            Err(x),
        )),
{
}

/// A store that was made now is under no key.
pub proof fn new_stores_are_not_held(held: Map<Seq<char>, Store>, s: Store, k: Seq<char>)
    requires
        made_new(held, Ok(s)),
        held.contains_key(k),
    ensures
        held[k] != s,
{
    if held[k] == s {
        assert(held.dom().contains(k));
        assert(held.contains_value(s));
    }
}

} // verus!
