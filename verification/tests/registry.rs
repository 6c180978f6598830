use std::sync::Arc;

use zarr_cli::location::StoreUrl;
use zarr_cli::registry::{
    build_remote_store, gcs_store_after, hand_on, remote_target, RemoteObjectStoreRegistry,
    RemoteTarget, Store, StoreError,
};

#[test]
fn builds_and_caches_http_store() {
    let mut registry = RemoteObjectStoreRegistry::new();
    let url =
        StoreUrl::parse("https://huggingface.co/datasets/a/b/resolve/main/x.parquet").unwrap();
    let first = registry.get_store(&url).unwrap();
    let other = StoreUrl::parse("https://huggingface.co/other/path").unwrap();
    let second = registry.get_store(&other).unwrap();
    assert!(
        Arc::ptr_eq(&first.handle, &second.handle),
        "same host must reuse the store"
    );
}

#[test]
fn local_files_still_resolve() {
    let mut registry = RemoteObjectStoreRegistry::new();
    assert!(registry
        .get_store(&StoreUrl::parse("file:///tmp").unwrap())
        .is_ok());
}

#[test]
fn unknown_scheme_is_an_error() {
    let mut registry = RemoteObjectStoreRegistry::new();
    assert!(registry
        .get_store(&StoreUrl::parse("ftp://example.com/x").unwrap())
        .is_err());
}

fn url(s: &str) -> StoreUrl {
    StoreUrl::parse(s).unwrap()
}

#[test]
fn urls_are_read_by_their_parts() {
    let u = url("HTTPS://User:pw@Example.COM:8443/a b?q#f");
    assert_eq!(u.scheme(), "https");
    assert_eq!(u.host(), Some("example.com"));
    assert_eq!(u.port(), Some(8443));
    assert_eq!(u.text(), "https://User:pw@example.com:8443/a%20b?q#f");
    assert_eq!(u.source_text(), "HTTPS://User:pw@Example.COM:8443/a b?q#f");
    assert_eq!(url("https://a:443/").port(), None);
    assert_eq!(url("file:///tmp").host(), None);
    assert!(StoreUrl::parse("no url").is_err());
}

fn base(s: &str) -> String {
    match remote_target(&url(s)) {
        Ok(RemoteTarget::Http(base)) => base,
        _ => panic!("{s}"),
    }
}

#[test]
fn targets_of_remote_urls() {
    assert_eq!(base("http://localhost:8080/x"), "http://localhost:8080");
    assert_eq!(base("https://u:p@huggingface.co/a/b"), "https://huggingface.co");
    assert_eq!(base("http://[::1]:9/"), "http://[::1]:9");
    assert!(matches!(remote_target(&url("gs://bucket/x")), Ok(RemoteTarget::Gcs(b)) if b == "bucket"));
    assert!(matches!(remote_target(&url("s3://bucket/x")), Ok(RemoteTarget::S3(b)) if b == "bucket"));
}

fn message(r: Result<Store, StoreError>) -> String {
    match r {
        Err(StoreError::Configuration(m)) => m,
        other => panic!("{other:?}"),
    }
}

#[test]
fn urls_without_a_store_are_told() {
    let mut registry = RemoteObjectStoreRegistry::new();
    assert_eq!(
        message(registry.get_store(&url("ftp://example.com/x"))),
        "No object store for scheme 'ftp' (ftp://example.com/x); supported: file, http(s), gs, s3"
    );
    assert_eq!(
        message(registry.get_store(&url("gs:///x"))),
        "Missing host in URL: gs:///x"
    );
    assert_eq!(
        message(registry.get_store(&url("file://host/x"))),
        "No object store for scheme 'file' (file://host/x); supported: file, http(s), gs, s3"
    );
    assert_eq!(
        message(build_remote_store(&url("mailto:x"), &registry)),
        "Missing host in URL: mailto:x"
    );
}

#[test]
fn stores_are_kept_by_scheme_host_and_port() {
    let mut registry = RemoteObjectStoreRegistry::new();
    let a = registry.get_store(&url("http://localhost:8080/a")).unwrap();
    let b = registry.get_store(&url("http://user:pw@LOCALHOST:8080/b?c")).unwrap();
    let c = registry.get_store(&url("http://localhost:8081/a")).unwrap();
    let d = registry.get_store(&url("https://localhost:8080/a")).unwrap();
    assert!(Arc::ptr_eq(&a.handle, &b.handle));
    assert!(!Arc::ptr_eq(&a.handle, &c.handle));
    assert!(!Arc::ptr_eq(&a.handle, &d.handle));
}

#[test]
fn buckets_have_stores() {
    let mut registry = RemoteObjectStoreRegistry::new();
    let gs = registry.get_store(&url("gs://some-bucket/a")).unwrap();
    assert_eq!(gs.handle.to_string(), "GoogleCloudStorage(some-bucket)");
    let again = registry.get_store(&url("gs://some-bucket/b")).unwrap();
    assert!(Arc::ptr_eq(&gs.handle, &again.handle));
    let s3 = registry.get_store(&url("s3://some-bucket/a")).unwrap();
    assert_eq!(s3.handle.to_string(), "AmazonS3(some-bucket)");
}

#[test]
fn stores_can_be_registered_and_taken_out() {
    let mut registry = RemoteObjectStoreRegistry::default();
    let u = url("ftp://example.com/x");
    let store = RemoteObjectStoreRegistry::new().get_store(&url("file:///")).unwrap();
    let handle = Arc::clone(&store.handle);
    assert!(registry.register_store(&u, store).is_none());
    let got = registry.get_store(&url("ftp://example.com/other")).unwrap();
    assert!(Arc::ptr_eq(&handle, &got.handle));
    let local = registry.get_store(&url("file:///tmp")).unwrap();
    assert!(!Arc::ptr_eq(&handle, &local.handle));
    let replaced = registry.register_store(&u, local).unwrap();
    assert!(Arc::ptr_eq(&handle, &replaced.handle));
    assert!(registry.deregister_store(&u).is_ok());
    assert!(matches!(registry.deregister_store(&u), Err(StoreError::Registry(_))));
    assert!(registry.get_store(&u).is_err());
}

#[test]
fn built_stores_are_kept_and_failures_are_not() {
    let mut registry = RemoteObjectStoreRegistry::new();
    let u = url("ftp://example.com/x");
    let error = registry.keep_built(&u, Err(StoreError::Configuration("no".to_string())));
    assert_eq!(message(error), "no");
    assert!(registry.get_store(&u).is_err());
    let local = registry.get_store(&url("file:///tmp")).unwrap();
    let handle = Arc::clone(&local.handle);
    let kept = registry.keep_built(&u, Ok(local)).unwrap();
    assert!(Arc::ptr_eq(&handle, &kept.handle));
    assert!(Arc::ptr_eq(&handle, &registry.get_store(&u).unwrap().handle));
}

#[test]
fn public_buckets_need_no_credentials() {
    let mut registry = RemoteObjectStoreRegistry::new();
    let store = registry.get_store(&url("file:///tmp")).unwrap();
    let handle = Arc::clone(&store.handle);
    let got = gcs_store_after("bucket", Ok(store), &registry).unwrap();
    assert!(Arc::ptr_eq(&handle, &got.handle));
    let missing = zarrs_object_store::object_store::Error::NotImplemented {
        operation: "x".to_string(),
        implementer: "y".to_string(),
    };
    let env = gcs_store_after("bucket", Err(missing), &registry).unwrap();
    assert_eq!(env.handle.to_string(), "GoogleCloudStorage(bucket)");
}

#[test]
fn builders_errors_are_handed_on() {
    let error = zarrs_object_store::object_store::Error::NotImplemented {
        operation: "x".to_string(),
        implementer: "y".to_string(),
    };
    assert!(matches!(hand_on(Err(error)), Err(StoreError::ObjectStore(_))));
}

#[test]
fn only_the_same_host_shares_a_store() {
    let urls = [
        "http://a.example/x",
        "https://a.example/x",
        "http://a.example:81/x",
        "http://b.example/x",
        "http://[::1]/x",
        "http://[::1]:81/x",
        "gs://a.example/x",
        "s3://a.example/x",
    ];
    let mut registry = RemoteObjectStoreRegistry::new();
    let mut first = Vec::new();
    for u in urls {
        first.push(registry.get_store(&url(u)).unwrap());
    }
    for (i, u) in urls.iter().enumerate() {
        let again = registry.get_store(&url(&format!("{u}/y?z"))).unwrap();
        for (j, store) in first.iter().enumerate() {
            assert_eq!(Arc::ptr_eq(&store.handle, &again.handle), i == j, "{u} {}", urls[j]);
        }
    }
}

#[test]
fn each_build_is_a_new_store() {
    let mut registry = RemoteObjectStoreRegistry::new();
    for s in ["https://a.example/x", "gs://bucket/x", "s3://bucket/x"] {
        let kept = registry.get_store(&url(s)).unwrap();
        let built = build_remote_store(&url(s), &registry).unwrap();
        assert!(!Arc::ptr_eq(&kept.handle, &built.handle));
        let still = registry.get_store(&url(s)).unwrap();
        assert!(Arc::ptr_eq(&kept.handle, &still.handle));
    }
}

#[test]
fn hosts_are_told_from_ports() {
    let v6 = url("http://[::1]:9/");
    assert_eq!(v6.host(), Some("[::1]"));
    assert_eq!(v6.port(), Some(9));
    let opaque = url("gs://bucket:81/x");
    assert_eq!(opaque.host(), Some("bucket"));
    assert_eq!(opaque.port(), Some(81));
    assert!(StoreUrl::parse("http://a:b:1/").is_err());
    assert!(StoreUrl::parse("gs://a:b/").is_err());
}

#[test]
fn what_is_held_is_known_by_scheme_host_and_port() {
    let mut registry = RemoteObjectStoreRegistry::new();
    assert!(registry.holds(&url("file:///tmp")));
    assert!(!registry.holds(&url("https://a.example/x")));
    assert!(registry.get_store(&url("https://a.example/x")).is_ok());
    assert!(registry.holds(&url("https://a.example/y")));
    assert!(!registry.holds(&url("https://a.example:81/x")));
    assert!(registry.get_store(&url("ftp://a.example/x")).is_err());
    assert!(!registry.holds(&url("ftp://a.example/x")));
}
