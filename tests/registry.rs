use std::cell::Cell;
use std::collections::HashMap;
use std::rc::Rc;

use axum::body::Body;
use axum::http::{Request, StatusCode};
use axum::routing::get;
use axum::Router;
use site_features::{
    FeatureError, SiteFeature, SiteFeatureBuilder, SiteFeatureStorage, SiteFeatureSystem,
};
use tower::ServiceExt;

/// An in-memory flag store; unknown ids read as disabled.
struct MemoryStore {
    flags: HashMap<String, bool>,
    refuse_writes: bool,
}

impl MemoryStore {
    fn new() -> MemoryStore {
        MemoryStore { flags: HashMap::new(), refuse_writes: false }
    }
}

impl SiteFeatureStorage for MemoryStore {
    fn get_enabled(&self, id: &str) -> bool {
        *self.flags.get(id).unwrap_or(&false)
    }

    fn set_enabled(&mut self, id: &str, enabled: bool) -> Result<(), FeatureError> {
        if self.refuse_writes {
            return Err(FeatureError::Failure("store offline".to_string()));
        }
        self.flags.insert(id.to_string(), enabled);
        Ok(())
    }
}

/// A feature whose hooks set a shared counter and count their own calls.
struct Counting {
    id: String,
    subpath: String,
    body: &'static str,
    counter: Rc<Cell<u32>>,
    hook_calls: Rc<Cell<u32>>,
    setup_error: Option<&'static str>,
    shutdown_error: Option<&'static str>,
}

impl Counting {
    fn new(id: &str, subpath: &str) -> Counting {
        Counting {
            id: id.to_string(),
            subpath: subpath.to_string(),
            body: "ok",
            counter: Rc::new(Cell::new(0)),
            hook_calls: Rc::new(Cell::new(0)),
            setup_error: None,
            shutdown_error: None,
        }
    }
}

impl SiteFeature for Counting {
    fn get_router(&self) -> Router {
        let body = self.body;
        Router::new()
            .route("/", get(move || async move { body }))
            .route("/x", get(move || async move { body }))
    }

    fn setup(&mut self) -> Result<(), FeatureError> {
        self.hook_calls.set(self.hook_calls.get() + 1);
        if let Some(reason) = self.setup_error {
            return Err(FeatureError::Failure(reason.to_string()));
        }
        self.counter.set(1);
        Ok(())
    }

    fn shutdown(&mut self) -> Result<(), FeatureError> {
        self.hook_calls.set(self.hook_calls.get() + 1);
        if let Some(reason) = self.shutdown_error {
            return Err(FeatureError::Failure(reason.to_string()));
        }
        self.counter.set(0);
        Ok(())
    }

    fn get_id(&self) -> &str {
        &self.id
    }

    fn get_subpath(&self) -> &str {
        &self.subpath
    }
}

fn system_with(features: Vec<Counting>) -> SiteFeatureSystem<MemoryStore, Counting> {
    let mut builder = SiteFeatureBuilder::new();
    for f in features {
        builder = builder.add_feature(f);
    }
    builder.build(MemoryStore::new())
}

fn status_of(router: Router, uri: &str) -> StatusCode {
    let runtime = tokio::runtime::Builder::new_current_thread().build().unwrap();
    let request = Request::builder().uri(uri).body(Body::empty()).unwrap();
    runtime.block_on(router.oneshot(request)).unwrap().status()
}

#[test]
fn logging_feature_scenario() {
    let logging = Counting::new("log", "/log");
    let counter = logging.counter.clone();
    let calls = logging.hook_calls.clone();
    let mut system = system_with(vec![logging]);

    assert_eq!(system.set_enabled("log", true), Ok(()));
    assert!(system.get_enabled("log"));
    assert_eq!(counter.get(), 1);

    assert_eq!(system.set_enabled("log", true), Ok(()));
    assert_eq!(calls.get(), 1);
    assert_eq!(counter.get(), 1);

    assert_eq!(system.set_enabled("log", false), Ok(()));
    assert!(!system.get_enabled("log"));
    assert_eq!(counter.get(), 0);

    assert_eq!(system.set_enabled("other", true), Err(FeatureError::DoesNotExist));
    assert!(!system.get_enabled("other"));
}

#[test]
fn repeated_enable_runs_one_hook() {
    let feature = Counting::new("a", "/a");
    let calls = feature.hook_calls.clone();
    let mut system = system_with(vec![feature]);
    assert_eq!(system.set_enabled("a", true), Ok(()));
    assert_eq!(system.set_enabled("a", true), Ok(()));
    assert_eq!(calls.get(), 1);
    assert_eq!(system.set_enabled("a", false), Ok(()));
    assert_eq!(system.set_enabled("a", false), Ok(()));
    assert_eq!(calls.get(), 2);
}

#[test]
fn success_makes_flag_match() {
    let mut system = system_with(vec![Counting::new("a", "/a"), Counting::new("b", "/b")]);
    assert_eq!(system.set_enabled("b", true), Ok(()));
    assert!(system.get_enabled("b"));
    assert!(!system.get_enabled("a"));
    assert_eq!(system.set_enabled("b", false), Ok(()));
    assert!(!system.get_enabled("b"));
}

#[test]
fn enabling_unknown_id_fails() {
    let mut system = system_with(vec![Counting::new("a", "/a")]);
    assert_eq!(system.set_enabled("missing", true), Err(FeatureError::DoesNotExist));
    assert!(!system.get_enabled("missing"));
}

#[test]
fn disabling_unknown_id_is_noop() {
    let mut system = system_with(vec![]);
    assert_eq!(system.set_enabled("missing", false), Ok(()));
    assert!(!system.get_enabled("missing"));
}

#[test]
fn setup_failure_is_returned_and_flag_kept() {
    let mut feature = Counting::new("f", "/f");
    feature.setup_error = Some("x");
    let counter = feature.counter.clone();
    let mut system = system_with(vec![feature]);
    assert_eq!(system.set_enabled("f", true), Err(FeatureError::Failure("x".to_string())));
    assert!(!system.get_enabled("f"));
    assert_eq!(counter.get(), 0);
}

#[test]
fn shutdown_failure_is_returned_and_flag_kept() {
    let mut feature = Counting::new("f", "/f");
    feature.shutdown_error = Some("busy");
    let mut system = system_with(vec![feature]);
    assert_eq!(system.set_enabled("f", true), Ok(()));
    assert_eq!(system.set_enabled("f", false), Err(FeatureError::Failure("busy".to_string())));
    assert!(system.get_enabled("f"));
}

#[test]
fn store_write_failure_is_not_reported() {
    let feature = Counting::new("f", "/f");
    let counter = feature.counter.clone();
    let mut store = MemoryStore::new();
    store.refuse_writes = true;
    let mut system = SiteFeatureBuilder::new().add_feature(feature).build(store);
    assert_eq!(system.set_enabled("f", true), Ok(()));
    assert!(!system.get_enabled("f"));
    assert_eq!(counter.get(), 1);
}

#[test]
fn finish_transition_returns_hook_failure_without_writing() {
    let mut system = system_with(vec![Counting::new("f", "/f")]);
    let hook = Err(FeatureError::Failure("x".to_string()));
    assert_eq!(
        system.finish_transition("f", true, hook),
        Err(FeatureError::Failure("x".to_string()))
    );
    assert!(!system.get_enabled("f"));
}

#[test]
fn finish_transition_writes_flag_after_hook_success() {
    let mut system = system_with(vec![Counting::new("f", "/f")]);
    assert_eq!(system.finish_transition("f", true, Ok(())), Ok(()));
    assert!(system.get_enabled("f"));
    assert!(!system.get_enabled("g"));
}

#[test]
fn stored_flags_are_read_through() {
    let mut store = MemoryStore::new();
    store.flags.insert("pre".to_string(), true);
    let system: SiteFeatureSystem<MemoryStore, Counting> = SiteFeatureBuilder::new().build(store);
    assert!(system.get_enabled("pre"));
    assert!(!system.get_enabled("other"));
}

#[test]
fn duplicate_id_keeps_second_feature() {
    let first = Counting::new("dup", "/one");
    let second = Counting::new("dup", "/two");
    let first_calls = first.hook_calls.clone();
    let second_calls = second.hook_calls.clone();
    let mut system = system_with(vec![first, second]);
    assert_eq!(system.get_all_ids(), vec!["dup"]);
    assert_eq!(system.get_feature("dup").map(|f| f.get_subpath()), Some("/two"));
    assert_eq!(system.set_enabled("dup", true), Ok(()));
    assert_eq!(first_calls.get(), 0);
    assert_eq!(second_calls.get(), 1);
    assert_eq!(status_of(system.get_router(), "/two/x"), StatusCode::OK);
    assert_eq!(status_of(system.get_router(), "/one/x"), StatusCode::NOT_FOUND);
}

#[test]
fn all_ids_in_registration_order() {
    let system = system_with(vec![
        Counting::new("a", "/a"),
        Counting::new("b", "/b"),
        Counting::new("a", "/c"),
    ]);
    assert_eq!(system.get_all_ids(), vec!["a", "b"]);
    let empty = system_with(vec![]);
    assert!(empty.get_all_ids().is_empty());
}

#[test]
fn routes_of_every_feature_are_mounted() {
    let mut a = Counting::new("a", "/a");
    a.body = "from a";
    let mut b = Counting::new("b", "/b");
    b.body = "from b";
    let mut system = system_with(vec![a, b]);
    assert_eq!(system.set_enabled("a", true), Ok(()));
    assert_eq!(status_of(system.get_router(), "/a/x"), StatusCode::OK);
    assert_eq!(status_of(system.get_router(), "/b/x"), StatusCode::OK);
    assert_eq!(status_of(system.get_router(), "/x"), StatusCode::NOT_FOUND);
    assert_eq!(status_of(system.get_router(), "/c/x"), StatusCode::NOT_FOUND);
}

#[test]
fn empty_registry_routes_nothing() {
    let system = system_with(vec![]);
    assert_eq!(status_of(system.get_router(), "/a/x"), StatusCode::NOT_FOUND);
}

#[test]
fn metadata_defaults() {
    let feature = Counting::new("m", "/m");
    assert_eq!(feature.get_name(), "Unnamed Feature");
    assert_eq!(feature.get_description(), "No Description");
}

#[test]
fn builder_lookup_by_id() {
    let builder = SiteFeatureBuilder::new()
        .add_feature(Counting::new("a", "/a"))
        .add_feature(Counting::new("b", "/b"))
        .add_feature(Counting::new("a", "/z"));
    assert_eq!(builder.get_feature("a").map(|f| f.get_subpath()), Some("/z"));
    assert_eq!(builder.get_feature("b").map(|f| f.get_subpath()), Some("/b"));
    assert!(builder.get_feature("c").is_none());
}

#[test]
fn registry_lookup_misses_unknown_id() {
    let system = system_with(vec![Counting::new("a", "/a")]);
    assert!(system.get_feature("a").is_some());
    assert!(system.get_feature("missing").is_none());
}

#[test]
fn sub_paths_sharing_a_prefix_are_mounted() {
    let system = system_with(vec![Counting::new("log", "/log"), Counting::new("logs", "/logs")]);
    let router = system.get_router();
    assert_eq!(status_of(router.clone(), "/log"), StatusCode::OK);
    assert_eq!(status_of(router.clone(), "/log/x"), StatusCode::OK);
    assert_eq!(status_of(router.clone(), "/logs"), StatusCode::OK);
    assert_eq!(status_of(router.clone(), "/logs/x"), StatusCode::OK);
    assert_eq!(status_of(router, "/logx"), StatusCode::NOT_FOUND);
}
