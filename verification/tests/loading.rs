use bevy_fluent::{
    BundleAsset, BundleAssetLoader, Collision, ConcurrentFluentBundle, DefaultFluentPlugins, Error,
    FluentPlugin, Manifest, Merged, Progress, ResourceAsset,
};
use fluent::FluentValue;
use std::sync::Arc;
use unic_langid::LanguageIdentifier;

fn locale(tag: &str) -> LanguageIdentifier {
    tag.parse().unwrap()
}

fn manifest(tag: &str, resources: &[&str]) -> Manifest {
    Manifest { locale: locale(tag), resources: resources.iter().map(|p| p.to_string()).collect() }
}

fn resource(text: &str) -> ResourceAsset {
    ResourceAsset::from_text(text.to_string()).unwrap()
}

fn waiting(progress: Progress) -> bevy_fluent::BundleLoad {
    match progress {
        Progress::Fetch(load) => load,
        Progress::Done(_) => panic!("the load is done"),
    }
}

fn finished(progress: Progress) -> BundleAsset {
    match progress {
        Progress::Done(asset) => asset,
        Progress::Fetch(_) => panic!("the load waits for a resource"),
    }
}

fn merged(step: Result<Merged, Error>) -> Merged {
    match step {
        Ok(merged) => merged,
        Err(error) => panic!("the load failed: {:?}", error),
    }
}

fn text_of(bundle: &ConcurrentFluentBundle, id: &str) -> String {
    let message = bundle.get_message(id).unwrap();
    let mut errors = vec![];
    bundle.format_pattern(message.value().unwrap(), None, &mut errors).into_owned()
}

fn ids(collisions: &[Collision]) -> Vec<String> {
    collisions.iter().map(|c| c.id.clone()).collect()
}

fn plain() -> BundleAssetLoader<fn(&mut ConcurrentFluentBundle)> {
    BundleAssetLoader { customize_bundle_fn: DefaultFluentPlugins::customize }
}

fn load(
    loader: &BundleAssetLoader<fn(&mut ConcurrentFluentBundle)>,
    manifest: Manifest,
    path: &str,
    texts: &[&str],
) -> (BundleAsset, Vec<Vec<String>>, Vec<String>) {
    let mut progress = loader.begin(manifest, path);
    let mut reports = vec![];
    let mut requests = vec![];
    for text in texts {
        let load = waiting(progress);
        requests.push(load.request());
        let step = merged(load.supply(Ok(resource(text))));
        reports.push(ids(&step.collisions));
        progress = step.progress;
    }
    (finished(progress), reports, requests)
}

#[test]
fn manifest_without_resources_gives_empty_bundle() {
    let asset = finished(plain().begin(manifest("en-US", &[]), "locales/en-US/main.ftl.ron"));
    assert_eq!(asset.0.locales, vec![locale("en-US")]);
    assert!(!asset.0.has_message("hello"));
    assert!(asset.0.get_message("").is_none());
}

#[test]
fn bundle_is_tagged_with_the_declared_locale() {
    let (asset, _, _) =
        load(&plain(), manifest("ru-RU", &["a.ftl"]), "main.ftl.yml", &["hello = Привет"]);
    assert_eq!(asset.locales, vec![locale("ru-RU")]);
    assert_eq!(text_of(&asset, "hello"), "Привет");
}

#[test]
fn first_definition_wins_and_second_is_reported_once() {
    let a = "hello = from A\nonly-a = A";
    let b = "only-b = B\nhello = from B";
    let (asset, reports, _) =
        load(&plain(), manifest("en-US", &["a.ftl", "b.ftl"]), "main.ftl.ron", &[a, b]);
    assert_eq!(text_of(&asset, "hello"), "from A");
    assert_eq!(text_of(&asset, "only-a"), "A");
    assert_eq!(text_of(&asset, "only-b"), "B");
    assert_eq!(reports, vec![Vec::<String>::new(), vec!["hello".to_string()]]);
}

#[test]
fn order_of_the_manifest_decides() {
    let a = "hello = from A";
    let b = "hello = from B";
    let (asset, reports, _) =
        load(&plain(), manifest("en-US", &["b.ftl", "a.ftl"]), "main.ftl.ron", &[b, a]);
    assert_eq!(text_of(&asset, "hello"), "from B");
    assert_eq!(reports, vec![Vec::<String>::new(), vec!["hello".to_string()]]);
}

#[test]
fn collision_carries_the_diagnostic() {
    let load = waiting(plain().begin(manifest("en-US", &["a.ftl", "b.ftl"]), "main.ftl.ron"));
    let step = merged(load.supply(Ok(resource("hello = one"))));
    assert!(step.collisions.is_empty());
    let step = merged(waiting(step.progress).supply(Ok(resource("hello = two"))));
    assert_eq!(step.collisions.len(), 1);
    assert_eq!(step.collisions[0].id, "hello");
    assert_eq!(
        step.collisions[0].message,
        "Attempt to override an existing message: \"hello\"."
    );
}

#[test]
fn duplicate_within_one_resource_is_reported() {
    let (asset, reports, _) = load(
        &plain(),
        manifest("en-US", &["a.ftl"]),
        "main.ftl.ron",
        &["hello = first\nbye = Bye\nhello = second"],
    );
    assert_eq!(text_of(&asset, "hello"), "first");
    assert_eq!(text_of(&asset, "bye"), "Bye");
    assert_eq!(reports, vec![vec!["hello".to_string()]]);
}

#[test]
fn term_and_message_share_their_identifiers() {
    let (asset, reports, _) = load(
        &plain(),
        manifest("en-US", &["a.ftl", "b.ftl"]),
        "main.ftl.ron",
        &["-brand = Firefox", "brand = Chrome\nabout = About { -brand }"],
    );
    assert!(!asset.has_message("brand"));
    assert_eq!(text_of(&asset, "about"), "About Firefox");
    assert_eq!(reports, vec![Vec::<String>::new(), vec!["brand".to_string()]]);
}

#[test]
fn shared_resource_is_merged_unchanged_every_time() {
    let shared = resource("hello = Hello\nbye = Bye");
    let source = shared.0.source().to_string();
    let mut progress =
        plain().begin(manifest("en-US", &["x.ftl", "x.ftl", "x.ftl"]), "main.ftl.ron");
    let mut reports = vec![];
    for _ in 0..3 {
        let step = merged(waiting(progress).supply(Ok(shared.clone())));
        reports.push(ids(&step.collisions));
        progress = step.progress;
        assert_eq!(shared.0.source(), source);
    }
    let asset = finished(progress);
    assert_eq!(text_of(&asset, "hello"), "Hello");
    assert_eq!(text_of(&asset, "bye"), "Bye");
    let both = vec!["hello".to_string(), "bye".to_string()];
    assert_eq!(reports, vec![vec![], both.clone(), both]);
    assert_eq!(Arc::strong_count(&shared.0), 4);
}

#[test]
fn shared_resource_serves_two_bundles() {
    let shared = resource("hello = Hello");
    let (first, _, _) = load(&plain(), manifest("en-US", &[]), "a.ftl.ron", &[]);
    let one = merged(
        waiting(plain().begin(manifest("en-US", &["x.ftl"]), "a.ftl.ron"))
            .supply(Ok(shared.clone())),
    );
    let two = merged(
        waiting(plain().begin(manifest("en-GB", &["x.ftl"]), "b.ftl.ron"))
            .supply(Ok(shared.clone())),
    );
    assert!(!first.has_message("hello"));
    assert_eq!(text_of(&finished(one.progress), "hello"), "Hello");
    assert_eq!(text_of(&finished(two.progress), "hello"), "Hello");
    assert_eq!(shared.0.source(), "hello = Hello");
}

#[test]
fn requests_follow_the_manifest_beside_it() {
    let (_, _, requests) = load(
        &plain(),
        manifest("en-US", &["common.ftl.yaml", "/shared/base.ftl", "menu/main.ftl"]),
        "locales/en/main.ftl.yaml",
        &["a = A", "b = B", "c = C"],
    );
    assert_eq!(
        requests,
        vec![
            "locales/en/common.ftl.yaml".to_string(),
            "/shared/base.ftl".to_string(),
            "locales/en/menu/main.ftl".to_string(),
        ]
    );
}

#[test]
fn failed_resource_ends_the_load_with_its_error() {
    let load = waiting(plain().begin(manifest("en-US", &["a.ftl", "b.ftl"]), "main.ftl.ron"));
    let step = merged(load.supply(Ok(resource("hello = Hello"))));
    let broken = ResourceAsset::from_text("hello = {".to_string());
    let expected = match &broken {
        Err(Error::Parse(diagnostics)) => diagnostics.len(),
        other => panic!("expected a parse error, got {:?}", other),
    };
    match waiting(step.progress).supply(broken) {
        Err(Error::Parse(diagnostics)) => assert_eq!(diagnostics.len(), expected),
        Err(other) => panic!("expected the parse error, got {:?}", other),
        Ok(_) => panic!("a bundle was made of a broken resource"),
    }
}

#[test]
fn io_error_passes_through_unchanged() {
    let load = waiting(plain().begin(manifest("en-US", &["a.ftl"]), "main.ftl.ron"));
    match load.supply(Err(Error::Io("file not found".to_string()))) {
        Err(Error::Io(message)) => assert_eq!(message, "file not found"),
        Err(other) => panic!("expected the i/o error, got {:?}", other),
        Ok(_) => panic!("a bundle was made without its resource"),
    }
}

#[test]
fn encoding_and_format_errors_pass_through_unchanged() {
    let load = waiting(plain().begin(manifest("en-US", &["a.ftl"]), "main.ftl.ron"));
    assert!(matches!(load.supply(Err(Error::Encoding)), Err(Error::Encoding)));
    let load = waiting(plain().begin(manifest("en-US", &["a.ftl"]), "main.ftl.ron"));
    match load.supply(Err(Error::ManifestFormat("unknown field `extra`".to_string()))) {
        Err(Error::ManifestFormat(message)) => assert_eq!(message, "unknown field `extra`"),
        _ => panic!("expected the format error"),
    }
}

fn add_marker(bundle: &mut ConcurrentFluentBundle) {
    bundle.add_function("MARKER", |_, _| FluentValue::from("marked")).unwrap();
    bundle.set_use_isolating(false);
}

fn marked() -> BundleAssetLoader<fn(&mut ConcurrentFluentBundle)> {
    BundleAssetLoader { customize_bundle_fn: add_marker }
}

#[test]
fn customization_shows_in_the_finished_bundle() {
    for count in 0..4 {
        let texts: Vec<String> = (0..count).map(|i| format!("m{} = {{ MARKER() }} {}", i, i)).collect();
        let texts: Vec<&str> = texts.iter().map(|t| t.as_str()).collect();
        let paths: Vec<String> = (0..count).map(|i| format!("{}.ftl", i)).collect();
        let paths: Vec<&str> = paths.iter().map(|p| p.as_str()).collect();
        let (asset, reports, _) = load(&marked(), manifest("en-US", &paths), "main.ftl.ron", &texts);
        assert!(asset.add_function_is_taken());
        for i in 0..count {
            assert_eq!(text_of(&asset, &format!("m{}", i)), format!("marked {}", i));
            assert!(reports[i].is_empty());
        }
    }
}

trait Taken {
    fn add_function_is_taken(&self) -> bool;
}

impl Taken for BundleAsset {
    fn add_function_is_taken(&self) -> bool {
        let text = ResourceAsset::from_text("probe = { MARKER() }".to_string()).unwrap();
        let mut probe = ConcurrentFluentBundle::new_concurrent(self.locales.clone());
        probe.add_resource(text.0).unwrap();
        let mut errors = vec![];
        let value = probe.get_message("probe").unwrap().value().unwrap();
        let without = probe.format_pattern(value, None, &mut errors).into_owned();
        let mut errors = vec![];
        let with = self.format_pattern(value, None, &mut errors).into_owned();
        without != "marked" && with == "marked"
    }
}

#[test]
fn function_of_the_customization_is_not_replaced_by_a_message() {
    let (asset, reports, _) = load(
        &marked(),
        manifest("en-US", &["a.ftl"]),
        "main.ftl.ron",
        &["MARKER = a message\nshow = { MARKER() }"],
    );
    assert!(!asset.has_message("MARKER"));
    assert_eq!(text_of(&asset, "show"), "marked");
    assert_eq!(reports, vec![vec!["MARKER".to_string()]]);
}

fn count_calls(bundle: &mut ConcurrentFluentBundle) {
    let resource = ResourceAsset::from_text("hook = ran".to_string()).unwrap();
    bundle.add_resource(resource.0).unwrap();
}

#[test]
fn customization_runs_once_before_all_merges() {
    let loader: BundleAssetLoader<fn(&mut ConcurrentFluentBundle)> =
        BundleAssetLoader { customize_bundle_fn: count_calls };
    let (asset, reports, _) = load(
        &loader,
        manifest("en-US", &["a.ftl", "b.ftl"]),
        "main.ftl.ron",
        &["hook = from A\na = A", "b = B"],
    );
    assert_eq!(text_of(&asset, "hook"), "ran");
    assert_eq!(text_of(&asset, "a"), "A");
    assert_eq!(text_of(&asset, "b"), "B");
    assert_eq!(reports, vec![vec!["hook".to_string()], vec![]]);
}

#[test]
fn plugin_hands_its_customization_to_the_loader() {
    let plugin = FluentPlugin::new(add_marker as fn(&mut ConcurrentFluentBundle));
    let loader = plugin.bundle_loader();
    let (asset, _, _) =
        load(&loader, manifest("en-US", &["a.ftl"]), "main.ftl.ron", &["m = { MARKER() }"]);
    assert_eq!(text_of(&asset, "m"), "marked");
}

#[test]
fn default_customization_leaves_the_bundle_alone() {
    let mut bundle = ConcurrentFluentBundle::new_concurrent(vec![locale("en-US")]);
    bundle.add_resource(resource("hello = Hello").0).unwrap();
    DefaultFluentPlugins::customize(&mut bundle);
    assert_eq!(bundle.locales, vec![locale("en-US")]);
    assert_eq!(text_of(&bundle, "hello"), "Hello");
    let _ = DefaultFluentPlugins::default();
}

#[test]
fn loader_takes_the_manifest_extensions() {
    assert_eq!(plain().extensions().to_vec(), vec!["ftl.ron", "ftl.yaml", "ftl.yml"]);
}

fn shared_between_threads<T: Send + Sync + 'static>() {}

#[test]
fn bundle_and_resource_can_be_shared_between_threads() {
    shared_between_threads::<BundleAsset>();
    shared_between_threads::<ResourceAsset>();
}

#[test]
fn bundle_asset_reads_as_the_bundle() {
    let (asset, _, _) =
        load(&plain(), manifest("en-US", &["a.ftl"]), "main.ftl.ron", &["hello = Hello"]);
    let copy = asset.clone();
    assert!(copy.has_message("hello"));
    assert!(Arc::ptr_eq(&asset.0, &copy.0));
}

fn shout(text: &str) -> std::borrow::Cow<'_, str> {
    text.to_uppercase().into()
}

fn set_formatting(bundle: &mut ConcurrentFluentBundle) {
    bundle.set_use_isolating(false);
    bundle.set_transform(Some(shout));
}

fn text_with(bundle: &ConcurrentFluentBundle, id: &str, name: &str) -> String {
    let mut args = fluent::FluentArgs::new();
    args.set("name", name.to_string());
    let message = bundle.get_message(id).unwrap();
    let mut errors = vec![];
    bundle.format_pattern(message.value().unwrap(), Some(&args), &mut errors).into_owned()
}

fn text_of_with_name(bundle: &ConcurrentFluentBundle) -> String {
    text_with(bundle, "c", "Ann")
}

#[test]
fn formatting_of_the_customization_stays_through_the_merges() {
    let loader: BundleAssetLoader<fn(&mut ConcurrentFluentBundle)> =
        BundleAssetLoader { customize_bundle_fn: set_formatting };
    let (asset, _, _) = load(
        &loader,
        manifest("en-US", &["a.ftl", "b.ftl", "c.ftl"]),
        "main.ftl.ron",
        &["a = first", "b = second { a }", "c = third { $name }"],
    );
    assert_eq!(text_of(&asset, "a"), "FIRST");
    assert_eq!(text_of(&asset, "b"), "SECOND FIRST");
    assert_eq!(text_of_with_name(&asset), "THIRD Ann");
}

#[test]
fn bundle_without_customization_marks_off_what_it_puts_in() {
    let (asset, _, _) = load(
        &plain(),
        manifest("en-US", &["a.ftl"]),
        "main.ftl.ron",
        &["a = first\nc = third { $name }"],
    );
    assert_eq!(text_of(&asset, "a"), "first");
    assert_eq!(text_of_with_name(&asset), "third \u{2068}Ann\u{2069}");
}

#[test]
fn resource_with_an_unreadable_escape_ends_the_load() {
    let load = waiting(plain().begin(manifest("en-US", &["a.ftl"]), "main.ftl.ron"));
    let broken = ResourceAsset::from_bytes("a = { \"\\u00é\" }".as_bytes().to_vec());
    match load.supply(broken) {
        Err(Error::Parse(diagnostics)) => assert_eq!(diagnostics.len(), 1),
        Err(other) => panic!("expected the parse error, got {:?}", other),
        Ok(_) => panic!("a bundle was made of a resource that cannot be read"),
    }
}
