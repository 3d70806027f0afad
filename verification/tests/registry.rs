use xwdoc::filter_registry::{FilterFactory, FilterRegistry};

#[derive(Clone, Debug)]
struct TestFilter {
    name: String,
}

impl TestFilter {
    fn new(name: String) -> Self {
        Self { name }
    }

    fn name(&self) -> &str {
        &self.name
    }
}

type Factory = Box<dyn Fn() -> TestFilter>;

impl FilterFactory<TestFilter> for Factory {
    fn create(&self) -> TestFilter {
        (self)()
    }
}

fn registry() -> FilterRegistry<Factory, TestFilter> {
    FilterRegistry::new()
}

#[test]
fn test_registry_register_and_create() {
    let mut registry = registry();
    registry.register("test_filter", Box::new(|| TestFilter::new("Test".to_string()))).unwrap();
    assert!(registry.filter_exists("test_filter"));
    let filter = registry.create("test_filter").unwrap();
    assert_eq!(filter.name(), "Test");
}

#[test]
fn test_registry_instance() {
    let mut registry = registry();
    let filter = TestFilter::new("Instance".to_string());
    registry.register_instance("test_instance", filter).unwrap();
    assert!(registry.filter_exists("test_instance"));
    let created = registry.create("test_instance").unwrap();
    assert_eq!(created.name(), "Instance");
}

#[test]
fn test_registry_chain() {
    let mut registry = registry();
    registry.register("filter1", Box::new(|| TestFilter::new("F1".to_string()))).unwrap();
    registry.register("filter2", Box::new(|| TestFilter::new("F2".to_string()))).unwrap();
    registry.register_chain("test_chain", vec!["filter1".to_string(), "filter2".to_string()]).unwrap();
    let chain = registry.create_chain("test_chain").unwrap();
    assert_eq!(chain.len(), 2);
    let names: Vec<&str> = chain.iter().map(|f| f.name()).collect();
    assert_eq!(names, vec!["F1", "F2"]);
}

#[test]
fn test_registry_list_operations() {
    let mut registry = registry();
    registry.register("filter1", Box::new(|| TestFilter::new("F1".to_string()))).unwrap();
    registry.register("filter2", Box::new(|| TestFilter::new("F2".to_string()))).unwrap();
    registry.register_chain("chain1", vec!["filter1".to_string()]).unwrap();

    let filters = registry.list_filters();
    assert_eq!(filters.len(), 2);
    assert!(filters.contains(&"filter1".to_string()));
    assert!(filters.contains(&"filter2".to_string()));

    let chains = registry.list_chains();
    assert_eq!(chains.len(), 1);
    assert!(chains.contains(&"chain1".to_string()));
}

#[test]
fn test_registry_stats() {
    let mut registry = registry();
    registry.register("factory1", Box::new(|| TestFilter::new("F1".to_string()))).unwrap();
    registry.register_instance("instance1", TestFilter::new("I1".to_string())).unwrap();
    registry.register_chain("chain1", vec!["factory1".to_string()]).unwrap();

    let stats = registry.stats();
    assert_eq!(stats.factory_count, 1);
    assert_eq!(stats.instance_count, 1);
    assert_eq!(stats.chain_count, 1);
    assert_eq!(stats.total_filters, 2);
}

#[test]
fn test_registry_unregister() {
    let mut registry = registry();
    registry.register("test_filter", Box::new(|| TestFilter::new("Test".to_string()))).unwrap();
    assert!(registry.filter_exists("test_filter"));
    registry.unregister("test_filter").unwrap();
    assert!(!registry.filter_exists("test_filter"));
}

#[test]
fn test_registry_clear() {
    let mut registry = registry();
    registry.register("filter1", Box::new(|| TestFilter::new("F1".to_string()))).unwrap();
    registry.register_chain("chain1", vec!["filter1".to_string()]).unwrap();

    let stats_before = registry.stats();
    assert!(stats_before.total_filters > 0);
    assert!(stats_before.chain_count > 0);

    registry.clear().unwrap();

    let stats_after = registry.stats();
    assert_eq!(stats_after.total_filters, 0);
    assert_eq!(stats_after.chain_count, 0);
}

#[test]
fn registry_lists_are_sorted_and_merged() {
    let mut registry = registry();
    registry.register("zeta", Box::new(|| TestFilter::new("Z".to_string()))).unwrap();
    registry.register("alpha", Box::new(|| TestFilter::new("A".to_string()))).unwrap();
    registry.register_instance("alpha", TestFilter::new("A2".to_string())).unwrap();
    registry.register_instance("mid", TestFilter::new("M".to_string())).unwrap();
    assert_eq!(registry.list_filters(), vec!["alpha".to_string(), "mid".to_string(), "zeta".to_string()]);
    // An instance is preferred to a factory of the same name.
    assert_eq!(registry.create("alpha").unwrap().name(), "A2");
    registry.register_chain("b", vec![]).unwrap();
    registry.register_chain("a", vec![]).unwrap();
    assert_eq!(registry.list_chains(), vec!["a".to_string(), "b".to_string()]);
}

#[test]
fn registry_errors_name_what_is_missing() {
    let mut registry = registry();
    assert_eq!(registry.create("nope").unwrap_err(), "未找到过滤器: nope");
    assert_eq!(registry.create_chain("none").unwrap_err(), "未找到过滤器链: none");
    registry.register("one", Box::new(|| TestFilter::new("1".to_string()))).unwrap();
    registry.register_chain("c", vec!["one".to_string(), "two".to_string(), "three".to_string()]).unwrap();
    assert_eq!(registry.create_chain("c").unwrap_err(), "未找到过滤器: two");
    registry.unregister_chain("c").unwrap();
    assert!(registry.list_chains().is_empty());
    registry.register_chain("c", vec!["one".to_string()]).unwrap();
    registry.register_chain("c", vec!["one".to_string(), "one".to_string()]).unwrap();
    assert_eq!(registry.create_chain("c").unwrap().len(), 2);
}

use xwdoc::scraper_registry::{ScraperFactory, ScraperRegistry};

#[derive(Debug, PartialEq)]
struct Made {
    set: &'static str,
    version: String,
    output: String,
}

struct SetFactory(&'static str);

impl ScraperFactory<Made> for SetFactory {
    fn make(&self, version: &str, output_path: &str) -> Made {
        Made { set: self.0, version: version.to_string(), output: output_path.to_string() }
    }
}

#[test]
fn scraper_registry_makes_registered_sets() {
    let mut reg: ScraperRegistry<SetFactory> = ScraperRegistry::new();
    assert!(reg.get_all_names().is_empty());
    reg.register("babel", SetFactory("babel"));
    reg.register("rust", SetFactory("rust"));
    reg.register("babel", SetFactory("babel2"));
    let made: Option<Made> = reg.get("babel", "7.0", "out");
    assert_eq!(made, Some(Made { set: "babel2", version: "7.0".to_string(), output: "out".to_string() }));
    let missing: Option<Made> = reg.get("go", "1", "out");
    assert!(missing.is_none());
    let mut names = reg.get_all_names();
    names.sort();
    assert_eq!(names, vec!["babel".to_string(), "rust".to_string()]);
}
