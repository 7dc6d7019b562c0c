use cpex::config::{
    default_route_cache_max_entries, default_timeout, default_true, find_matching_route,
    resolve_plugins_for_entity, validate_config, CpexConfig, GlobalConfig, Pattern, PluginRouteRef,
    PluginSettings, PolicyGroup, RouteEntry, RouteMeta, StringOrList,
};
use cpex::json::JsonValue;
use cpex::plugin::{PluginConfig, PluginMode};

fn no_tags() -> Vec<String> {
    Vec::new()
}

fn plugin(name: &str, hooks: &[&str]) -> PluginConfig {
    let mut p = PluginConfig::new(name, "builtin");
    p.hooks = hooks.iter().map(|h| h.to_string()).collect();
    p
}

fn refs(names: &[&str]) -> Vec<PluginRouteRef> {
    names.iter().map(|n| PluginRouteRef::Name(n.to_string())).collect()
}

fn group(names: &[&str]) -> PolicyGroup {
    PolicyGroup { description: None, metadata: Vec::new(), plugins: refs(names) }
}

fn global(groups: Vec<(&str, PolicyGroup)>) -> GlobalConfig {
    GlobalConfig {
        policies: groups.into_iter().map(|(n, g)| (n.to_string(), g)).collect(),
        defaults: Vec::new(),
    }
}

fn no_global() -> GlobalConfig {
    global(Vec::new())
}

fn settings(routing_enabled: bool) -> PluginSettings {
    PluginSettings { routing_enabled, ..Default::default() }
}

fn route() -> RouteEntry {
    RouteEntry { tool: None, resource: None, prompt: None, llm: None, meta: None, when: None, plugins: Vec::new() }
}

fn tool_route(pattern: &str) -> RouteEntry {
    RouteEntry { tool: Some(StringOrList::Single(Pattern::new(pattern))), ..route() }
}

fn meta(tags: &[&str], scope: Option<&str>) -> Option<RouteMeta> {
    Some(RouteMeta {
        tags: tags.iter().map(|t| t.to_string()).collect(),
        scope: scope.map(|s| s.to_string()),
        properties: Vec::new(),
    })
}

fn config(
    routing: bool,
    global: GlobalConfig,
    plugins: Vec<PluginConfig>,
    routes: Vec<RouteEntry>,
) -> CpexConfig {
    CpexConfig { global, plugin_dirs: Vec::new(), plugins, routes, plugin_settings: settings(routing) }
}

/// Validate as loading does; the error as text.
fn load(c: CpexConfig) -> Result<CpexConfig, String> {
    match validate_config(&c) {
        Ok(()) => Ok(c),
        Err(e) => Err(e.to_display_string()),
    }
}

fn names(resolved: &[cpex::config::ResolvedPlugin]) -> Vec<&str> {
    resolved.iter().map(|r| r.name.as_str()).collect()
}

fn member<'a>(v: &'a JsonValue, key: &str) -> Option<&'a JsonValue> {
    match v {
        JsonValue::Object(m) => m.iter().find(|(k, _)| k == key).map(|(_, v)| v),
        _ => None,
    }
}

fn obj(members: Vec<(&str, JsonValue)>) -> JsonValue {
    JsonValue::Object(members.into_iter().map(|(k, v)| (k.to_string(), v)).collect())
}

#[test]
fn test_parse_minimal_config() {
    let mut p = plugin("rate_limiter", &["tool_pre_invoke"]);
    p.mode = PluginMode::Sequential;
    p.priority = 5;
    p.config = Some(obj(vec![("max_requests", JsonValue::Number("100".into()))]));
    let config = load(config(false, no_global(), vec![p], Vec::new())).unwrap();
    assert!(!config.routing_enabled());
    assert_eq!(config.plugins.len(), 1);
    assert_eq!(config.plugins[0].name, "rate_limiter");
}

#[test]
fn test_no_plugin_settings_defaults_routing_disabled() {
    let c = CpexConfig {
        global: no_global(),
        plugin_dirs: Vec::new(),
        plugins: vec![plugin("test", &["tool_pre_invoke"])],
        routes: Vec::new(),
        plugin_settings: PluginSettings::default(),
    };
    let config = load(c).unwrap();
    assert!(!config.routing_enabled());
    assert_eq!(config.plugin_settings.plugin_timeout, 30);
}

#[test]
fn plugin_settings_defaults() {
    let s = PluginSettings::default();
    assert_eq!(s.plugin_timeout, default_timeout());
    assert_eq!(default_timeout(), 30);
    assert!(default_true());
    assert_eq!(s.route_cache_max_entries, default_route_cache_max_entries());
    assert_eq!(default_route_cache_max_entries(), 10000);
    assert!(!s.routing_enabled);
}

#[test]
fn test_routing_enabled() {
    let mut r = tool_route("get_compensation");
    r.meta = meta(&["pii"], None);
    let c = config(true, global(vec![("all", group(&["identity"]))]),
        vec![plugin("identity", &["identity_resolve"])], vec![r]);
    let config = load(c).unwrap();
    assert!(config.routing_enabled());
}

#[test]
fn test_duplicate_plugin_names_rejected() {
    let c = config(false, no_global(),
        vec![plugin("dup", &["tool_pre_invoke"]), plugin("dup", &["tool_post_invoke"])], Vec::new());
    assert!(load(c).unwrap_err().contains("duplicate plugin name"));
}

#[test]
fn test_route_requires_one_entity_matcher() {
    let mut r = route();
    r.meta = meta(&["pii"], None);
    let c = config(true, no_global(), Vec::new(), vec![r]);
    assert!(load(c).unwrap_err().contains("no entity matcher"));
}

#[test]
fn test_route_rejects_multiple_entity_matchers() {
    let mut r = tool_route("get_compensation");
    r.resource = Some(StringOrList::Single(Pattern::new("hr://employees/*")));
    let c = config(true, no_global(), Vec::new(), vec![r]);
    assert!(load(c).unwrap_err().contains("multiple entity matchers"));
}

#[test]
fn test_route_unknown_plugin_rejected() {
    let mut r = tool_route("get_compensation");
    r.plugins = refs(&["unknown"]);
    let c = config(true, no_global(), vec![plugin("known", &["tool_pre_invoke"])], vec![r]);
    assert!(load(c).unwrap_err().contains("unknown plugin 'unknown'"));
}

#[test]
fn test_policy_group_unknown_plugin_rejected() {
    let c = config(true, global(vec![("all", group(&["nonexistent"]))]), Vec::new(), Vec::new());
    assert!(load(c).unwrap_err().contains("unknown plugin 'nonexistent'"));
}

#[test]
fn test_resolve_conditions_mode_returns_all() {
    let config = load(config(false, no_global(),
        vec![plugin("a", &["tool_pre_invoke"]), plugin("b", &["tool_post_invoke"])], Vec::new())).unwrap();
    let resolved = resolve_plugins_for_entity(&config, "tool", "anything", None, &no_tags());
    assert_eq!(names(&resolved), vec!["a", "b"]);
}

#[test]
fn test_resolve_routes_inherits_policy_groups() {
    let mut r = tool_route("get_compensation");
    r.meta = meta(&["pii"], None);
    let config = load(config(true,
        global(vec![("all", group(&["identity"])), ("pii", group(&["apl_policy"]))]),
        vec![plugin("identity", &["identity_resolve"]), plugin("apl_policy", &["cmf.tool_pre_invoke"])],
        vec![r])).unwrap();
    let resolved = resolve_plugins_for_entity(&config, "tool", "get_compensation", None, &no_tags());
    let n = names(&resolved);
    assert!(n.contains(&"identity"));
    assert!(n.contains(&"apl_policy"));
}

#[test]
fn test_resolve_no_matching_route_gets_all_only() {
    let config = load(config(true, global(vec![("all", group(&["identity"]))]),
        vec![plugin("identity", &["identity_resolve"])], vec![tool_route("get_compensation")])).unwrap();
    let resolved = resolve_plugins_for_entity(&config, "tool", "unknown_tool", None, &no_tags());
    assert_eq!(names(&resolved), vec!["identity"]);
}

#[test]
fn test_exact_match_beats_glob() {
    let mut general = tool_route("hr-*");
    general.plugins = refs(&["general"]);
    let mut specific = tool_route("hr-compensation");
    specific.plugins = refs(&["specific"]);
    let config = load(config(true, no_global(),
        vec![plugin("specific", &["tool_pre_invoke"]), plugin("general", &["tool_pre_invoke"])],
        vec![general, specific])).unwrap();
    let resolved = resolve_plugins_for_entity(&config, "tool", "hr-compensation", None, &no_tags());
    let n = names(&resolved);
    assert!(n.contains(&"specific"));
    assert!(!n.contains(&"general"));
    assert_eq!(find_matching_route(&config, "tool", "hr-compensation", None), Some(1));
    assert_eq!(find_matching_route(&config, "tool", "hr-benefits", None), Some(0));
    assert_eq!(find_matching_route(&config, "tool", "finance", None), None);
}

#[test]
fn test_plugin_ref_bare_name() {
    let mut r = tool_route("get_compensation");
    r.plugins = refs(&["rate_limiter"]);
    let config = load(config(true, no_global(), vec![plugin("rate_limiter", &["tool_pre_invoke"])], vec![r])).unwrap();
    let resolved = resolve_plugins_for_entity(&config, "tool", "get_compensation", None, &no_tags());
    assert_eq!(resolved[0].name, "rate_limiter");
    assert!(resolved[0].config_overrides.is_none());
}

#[test]
fn test_plugin_ref_with_overrides() {
    let mut p = plugin("rate_limiter", &["tool_pre_invoke"]);
    p.config = Some(obj(vec![("max_requests", JsonValue::Number("100".into()))]));
    let mut r = tool_route("get_compensation");
    r.plugins = vec![PluginRouteRef::WithOverrides(vec![(
        "rate_limiter".to_string(),
        obj(vec![("config", obj(vec![("max_requests", JsonValue::Number("10".into()))]))]),
    )])];
    let config = load(config(true, no_global(), vec![p], vec![r])).unwrap();
    let resolved = resolve_plugins_for_entity(&config, "tool", "get_compensation", None, &no_tags());
    assert_eq!(resolved[0].name, "rate_limiter");
    assert!(resolved[0].config_overrides.is_some());
    let overrides = resolved[0].config_overrides.as_ref().unwrap();
    let max = member(member(overrides, "config").unwrap(), "max_requests");
    assert!(matches!(max, Some(JsonValue::Number(n)) if n == "10"));
}

#[test]
fn test_plugin_ref_mixed_bare_and_overrides() {
    let mut r = tool_route("get_compensation");
    r.plugins = vec![
        PluginRouteRef::Name("rate_limiter".to_string()),
        PluginRouteRef::WithOverrides(vec![(
            "pii_scanner".to_string(),
            obj(vec![("config", obj(vec![("sensitivity", JsonValue::Str("high".into()))]))]),
        )]),
    ];
    let config = load(config(true, no_global(),
        vec![plugin("rate_limiter", &["tool_pre_invoke"]), plugin("pii_scanner", &["tool_pre_invoke"])],
        vec![r])).unwrap();
    let resolved = resolve_plugins_for_entity(&config, "tool", "get_compensation", None, &no_tags());
    assert_eq!(resolved.len(), 2);
    assert_eq!(resolved[0].name, "rate_limiter");
    assert!(resolved[0].config_overrides.is_none());
    assert_eq!(resolved[1].name, "pii_scanner");
    assert!(resolved[1].config_overrides.is_some());
}

#[test]
fn plugin_ref_accessors() {
    let bare = PluginRouteRef::Name("a".to_string());
    assert_eq!(bare.name(), "a");
    assert!(bare.overrides().is_none());
    let with = PluginRouteRef::WithOverrides(vec![("b".to_string(), JsonValue::Bool(true))]);
    assert_eq!(with.name(), "b");
    assert!(matches!(with.overrides(), Some(JsonValue::Bool(true))));
}

#[test]
fn test_deduplication_preserves_order() {
    let mut r = tool_route("get_compensation");
    r.meta = meta(&["pii"], None);
    let config = load(config(true,
        global(vec![("all", group(&["a", "b"])), ("pii", group(&["b", "c"]))]),
        vec![plugin("a", &["tool_pre_invoke"]), plugin("b", &["tool_pre_invoke"]), plugin("c", &["tool_pre_invoke"])],
        vec![r])).unwrap();
    let resolved = resolve_plugins_for_entity(&config, "tool", "get_compensation", None, &no_tags());
    assert_eq!(names(&resolved), vec!["a", "b", "c"]);
}

#[test]
fn test_glob_trailing_wildcard() {
    let matcher = StringOrList::Single(Pattern::new("hr-*"));
    assert!(matcher.matches("hr-compensation"));
    assert!(matcher.matches("hr-benefits"));
    assert!(matcher.matches("hr-")); // empty match for *
    assert!(!matcher.matches("finance-report"));
    assert!(!matcher.matches("hr"));
}

#[test]
fn test_wildcard_matches_everything() {
    let matcher = StringOrList::Single(Pattern::new("*"));
    assert!(matcher.matches("anything"));
    assert!(matcher.matches(""));
}

#[test]
fn test_glob_leading_wildcard() {
    let matcher = StringOrList::Single(Pattern::new("*-prod"));
    assert!(matcher.matches("foo-prod"));
    assert!(matcher.matches("-prod")); // empty match for *
    assert!(!matcher.matches("foo-staging"));
    assert!(!matcher.matches("prod"));
}

#[test]
fn test_glob_mid_wildcard() {
    let matcher = StringOrList::Single(Pattern::new("hr-*-v1"));
    assert!(matcher.matches("hr-comp-v1"));
    assert!(matcher.matches("hr--v1")); // empty match for *
    assert!(!matcher.matches("hr-comp-v2"));
    assert!(!matcher.matches("finance-comp-v1"));
}

#[test]
fn test_glob_multiple_wildcards() {
    let matcher = StringOrList::Single(Pattern::new("*hr*comp*"));
    assert!(matcher.matches("hr-comp"));
    assert!(matcher.matches("xyz-hr-comp-foo"));
    assert!(!matcher.matches("hr-only"));
    assert!(!matcher.matches("comp-only"));
}

#[test]
fn test_glob_multi_star_is_equivalent_to_single_star() {
    for pattern in &["**", "***", "*****"] {
        let matcher = StringOrList::Single(Pattern::new(pattern));
        assert!(matcher.matches("anything"), "pattern {} should match", pattern);
        assert!(matcher.matches(""), "pattern {} should match empty", pattern);
    }
}

#[test]
fn literal_pattern_matches_only_itself() {
    let p = Pattern::new("get_weather");
    assert!(p.matches("get_weather"));
    assert!(!p.matches("get_weather2"));
    assert!(!p.matches("Get_weather"));
    assert_eq!(p.as_str(), "get_weather");
    let q = Pattern::new("hr-?");
    assert!(q.matches("hr-1"));
    assert!(!q.matches("hr-12"));
}

#[test]
fn test_list_matches_any_member() {
    let matcher = StringOrList::List(vec!["get_compensation".to_string(), "get_benefits".to_string()]);
    assert!(matcher.matches("get_compensation"));
    assert!(matcher.matches("get_benefits"));
    assert!(!matcher.matches("send_email"));
}

#[test]
fn test_validation_skipped_when_routing_disabled() {
    let mut r = route();
    r.meta = meta(&["pii"], None);
    let c = config(false, no_global(), vec![plugin("test", &["tool_pre_invoke"])], vec![r]);
    assert!(load(c).is_ok());
}

#[test]
fn test_scope_match_selects_scoped_route() {
    let mut scoped = tool_route("get_compensation");
    scoped.meta = meta(&[], Some("hr-services"));
    scoped.plugins = refs(&["scoped_plugin"]);
    let mut global_route = tool_route("get_compensation");
    global_route.plugins = refs(&["global_plugin"]);
    let config = load(config(true, no_global(),
        vec![plugin("scoped_plugin", &["tool_pre_invoke"]), plugin("global_plugin", &["tool_pre_invoke"])],
        vec![scoped, global_route])).unwrap();

    // With matching scope — scoped route wins (more specific)
    let resolved = resolve_plugins_for_entity(&config, "tool", "get_compensation", Some("hr-services"), &no_tags());
    let n = names(&resolved);
    assert!(n.contains(&"scoped_plugin"));
    assert!(!n.contains(&"global_plugin"));

    // Without scope — global route matches
    let resolved = resolve_plugins_for_entity(&config, "tool", "get_compensation", None, &no_tags());
    let n = names(&resolved);
    assert!(n.contains(&"global_plugin"));
    assert!(!n.contains(&"scoped_plugin"));

    // With different scope — global route matches (scoped doesn't)
    let resolved = resolve_plugins_for_entity(&config, "tool", "get_compensation", Some("billing"), &no_tags());
    let n = names(&resolved);
    assert!(n.contains(&"global_plugin"));
    assert!(!n.contains(&"scoped_plugin"));
}

#[test]
fn test_host_tags_merged_with_route_tags() {
    let mut r = tool_route("get_compensation");
    r.meta = meta(&["pii"], None);
    let config = load(config(true,
        global(vec![("pii", group(&["pii_plugin"])), ("runtime_tag", group(&["runtime_plugin"]))]),
        vec![plugin("pii_plugin", &["tool_pre_invoke"]), plugin("runtime_plugin", &["tool_pre_invoke"])],
        vec![r])).unwrap();

    // Host provides a runtime tag that matches a policy group
    let host_tags = vec!["runtime_tag".to_string()];
    let resolved = resolve_plugins_for_entity(&config, "tool", "get_compensation", None, &host_tags);
    let n = names(&resolved);

    // Both route's static tag (pii) and host's runtime tag activate their groups
    assert!(n.contains(&"pii_plugin"));
    assert!(n.contains(&"runtime_plugin"));
}

#[test]
fn test_when_clause_carried_on_resolved_plugins() {
    let mut r = tool_route("get_compensation");
    r.when = Some("args.include_ssn == true".to_string());
    r.plugins = refs(&["conditional_plugin"]);
    let config = load(config(true, no_global(), vec![plugin("conditional_plugin", &["tool_pre_invoke"])], vec![r])).unwrap();
    let resolved = resolve_plugins_for_entity(&config, "tool", "get_compensation", None, &no_tags());
    assert_eq!(resolved[0].name, "conditional_plugin");
    assert_eq!(resolved[0].when.as_deref(), Some("args.include_ssn == true"));
}

#[test]
fn test_when_clause_not_on_policy_group_plugins() {
    let mut r = tool_route("get_compensation");
    r.when = Some("args.sensitive == true".to_string());
    r.plugins = refs(&["route_plugin"]);
    let config = load(config(true, global(vec![("all", group(&["global_plugin"]))]),
        vec![plugin("global_plugin", &["tool_pre_invoke"]), plugin("route_plugin", &["tool_pre_invoke"])],
        vec![r])).unwrap();
    let resolved = resolve_plugins_for_entity(&config, "tool", "get_compensation", None, &no_tags());

    // global_plugin has no when clause (from all group)
    let global_p = resolved.iter().find(|r| r.name == "global_plugin").unwrap();
    assert!(global_p.when.is_none());

    // route_plugin carries the route's when clause
    let route_p = resolved.iter().find(|r| r.name == "route_plugin").unwrap();
    assert_eq!(route_p.when.as_deref(), Some("args.sensitive == true"));
}

#[test]
fn entity_defaults_apply_to_their_entity_type() {
    let mut g = no_global();
    g.defaults = vec![("tool".to_string(), group(&["tool_default"]))];
    let config = load(config(true, g,
        vec![plugin("tool_default", &["tool_pre_invoke"])],
        vec![tool_route("get_compensation")])).unwrap();
    let for_tool = resolve_plugins_for_entity(&config, "tool", "get_compensation", None, &no_tags());
    assert!(names(&for_tool).contains(&"tool_default"));
}
