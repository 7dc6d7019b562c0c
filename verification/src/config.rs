//! Unified configuration: global settings, plugin declarations, and
//! per-entity routes, with structural validation and route resolution.
//!
//! Two mutually exclusive modes, chosen by
//! `plugin_settings.routing_enabled`:
//!   - off (default): plugins declare their own firing conditions and
//!     every plugin is a candidate for every entity;
//!   - on: per-entity routes, policy groups and tags decide which
//!     plugins fire.

use vstd::prelude::*;
use vstd::string::*;

use crate::error::PluginError;
use crate::json::{JsonValue, JsonView};
use crate::plugin::PluginConfig;
use crate::text::{str_eq, strs_view, strings_contain, clone_strings, push_decimal, decimal,
    opt_str_view, contains_char};

verus! {

// ---------------------------------------------------------------------------
// Settings
// ---------------------------------------------------------------------------

/// Global plugin settings.
#[derive(Debug, Clone, Copy)]
pub struct PluginSettings {
    /// Route-based plugin selection.
    pub routing_enabled: bool,
    /// Default timeout per plugin, in seconds.
    pub plugin_timeout: u64,
    /// Halt on the first deny in the concurrent phase.
    pub short_circuit_on_deny: bool,
    /// Whether plugins may run in parallel within a mode band.
    pub parallel_execution_within_band: bool,
    /// Halt the pipeline on any plugin error.
    pub fail_on_plugin_error: bool,
    /// Largest number of entries in the routing cache.
    pub route_cache_max_entries: usize,
}

/// Default capacity of the routing cache.
pub fn default_route_cache_max_entries() -> (r: usize)
    ensures
        r == 10_000,
{
    10_000
}

/// Default per-plugin timeout, in seconds.
pub fn default_timeout() -> (r: u64)
    ensures
        r == 30,
{
    30
}

/// The default of settings that are on unless configured off.
pub fn default_true() -> (r: bool)
    ensures
        r,
{
    true
}

impl Default for PluginSettings {
    fn default() -> (s: Self)
        ensures
            !s.routing_enabled,
            s.plugin_timeout == 30,
            s.short_circuit_on_deny,
            !s.parallel_execution_within_band,
            !s.fail_on_plugin_error,
            s.route_cache_max_entries == 10_000,
    {
        PluginSettings {
            routing_enabled: false,
            plugin_timeout: default_timeout(),
            short_circuit_on_deny: default_true(),
            parallel_execution_within_band: false,
            fail_on_plugin_error: false,
            route_cache_max_entries: default_route_cache_max_entries(),
        }
    }
}

// ---------------------------------------------------------------------------
// Glob patterns
// ---------------------------------------------------------------------------

/// Whether glob pattern `p` matches the whole of `s`: `*` matches any run
/// of characters (the empty one too), `?` exactly one character, and
/// every other character itself.
pub open spec fn glob_match(p: Seq<char>, s: Seq<char>) -> bool
    decreases p.len() + s.len(),
{
    if p.len() == 0 {
        s.len() == 0
    } else if p[0] == '*' {
        glob_match(p.drop_first(), s) || (s.len() > 0 && glob_match(p, s.drop_first()))
    } else {
        s.len() > 0 && (p[0] == '?' || p[0] == s[0]) && glob_match(p.drop_first(), s.drop_first())
    }
}

/// Wildcard match of a whole string (`wildmatch::WildMatch::new` then
/// `matches`). The crate documents `*` as any run of characters,
/// including none, and `?` as exactly one character, with no escapes and
/// a match required over the entire input.
#[verifier::external_body]
fn wildcard_match(pattern: &str, name: &str) -> (r: bool)
    ensures
        r == glob_match(pattern@, name@),
{
    wildmatch::WildMatch::new(pattern).matches(name)
}

/// A pattern made of `*` only matches every string.
pub proof fn lemma_stars_match_everything(p: Seq<char>, s: Seq<char>)
    requires
        p.len() > 0,
        forall|i: int| 0 <= i < p.len() ==> p[i] == '*',
    ensures
        glob_match(p, s),
    decreases p.len() + s.len(),
{
    if s.len() == 0 {
        if p.len() > 1 {
            lemma_stars_match_everything(p.drop_first(), s);
        }
    } else {
        lemma_stars_match_everything(p, s.drop_first());
    }
}

/// A pattern free of wildcards matches exactly itself.
pub proof fn lemma_literal_pattern(p: Seq<char>, s: Seq<char>)
    requires
        forall|i: int| 0 <= i < p.len() ==> p[i] != '*' && p[i] != '?',
    ensures
        glob_match(p, s) <==> p == s,
    decreases p.len() + s.len(),
{
    if p.len() > 0 && s.len() > 0 {
        assert(p[0] != '*' && p[0] != '?');
        assert forall|i: int| 0 <= i < p.drop_first().len() implies
            p.drop_first()[i] != '*' && p.drop_first()[i] != '?' by {
            assert(p.drop_first()[i] == p[i + 1]);
        }
        lemma_literal_pattern(p.drop_first(), s.drop_first());
        assert(p =~= seq![p[0]] + p.drop_first());
        assert(s =~= seq![s[0]] + s.drop_first());
        if p == s {
            assert(p[0] == s[0]);
            assert(p.drop_first() == s.drop_first());
        }
    } else if p.len() > 0 {
        assert(p[0] != '*');
        assert(p.len() != s.len());
    } else if s.len() > 0 {
        assert(p.len() != s.len());
    } else {
        assert(p =~= s);
    }
}

/// An entity-name pattern: exact name or glob (`*`, `?`).
#[derive(Debug)]
pub struct Pattern {
    pattern: String,
}

impl View for Pattern {
    type V = Seq<char>;

    closed spec fn view(&self) -> Seq<char> {
        self.pattern@
    }
}

impl Pattern {
    /// Compile a pattern.
    pub fn new(pattern: &str) -> (p: Pattern)
        ensures
            p@ == pattern@,
    {
        Pattern { pattern: String::from_str(pattern) }
    }

    /// Whether the pattern matches the whole of `name`.
    pub fn matches(&self, name: &str) -> (r: bool)
        ensures
            r == glob_match(self@, name@),
    {
        wildcard_match(self.pattern.as_str(), name)
    }

    /// The pattern as written.
    pub fn as_str(&self) -> (s: &str)
        ensures
            s@ == self@,
    {
        self.pattern.as_str()
    }
}

impl Clone for Pattern {
    fn clone(&self) -> (r: Self)
        ensures
            r@ == self@,
    {
        Pattern { pattern: self.pattern.clone() }
    }
}

impl Default for Pattern {
    /// The empty pattern, which matches only the empty name.
    fn default() -> (p: Self)
        ensures
            p@ == Seq::<char>::empty(),
    {
        Pattern { pattern: String::new() }
    }
}

/// An entity matcher: one name or glob pattern, or a list of exact names.
#[derive(Debug)]
pub enum StringOrList {
    Single(Pattern),
    List(Vec<String>),
}

/// The content of an entity matcher.
pub enum MatcherView {
    Single(Seq<char>),
    List(Seq<Seq<char>>),
}

impl View for StringOrList {
    type V = MatcherView;

    open spec fn view(&self) -> MatcherView {
        match self {
            StringOrList::Single(p) => MatcherView::Single(p@),
            StringOrList::List(v) => MatcherView::List(strs_view(v@)),
        }
    }
}

/// Whether a matcher matches an entity name.
pub open spec fn matcher_matches(m: MatcherView, name: Seq<char>) -> bool {
    match m {
        MatcherView::Single(p) => glob_match(p, name),
        MatcherView::List(names) => names.contains(name),
    }
}

impl StringOrList {
    /// Whether this matcher matches the given name.
    pub fn matches(&self, name: &str) -> (r: bool)
        ensures
            r == matcher_matches(self@, name@),
    {
        match self {
            StringOrList::Single(p) => p.matches(name),
            StringOrList::List(names) => strings_contain(names, name),
        }
    }

    /// Copy this matcher.
    pub fn duplicate(&self) -> (r: StringOrList)
        ensures
            r@ == self@,
    {
        match self {
            StringOrList::Single(p) => StringOrList::Single(p.clone()),
            StringOrList::List(v) => StringOrList::List(clone_strings(v)),
        }
    }
}

impl Default for StringOrList {
    /// A single empty pattern.
    fn default() -> (m: Self)
        ensures
            m@ == MatcherView::Single(Seq::<char>::empty()),
    {
        StringOrList::Single(Pattern::default())
    }
}

// ---------------------------------------------------------------------------
// Specificity
// ---------------------------------------------------------------------------

/// Specificity of an exact-name match.
pub const SPECIFICITY_EXACT_NAME: usize = 1000;
/// Specificity of a name-list match.
pub const SPECIFICITY_NAME_LIST: usize = 500;
/// Specificity of a glob match.
pub const SPECIFICITY_GLOB: usize = 300;
/// Bonus for a route that carries a `when` clause.
pub const SPECIFICITY_WHEN_ONLY: usize = 10;
/// Specificity of the catch-all pattern `*`.
pub const SPECIFICITY_WILDCARD: usize = 0;
/// Bonus for a route whose scope equals the request's.
pub const SCOPE_BONUS: usize = 100;

/// The specificity with which a matcher matches a name, if it does.
pub open spec fn matcher_score(m: MatcherView, name: Seq<char>) -> Option<nat> {
    if !matcher_matches(m, name) {
        None
    } else {
        match m {
            MatcherView::Single(p) => if p == "*"@ {
                Some(SPECIFICITY_WILDCARD as nat)
            } else if p.contains('*') {
                Some(SPECIFICITY_GLOB as nat)
            } else {
                Some(SPECIFICITY_EXACT_NAME as nat)
            },
            MatcherView::List(_) => Some(SPECIFICITY_NAME_LIST as nat),
        }
    }
}

/// Score an optional entity matcher against an entity name.
fn score_entity_match(matcher: &Option<StringOrList>, entity_name: &str) -> (r: Option<usize>)
    ensures
        r matches Some(x) ==> x <= SPECIFICITY_EXACT_NAME,
        match *matcher {
            None => r is None,
            Some(m) => match matcher_score(m@, entity_name@) {
                None => r is None,
                Some(s) => r == Some(s as usize),
            },
        },
{
    match matcher {
        None => None,
        Some(m) => {
            if !m.matches(entity_name) {
                return None;
            }
            match m {
                StringOrList::Single(p) => {
                    if str_eq(p.as_str(), "*") {
                        Some(SPECIFICITY_WILDCARD)
                    } else if contains_char(p.as_str(), '*') {
                        Some(SPECIFICITY_GLOB)
                    } else {
                        Some(SPECIFICITY_EXACT_NAME)
                    }
                },
                StringOrList::List(_) => Some(SPECIFICITY_NAME_LIST),
            }
        },
    }
}

// ---------------------------------------------------------------------------
// Configuration model
// ---------------------------------------------------------------------------

/// A reference to a plugin from a route or policy group: a bare name,
/// or a one-entry map from the name to configuration overrides.
#[derive(Debug)]
pub enum PluginRouteRef {
    Name(String),
    WithOverrides(Vec<(String, JsonValue)>),
}

/// The plugin name a reference designates: the bare name, or the key
/// of its first entry (empty when the map is empty).
pub open spec fn ref_name(r: PluginRouteRef) -> Seq<char> {
    match r {
        PluginRouteRef::Name(n) => n@,
        PluginRouteRef::WithOverrides(m) => if m@.len() > 0 {
            m@[0].0@
        } else {
            ""@
        },
    }
}

/// The configuration overrides a reference carries.
pub open spec fn ref_overrides(r: PluginRouteRef) -> Option<JsonView> {
    match r {
        PluginRouteRef::Name(_) => None,
        PluginRouteRef::WithOverrides(m) => if m@.len() > 0 {
            Some(m@[0].1@)
        } else {
            None
        },
    }
}

impl PluginRouteRef {
    /// The plugin name this reference designates.
    pub fn name(&self) -> (s: &str)
        ensures
            s@ == ref_name(*self),
    {
        match self {
            PluginRouteRef::Name(n) => n.as_str(),
            PluginRouteRef::WithOverrides(m) => {
                if m.len() > 0 {
                    m[0].0.as_str()
                } else {
                    ""
                }
            },
        }
    }

    /// The configuration overrides, if any.
    pub fn overrides(&self) -> (o: Option<&JsonValue>)
        ensures
            match ref_overrides(*self) {
                None => o is None,
                Some(v) => o matches Some(x) && x@ == v,
            },
    {
        match self {
            PluginRouteRef::Name(_) => None,
            PluginRouteRef::WithOverrides(m) => {
                if m.len() > 0 {
                    Some(&m[0].1)
                } else {
                    None
                }
            },
        }
    }
}

/// A named policy group: plugins to activate, with metadata.
#[derive(Debug)]
pub struct PolicyGroup {
    pub description: Option<String>,
    /// Key-value metadata for tooling and audit.
    pub metadata: Vec<(String, String)>,
    pub plugins: Vec<PluginRouteRef>,
}

/// Global configuration: named policy groups (`all` applies to every
/// request) and per-entity-type default groups.
#[derive(Debug)]
pub struct GlobalConfig {
    /// Policy groups by name; a name is looked up at its first entry.
    pub policies: Vec<(String, PolicyGroup)>,
    /// Default groups by entity type (`tool`, `resource`, `prompt`, `llm`).
    pub defaults: Vec<(String, PolicyGroup)>,
}

/// Operational metadata on a route.
#[derive(Debug)]
pub struct RouteMeta {
    /// Entity tags: they select policy groups.
    pub tags: Vec<String>,
    /// Host-defined grouping; a scoped route only matches that scope.
    pub scope: Option<String>,
    pub properties: Vec<(String, String)>,
}

/// A per-entity routing rule.
#[derive(Debug)]
pub struct RouteEntry {
    pub tool: Option<StringOrList>,
    pub resource: Option<StringOrList>,
    pub prompt: Option<StringOrList>,
    pub llm: Option<StringOrList>,
    pub meta: Option<RouteMeta>,
    /// Conditional expression: carried to resolved plugins, not evaluated.
    pub when: Option<String>,
    pub plugins: Vec<PluginRouteRef>,
}

/// Top-level configuration.
#[derive(Debug)]
pub struct CpexConfig {
    pub global: GlobalConfig,
    pub plugin_dirs: Vec<String>,
    pub plugins: Vec<PluginConfig>,
    pub routes: Vec<RouteEntry>,
    pub plugin_settings: PluginSettings,
}

impl CpexConfig {
    /// Whether route-based plugin selection is enabled.
    pub fn routing_enabled(&self) -> (r: bool)
        ensures
            r == self.plugin_settings.routing_enabled,
    {
        self.plugin_settings.routing_enabled
    }
}

// ---------------------------------------------------------------------------
// Validation
// ---------------------------------------------------------------------------

/// The names of the declared plugins, in order.
pub open spec fn plugin_names(c: CpexConfig) -> Seq<Seq<char>> {
    c.plugins@.map_values(|p: PluginConfig| p.name@)
}

pub open spec fn duplicate_message(name: Seq<char>) -> Seq<char> {
    "duplicate plugin name: '"@ + name + "'"@
}

pub open spec fn no_matcher_message(i: nat) -> Seq<char> {
    "route "@ + decimal(i) + " has no entity matcher (need tool, resource, prompt, or llm)"@
}

pub open spec fn multiple_matchers_message(i: nat) -> Seq<char> {
    "route "@ + decimal(i) + " has multiple entity matchers (need exactly one)"@
}

pub open spec fn route_unknown_message(i: nat, name: Seq<char>) -> Seq<char> {
    "route "@ + decimal(i) + " references unknown plugin '"@ + name + "'"@
}

pub open spec fn group_unknown_message(group: Seq<char>, name: Seq<char>) -> Seq<char> {
    "policy group '"@ + group + "' references unknown plugin '"@ + name + "'"@
}

/// The first name among the first `n` that repeats an earlier one.
pub open spec fn first_duplicate(names: Seq<Seq<char>>, n: int) -> Option<Seq<char>>
    decreases n,
{
    if n <= 0 {
        None
    } else {
        match first_duplicate(names, n - 1) {
            Some(d) => Some(d),
            None => if names.take(n - 1).contains(names[n - 1]) {
                Some(names[n - 1])
            } else {
                None
            },
        }
    }
}

/// The first of the first `n` references whose plugin is not declared.
pub open spec fn first_unknown(refs: Seq<PluginRouteRef>, known: Seq<Seq<char>>, n: int) -> Option<Seq<char>>
    decreases n,
{
    if n <= 0 {
        None
    } else {
        match first_unknown(refs, known, n - 1) {
            Some(u) => Some(u),
            None => if known.contains(ref_name(refs[n - 1])) {
                None
            } else {
                Some(ref_name(refs[n - 1]))
            },
        }
    }
}

/// How many entity matchers a route declares.
pub open spec fn matcher_count(r: RouteEntry) -> nat {
    (if r.tool is Some { 1nat } else { 0nat }) + (if r.resource is Some { 1nat } else { 0nat })
        + (if r.prompt is Some { 1nat } else { 0nat }) + (if r.llm is Some { 1nat } else { 0nat })
}

/// What is wrong with route `i`, if anything.
pub open spec fn route_error(r: RouteEntry, i: nat, known: Seq<Seq<char>>) -> Option<Seq<char>> {
    if matcher_count(r) == 0 {
        Some(no_matcher_message(i))
    } else if matcher_count(r) > 1 {
        Some(multiple_matchers_message(i))
    } else {
        match first_unknown(r.plugins@, known, r.plugins@.len() as int) {
            Some(u) => Some(route_unknown_message(i, u)),
            None => None,
        }
    }
}

/// The first error among the first `n` routes.
pub open spec fn routes_error(routes: Seq<RouteEntry>, known: Seq<Seq<char>>, n: int) -> Option<Seq<char>>
    decreases n,
{
    if n <= 0 {
        None
    } else {
        match routes_error(routes, known, n - 1) {
            Some(e) => Some(e),
            None => route_error(routes[n - 1], (n - 1) as nat, known),
        }
    }
}

/// The first error among the first `n` policy groups.
pub open spec fn groups_error(groups: Seq<(String, PolicyGroup)>, known: Seq<Seq<char>>, n: int) -> Option<Seq<char>>
    decreases n,
{
    if n <= 0 {
        None
    } else {
        match groups_error(groups, known, n - 1) {
            Some(e) => Some(e),
            None => {
                let g = groups[n - 1];
                match first_unknown(g.1.plugins@, known, g.1.plugins@.len() as int) {
                    Some(u) => Some(group_unknown_message(g.0@, u)),
                    None => None,
                }
            },
        }
    }
}

/// What validation reports for a configuration: the message of its
/// first structural error, or nothing. Duplicate plugin names are always
/// checked; routes and policy groups only when routing is enabled.
pub open spec fn config_error(c: CpexConfig) -> Option<Seq<char>> {
    let names = plugin_names(c);
    match first_duplicate(names, names.len() as int) {
        Some(d) => Some(duplicate_message(d)),
        None => if !c.plugin_settings.routing_enabled {
            None
        } else {
            match routes_error(c.routes@, names, c.routes@.len() as int) {
                Some(e) => Some(e),
                None => groups_error(c.global.policies@, names, c.global.policies@.len() as int),
            }
        },
    }
}

fn config_failure(message: String) -> (r: Result<(), Box<PluginError>>)
    ensures
        r matches Err(e) && *e == (PluginError::Config { message }),
{
    Err(Box::new(PluginError::Config { message }))
}

/// The first reference among `refs` whose plugin is not declared.
fn find_unknown<'a>(refs: &'a Vec<PluginRouteRef>, known: &Vec<String>) -> (r: Option<&'a str>)
    ensures
        match first_unknown(refs@, strs_view(known@), refs@.len() as int) {
            None => r is None,
            Some(u) => r matches Some(x) && x@ == u,
        },
{
    let mut i: usize = 0;
    while i < refs.len()
        invariant
            i <= refs.len(),
            first_unknown(refs@, strs_view(known@), i as int) is None,
        decreases refs.len() - i,
    {
        let n = refs[i].name();
        if !strings_contain(known, n) {
            proof {
                assert(first_unknown(refs@, strs_view(known@), i + 1) == Some(ref_name(refs@[i as int])));
                lemma_first_unknown_stable(refs@, strs_view(known@), i + 1, refs@.len() as int);
            }
            return Some(n);
        }
        i += 1;
    }
    None
}

proof fn lemma_first_unknown_stable(refs: Seq<PluginRouteRef>, known: Seq<Seq<char>>, m: int, n: int)
    requires
        0 <= m <= n,
        first_unknown(refs, known, m) is Some,
    ensures
        first_unknown(refs, known, n) == first_unknown(refs, known, m),
    decreases n - m,
{
    if m < n {
        lemma_first_unknown_stable(refs, known, m, n - 1);
    }
}

proof fn lemma_routes_error_stable(routes: Seq<RouteEntry>, known: Seq<Seq<char>>, m: int, n: int)
    requires
        0 <= m <= n,
        routes_error(routes, known, m) is Some,
    ensures
        routes_error(routes, known, n) == routes_error(routes, known, m),
    decreases n - m,
{
    if m < n {
        lemma_routes_error_stable(routes, known, m, n - 1);
    }
}

proof fn lemma_groups_error_stable(groups: Seq<(String, PolicyGroup)>, known: Seq<Seq<char>>, m: int, n: int)
    requires
        0 <= m <= n,
        groups_error(groups, known, m) is Some,
    ensures
        groups_error(groups, known, n) == groups_error(groups, known, m),
    decreases n - m,
{
    if m < n {
        lemma_groups_error_stable(groups, known, m, n - 1);
    }
}

proof fn lemma_first_duplicate_stable(names: Seq<Seq<char>>, m: int, n: int)
    requires
        0 <= m <= n,
        first_duplicate(names, m) is Some,
    ensures
        first_duplicate(names, n) == first_duplicate(names, m),
    decreases n - m,
{
    if m < n {
        lemma_first_duplicate_stable(names, m, n - 1);
    }
}

fn count_matchers(route: &RouteEntry) -> (n: usize)
    ensures
        n == matcher_count(*route),
{
    let mut n: usize = 0;
    if route.tool.is_some() {
        n += 1;
    }
    if route.resource.is_some() {
        n += 1;
    }
    if route.prompt.is_some() {
        n += 1;
    }
    if route.llm.is_some() {
        n += 1;
    }
    n
}

/// Validate a configuration's structure.
///
/// Fails on a duplicate plugin name; when routing is enabled, also on a
/// route with no entity matcher or more than one, and on a route or
/// policy group that references an undeclared plugin. The error is a
/// configuration error whose message names the first problem found.
pub fn validate_config(config: &CpexConfig) -> (r: Result<(), Box<PluginError>>)
    ensures
        r is Ok <==> config_valid(*config),
        r is Ok <==> config_error(*config) is None,
        r matches Err(e) ==> (*e matches PluginError::Config { message }
            && config_error(*config) == Some(message@)),
{
    proof {
        lemma_config_valid(*config);
    }
    check_config(config)
}

/// The first structural error of a configuration, as a configuration
/// error.
fn check_config(config: &CpexConfig) -> (r: Result<(), Box<PluginError>>)
    ensures
        r is Ok <==> config_error(*config) is None,
        r matches Err(e) ==> (*e matches PluginError::Config { message }
            && config_error(*config) == Some(message@)),
{
    let ghost names = plugin_names(*config);
    // Duplicate names.
    let mut seen: Vec<String> = Vec::new();
    let mut i: usize = 0;
    while i < config.plugins.len()
        invariant
            i <= config.plugins.len(),
            names == plugin_names(*config),
            strs_view(seen@) == names.take(i as int),
            first_duplicate(names, i as int) is None,
        decreases config.plugins.len() - i,
    {
        let name = &config.plugins[i].name;
        assert(names[i as int] == name@);
        if strings_contain(&seen, name.as_str()) {
            let mut msg = String::from_str("duplicate plugin name: '");
            msg.append(name.as_str());
            msg.append("'");
            proof {
                assert(first_duplicate(names, i + 1) == Some(name@));
                lemma_first_duplicate_stable(names, i + 1, names.len() as int);
            }
            return config_failure(msg);
        }
        seen.push(name.clone());
        assert(names.take(i + 1) == names.take(i as int).push(names[i as int]));
        i += 1;
    }
    assert(names.take(config.plugins.len() as int) == names);
    if !config.routing_enabled() {
        return Ok(());
    }
    // `seen` now holds every declared name.
    let mut i: usize = 0;
    while i < config.routes.len()
        invariant
            i <= config.routes.len(),
            names == plugin_names(*config),
            strs_view(seen@) == names,
            first_duplicate(names, names.len() as int) is None,
            config.plugin_settings.routing_enabled,
            routes_error(config.routes@, names, i as int) is None,
        decreases config.routes.len() - i,
    {
        let route = &config.routes[i];
        let count = count_matchers(route);
        if count == 0 {
            let mut msg = String::from_str("route ");
            push_decimal(&mut msg, i);
            msg.append(" has no entity matcher (need tool, resource, prompt, or llm)");
            proof {
                assert(route_error(config.routes@[i as int], i as nat, names) == Some(no_matcher_message(i as nat)));
                assert(routes_error(config.routes@, names, i + 1) == Some(no_matcher_message(i as nat)));
                lemma_routes_error_stable(config.routes@, names, i + 1, config.routes@.len() as int);
            }
            return config_failure(msg);
        }
        if count > 1 {
            let mut msg = String::from_str("route ");
            push_decimal(&mut msg, i);
            msg.append(" has multiple entity matchers (need exactly one)");
            proof {
                lemma_routes_error_stable(config.routes@, names, i + 1, config.routes@.len() as int);
            }
            return config_failure(msg);
        }
        match find_unknown(&route.plugins, &seen) {
            Some(u) => {
                let mut msg = String::from_str("route ");
                push_decimal(&mut msg, i);
                msg.append(" references unknown plugin '");
                msg.append(u);
                msg.append("'");
                proof {
                    lemma_routes_error_stable(config.routes@, names, i + 1, config.routes@.len() as int);
                }
                return config_failure(msg);
            },
            None => {},
        }
        i += 1;
    }
    let mut j: usize = 0;
    while j < config.global.policies.len()
        invariant
            j <= config.global.policies.len(),
            names == plugin_names(*config),
            strs_view(seen@) == names,
            first_duplicate(names, names.len() as int) is None,
            config.plugin_settings.routing_enabled,
            routes_error(config.routes@, names, config.routes@.len() as int) is None,
            groups_error(config.global.policies@, names, j as int) is None,
        decreases config.global.policies.len() - j,
    {
        let group = &config.global.policies[j];
        match find_unknown(&group.1.plugins, &seen) {
            Some(u) => {
                let mut msg = String::from_str("policy group '");
                msg.append(group.0.as_str());
                msg.append("' references unknown plugin '");
                msg.append(u);
                msg.append("'");
                proof {
                    assert(groups_error(config.global.policies@, names, j + 1)
                        == Some(group_unknown_message(group.0@, u@)));
                    lemma_groups_error_stable(config.global.policies@, names, j + 1,
                        config.global.policies@.len() as int);
                }
                return config_failure(msg);
            },
            None => {},
        }
        j += 1;
    }
    Ok(())
}

// ---------------------------------------------------------------------------
// Route matching
// ---------------------------------------------------------------------------

/// The scope a route is restricted to, if any.
pub open spec fn route_scope(r: RouteEntry) -> Option<Seq<char>> {
    match r.meta {
        Some(m) => opt_str_view(m.scope),
        None => None,
    }
}

/// The route's matcher for an entity type; `None` for an unknown type.
pub open spec fn route_matcher(r: RouteEntry, entity_type: Seq<char>) -> Option<Option<StringOrList>> {
    if entity_type == "tool"@ {
        Some(r.tool)
    } else if entity_type == "resource"@ {
        Some(r.resource)
    } else if entity_type == "prompt"@ {
        Some(r.prompt)
    } else if entity_type == "llm"@ {
        Some(r.llm)
    } else {
        None
    }
}

/// The total specificity with which a route matches a request, or
/// `None` when it does not apply: a scoped route needs the request's
/// scope to equal its own (and then earns the scope bonus), the entity
/// type must be known, and the route's matcher must match the name. A
/// `when` clause adds its bonus.
pub open spec fn route_total(r: RouteEntry, entity_type: Seq<char>, name: Seq<char>,
    scope: Option<Seq<char>>) -> Option<nat>
{
    let bonus: Option<nat> = match route_scope(r) {
        None => Some(0nat),
        Some(rs) => if scope == Some(rs) { Some(SCOPE_BONUS as nat) } else { None },
    };
    match bonus {
        None => None,
        Some(b) => match route_matcher(r, entity_type) {
            None => None,
            Some(None) => None,
            Some(Some(m)) => match matcher_score(m@, name) {
                None => None,
                Some(base) => Some(base + b + (if r.when is Some { SPECIFICITY_WHEN_ONLY as nat } else { 0nat })),
            },
        },
    }
}

/// The best of the first `n` routes and its score: the highest total,
/// the earliest among equals.
pub open spec fn best_route(routes: Seq<RouteEntry>, entity_type: Seq<char>, name: Seq<char>,
    scope: Option<Seq<char>>, n: int) -> Option<(int, nat)>
    decreases n,
{
    if n <= 0 {
        None
    } else {
        let prev = best_route(routes, entity_type, name, scope, n - 1);
        match route_total(routes[n - 1], entity_type, name, scope) {
            None => prev,
            Some(t) => match prev {
                None => Some((n - 1, t)),
                Some(b) => if t > b.1 { Some((n - 1, t)) } else { prev },
            },
        }
    }
}

/// The route chosen for a request.
pub open spec fn chosen_route(c: CpexConfig, entity_type: Seq<char>, name: Seq<char>,
    scope: Option<Seq<char>>) -> Option<int>
{
    match best_route(c.routes@, entity_type, name, scope, c.routes@.len() as int) {
        Some(b) => Some(b.0),
        None => None,
    }
}

/// The spec view of an optional string slice.
pub open spec fn opt_slice_view(o: Option<&str>) -> Option<Seq<char>> {
    match o {
        Some(s) => Some(s@),
        None => None,
    }
}

fn matcher_for<'a>(route: &'a RouteEntry, entity_type: &str) -> (r: Option<&'a Option<StringOrList>>)
    ensures
        match route_matcher(*route, entity_type@) {
            None => r is None,
            Some(m) => r == Some(&m),
        },
{
    if str_eq(entity_type, "tool") {
        Some(&route.tool)
    } else if str_eq(entity_type, "resource") {
        Some(&route.resource)
    } else if str_eq(entity_type, "prompt") {
        Some(&route.prompt)
    } else if str_eq(entity_type, "llm") {
        Some(&route.llm)
    } else {
        None
    }
}

fn route_score(route: &RouteEntry, entity_type: &str, entity_name: &str,
    request_scope: Option<&str>) -> (r: Option<usize>)
    ensures
        match route_total(*route, entity_type@, entity_name@, opt_slice_view(request_scope)) {
            None => r is None,
            Some(t) => r == Some(t as usize),
        },
{
    let scope_bonus: usize = match &route.meta {
        Some(m) => match &m.scope {
            None => 0,
            Some(rs) => match request_scope {
                Some(rq) => {
                    if str_eq(rs.as_str(), rq) {
                        SCOPE_BONUS
                    } else {
                        return None;
                    }
                },
                None => {
                    return None;
                },
            },
        },
        None => 0,
    };
    let matcher = match matcher_for(route, entity_type) {
        Some(m) => m,
        None => {
            return None;
        },
    };
    let base = match score_entity_match(matcher, entity_name) {
        Some(b) => b,
        None => {
            return None;
        },
    };
    let when_bonus: usize = if route.when.is_some() { SPECIFICITY_WHEN_ONLY } else { 0 };
    Some(base + scope_bonus + when_bonus)
}

/// Find the route that applies to an entity: the one with the highest
/// specificity, the earliest among equals. A scoped route applies only
/// to requests of the same scope; an unscoped route to every request.
pub fn find_matching_route(config: &CpexConfig, entity_type: &str, entity_name: &str,
    request_scope: Option<&str>) -> (r: Option<usize>)
    ensures
        match chosen_route(*config, entity_type@, entity_name@, opt_slice_view(request_scope)) {
            None => r is None,
            Some(i) => r == Some(i as usize),
        },
        r matches Some(i) ==> i < config.routes@.len(),
        r is None <==> forall|j: int| 0 <= j < config.routes@.len()
            ==> #[trigger] route_total(config.routes@[j], entity_type@, entity_name@,
                opt_slice_view(request_scope)) is None,
        r matches Some(i) ==> route_total(config.routes@[i as int], entity_type@, entity_name@,
            opt_slice_view(request_scope)) is Some,
        r matches Some(i) ==> forall|j: int| 0 <= j < config.routes@.len() && (#[trigger] route_total(
            config.routes@[j], entity_type@, entity_name@, opt_slice_view(request_scope))) is Some
            ==> route_total(config.routes@[j], entity_type@, entity_name@, opt_slice_view(request_scope)).unwrap()
                <= route_total(config.routes@[i as int], entity_type@, entity_name@, opt_slice_view(request_scope)).unwrap(),
        r matches Some(i) ==> forall|j: int| 0 <= j < i && (#[trigger] route_total(
            config.routes@[j], entity_type@, entity_name@, opt_slice_view(request_scope))) is Some
            ==> route_total(config.routes@[j], entity_type@, entity_name@, opt_slice_view(request_scope)).unwrap()
                < route_total(config.routes@[i as int], entity_type@, entity_name@, opt_slice_view(request_scope)).unwrap(),
{
    proof {
        lemma_best_route_is_maximal(config.routes@, entity_type@, entity_name@, opt_slice_view(request_scope),
            config.routes@.len() as int);
    }
    let ghost scope = opt_slice_view(request_scope);
    let mut best: Option<(usize, usize)> = None;
    let mut i: usize = 0;
    while i < config.routes.len()
        invariant
            i <= config.routes.len(),
            scope == opt_slice_view(request_scope),
            best is Some <==> best_route(config.routes@, entity_type@, entity_name@, scope, i as int) is Some,
            best matches Some(e) ==> ({
                let b = best_route(config.routes@, entity_type@, entity_name@, scope, i as int).unwrap();
                e.0 == b.0 && e.1 == b.1 && e.0 < i
            }),
        decreases config.routes.len() - i,
    {
        let ghost prev = best_route(config.routes@, entity_type@, entity_name@, scope, i as int);
        let ghost t = route_total(config.routes@[i as int], entity_type@, entity_name@, scope);
        assert(t matches Some(x) ==> x <= 1110);
        assert(best_route(config.routes@, entity_type@, entity_name@, scope, i + 1) == match t {
            None => prev,
            Some(x) => match prev {
                None => Some((i as int, x)),
                Some(b) => if x > b.1 { Some((i as int, x)) } else { prev },
            },
        });
        let sc = route_score(&config.routes[i], entity_type, entity_name, request_scope);
        match sc {
            None => {},
            Some(total) => {
                match best {
                    None => {
                        best = Some((i, total));
                    },
                    Some(b) => {
                        if total > b.1 {
                            best = Some((i, total));
                        }
                    },
                }
            },
        }
        i += 1;
    }
    match best {
        Some(b) => Some(b.0),
        None => None,
    }
}

/// The chosen route has the highest total of all routes that apply,
/// and a strictly higher one than every route before it.
pub proof fn lemma_best_route_is_maximal(routes: Seq<RouteEntry>, entity_type: Seq<char>,
    name: Seq<char>, scope: Option<Seq<char>>, n: int)
    requires
        0 <= n <= routes.len(),
    ensures
        match best_route(routes, entity_type, name, scope, n) {
            None => forall|j: int| 0 <= j < n ==> route_total(routes[j], entity_type, name, scope) is None,
            Some(b) => 0 <= b.0 < n
                && route_total(routes[b.0], entity_type, name, scope) == Some(b.1)
                && (forall|j: int| 0 <= j < n && route_total(routes[j], entity_type, name, scope) is Some
                    ==> route_total(routes[j], entity_type, name, scope).unwrap() <= b.1)
                && (forall|j: int| 0 <= j < b.0 && route_total(routes[j], entity_type, name, scope) is Some
                    ==> route_total(routes[j], entity_type, name, scope).unwrap() < b.1),
        },
    decreases n,
{
    if n > 0 {
        lemma_best_route_is_maximal(routes, entity_type, name, scope, n - 1);
    }
}

// ---------------------------------------------------------------------------
// Route resolution
// ---------------------------------------------------------------------------

/// A plugin selected for an entity, with the overrides and `when`
/// clause its reference carried.
#[derive(Debug)]
pub struct ResolvedPlugin {
    pub name: String,
    pub config_overrides: Option<JsonValue>,
    /// The route's `when` clause, carried but not evaluated.
    pub when: Option<String>,
}

/// The content of a resolved plugin.
pub struct ResolvedView {
    pub name: Seq<char>,
    pub overrides: Option<JsonView>,
    pub when: Option<Seq<char>>,
}

pub open spec fn opt_json_view(o: Option<JsonValue>) -> Option<JsonView> {
    match o {
        Some(v) => Some(v@),
        None => None,
    }
}

pub open spec fn resolved_view(r: ResolvedPlugin) -> ResolvedView {
    ResolvedView { name: r.name@, overrides: opt_json_view(r.config_overrides), when: opt_str_view(r.when) }
}

pub open spec fn resolved_views(s: Seq<ResolvedPlugin>) -> Seq<ResolvedView> {
    s.map_values(|r: ResolvedPlugin| resolved_view(r))
}

/// What a reference resolves to under an optional `when` clause.
pub open spec fn ref_resolved(r: PluginRouteRef, when: Option<Seq<char>>) -> ResolvedView {
    ResolvedView { name: ref_name(r), overrides: ref_overrides(r), when }
}

pub open spec fn refs_resolved(refs: Seq<PluginRouteRef>, when: Option<Seq<char>>) -> Seq<ResolvedView> {
    refs.map_values(|r: PluginRouteRef| ref_resolved(r, when))
}

/// The index of the first of the first `n` groups named `key`.
pub open spec fn first_key_index(groups: Seq<(String, PolicyGroup)>, key: Seq<char>, n: int) -> Option<int>
    decreases n,
{
    if n <= 0 {
        None
    } else {
        match first_key_index(groups, key, n - 1) {
            Some(i) => Some(i),
            None => if groups[n - 1].0@ == key { Some(n - 1) } else { None },
        }
    }
}

/// The plugin references of the group named `key`, none if there is
/// no such group.
pub open spec fn group_refs(groups: Seq<(String, PolicyGroup)>, key: Seq<char>) -> Seq<PluginRouteRef> {
    match first_key_index(groups, key, groups.len() as int) {
        Some(i) => groups[i].1.plugins@,
        None => Seq::empty(),
    }
}

/// The first `n` items with repeats dropped, first occurrences kept in
/// order (a set that remembers insertion order).
pub open spec fn dedup_first(s: Seq<Seq<char>>, n: int) -> Seq<Seq<char>>
    decreases n,
{
    if n <= 0 {
        Seq::empty()
    } else {
        let d = dedup_first(s, n - 1);
        if d.contains(s[n - 1]) { d } else { d.push(s[n - 1]) }
    }
}

/// The static tags of a route.
pub open spec fn route_tags(r: RouteEntry) -> Seq<Seq<char>> {
    match r.meta {
        Some(m) => strs_view(m.tags@),
        None => Seq::empty(),
    }
}

/// The request's tags merged with a route's, each once.
pub open spec fn merged_tags(request_tags: Seq<Seq<char>>, r: RouteEntry) -> Seq<Seq<char>> {
    let all = request_tags + route_tags(r);
    dedup_first(all, all.len() as int)
}

/// The plugins the first `n` tags select through policy groups; the
/// reserved `all` group is skipped, having been applied already.
pub open spec fn tags_resolved(groups: Seq<(String, PolicyGroup)>, tags: Seq<Seq<char>>, n: int) -> Seq<ResolvedView>
    decreases n,
{
    if n <= 0 {
        Seq::empty()
    } else {
        tags_resolved(groups, tags, n - 1) + if tags[n - 1] == "all"@ {
            Seq::empty()
        } else {
            refs_resolved(group_refs(groups, tags[n - 1]), None)
        }
    }
}

/// Every plugin selected for an entity, repeats included, in order:
/// the `all` group, the entity type's default group, then, if a route
/// applies, the groups its merged tags select and the route's own
/// plugins carrying its `when` clause.
pub open spec fn collected(c: CpexConfig, entity_type: Seq<char>, name: Seq<char>,
    scope: Option<Seq<char>>, request_tags: Seq<Seq<char>>) -> Seq<ResolvedView>
{
    refs_resolved(group_refs(c.global.policies@, "all"@), None)
        + refs_resolved(group_refs(c.global.defaults@, entity_type), None)
        + match chosen_route(c, entity_type, name, scope) {
            Some(i) => {
                let r = c.routes@[i];
                let tags = merged_tags(request_tags, r);
                tags_resolved(c.global.policies@, tags, tags.len() as int)
                    + refs_resolved(r.plugins@, opt_str_view(r.when))
            },
            None => Seq::empty(),
        }
}

/// Whether a later item bears the same name as item `i`.
pub open spec fn named_later(s: Seq<ResolvedView>, i: int) -> bool {
    exists|j: int| i < j < s.len() && #[trigger] s[j].name == s[i].name
}

/// The first `n` items, keeping only the last occurrence of each name.
pub open spec fn keep_last(s: Seq<ResolvedView>, n: int) -> Seq<ResolvedView>
    decreases n,
{
    if n <= 0 {
        Seq::empty()
    } else {
        keep_last(s, n - 1) + if named_later(s, n - 1) { Seq::empty() } else { seq![s[n - 1]] }
    }
}

/// What resolution returns. With routing disabled, every declared
/// plugin, in order, with no overrides and no `when` clause; with it
/// enabled, the collected plugins with repeats removed, later ones
/// winning, in order.
pub open spec fn resolve_spec(c: CpexConfig, entity_type: Seq<char>, name: Seq<char>,
    scope: Option<Seq<char>>, request_tags: Seq<Seq<char>>) -> Seq<ResolvedView>
{
    if !c.plugin_settings.routing_enabled {
        c.plugins@.map_values(|p: PluginConfig| ResolvedView { name: p.name@, overrides: None, when: None })
    } else {
        let all = collected(c, entity_type, name, scope, request_tags);
        keep_last(all, all.len() as int)
    }
}

fn clone_opt_json(o: &Option<JsonValue>) -> (r: Option<JsonValue>)
    ensures
        opt_json_view(r) == opt_json_view(*o),
{
    match o {
        Some(v) => Some(v.clone()),
        None => None,
    }
}

fn clone_resolved(r: &ResolvedPlugin) -> (c: ResolvedPlugin)
    ensures
        resolved_view(c) == resolved_view(*r),
{
    ResolvedPlugin {
        name: r.name.clone(),
        config_overrides: clone_opt_json(&r.config_overrides),
        when: crate::text::clone_opt_string(&r.when),
    }
}

/// Append the plugins a list of references selects.
fn collect_plugin_refs(refs: &Vec<PluginRouteRef>, resolved: &mut Vec<ResolvedPlugin>,
    route_when: Option<&str>)
    ensures
        resolved_views(final(resolved)@) == resolved_views(old(resolved)@)
            + refs_resolved(refs@, opt_slice_view(route_when)),
{
    let ghost wv = opt_slice_view(route_when);
    let mut i: usize = 0;
    while i < refs.len()
        invariant
            i <= refs.len(),
            wv == opt_slice_view(route_when),
            resolved_views(resolved@) == resolved_views(old(resolved)@)
                + refs_resolved(refs@.take(i as int), wv),
        decreases refs.len() - i,
    {
        let r = &refs[i];
        let overrides = match r.overrides() {
            Some(v) => Some(v.clone()),
            None => None,
        };
        let w = match route_when {
            Some(x) => Some(String::from_str(x)),
            None => None,
        };
        let item = ResolvedPlugin { name: String::from_str(r.name()), config_overrides: overrides, when: w };
        assert(resolved_view(item) == ref_resolved(refs@[i as int], wv));
        let ghost before = resolved@;
        resolved.push(item);
        assert(resolved_views(resolved@) == resolved_views(before).push(resolved_view(item)));
        assert(refs@.take(i + 1) == refs@.take(i as int).push(refs@[i as int]));
        assert(refs_resolved(refs@.take(i + 1), wv)
            == refs_resolved(refs@.take(i as int), wv).push(ref_resolved(refs@[i as int], wv)));
        i += 1;
    }
    assert(refs@.take(refs.len() as int) == refs@);
}

/// The group named `key`, if any (the first so named).
fn lookup_group<'a>(groups: &'a Vec<(String, PolicyGroup)>, key: &str) -> (r: Option<&'a PolicyGroup>)
    ensures
        match first_key_index(groups@, key@, groups@.len() as int) {
            None => r is None,
            Some(i) => r == Some(&groups@[i].1),
        },
{
    let mut i: usize = 0;
    while i < groups.len()
        invariant
            i <= groups.len(),
            first_key_index(groups@, key@, i as int) is None,
        decreases groups.len() - i,
    {
        if str_eq(groups[i].0.as_str(), key) {
            proof {
                lemma_first_key_index_stable(groups@, key@, i + 1, groups@.len() as int);
            }
            return Some(&groups[i].1);
        }
        i += 1;
    }
    None
}

proof fn lemma_first_key_index_stable(groups: Seq<(String, PolicyGroup)>, key: Seq<char>, m: int, n: int)
    requires
        0 <= m <= n,
        first_key_index(groups, key, m) is Some,
    ensures
        first_key_index(groups, key, n) == first_key_index(groups, key, m),
    decreases n - m,
{
    if m < n {
        lemma_first_key_index_stable(groups, key, m, n - 1);
    }
}

/// Append the plugins of the group named `key`, if there is one.
fn collect_group(groups: &Vec<(String, PolicyGroup)>, key: &str, resolved: &mut Vec<ResolvedPlugin>)
    ensures
        resolved_views(final(resolved)@) == resolved_views(old(resolved)@)
            + refs_resolved(group_refs(groups@, key@), None),
{
    match lookup_group(groups, key) {
        Some(g) => {
            collect_plugin_refs(&g.plugins, resolved, None);
        },
        None => {
            assert(resolved_views(old(resolved)@) + refs_resolved(Seq::empty(), None)
                == resolved_views(old(resolved)@));
        },
    }
}

/// The request's tags merged with the route's, each once.
fn merge_tags(request_tags: &Vec<String>, route: &RouteEntry) -> (r: Vec<String>)
    ensures
        strs_view(r@) == merged_tags(strs_view(request_tags@), *route),
{
    let ghost all = strs_view(request_tags@) + route_tags(*route);
    let mut out: Vec<String> = Vec::new();
    let mut i: usize = 0;
    while i < request_tags.len()
        invariant
            i <= request_tags.len(),
            all == strs_view(request_tags@) + route_tags(*route),
            strs_view(out@) == dedup_first(all, i as int),
        decreases request_tags.len() - i,
    {
        assert(all[i as int] == request_tags@[i as int]@);
        if !strings_contain(&out, request_tags[i].as_str()) {
            out.push(request_tags[i].clone());
            assert(strs_view(out@) == dedup_first(all, i as int).push(all[i as int]));
        }
        i += 1;
    }
    match &route.meta {
        Some(m) => {
            let n = request_tags.len();
            let mut k: usize = 0;
            while k < m.tags.len()
                invariant
                    k <= m.tags.len(),
                    n == request_tags@.len(),
                    route.meta == Some(*m),
                    all == strs_view(request_tags@) + route_tags(*route),
                    strs_view(out@) == dedup_first(all, n + k),
                decreases m.tags.len() - k,
            {
                assert(all[n + k] == m.tags@[k as int]@);
                if !strings_contain(&out, m.tags[k].as_str()) {
                    out.push(m.tags[k].clone());
                    assert(strs_view(out@) == dedup_first(all, n + k).push(all[n + k]));
                }
                k += 1;
            }
        },
        None => {},
    }
    out
}

/// Append the plugins selected by the groups the tags name.
fn collect_tag_groups(groups: &Vec<(String, PolicyGroup)>, tags: &Vec<String>,
    resolved: &mut Vec<ResolvedPlugin>)
    ensures
        resolved_views(final(resolved)@) == resolved_views(old(resolved)@)
            + tags_resolved(groups@, strs_view(tags@), tags@.len() as int),
{
    let mut i: usize = 0;
    while i < tags.len()
        invariant
            i <= tags.len(),
            resolved_views(resolved@) == resolved_views(old(resolved)@)
                + tags_resolved(groups@, strs_view(tags@), i as int),
        decreases tags.len() - i,
    {
        let ghost before = resolved_views(resolved@);
        assert(strs_view(tags@)[i as int] == tags@[i as int]@);
        if !str_eq(tags[i].as_str(), "all") {
            collect_group(groups, tags[i].as_str(), resolved);
        } else {
            assert(before + Seq::<ResolvedView>::empty() == before);
        }
        i += 1;
    }
}

/// Whether a later item in `items` bears the name of item `i`.
fn has_later_namesake(items: &Vec<ResolvedPlugin>, i: usize) -> (r: bool)
    requires
        i < items@.len(),
    ensures
        r == named_later(resolved_views(items@), i as int),
{
    let ghost s = resolved_views(items@);
    assert(i < items.len());
    let mut j: usize = i;
    j += 1;
    while j < items.len()
        invariant
            i < j <= items.len(),
            s == resolved_views(items@),
            forall|k: int| i < k < j ==> s[k].name != s[i as int].name,
        decreases items.len() - j,
    {
        if str_eq(items[j].name.as_str(), items[i].name.as_str()) {
            assert(s[j as int].name == s[i as int].name);
            return true;
        }
        j += 1;
    }
    false
}

/// Keep the last occurrence of each name, in order.
fn dedup_keep_last(items: &Vec<ResolvedPlugin>) -> (r: Vec<ResolvedPlugin>)
    ensures
        resolved_views(r@) == keep_last(resolved_views(items@), items@.len() as int),
{
    let ghost s = resolved_views(items@);
    let mut out: Vec<ResolvedPlugin> = Vec::new();
    let mut i: usize = 0;
    while i < items.len()
        invariant
            i <= items.len(),
            s == resolved_views(items@),
            resolved_views(out@) == keep_last(s, i as int),
        decreases items.len() - i,
    {
        if !has_later_namesake(items, i) {
            let c = clone_resolved(&items[i]);
            let ghost before = out@;
            out.push(c);
            assert(resolved_views(out@) == resolved_views(before).push(s[i as int]));
            assert(keep_last(s, i + 1) == keep_last(s, i as int) + seq![s[i as int]]);
        } else {
            assert(keep_last(s, i + 1) == keep_last(s, i as int) + Seq::<ResolvedView>::empty());
        }
        i += 1;
    }
    out
}

/// Resolve which plugins fire for an entity.
///
/// With routing disabled, every declared plugin. With it enabled: the
/// `all` group, the entity type's default group, and, when a route
/// matches (see `find_matching_route`), the groups selected by the
/// request's tags merged with the route's and the route's own plugins,
/// which carry its `when` clause. A plugin selected twice keeps its
/// last selection, at that position.
pub fn resolve_plugins_for_entity(config: &CpexConfig, entity_type: &str, entity_name: &str,
    request_scope: Option<&str>, request_tags: &Vec<String>) -> (r: Vec<ResolvedPlugin>)
    ensures
        resolved_views(r@) == resolve_spec(*config, entity_type@, entity_name@,
            opt_slice_view(request_scope), strs_view(request_tags@)),
{
    if !config.routing_enabled() {
        let mut out: Vec<ResolvedPlugin> = Vec::new();
        let mut i: usize = 0;
        while i < config.plugins.len()
            invariant
                i <= config.plugins.len(),
                resolved_views(out@) == config.plugins@.take(i as int).map_values(
                    |p: PluginConfig| ResolvedView { name: p.name@, overrides: None, when: None }),
            decreases config.plugins.len() - i,
        {
            let ghost before = out@;
            out.push(ResolvedPlugin { name: config.plugins[i].name.clone(), config_overrides: None, when: None });
            assert(config.plugins@.take(i + 1) == config.plugins@.take(i as int).push(config.plugins@[i as int]));
            assert(resolved_views(out@) == resolved_views(before).push(
                ResolvedView { name: config.plugins@[i as int].name@, overrides: None, when: None }));
            i += 1;
        }
        assert(config.plugins@.take(config.plugins.len() as int) == config.plugins@);
        return out;
    }
    let ghost scope = opt_slice_view(request_scope);
    let mut resolved: Vec<ResolvedPlugin> = Vec::new();
    collect_group(&config.global.policies, "all", &mut resolved);
    collect_group(&config.global.defaults, entity_type, &mut resolved);
    let ghost head = resolved_views(resolved@);
    proof {
        lemma_best_route_is_maximal(config.routes@, entity_type@, entity_name@, scope, config.routes@.len() as int);
    }
    match find_matching_route(config, entity_type, entity_name, request_scope) {
        Some(i) => {
            let route = &config.routes[i];
            let tags = merge_tags(request_tags, route);
            collect_tag_groups(&config.global.policies, &tags, &mut resolved);
            let route_when = match &route.when {
                Some(w) => Some(w.as_str()),
                None => None,
            };
            let ghost mid = resolved_views(resolved@);
            collect_plugin_refs(&route.plugins, &mut resolved, route_when);
            proof {
                let ghost cr = chosen_route(*config, entity_type@, entity_name@, scope);
                assert(cr is Some);
                assert(0 <= cr.unwrap() < config.routes@.len());
                assert(config.routes@.len() == config.routes.len());
                assert(cr.unwrap() == i as int);
                assert(chosen_route(*config, entity_type@, entity_name@, scope) == Some(i as int));
                assert(head == refs_resolved(group_refs(config.global.policies@, "all"@), None)
                    + refs_resolved(group_refs(config.global.defaults@, entity_type@), None));
                let ghost t = merged_tags(strs_view(request_tags@), *route);
                assert(strs_view(tags@).len() == tags@.len());
                assert(mid == head + tags_resolved(config.global.policies@, t, t.len() as int));
                assert(opt_slice_view(route_when) == opt_str_view(route.when));
                assert(resolved_views(resolved@) == head + (tags_resolved(config.global.policies@, t, t.len() as int)
                    + refs_resolved(route.plugins@, opt_str_view(route.when))));
            }
            assert(resolved_views(resolved@) == collected(*config, entity_type@, entity_name@, scope,
                strs_view(request_tags@)));
        },
        None => {
            assert(resolved_views(resolved@) == collected(*config, entity_type@, entity_name@, scope,
                strs_view(request_tags@)));
        },
    }
    dedup_keep_last(&resolved)
}

// ---------------------------------------------------------------------------
// Laws of resolution and validation
// ---------------------------------------------------------------------------

proof fn lemma_keep_last_shape(s: Seq<ResolvedView>, n: int)
    requires
        0 <= n <= s.len(),
    ensures
        forall|p: int| 0 <= p < keep_last(s, n).len() ==> exists|k: int| 0 <= k < n
            && !named_later(s, k) && #[trigger] keep_last(s, n)[p] == s[k],
        forall|p: int, q: int| 0 <= p < q < keep_last(s, n).len()
            ==> #[trigger] keep_last(s, n)[p].name != #[trigger] keep_last(s, n)[q].name,
    decreases n,
{
    if n > 0 {
        lemma_keep_last_shape(s, n - 1);
        let prev = keep_last(s, n - 1);
        let cur = keep_last(s, n);
        if !named_later(s, n - 1) {
            assert(cur == prev + seq![s[n - 1]]);
            assert forall|p: int| 0 <= p < cur.len() implies exists|k: int| 0 <= k < n
                && !named_later(s, k) && #[trigger] cur[p] == s[k] by {
                if p < prev.len() {
                    assert(cur[p] == prev[p]);
                } else {
                    assert(cur[p] == s[n - 1]);
                }
            }
            assert forall|p: int, q: int| 0 <= p < q < cur.len()
                implies #[trigger] cur[p].name != #[trigger] cur[q].name by {
                if q < prev.len() {
                    assert(cur[p] == prev[p] && cur[q] == prev[q]);
                } else {
                    assert(cur[p] == prev[p]);
                    let k = choose|k: int| 0 <= k < n - 1 && !named_later(s, k) && #[trigger] prev[p] == s[k];
                    if s[n - 1].name == s[k].name {
                        assert(named_later(s, k));
                    }
                }
            }
        } else {
            assert(cur == prev + Seq::<ResolvedView>::empty());
            assert(cur == prev);
        }
    }
}

proof fn lemma_keep_last_contains(s: Seq<ResolvedView>, m: int, n: int)
    requires
        0 <= m < n <= s.len(),
        !named_later(s, m),
    ensures
        keep_last(s, n).contains(s[m]),
    decreases n,
{
    let prev = keep_last(s, n - 1);
    if m == n - 1 {
        assert(keep_last(s, n) == prev + seq![s[m]]);
        assert(keep_last(s, n)[prev.len() as int] == s[m]);
    } else {
        lemma_keep_last_contains(s, m, n - 1);
        let i = choose|i: int| 0 <= i < prev.len() && prev[i] == s[m];
        if named_later(s, n - 1) {
            assert(keep_last(s, n) == prev + Seq::<ResolvedView>::empty());
            assert(keep_last(s, n)[i] == s[m]);
        } else {
            assert(keep_last(s, n) == prev + seq![s[n - 1]]);
            assert(keep_last(s, n)[i] == s[m]);
        }
    }
}

proof fn lemma_keep_last_covers(s: Seq<ResolvedView>, k: int)
    requires
        0 <= k < s.len(),
    ensures
        exists|p: int| 0 <= p < keep_last(s, s.len() as int).len()
            && #[trigger] keep_last(s, s.len() as int)[p].name == s[k].name,
    decreases s.len() - k,
{
    if named_later(s, k) {
        let j = choose|j: int| k < j < s.len() && #[trigger] s[j].name == s[k].name;
        lemma_keep_last_covers(s, j);
    } else {
        lemma_keep_last_contains(s, k, s.len() as int);
        let p = choose|p: int| 0 <= p < keep_last(s, s.len() as int).len()
            && keep_last(s, s.len() as int)[p] == s[k];
        assert(keep_last(s, s.len() as int)[p].name == s[k].name);
    }
}

proof fn lemma_keep_last_order(s: Seq<ResolvedView>, n: int)
    requires
        0 <= n <= s.len(),
    ensures
        forall|p: int, q: int, kp: int, kq: int|
            0 <= p < q < keep_last(s, n).len() && 0 <= kp < s.len() && 0 <= kq < s.len()
            && !named_later(s, kp) && !named_later(s, kq)
            && #[trigger] s[kp].name == (#[trigger] keep_last(s, n)[p]).name
            && #[trigger] s[kq].name == (#[trigger] keep_last(s, n)[q]).name
            ==> kp < kq,
    decreases n,
{
    if n > 0 {
        lemma_keep_last_order(s, n - 1);
        lemma_keep_last_shape(s, n - 1);
        let prev = keep_last(s, n - 1);
        let cur = keep_last(s, n);
        assert forall|p: int, q: int, kp: int, kq: int|
            0 <= p < q < cur.len() && 0 <= kp < s.len() && 0 <= kq < s.len()
            && !named_later(s, kp) && !named_later(s, kq)
            && #[trigger] s[kp].name == (#[trigger] cur[p]).name
            && #[trigger] s[kq].name == (#[trigger] cur[q]).name
            implies kp < kq by {
            if !named_later(s, n - 1) {
                assert(cur == prev + seq![s[n - 1]]);
            } else {
                assert(cur == prev + Seq::<ResolvedView>::empty());
            }
            assert(cur[p] == prev[p]);
            let k = choose|k: int| 0 <= k < n - 1 && !named_later(s, k) && #[trigger] prev[p] == s[k];
            if kp < k {
                assert(named_later(s, kp));
            } else if k < kp {
                assert(named_later(s, k));
            }
            if q < prev.len() {
                assert(cur[q] == prev[q]);
            } else {
                assert(cur[q] == s[n - 1]);
                if kq < n - 1 {
                    assert(named_later(s, kq));
                } else if n - 1 < kq {
                    assert(named_later(s, n - 1));
                }
            }
        }
    }
}

/// Whether a resolution names a plugin.
pub open spec fn names_plugin(r: Seq<ResolvedView>, n: Seq<char>) -> bool {
    exists|p: int| 0 <= p < r.len() && #[trigger] r[p].name == n
}

/// With routing enabled, resolution names each plugin at most once, and
/// every plugin the collection selected is named; each resolved entry is
/// the last selection of its plugin (with that selection's overrides and
/// `when` clause), and entries come in the order of those last
/// selections.
pub proof fn lemma_resolution_dedups(c: CpexConfig, entity_type: Seq<char>, name: Seq<char>,
    scope: Option<Seq<char>>, request_tags: Seq<Seq<char>>)
    requires
        c.plugin_settings.routing_enabled,
    ensures
        forall|p: int, q: int| 0 <= p < q < resolve_spec(c, entity_type, name, scope, request_tags).len()
            ==> #[trigger] resolve_spec(c, entity_type, name, scope, request_tags)[p].name
                != #[trigger] resolve_spec(c, entity_type, name, scope, request_tags)[q].name,
        forall|k: int| 0 <= k < collected(c, entity_type, name, scope, request_tags).len()
            ==> names_plugin(resolve_spec(c, entity_type, name, scope, request_tags),
                #[trigger] collected(c, entity_type, name, scope, request_tags)[k].name),
        forall|p: int| 0 <= p < resolve_spec(c, entity_type, name, scope, request_tags).len()
            ==> collected(c, entity_type, name, scope, request_tags).contains(
                #[trigger] resolve_spec(c, entity_type, name, scope, request_tags)[p]),
        forall|p: int| 0 <= p < resolve_spec(c, entity_type, name, scope, request_tags).len()
            ==> exists|k: int| 0 <= k < collected(c, entity_type, name, scope, request_tags).len()
                && !named_later(collected(c, entity_type, name, scope, request_tags), k)
                && #[trigger] resolve_spec(c, entity_type, name, scope, request_tags)[p]
                    == collected(c, entity_type, name, scope, request_tags)[k],
        forall|p: int, q: int, kp: int, kq: int|
            0 <= p < q < resolve_spec(c, entity_type, name, scope, request_tags).len()
            && 0 <= kp < collected(c, entity_type, name, scope, request_tags).len()
            && 0 <= kq < collected(c, entity_type, name, scope, request_tags).len()
            && !named_later(collected(c, entity_type, name, scope, request_tags), kp)
            && !named_later(collected(c, entity_type, name, scope, request_tags), kq)
            && #[trigger] collected(c, entity_type, name, scope, request_tags)[kp].name
                == (#[trigger] resolve_spec(c, entity_type, name, scope, request_tags)[p]).name
            && #[trigger] collected(c, entity_type, name, scope, request_tags)[kq].name
                == (#[trigger] resolve_spec(c, entity_type, name, scope, request_tags)[q]).name
            ==> kp < kq,
{
    let all = collected(c, entity_type, name, scope, request_tags);
    let r = keep_last(all, all.len() as int);
    assert(resolve_spec(c, entity_type, name, scope, request_tags) == r);
    lemma_keep_last_shape(all, all.len() as int);
    lemma_keep_last_order(all, all.len() as int);
    assert forall|k: int| 0 <= k < all.len() implies names_plugin(r, #[trigger] all[k].name) by {
        lemma_keep_last_covers(all, k);
    }
    assert forall|p: int| 0 <= p < r.len() implies all.contains(#[trigger] r[p]) by {
        let k = choose|k: int| 0 <= k < all.len() && !named_later(all, k) && #[trigger] r[p] == all[k];
        assert(all[k] == r[p]);
    }
}

/// With routing enabled, every plugin of the reserved `all` policy group
/// is resolved for every entity.
pub proof fn lemma_all_group_always_resolved(c: CpexConfig, entity_type: Seq<char>, name: Seq<char>,
    scope: Option<Seq<char>>, request_tags: Seq<Seq<char>>, k: int)
    requires
        c.plugin_settings.routing_enabled,
        0 <= k < group_refs(c.global.policies@, "all"@).len(),
    ensures
        names_plugin(resolve_spec(c, entity_type, name, scope, request_tags),
            ref_name(group_refs(c.global.policies@, "all"@)[k])),
{
    let all = collected(c, entity_type, name, scope, request_tags);
    let head = refs_resolved(group_refs(c.global.policies@, "all"@), None);
    assert(all[k] == head[k]);
    lemma_resolution_dedups(c, entity_type, name, scope, request_tags);
    assert(0 <= k < all.len());
    assert(all[k].name == ref_name(group_refs(c.global.policies@, "all"@)[k]));
}

/// With routing disabled, resolution returns every declared plugin, in
/// order, whatever the entity, with no overrides and no `when` clause.
pub proof fn lemma_routing_disabled_returns_all(c: CpexConfig, entity_type: Seq<char>,
    name: Seq<char>, scope: Option<Seq<char>>, request_tags: Seq<Seq<char>>)
    requires
        !c.plugin_settings.routing_enabled,
    ensures
        resolve_spec(c, entity_type, name, scope, request_tags).len() == c.plugins@.len(),
        forall|i: int| 0 <= i < c.plugins@.len() ==> #[trigger] resolve_spec(c, entity_type, name,
            scope, request_tags)[i] == (ResolvedView { name: c.plugins@[i].name@, overrides: None, when: None }),
{
}

/// Whether every reference in `refs` names a declared plugin.
pub open spec fn refs_known(refs: Seq<PluginRouteRef>, known: Seq<Seq<char>>) -> bool {
    forall|k: int| 0 <= k < refs.len() ==> known.contains(ref_name(#[trigger] refs[k]))
}

/// Whether a route is well-formed: exactly one entity matcher, and only
/// declared plugins.
pub open spec fn route_ok(r: RouteEntry, known: Seq<Seq<char>>) -> bool {
    matcher_count(r) == 1 && refs_known(r.plugins@, known)
}

proof fn lemma_first_duplicate_none(names: Seq<Seq<char>>, n: int)
    requires
        0 <= n <= names.len(),
    ensures
        first_duplicate(names, n) is None
            <==> forall|i: int, j: int| 0 <= i < j < n ==> #[trigger] names[i] != #[trigger] names[j],
    decreases n,
{
    if n > 0 {
        lemma_first_duplicate_none(names, n - 1);
        if first_duplicate(names, n) is None {
            assert forall|i: int, j: int| 0 <= i < j < n implies #[trigger] names[i] != #[trigger] names[j] by {
                if j == n - 1 {
                    assert(names.take(n - 1)[i] == names[i]);
                }
            }
        } else if first_duplicate(names, n - 1) is None {
            let i = choose|i: int| 0 <= i < n - 1 && #[trigger] names.take(n - 1)[i] == names[n - 1];
            assert(names[i] == names[n - 1]);
        }
    }
}

proof fn lemma_first_unknown_none(refs: Seq<PluginRouteRef>, known: Seq<Seq<char>>, n: int)
    requires
        0 <= n <= refs.len(),
    ensures
        first_unknown(refs, known, n) is None
            <==> forall|k: int| 0 <= k < n ==> known.contains(ref_name(#[trigger] refs[k])),
    decreases n,
{
    if n > 0 {
        lemma_first_unknown_none(refs, known, n - 1);
    }
}

proof fn lemma_routes_error_none(routes: Seq<RouteEntry>, known: Seq<Seq<char>>, n: int)
    requires
        0 <= n <= routes.len(),
    ensures
        routes_error(routes, known, n) is None
            <==> forall|i: int| 0 <= i < n ==> route_ok(#[trigger] routes[i], known),
    decreases n,
{
    if n > 0 {
        lemma_routes_error_none(routes, known, n - 1);
        let r = routes[n - 1];
        lemma_first_unknown_none(r.plugins@, known, r.plugins@.len() as int);
    }
}

proof fn lemma_groups_error_none(groups: Seq<(String, PolicyGroup)>, known: Seq<Seq<char>>, n: int)
    requires
        0 <= n <= groups.len(),
    ensures
        groups_error(groups, known, n) is None
            <==> forall|i: int| 0 <= i < n ==> refs_known((#[trigger] groups[i]).1.plugins@, known),
    decreases n,
{
    if n > 0 {
        lemma_groups_error_none(groups, known, n - 1);
        let g = groups[n - 1];
        lemma_first_unknown_none(g.1.plugins@, known, g.1.plugins@.len() as int);
    }
}

/// Whether a configuration is well-formed: no two plugins share a name
/// and, with routing enabled, every route has exactly one entity matcher
/// and every plugin that a route or a policy group references is
/// declared.
pub open spec fn config_valid(c: CpexConfig) -> bool {
    &&& forall|i: int, j: int| 0 <= i < j < c.plugins@.len()
        ==> #[trigger] c.plugins@[i].name@ != #[trigger] c.plugins@[j].name@
    &&& c.plugin_settings.routing_enabled ==> {
        &&& forall|i: int| 0 <= i < c.routes@.len() ==> route_ok(#[trigger] c.routes@[i], plugin_names(c))
        &&& forall|g: int| 0 <= g < c.global.policies@.len()
            ==> refs_known((#[trigger] c.global.policies@[g]).1.plugins@, plugin_names(c))
    }
}

/// A configuration passes validation exactly when it is well-formed.
pub proof fn lemma_config_valid(c: CpexConfig)
    ensures
        config_error(c) is None <==> config_valid(c),
{
    let names = plugin_names(c);
    lemma_first_duplicate_none(names, names.len() as int);
    lemma_routes_error_none(c.routes@, names, c.routes@.len() as int);
    lemma_groups_error_none(c.global.policies@, names, c.global.policies@.len() as int);
    assert((forall|i: int, j: int| 0 <= i < j < names.len() ==> #[trigger] names[i] != #[trigger] names[j])
        <==> (forall|i: int, j: int| 0 <= i < j < c.plugins@.len()
            ==> #[trigger] c.plugins@[i].name@ != #[trigger] c.plugins@[j].name@)) by {
        if forall|i: int, j: int| 0 <= i < j < names.len() ==> #[trigger] names[i] != #[trigger] names[j] {
            assert forall|i: int, j: int| 0 <= i < j < c.plugins@.len()
                implies #[trigger] c.plugins@[i].name@ != #[trigger] c.plugins@[j].name@ by {
                assert(names[i] == c.plugins@[i].name@ && names[j] == c.plugins@[j].name@);
            }
        }
        if forall|i: int, j: int| 0 <= i < j < c.plugins@.len()
            ==> #[trigger] c.plugins@[i].name@ != #[trigger] c.plugins@[j].name@ {
            assert forall|i: int, j: int| 0 <= i < j < names.len()
                implies #[trigger] names[i] != #[trigger] names[j] by {
                assert(names[i] == c.plugins@[i].name@ && names[j] == c.plugins@[j].name@);
            }
        }
    }
}

/// A route's entity matchers are its `tool`, `resource`, `prompt` and
/// `llm` fields: it has none exactly when all four are absent, and one
/// exactly when one of the four is set; so a route setting only `llm`
/// passes the one-matcher check, and a route setting any two fails it.
pub proof fn lemma_matcher_fields(r: RouteEntry, known: Seq<Seq<char>>)
    ensures
        matcher_count(r) == 0 <==> (r.tool is None && r.resource is None && r.prompt is None && r.llm is None),
        matcher_count(r) == 1 <==> {
            ||| r.tool is Some && r.resource is None && r.prompt is None && r.llm is None
            ||| r.tool is None && r.resource is Some && r.prompt is None && r.llm is None
            ||| r.tool is None && r.resource is None && r.prompt is Some && r.llm is None
            ||| r.tool is None && r.resource is None && r.prompt is None && r.llm is Some
        },
        route_ok(r, known) <==> (matcher_count(r) == 1 && refs_known(r.plugins@, known)),
        (r.tool is Some && r.llm is Some) || (r.resource is Some && r.llm is Some)
            || (r.prompt is Some && r.llm is Some) || (r.tool is Some && r.resource is Some)
            || (r.tool is Some && r.prompt is Some) || (r.resource is Some && r.prompt is Some)
            ==> !route_ok(r, known),
{
}

/// What an entity matcher scores when it matches a name: the lone
/// wildcard `*` 0, another glob 300, a list of names 500, an exact name
/// 1000; nothing when it does not match.
pub proof fn lemma_matcher_scores(m: MatcherView, name: Seq<char>)
    ensures
        !matcher_matches(m, name) ==> matcher_score(m, name) is None,
        matcher_matches(m, name) ==> matcher_score(m, name) == Some(match m {
            MatcherView::Single(p) => if p == "*"@ { 0nat } else if p.contains('*') { 300nat } else { 1000nat },
            MatcherView::List(_) => 500nat,
        }),
{
}

/// A route scoped to the request's scope scores exactly 100 more than the
/// same route without a scope; a route scoped elsewhere does not apply;
/// and an unscoped route scores the same whatever the request's scope.
pub proof fn lemma_scope_bonus(r: RouteEntry, entity_type: Seq<char>, name: Seq<char>, scope: Option<Seq<char>>)
    ensures ({
        let bare = RouteEntry { meta: None, ..r };
        &&& route_scope(r) is None ==> route_total(r, entity_type, name, scope)
            == route_total(bare, entity_type, name, None)
        &&& (route_scope(r) is Some && scope == route_scope(r)) ==> match route_total(bare, entity_type, name, None) {
            None => route_total(r, entity_type, name, scope) is None,
            Some(t) => route_total(r, entity_type, name, scope) == Some(t + 100),
        }
        &&& (route_scope(r) is Some && scope != route_scope(r)) ==> route_total(r, entity_type, name, scope) is None
    }),
{
}

/// A `when` clause adds exactly 10 to a route's score; the entity type
/// picks the route's matcher: `tool`, `resource`, `prompt` or `llm`, and
/// no other type matches any route.
pub proof fn lemma_when_bonus_and_matchers(r: RouteEntry, entity_type: Seq<char>, name: Seq<char>,
    scope: Option<Seq<char>>)
    ensures
        r.when is Some ==> match route_total(RouteEntry { when: None, ..r }, entity_type, name, scope) {
            None => route_total(r, entity_type, name, scope) is None,
            Some(t) => route_total(r, entity_type, name, scope) == Some(t + 10),
        },
        route_matcher(r, "tool"@) == Some(r.tool),
        route_matcher(r, "resource"@) == Some(r.resource),
        route_matcher(r, "prompt"@) == Some(r.prompt),
        route_matcher(r, "llm"@) == Some(r.llm),
        (entity_type != "tool"@ && entity_type != "resource"@ && entity_type != "prompt"@
            && entity_type != "llm"@) ==> route_total(r, entity_type, name, scope) is None,
{
    reveal_strlit("tool");
    reveal_strlit("resource");
    reveal_strlit("prompt");
    reveal_strlit("llm");
    assert("resource"@ != "tool"@) by { assert("resource"@.len() != "tool"@.len()); }
    assert("prompt"@ != "tool"@) by { assert("prompt"@.len() != "tool"@.len()); }
    assert("prompt"@ != "resource"@) by { assert("prompt"@.len() != "resource"@.len()); }
    assert("llm"@ != "tool"@) by { assert("llm"@.len() != "tool"@.len()); }
    assert("llm"@ != "resource"@) by { assert("llm"@.len() != "resource"@.len()); }
    assert("llm"@ != "prompt"@) by { assert("llm"@.len() != "prompt"@.len()); }
}

/// A route scoped to the request's scope is preferred over a route with
/// the same matcher and `when` clause but no scope, wherever each stands
/// in the list.
pub proof fn lemma_scoped_route_preferred(c: CpexConfig, entity_type: Seq<char>, name: Seq<char>,
    scope: Seq<char>, i: int, j: int)
    requires
        0 <= i < c.routes@.len(),
        0 <= j < c.routes@.len(),
        route_scope(c.routes@[i]) == Some(scope),
        route_scope(c.routes@[j]) is None,
        route_matcher(c.routes@[i], entity_type) == route_matcher(c.routes@[j], entity_type),
        (c.routes@[i].when is Some) == (c.routes@[j].when is Some),
        route_total(c.routes@[j], entity_type, name, Some(scope)) is Some,
    ensures
        chosen_route(c, entity_type, name, Some(scope)) is Some,
        chosen_route(c, entity_type, name, Some(scope)) != Some(j),
{
    let routes = c.routes@;
    lemma_scope_bonus(routes[i], entity_type, name, Some(scope));
    lemma_scope_bonus(routes[j], entity_type, name, Some(scope));
    let ti = route_total(routes[i], entity_type, name, Some(scope));
    let tj = route_total(routes[j], entity_type, name, Some(scope));
    assert(route_total(RouteEntry { meta: None, ..routes[i] }, entity_type, name, None)
        == route_total(RouteEntry { meta: None, ..routes[j] }, entity_type, name, None));
    assert(ti == Some(tj.unwrap() + 100));
    lemma_best_route_is_maximal(routes, entity_type, name, Some(scope), routes.len() as int);
}

} // verus!
