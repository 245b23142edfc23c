//! Configuration: the parsed `linecheck.yml`, its pattern checks, and the
//! per-directory resolver with its cache.
use vstd::prelude::*;
use crate::patterns::{glob_valid, pattern_is_valid};
use crate::rule::{Rule, RuleView};
use crate::text::same_text;

verus! {

/// A parsed `linecheck.yml` configuration file.
#[derive(Debug, Clone, PartialEq, Eq)]
pub struct Config {
    /// Ordered list of glob rules. The first matching rule wins.
    pub rules: Vec<Rule>,
    /// Glob patterns for files and directories to skip entirely.
    pub exclude: Vec<String>,
}

/// The abstract content of a [`Config`].
pub ghost struct ConfigView {
    pub rules: Seq<RuleView>,
    pub exclude: Seq<Seq<char>>,
}

impl View for Config {
    type V = ConfigView;

    open spec fn view(&self) -> ConfigView {
        ConfigView {
            rules: self.rules@.map_values(|r: Rule| r@),
            exclude: self.exclude@.map_values(|s: String| s@),
        }
    }
}

impl Default for Config {
    /// The empty configuration: no rules, nothing excluded.
    fn default() -> (r: Self)
        ensures
            r@.rules.len() == 0,
            r@.exclude.len() == 0,
    {
        Config { rules: Vec::new(), exclude: Vec::new() }
    }
}

impl Config {
    /// A copy of the configuration with the same content.
    pub fn duplicate(&self) -> (r: Config)
        ensures
            r@ == self@,
    {
        let mut rules: Vec<Rule> = Vec::new();
        let mut i: usize = 0;
        while i < self.rules.len()
            invariant
                i <= self.rules@.len(),
                rules@.len() == i,
                forall|j: int| 0 <= j < i ==> (#[trigger] rules@[j])@ == self.rules@[j]@,
            decreases self.rules@.len() - i,
        {
            rules.push(self.rules[i].duplicate());
            i = i + 1;
        }
        let mut exclude: Vec<String> = Vec::new();
        let mut k: usize = 0;
        while k < self.exclude.len()
            invariant
                k <= self.exclude@.len(),
                exclude@.len() == k,
                forall|j: int| 0 <= j < k ==> (#[trigger] exclude@[j])@ == self.exclude@[j]@,
            decreases self.exclude@.len() - k,
        {
            exclude.push(self.exclude[k].clone());
            k = k + 1;
        }
        let r = Config { rules, exclude };
        assert(r@.rules =~= self@.rules);
        assert(r@.exclude =~= self@.exclude);
        r
    }
}

/// Where a pattern with a warning came from.
#[derive(Debug, Clone, Copy, PartialEq, Eq, Structural)]
pub enum PatternKind {
    /// The `pattern` of a rule.
    GlobRule,
    /// An entry of `exclude`.
    Exclude,
}

impl PatternKind {
    /// The words used for the kind in a warning.
    pub fn label(self) -> (r: &'static str)
        ensures
            r@ == kind_label(self),
    {
        match self {
            PatternKind::GlobRule => {
                proof {
                    reveal_strlit("glob rule");
                }
                "glob rule"
            },
            PatternKind::Exclude => {
                proof {
                    reveal_strlit("exclude");
                }
                "exclude"
            },
        }
    }
}

/// The words used for a pattern kind.
pub open spec fn kind_label(k: PatternKind) -> Seq<char> {
    match k {
        PatternKind::GlobRule => seq!['g', 'l', 'o', 'b', ' ', 'r', 'u', 'l', 'e'],
        PatternKind::Exclude => seq!['e', 'x', 'c', 'l', 'u', 'd', 'e'],
    }
}

/// A pattern of a configuration that `glob` does not accept; it will be skipped.
#[derive(Debug, Clone, PartialEq, Eq)]
pub struct InvalidPattern {
    pub pattern: String,
    pub kind: PatternKind,
}

/// The patterns among `ps` that do not compile, in order.
pub open spec fn invalid_among(ps: Seq<Seq<char>>) -> Seq<Seq<char>>
    decreases ps.len(),
{
    if ps.len() == 0 {
        Seq::empty()
    } else if glob_valid(ps.last()) {
        invalid_among(ps.drop_last())
    } else {
        invalid_among(ps.drop_last()).push(ps.last())
    }
}

/// Each text of `ps` paired with `kind`.
pub open spec fn tagged(ps: Seq<Seq<char>>, kind: PatternKind) -> Seq<(Seq<char>, PatternKind)> {
    ps.map_values(|p: Seq<char>| (p, kind))
}

/// The texts of a sequence of strings.
pub open spec fn texts_of(v: Seq<String>) -> Seq<Seq<char>> {
    v.map_values(|s: String| s@)
}

/// The invalid patterns of a configuration: those of its rules, then those of `exclude`.
pub open spec fn invalid_patterns_of(c: ConfigView) -> Seq<(Seq<char>, PatternKind)> {
    tagged(invalid_among(c.rules.map_values(|r: RuleView| r.pattern)), PatternKind::GlobRule)
        + tagged(invalid_among(c.exclude), PatternKind::Exclude)
}

/// The abstract content of a list of invalid patterns.
pub open spec fn invalid_view(v: Seq<InvalidPattern>) -> Seq<(Seq<char>, PatternKind)> {
    v.map_values(|w: InvalidPattern| (w.pattern@, w.kind))
}

proof fn lemma_invalid_step(ps: Seq<Seq<char>>, i: int)
    requires
        0 <= i < ps.len(),
    ensures
        invalid_among(ps.take(i + 1)) == if glob_valid(ps[i]) {
            invalid_among(ps.take(i))
        } else {
            invalid_among(ps.take(i)).push(ps[i])
        },
{
    assert(ps.take(i + 1).drop_last() =~= ps.take(i));
}

/// Appends to `out` the texts among `texts` that are not valid glob patterns, tagged `kind`.
fn push_invalid(out: &mut Vec<InvalidPattern>, texts: &Vec<String>, kind: PatternKind)
    ensures
        invalid_view(final(out)@) == invalid_view(old(out)@) + tagged(invalid_among(texts_of(texts@)), kind),
{
    let ghost ps = texts_of(texts@);
    let ghost start = invalid_view(out@);
    let mut i: usize = 0;
    assert(ps.take(0) =~= Seq::<Seq<char>>::empty());
    assert(invalid_view(out@) =~= start + tagged(invalid_among(ps.take(0)), kind));
    while i < texts.len()
        invariant
            i <= texts@.len(),
            ps == texts_of(texts@),
            invalid_view(out@) == start + tagged(invalid_among(ps.take(i as int)), kind),
        decreases texts@.len() - i,
    {
        proof {
            lemma_invalid_step(ps, i as int);
        }
        assert(ps[i as int] == texts@[i as int]@);
        if !pattern_is_valid(texts[i].as_str()) {
            let ghost before = out@;
            let ghost prev = invalid_among(ps.take(i as int));
            out.push(InvalidPattern { pattern: texts[i].clone(), kind });
            assert(invalid_view(out@) =~= invalid_view(before).push((ps[i as int], kind)));
            assert(tagged(prev.push(ps[i as int]), kind) =~= tagged(prev, kind).push((ps[i as int], kind)));
            assert(invalid_view(out@) =~= start + tagged(invalid_among(ps.take(i + 1)), kind));
        }
        i = i + 1;
    }
    assert(ps.take(texts@.len() as int) =~= ps);
}

/// The patterns of `cfg` that will be skipped because they do not compile:
/// rule patterns first, then exclude patterns, each in the order written.
pub fn invalid_patterns(cfg: &Config) -> (r: Vec<InvalidPattern>)
    ensures
        invalid_view(r@) == invalid_patterns_of(cfg@),
{
    let mut texts: Vec<String> = Vec::new();
    let mut i: usize = 0;
    while i < cfg.rules.len()
        invariant
            i <= cfg.rules@.len(),
            texts@.len() == i,
            forall|j: int| 0 <= j < i ==> (#[trigger] texts@[j])@ == cfg.rules@[j].pattern@,
        decreases cfg.rules@.len() - i,
    {
        texts.push(cfg.rules[i].pattern.clone());
        i = i + 1;
    }
    assert(texts_of(texts@) =~= cfg@.rules.map_values(|r: RuleView| r.pattern));
    let mut out: Vec<InvalidPattern> = Vec::new();
    assert(invalid_view(out@) =~= Seq::<(Seq<char>, PatternKind)>::empty());
    push_invalid(&mut out, &texts, PatternKind::GlobRule);
    push_invalid(&mut out, &cfg.exclude, PatternKind::Exclude);
    assert(invalid_view(out@) =~= invalid_patterns_of(cfg@));
    out
}

/// The abstract content of an optional config.
pub open spec fn opt_config_view(c: Option<Config>) -> Option<ConfigView> {
    match c {
        Some(x) => Some(x@),
        None => None,
    }
}

/// Resolves per-file configs, remembering every config file it has loaded.
///
/// Config files are pinned (`explicit`) or found by walking up from a file's
/// directory; the walk and the loading are the caller's I/O. The resolver
/// decides which config file governs a file, answers from its cache, and
/// asks for a load only the first time a config path comes up.
pub struct ConfigResolver {
    explicit: Option<String>,
    config_name: String,
    cache: Vec<(String, Option<Config>)>,
}

/// The abstract state of a [`ConfigResolver`].
pub ghost struct ResolverView {
    /// The pinned config path, if any.
    pub explicit: Option<Seq<char>>,
    /// The file name that marks a config file in a directory.
    pub config_name: Seq<char>,
    /// Each config path loaded so far, with what it held (`None`: unreadable or unparsable).
    pub cache: Map<Seq<char>, Option<ConfigView>>,
}

/// What resolving a file calls for.
pub enum Resolution {
    /// No config file governs the file.
    NoConfig,
    /// The governing config file was loaded before; this is what it held.
    Cached(Option<Config>),
    /// The governing config file at this path has not been loaded yet: load
    /// it and hand the outcome to [`ConfigResolver::store`].
    Load(String),
}

/// The abstract content of a [`Resolution`].
pub ghost enum ResolutionView {
    NoConfig,
    Cached(Option<ConfigView>),
    Load(Seq<char>),
}

impl View for Resolution {
    type V = ResolutionView;

    open spec fn view(&self) -> ResolutionView {
        match self {
            Resolution::NoConfig => ResolutionView::NoConfig,
            Resolution::Cached(c) => ResolutionView::Cached(opt_config_view(*c)),
            Resolution::Load(p) => ResolutionView::Load(p@),
        }
    }
}

/// The config path that governs a file: the pinned one if there is one,
/// else the nearest config file found above the file.
pub open spec fn governing_path(v: ResolverView, nearest: Option<Seq<char>>) -> Option<Seq<char>> {
    match v.explicit {
        Some(p) => Some(p),
        None => nearest,
    }
}

/// What resolving calls for in state `v`.
pub open spec fn resolve_step(v: ResolverView, nearest: Option<Seq<char>>) -> ResolutionView {
    match governing_path(v, nearest) {
        None => ResolutionView::NoConfig,
        Some(p) => if v.cache.contains_key(p) {
            ResolutionView::Cached(v.cache[p])
        } else {
            ResolutionView::Load(p)
        },
    }
}

/// The state after recording that `path` held `cfg`; an entry already
/// present is kept as it was.
pub open spec fn store_step(v: ResolverView, path: Seq<char>, cfg: Option<ConfigView>) -> ResolverView {
    if v.cache.contains_key(path) {
        v
    } else {
        ResolverView { cache: v.cache.insert(path, cfg), ..v }
    }
}

/// The map held by a list of cache entries; later entries win.
pub open spec fn entries_map(e: Seq<(String, Option<Config>)>) -> Map<Seq<char>, Option<ConfigView>>
    decreases e.len(),
{
    if e.len() == 0 {
        Map::empty()
    } else {
        entries_map(e.drop_last()).insert(e.last().0@, opt_config_view(e.last().1))
    }
}

/// The text of an optional string.
pub open spec fn opt_text(o: Option<String>) -> Option<Seq<char>> {
    match o {
        Some(s) => Some(s@),
        None => None,
    }
}

impl View for ConfigResolver {
    type V = ResolverView;

    closed spec fn view(&self) -> ResolverView {
        ResolverView {
            explicit: opt_text(self.explicit),
            config_name: self.config_name@,
            cache: entries_map(self.cache@),
        }
    }
}

/// A copy of an optional config with the same content.
fn duplicate_opt(c: &Option<Config>) -> (r: Option<Config>)
    ensures
        opt_config_view(r) == opt_config_view(*c),
{
    match c {
        Some(x) => Some(x.duplicate()),
        None => None,
    }
}

impl ConfigResolver {
    /// Create a resolver: `Some(path)` pins one config, `None` enables
    /// hierarchical lookup of files named `config_name`.
    pub fn new(explicit: Option<String>, config_name: &str) -> (r: Self)
        ensures
            r@.explicit == opt_text(explicit),
            r@.config_name == config_name@,
            r@.cache == Map::<Seq<char>, Option<ConfigView>>::empty(),
    {
        ConfigResolver { explicit, config_name: config_name.to_owned(), cache: Vec::new() }
    }

    /// The file name that marks a config file in a directory.
    pub fn config_name(&self) -> (r: &str)
        ensures
            r@ == self@.config_name,
    {
        self.config_name.as_str()
    }

    /// Whether a config file is pinned.
    pub fn is_pinned(&self) -> (r: bool)
        ensures
            r == (self@.explicit is Some),
    {
        self.explicit.is_some()
    }

    /// The cache entry for `path`, searching from the newest entry.
    fn lookup(&self, path: &str) -> (r: Option<Option<Config>>)
        ensures
            match r {
                Some(c) => self@.cache.contains_key(path@) && self@.cache[path@] == opt_config_view(c),
                None => !self@.cache.contains_key(path@),
            },
    {
        let mut k: usize = self.cache.len();
        assert(self.cache@.take(k as int) =~= self.cache@);
        while k > 0
            invariant
                k <= self.cache@.len(),
                entries_map(self.cache@).contains_key(path@) == entries_map(self.cache@.take(k as int)).contains_key(path@),
                entries_map(self.cache@).contains_key(path@) ==> entries_map(self.cache@)[path@] == entries_map(self.cache@.take(k as int))[path@],
            decreases k,
        {
            let ghost t = self.cache@.take(k as int);
            assert(t.drop_last() =~= self.cache@.take(k - 1));
            assert(t.last() == self.cache@[k - 1]);
            if same_text(self.cache[k - 1].0.as_str(), path) {
                return Some(duplicate_opt(&self.cache[k - 1].1));
            }
            k = k - 1;
        }
        None
    }

    /// What resolving a file calls for, given the nearest config file found
    /// above it (`None` when the file has no parent directory or no config
    /// file exists up the tree): no config, a cached config, or a load.
    pub fn resolve(&self, nearest: Option<&str>) -> (r: Resolution)
        ensures
            r@ == resolve_step(self@, match nearest { Some(n) => Some(n@), None => None }),
    {
        let target: Option<String> = match &self.explicit {
            Some(p) => Some(p.clone()),
            None => match nearest {
                Some(n) => Some(n.to_owned()),
                None => None,
            },
        };
        match target {
            None => Resolution::NoConfig,
            Some(p) => match self.lookup(p.as_str()) {
                Some(c) => Resolution::Cached(c),
                None => Resolution::Load(p),
            },
        }
    }

    /// Record that the config file at `path` held `cfg` (`None` when it could
    /// not be read or parsed). A path already recorded keeps its entry.
    pub fn store(&mut self, path: String, cfg: Option<Config>)
        ensures
            final(self)@ == store_step(old(self)@, path@, opt_config_view(cfg)),
    {
        if self.lookup(path.as_str()).is_some() {
            return;
        }
        let ghost before = self.cache@;
        self.cache.push((path, cfg));
        proof {
            assert(self.cache@.drop_last() =~= before);
        }
        assert(self@.cache =~= old(self)@.cache.insert(path@, opt_config_view(cfg)));
    }
}

/// What is stored is what is read back: once the governing config path has
/// been stored, resolving answers from the cache with exactly that content.
pub proof fn lemma_store_then_resolve(
    v: ResolverView,
    path: Seq<char>,
    cfg: Option<ConfigView>,
    nearest: Option<Seq<char>>,
)
    requires
        !v.cache.contains_key(path),
        governing_path(v, nearest) == Some(path),
    ensures
        resolve_step(store_step(v, path, cfg), nearest) == ResolutionView::Cached(cfg),
{
}

/// A config file is loaded at most once: storing never changes an entry
/// that is already cached, nor the pinned path or the config name.
pub proof fn lemma_store_keeps_entries(v: ResolverView, path: Seq<char>, cfg: Option<ConfigView>, key: Seq<char>)
    requires
        v.cache.contains_key(key),
    ensures
        store_step(v, path, cfg).cache.contains_key(key),
        store_step(v, path, cfg).cache[key] == v.cache[key],
        store_step(v, path, cfg).explicit == v.explicit,
        store_step(v, path, cfg).config_name == v.config_name,
{
}

/// A pinned config governs every file: where the nearest config lies makes
/// no difference.
pub proof fn lemma_pinned_ignores_nearest(v: ResolverView, a: Option<Seq<char>>, b: Option<Seq<char>>)
    requires
        v.explicit is Some,
    ensures
        resolve_step(v, a) == resolve_step(v, b),
{
}

/// With nothing pinned and no config file found, there is no config.
pub proof fn lemma_nothing_found(v: ResolverView)
    requires
        v.explicit is None,
    ensures
        resolve_step(v, None) == ResolutionView::NoConfig,
{
}

/// The first candidate that exists: with the candidates ordered from the
/// file's own directory upwards, the nearest config file.
pub open spec fn first_existing(candidates: Seq<(String, bool)>) -> Option<Seq<char>>
    decreases candidates.len(),
{
    if candidates.len() == 0 {
        None
    } else if candidates[0].1 {
        Some(candidates[0].0@)
    } else {
        first_existing(candidates.drop_first())
    }
}

/// The nearest config file among `candidates`: each is a config path, from
/// the file's directory upwards, paired with whether a file exists there.
pub fn nearest_config(candidates: &[(String, bool)]) -> (r: Option<String>)
    ensures
        match r {
            Some(p) => first_existing(candidates@) == Some(p@),
            None => first_existing(candidates@) is None,
        },
{
    let mut i: usize = 0;
    assert(candidates@.skip(0) =~= candidates@);
    while i < candidates.len()
        invariant
            i <= candidates@.len(),
            first_existing(candidates@) == first_existing(candidates@.skip(i as int)),
        decreases candidates@.len() - i,
    {
        assert(candidates@.skip(i as int)[0] == candidates@[i as int]);
        assert(candidates@.skip(i as int).drop_first() =~= candidates@.skip(i + 1));
        if candidates[i].1 {
            return Some(candidates[i].0.clone());
        }
        i = i + 1;
    }
    None
}

/// A nearer config file overrides those above it: when candidate `i`
/// exists and none nearer does, candidate `i` is chosen, whatever lies beyond.
pub proof fn lemma_nearest_wins(candidates: Seq<(String, bool)>, i: int)
    requires
        0 <= i < candidates.len(),
        candidates[i].1,
        forall|j: int| 0 <= j < i ==> !(#[trigger] candidates[j]).1,
    ensures
        first_existing(candidates) == Some(candidates[i].0@),
    decreases i,
{
    if i > 0 {
        let rest = candidates.drop_first();
        assert(!candidates[0].1);
        assert forall|j: int| 0 <= j < i - 1 implies !(#[trigger] rest[j]).1 by {
            assert(rest[j] == candidates[j + 1]);
        }
        lemma_nearest_wins(rest, i - 1);
    }
}

} // verus!
