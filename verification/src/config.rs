//! Configuration: built-in defaults, overridden by the config file, then by
//! environment variables. Timeouts are whole seconds.

use vstd::prelude::*;
use crate::text::{chars_of, str_eq};

verus! {

/// Resolved configuration for a run.
#[derive(Debug, Clone)]
pub struct Config {
    /// Line delta threshold for auto-expanding a file's symbols.
    pub threshold: usize,
    /// Per-request language-server timeout, in seconds.
    pub lsp_timeout: u64,
    /// Timeout waiting for the language server's initial indexing, in seconds.
    pub lsp_indexing_timeout: u64,
    /// Per-language overrides of the indexing timeout, keyed by LSP language
    /// id; a later entry for a language overrides an earlier one.
    pub lsp_lang_indexing_timeouts: Vec<(String, u64)>,
}

/// The `[defaults]` table of the config file.
#[derive(Debug, Clone)]
pub struct TomlDefaults {
    pub threshold: Option<usize>,
}

/// The `[lsp]` table of the config file.
#[derive(Debug, Clone)]
pub struct TomlLsp {
    pub timeout: Option<u64>,
    pub indexing_timeout: Option<u64>,
    /// `[lsp.timeouts]`: per-language indexing timeouts.
    pub timeouts: Option<Vec<(String, u64)>>,
}

/// The config file's contents.
#[derive(Debug, Clone)]
pub struct TomlFile {
    pub defaults: Option<TomlDefaults>,
    pub lsp: Option<TomlLsp>,
}

/// The environment variables that configuration reads, as name/value
/// pairs; the first pair of a name gives its value.
#[derive(Debug, Clone)]
pub struct EnvVars {
    pub vars: Vec<(String, String)>,
}

pub open spec fn pair_views(v: Seq<(String, u64)>) -> Seq<(Seq<char>, u64)> {
    v.map_values(|p: (String, u64)| (p.0@, p.1))
}

/// The map that a list of key/value pairs describes, later pairs winning.
pub open spec fn pairs_map(v: Seq<(Seq<char>, u64)>) -> Map<Seq<char>, u64>
    decreases v.len(),
{
    if v.len() == 0 {
        Map::empty()
    } else {
        pairs_map(v.drop_last()).insert(v.last().0, v.last().1)
    }
}

pub struct ConfigView {
    pub threshold: usize,
    pub lsp_timeout: u64,
    pub lsp_indexing_timeout: u64,
    pub lang_timeouts: Map<Seq<char>, u64>,
}

impl View for Config {
    type V = ConfigView;

    open spec fn view(&self) -> ConfigView {
        ConfigView {
            threshold: self.threshold,
            lsp_timeout: self.lsp_timeout,
            lsp_indexing_timeout: self.lsp_indexing_timeout,
            lang_timeouts: pairs_map(pair_views(self.lsp_lang_indexing_timeouts@)),
        }
    }
}

impl Default for Config {
    fn default() -> (r: Self)
        ensures
            r@ == default_config(),
    {
        let v: Vec<(String, u64)> = Vec::new();
        assert(pair_views(v@) =~= Seq::<(Seq<char>, u64)>::empty());
        Self { threshold: 200, lsp_timeout: 30, lsp_indexing_timeout: 30, lsp_lang_indexing_timeouts: v }
    }
}

/// Built-in defaults: threshold 200 lines, 30 s timeouts, no per-language
/// overrides.
pub open spec fn default_config() -> ConfigView {
    ConfigView { threshold: 200, lsp_timeout: 30, lsp_indexing_timeout: 30, lang_timeouts: Map::empty() }
}

/// The value of a decimal digit character.
pub open spec fn digit_value(c: char) -> nat {
    (c as u32 - '0' as u32) as nat
}

pub open spec fn is_digit(c: char) -> bool {
    '0' <= c <= '9'
}

/// The number a string of decimal digits denotes.
pub open spec fn digits_value(s: Seq<char>) -> nat
    decreases s.len(),
{
    if s.len() == 0 { 0 } else { digits_value(s.drop_last()) * 10 + digit_value(s.last()) }
}

/// Every character is an ASCII digit.
pub open spec fn all_digits(s: Seq<char>) -> bool {
    forall|i: int| 0 <= i < s.len() ==> is_digit(#[trigger] s[i])
}

/// The string without one leading `+`.
pub open spec fn strip_plus(s: Seq<char>) -> Seq<char> {
    if s.len() > 0 && s[0] == '+' { s.drop_first() } else { s }
}

/// `str::parse` for unsigned integers: an optional `+`, then one or more
/// ASCII digits, denoting a number that fits the type.
pub open spec fn parse_unsigned(s: Seq<char>, max: nat) -> Option<nat> {
    let digits = strip_plus(s);
    if digits.len() > 0 && all_digits(digits) && digits_value(digits) <= max {
        Some(digits_value(digits))
    } else {
        None
    }
}

proof fn lemma_digits_value_monotone(s: Seq<char>, k: int)
    requires
        0 <= k <= s.len(),
    ensures
        digits_value(s.take(k)) <= digits_value(s),
    decreases s.len() - k,
{
    if k < s.len() {
        lemma_digits_value_monotone(s.drop_last(), k);
        assert(s.drop_last().take(k) == s.take(k));
    } else {
        assert(s.take(k) == s);
    }
}

/// Parses an unsigned decimal number no larger than `max`.
pub fn parse_u64_max(s: &str, max: u64) -> (r: Option<u64>)
    ensures
        match r {
            Some(v) => parse_unsigned(s@, max as nat) == Some(v as nat),
            None => parse_unsigned(s@, max as nat) is None,
        },
{
    let cs = chars_of(s);
    let start: usize = if cs.len() > 0 && cs[0] == '+' { 1 } else { 0 };
    let ghost digits = strip_plus(s@);
    assert(digits == cs@.skip(start as int));
    if start >= cs.len() {
        return None;
    }
    let mut acc: u64 = 0;
    let mut i: usize = start;
    assert(digits.take(0) =~= Seq::<char>::empty());
    while i < cs.len()
        invariant
            start <= i <= cs.len(),
            start < cs.len(),
            cs@ == s@,
            digits == strip_plus(s@),
            digits == cs@.skip(start as int),
            digits.len() == cs.len() - start,
            forall|j: int| 0 <= j < i - start ==> is_digit(#[trigger] digits[j]),
            acc == digits_value(digits.take(i - start)),
            acc <= max,
        decreases cs.len() - i,
    {
        let c = cs[i];
        assert(digits[i - start] == c);
        if !('0' <= c && c <= '9') {
            proof {
                let j = i - start;
                assert(0 <= j < digits.len());
                assert(!is_digit(digits[j]));
                assert(!all_digits(digits));
            }
            return None;
        }
        let d = (c as u32 - '0' as u32) as u64;
        assert(digits.take(i + 1 - start).drop_last() == digits.take(i - start));
        assert(digits.take(i + 1 - start).last() == c);
        if d > max || acc > (max - d) / 10 {
            proof {
                lemma_digits_value_monotone(digits, i + 1 - start);
                assert(digits_value(digits.take(i + 1 - start)) == acc * 10 + d);
                assert(acc * 10 + d > max) by (nonlinear_arith)
                    requires
                        acc > (max - d) / 10 || d > max,
                        d <= 9,
                {
                }
            }
            return None;
        }
        proof {
            assert(acc * 10 + d <= max) by (nonlinear_arith)
                requires
                    acc <= (max - d) / 10,
                    d <= max,
            {
            }
        }
        acc = acc * 10 + d;
        i += 1;
    }
    assert(digits.take(cs.len() - start) == digits);
    Some(acc)
}

/// The first value given to `key`.
pub open spec fn env_get(vars: Seq<(Seq<char>, Seq<char>)>, key: Seq<char>) -> Option<Seq<char>>
    decreases vars.len(),
{
    if vars.len() == 0 {
        None
    } else if vars[0].0 == key {
        Some(vars[0].1)
    } else {
        env_get(vars.drop_first(), key)
    }
}

impl EnvVars {
    pub open spec fn view_pairs(&self) -> Seq<(Seq<char>, Seq<char>)> {
        self.vars@.map_values(|p: (String, String)| (p.0@, p.1@))
    }

    /// The value of an environment variable, if set.
    pub fn var(&self, key: &str) -> (r: Option<String>)
        ensures
            match r {
                Some(v) => env_get(self.view_pairs(), key@) == Some(v@),
                None => env_get(self.view_pairs(), key@) is None,
            },
    {
        let ghost v = self.view_pairs();
        let mut i: usize = 0;
        assert(v.skip(0) == v);
        while i < self.vars.len()
            invariant
                i <= self.vars.len(),
                v == self.view_pairs(),
                env_get(v, key@) == env_get(v.skip(i as int), key@),
            decreases self.vars.len() - i,
        {
            assert(v.skip(i as int)[0] == (self.vars@[i as int].0@, self.vars@[i as int].1@));
            assert(v.skip(i as int).drop_first() == v.skip(i + 1));
            if str_eq(self.vars[i].0.as_str(), key) {
                return Some(self.vars[i].1.clone());
            }
            i += 1;
        }
        assert(v.skip(self.vars.len() as int) =~= Seq::<(Seq<char>, Seq<char>)>::empty());
        None
    }
}

/// An environment variable parsed as an unsigned number no larger than `max`.
pub open spec fn env_number(env: Seq<(Seq<char>, Seq<char>)>, key: Seq<char>, max: nat) -> Option<nat> {
    match env_get(env, key) {
        Some(v) => parse_unsigned(v, max),
        None => None,
    }
}

/// Parse an environment variable as a number no larger than `max`.
fn parse_var(env: &EnvVars, key: &str, max: u64) -> (r: Option<u64>)
    ensures
        match r {
            Some(v) => env_number(env.view_pairs(), key@, max as nat) == Some(v as nat),
            None => env_number(env.view_pairs(), key@, max as nat) is None,
        },
{
    match env.var(key) {
        Some(v) => parse_u64_max(v.as_str(), max),
        None => None,
    }
}

/// The languages with a per-language indexing-timeout variable, and the
/// variable of each.
pub open spec fn lang_env_keys() -> Seq<(Seq<char>, Seq<char>)> {
    seq![
        ("go"@, "PASUA_LSP_GO_INDEXING_TIMEOUT"@),
        ("rust"@, "PASUA_LSP_RUST_INDEXING_TIMEOUT"@),
        ("python"@, "PASUA_LSP_PYTHON_INDEXING_TIMEOUT"@),
        ("typescript"@, "PASUA_LSP_TYPESCRIPT_INDEXING_TIMEOUT"@),
        ("elixir"@, "PASUA_LSP_ELIXIR_INDEXING_TIMEOUT"@),
        ("gleam"@, "PASUA_LSP_GLEAM_INDEXING_TIMEOUT"@),
    ]
}

/// The value, or the fallback when absent.
pub open spec fn or_keep<T>(o: Option<T>, old: T) -> T {
    match o {
        Some(v) => v,
        None => old,
    }
}

pub open spec fn toml_views(file: TomlFile) -> (Option<usize>, Option<u64>, Option<u64>, Seq<(Seq<char>, u64)>) {
    (
        match file.defaults { Some(d) => d.threshold, None => None },
        match file.lsp { Some(l) => l.timeout, None => None },
        match file.lsp { Some(l) => l.indexing_timeout, None => None },
        match file.lsp {
            Some(l) => match l.timeouts { Some(t) => pair_views(t@), None => seq![] },
            None => seq![],
        },
    )
}

/// Adds key/value pairs to a map in order.
pub open spec fn insert_all(m: Map<Seq<char>, u64>, pairs: Seq<(Seq<char>, u64)>) -> Map<Seq<char>, u64>
    decreases pairs.len(),
{
    if pairs.len() == 0 {
        m
    } else {
        insert_all(m, pairs.drop_last()).insert(pairs.last().0, pairs.last().1)
    }
}

/// The configuration after applying the config file's values.
pub open spec fn with_file(c: ConfigView, file: TomlFile) -> ConfigView {
    let (t, lt, it, pairs) = toml_views(file);
    ConfigView {
        threshold: or_keep(t, c.threshold),
        lsp_timeout: or_keep(lt, c.lsp_timeout),
        lsp_indexing_timeout: or_keep(it, c.lsp_indexing_timeout),
        lang_timeouts: insert_all(c.lang_timeouts, pairs),
    }
}

/// Per-language overrides read from the environment, in table order.
pub open spec fn env_lang_pairs(env: Seq<(Seq<char>, Seq<char>)>, keys: Seq<(Seq<char>, Seq<char>)>) -> Seq<(Seq<char>, u64)>
    decreases keys.len(),
{
    if keys.len() == 0 {
        seq![]
    } else {
        let prev = env_lang_pairs(env, keys.drop_last());
        match env_number(env, keys.last().1, u64::MAX as nat) {
            Some(t) => prev.push((keys.last().0, t as u64)),
            None => prev,
        }
    }
}

/// The configuration after applying environment variables:
/// `PASUA_THRESHOLD`, `PASUA_LSP_TIMEOUT`, `PASUA_LSP_INDEXING_TIMEOUT` and
/// `PASUA_LSP_<LANG>_INDEXING_TIMEOUT`, each when it parses as a number.
pub open spec fn with_env(c: ConfigView, env: Seq<(Seq<char>, Seq<char>)>) -> ConfigView {
    ConfigView {
        threshold: match env_number(env, "PASUA_THRESHOLD"@, usize::MAX as nat) {
            Some(t) => t as usize,
            None => c.threshold,
        },
        lsp_timeout: match env_number(env, "PASUA_LSP_TIMEOUT"@, u64::MAX as nat) {
            Some(t) => t as u64,
            None => c.lsp_timeout,
        },
        lsp_indexing_timeout: match env_number(env, "PASUA_LSP_INDEXING_TIMEOUT"@, u64::MAX as nat) {
            Some(t) => t as u64,
            None => c.lsp_indexing_timeout,
        },
        lang_timeouts: insert_all(c.lang_timeouts, env_lang_pairs(env, lang_env_keys())),
    }
}

/// The resolved configuration: defaults, then the file if any, then the
/// environment.
pub open spec fn spec_resolve(file: Option<TomlFile>, env: Seq<(Seq<char>, Seq<char>)>) -> ConfigView {
    let base = match file {
        Some(f) => with_file(default_config(), f),
        None => default_config(),
    };
    with_env(base, env)
}

/// Pairs after position `i` that do not mention `k` leave its entry as
/// the first `i` pairs set it.
proof fn lemma_pairs_map_suffix(v: Seq<(Seq<char>, u64)>, i: int, k: Seq<char>)
    requires
        0 <= i <= v.len(),
        forall|j: int| i <= j < v.len() ==> v[j].0 != k,
    ensures
        pairs_map(v).dom().contains(k) == pairs_map(v.take(i)).dom().contains(k),
        pairs_map(v.take(i)).dom().contains(k) ==> pairs_map(v)[k] == pairs_map(v.take(i))[k],
    decreases v.len() - i,
{
    if i < v.len() {
        assert forall|j: int| i <= j < v.len() - 1 implies v.drop_last()[j].0 != k by {
            assert(v.drop_last()[j] == v[j]);
        }
        lemma_pairs_map_suffix(v.drop_last(), i, k);
        assert(v.drop_last().take(i) == v.take(i));
    } else {
        assert(v.take(i) == v);
    }
}

impl Config {
    /// Load the configuration from the config file's contents (if there is a
    /// readable, well-formed one) and the environment.
    pub fn load(file: Option<&TomlFile>, env: &EnvVars) -> (r: Self)
        ensures
            r@ == spec_resolve(match file {
                Some(f) => Some(*f),
                None => None,
            }, env.view_pairs()),
    {
        Self::resolve(file, env)
    }

    pub fn resolve(file: Option<&TomlFile>, env: &EnvVars) -> (r: Self)
        ensures
            r@ == spec_resolve(match file {
                Some(f) => Some(*f),
                None => None,
            }, env.view_pairs()),
    {
        let mut cfg = Self::default();
        match file {
            Some(f) => cfg.apply_file(f),
            None => {},
        }
        cfg.apply_env(env);
        cfg
    }

    fn add_timeout(&mut self, lang: String, secs: u64)
        ensures
            final(self)@ == (ConfigView { lang_timeouts: old(self)@.lang_timeouts.insert(lang@, secs), ..old(self)@ }),
    {
        let ghost before = pair_views(self.lsp_lang_indexing_timeouts@);
        self.lsp_lang_indexing_timeouts.push((lang, secs));
        assert(pair_views(self.lsp_lang_indexing_timeouts@) =~= before.push((lang@, secs)));
        assert(pair_views(self.lsp_lang_indexing_timeouts@).drop_last() == before);
    }

    /// Indexing timeout for a specific language (falls back to global).
    pub fn lsp_indexing_timeout_for(&self, lang: &str) -> (r: u64)
        ensures
            r == (if self@.lang_timeouts.dom().contains(lang@) {
                self@.lang_timeouts[lang@]
            } else {
                self@.lsp_indexing_timeout
            }),
    {
        let ghost v = pair_views(self.lsp_lang_indexing_timeouts@);
        let mut i: usize = self.lsp_lang_indexing_timeouts.len();
        while i > 0
            invariant
                i <= self.lsp_lang_indexing_timeouts.len(),
                v == pair_views(self.lsp_lang_indexing_timeouts@),
                forall|j: int| i <= j < v.len() ==> v[j].0 != lang@,
            decreases i,
        {
            let (k, secs) = &self.lsp_lang_indexing_timeouts[i - 1];
            assert(v[i - 1] == (k@, *secs));
            if str_eq(k.as_str(), lang) {
                proof {
                    let t = v.take(i as int);
                    assert(t.drop_last() == v.take(i - 1));
                    assert(t.last() == v[i - 1]);
                    lemma_pairs_map_suffix(v, i as int, lang@);
                }
                return *secs;
            }
            i -= 1;
        }
        proof {
            lemma_pairs_map_suffix(v, 0, lang@);
            assert(v.take(0) =~= Seq::<(Seq<char>, u64)>::empty());
        }
        self.lsp_indexing_timeout
    }

    /// Apply the config file's values.
    pub fn apply_file(&mut self, file: &TomlFile)
        ensures
            final(self)@ == with_file(old(self)@, *file),
    {
        match &file.defaults {
            Some(d) => match d.threshold {
                Some(t) => self.threshold = t,
                None => {},
            },
            None => {},
        }
        match &file.lsp {
            Some(lsp) => {
                match lsp.timeout {
                    Some(t) => self.lsp_timeout = t,
                    None => {},
                }
                match lsp.indexing_timeout {
                    Some(t) => self.lsp_indexing_timeout = t,
                    None => {},
                }
                match &lsp.timeouts {
                    Some(timeouts) => {
                        let ghost pv = pair_views(timeouts@);
                        let ghost m0 = self@.lang_timeouts;
                        let ghost mid = *self;
                        let mut i: usize = 0;
                        assert(pv.take(0) =~= Seq::<(Seq<char>, u64)>::empty());
                        while i < timeouts.len()
                            invariant
                                i <= timeouts.len(),
                                pv == pair_views(timeouts@),
                                self@.lang_timeouts == insert_all(m0, pv.take(i as int)),
                                self.threshold == mid.threshold,
                                self.lsp_timeout == mid.lsp_timeout,
                                self.lsp_indexing_timeout == mid.lsp_indexing_timeout,
                            decreases timeouts.len() - i,
                        {
                            assert(pv.take(i + 1).drop_last() == pv.take(i as int));
                            assert(pv.take(i + 1).last() == (timeouts@[i as int].0@, timeouts@[i as int].1));
                            let lang = timeouts[i].0.clone();
                            self.add_timeout(lang, timeouts[i].1);
                            i += 1;
                        }
                        assert(pv.take(timeouts.len() as int) == pv);
                    },
                    None => {},
                }
            },
            None => {},
        }
    }

    /// Apply environment-variable overrides.
    pub fn apply_env(&mut self, env: &EnvVars)
        ensures
            final(self)@ == with_env(old(self)@, env.view_pairs()),
    {
        match parse_var(env, "PASUA_THRESHOLD", usize::MAX as u64) {
            Some(t) => self.threshold = t as usize,
            None => {},
        }
        match parse_var(env, "PASUA_LSP_TIMEOUT", u64::MAX) {
            Some(t) => self.lsp_timeout = t,
            None => {},
        }
        match parse_var(env, "PASUA_LSP_INDEXING_TIMEOUT", u64::MAX) {
            Some(t) => self.lsp_indexing_timeout = t,
            None => {},
        }
        let langs = vec![
            ("go", "PASUA_LSP_GO_INDEXING_TIMEOUT"),
            ("rust", "PASUA_LSP_RUST_INDEXING_TIMEOUT"),
            ("python", "PASUA_LSP_PYTHON_INDEXING_TIMEOUT"),
            ("typescript", "PASUA_LSP_TYPESCRIPT_INDEXING_TIMEOUT"),
            ("elixir", "PASUA_LSP_ELIXIR_INDEXING_TIMEOUT"),
            ("gleam", "PASUA_LSP_GLEAM_INDEXING_TIMEOUT"),
        ];
        let ghost keys = langs@.map_values(|p: (&str, &str)| (p.0@, p.1@));
        assert(keys =~= lang_env_keys());
        let ghost m0 = self@.lang_timeouts;
        let ghost mid = *self;
        let mut i: usize = 0;
        assert(keys.take(0) =~= Seq::<(Seq<char>, Seq<char>)>::empty());
        while i < langs.len()
            invariant
                i <= langs.len(),
                keys == langs@.map_values(|p: (&str, &str)| (p.0@, p.1@)),
                self@.lang_timeouts == insert_all(m0, env_lang_pairs(env.view_pairs(), keys.take(i as int))),
                self.threshold == mid.threshold,
                self.lsp_timeout == mid.lsp_timeout,
                self.lsp_indexing_timeout == mid.lsp_indexing_timeout,
            decreases langs.len() - i,
        {
            let (lang, key) = langs[i];
            assert(keys.take(i + 1).drop_last() == keys.take(i as int));
            assert(keys.take(i + 1).last() == (lang@, key@));
            let ghost prev = env_lang_pairs(env.view_pairs(), keys.take(i as int));
            match parse_var(env, key, u64::MAX) {
                Some(t) => {
                    let l = lang.to_owned();
                    proof {
                        let next = env_lang_pairs(env.view_pairs(), keys.take(i + 1));
                        assert(next == prev.push((lang@, t)));
                        assert(next.drop_last() == prev);
                    }
                    self.add_timeout(l, t);
                },
                None => {
                    assert(env_lang_pairs(env.view_pairs(), keys.take(i + 1)) == prev);
                },
            }
            i += 1;
        }
        assert(keys.take(6) == keys);
    }
}

} // verus!

verus! {

/// What the config file sets the threshold to, if anything.
pub open spec fn file_threshold(file: Option<TomlFile>) -> Option<usize> {
    match file {
        Some(f) => match f.defaults {
            Some(d) => d.threshold,
            None => None,
        },
        None => None,
    }
}

/// Precedence: an environment variable beats the config file, which beats
/// the built-in default. The resolved threshold is `PASUA_THRESHOLD` when it
/// parses, else the file's, else 200.
pub proof fn law_threshold_precedence(file: Option<TomlFile>, env: Seq<(Seq<char>, Seq<char>)>)
    ensures
        spec_resolve(file, env).threshold == match env_number(env, "PASUA_THRESHOLD"@, usize::MAX as nat) {
            Some(t) => t as usize,
            None => match file_threshold(file) {
                Some(t) => t,
                None => 200,
            },
        },
{
}

/// Adding pairs in order leaves a key with the value of its last pair,
/// or as it was when no pair names it.
proof fn lemma_insert_all_last(m: Map<Seq<char>, u64>, pairs: Seq<(Seq<char>, u64)>, k: Seq<char>, i: int)
    requires
        0 <= i < pairs.len(),
        pairs[i].0 == k,
        forall|j: int| i < j < pairs.len() ==> pairs[j].0 != k,
    ensures
        insert_all(m, pairs).dom().contains(k),
        insert_all(m, pairs)[k] == pairs[i].1,
    decreases pairs.len(),
{
    if i < pairs.len() - 1 {
        assert forall|j: int| i < j < pairs.drop_last().len() implies pairs.drop_last()[j].0 != k by {
            assert(pairs.drop_last()[j] == pairs[j]);
        }
        lemma_insert_all_last(m, pairs.drop_last(), k, i);
    }
}

/// The language of a per-language pair read from the environment is one
/// of the table's languages up to the given length.
proof fn lemma_env_pairs_from_keys(env: Seq<(Seq<char>, Seq<char>)>, keys: Seq<(Seq<char>, Seq<char>)>, k: Seq<char>)
    requires
        forall|j: int| 0 <= j < keys.len() ==> keys[j].0 != k,
    ensures
        forall|j: int| 0 <= j < env_lang_pairs(env, keys).len() ==> env_lang_pairs(env, keys)[j].0 != k,
    decreases keys.len(),
{
    if keys.len() > 0 {
        assert forall|j: int| 0 <= j < keys.drop_last().len() implies keys.drop_last()[j].0 != k by {
            assert(keys.drop_last()[j] == keys[j]);
        }
        lemma_env_pairs_from_keys(env, keys.drop_last(), k);
        let prev = env_lang_pairs(env, keys.drop_last());
        assert(keys.last() == keys[keys.len() - 1]);
        match env_number(env, keys.last().1, u64::MAX as nat) {
            Some(t) => {
                let all = prev.push((keys.last().0, t as u64));
                assert(env_lang_pairs(env, keys) == all);
                assert forall|j: int| 0 <= j < all.len() implies all[j].0 != k by {
                    if j < prev.len() {
                        assert(all[j] == prev[j]);
                    }
                }
            },
            None => {},
        }
    }
}

/// The languages of the per-language table are all different.
proof fn lemma_lang_keys_distinct()
    ensures
        forall|a: int, b: int| 0 <= a < b < lang_env_keys().len() ==> lang_env_keys()[a].0 != lang_env_keys()[b].0,
{
    reveal_strlit("go");
    reveal_strlit("rust");
    reveal_strlit("python");
    reveal_strlit("typescript");
    reveal_strlit("elixir");
    reveal_strlit("gleam");
    let k = lang_env_keys();
    assert(k[0].0 == "go"@);
    assert(k[1].0 == "rust"@);
    assert(k[2].0 == "python"@);
    assert(k[3].0 == "typescript"@);
    assert(k[4].0 == "elixir"@);
    assert(k[5].0 == "gleam"@);
    assert("python"@ != "elixir"@) by {
        assert("python"@[0] != "elixir"@[0]);
    }
}

/// A per-language variable that parses decides that language's indexing
/// timeout, whatever the config file says.
pub proof fn law_language_env_override(file: Option<TomlFile>, env: Seq<(Seq<char>, Seq<char>)>, i: int)
    requires
        0 <= i < lang_env_keys().len(),
        env_number(env, lang_env_keys()[i].1, u64::MAX as nat) is Some,
    ensures
        spec_resolve(file, env).lang_timeouts.dom().contains(lang_env_keys()[i].0),
        spec_resolve(file, env).lang_timeouts[lang_env_keys()[i].0]
            == env_number(env, lang_env_keys()[i].1, u64::MAX as nat)->Some_0 as u64,
{
    let keys = lang_env_keys();
    let lang = keys[i].0;
    let t = env_number(env, keys[i].1, u64::MAX as nat)->Some_0;
    lemma_lang_keys_distinct();
    let prefix = keys.take(i + 1);
    let rest = keys.skip(i + 1);
    assert(prefix.drop_last() == keys.take(i));
    assert(prefix.last() == keys[i]);
    let before = env_lang_pairs(env, prefix);
    assert(before == env_lang_pairs(env, keys.take(i)).push((lang, t as u64)));
    assert forall|j: int| 0 <= j < rest.len() implies rest[j].0 != lang by {
        assert(rest[j] == keys[i + 1 + j]);
    }
    lemma_env_pairs_split(env, keys, i + 1);
    lemma_env_pairs_from_keys(env, rest, lang);
    let all = env_lang_pairs(env, keys);
    assert(all == before + env_lang_pairs(env, rest));
    let idx = before.len() - 1;
    assert(all[idx] == (lang, t as u64));
    assert forall|j: int| idx < j < all.len() implies all[j].0 != lang by {
        assert(all[j] == env_lang_pairs(env, rest)[j - before.len()]);
    }
    let base = match file {
        Some(f) => with_file(default_config(), f),
        None => default_config(),
    };
    lemma_insert_all_last(base.lang_timeouts, all, lang, idx);
}

/// The pairs read for a table are those of its first `n` rows followed by
/// those of the rest.
proof fn lemma_env_pairs_split(env: Seq<(Seq<char>, Seq<char>)>, keys: Seq<(Seq<char>, Seq<char>)>, n: int)
    requires
        0 <= n <= keys.len(),
    ensures
        env_lang_pairs(env, keys) == env_lang_pairs(env, keys.take(n)) + env_lang_pairs(env, keys.skip(n)),
    decreases keys.len(),
{
    if n == keys.len() {
        assert(keys.take(n) == keys);
        assert(keys.skip(n) =~= Seq::<(Seq<char>, Seq<char>)>::empty());
        assert(env_lang_pairs(env, keys) + seq![] =~= env_lang_pairs(env, keys));
    } else {
        lemma_env_pairs_split(env, keys.drop_last(), n);
        assert(keys.drop_last().take(n) == keys.take(n));
        assert(keys.skip(n).drop_last() == keys.drop_last().skip(n));
        assert(keys.skip(n).last() == keys.last());
        let a = env_lang_pairs(env, keys.take(n));
        let b = env_lang_pairs(env, keys.drop_last().skip(n));
        match env_number(env, keys.last().1, u64::MAX as nat) {
            Some(t) => {
                assert((a + b).push((keys.last().0, t as u64)) =~= a + b.push((keys.last().0, t as u64)));
            },
            None => {},
        }
    }
}

} // verus!
