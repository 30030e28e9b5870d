//! Application-level configuration: the default LLM format and the
//! per-provider defaults that fill in what a node leaves empty.
use vstd::prelude::*;
use crate::strings::str_eq;

verus! {

/// Defaults for a single provider/format.
#[derive(Debug, Clone)]
pub struct ProviderConfig {
    pub model: Option<String>,
    pub api_key: Option<String>,
    /// Base endpoint URL (maps to `custom_url` in the LLM command).
    pub endpoint: Option<String>,
    /// MiniMax group ID for embedding API.
    pub group_id: Option<String>,
}

/// Application-level configuration.
///
/// `providers` holds one entry per format name; a configuration read from a
/// table has each name at most once, and lookups take the first entry whose
/// name matches.
#[derive(Debug, Clone)]
pub struct AppConfig {
    /// Default LLM format when a node leaves the format field empty.
    pub default_format: Option<String>,
    /// Per-format/provider defaults, keyed by format name.
    pub providers: Vec<(String, ProviderConfig)>,
}

/// The provider entry for `key`: the first entry of `entries` named `key`.
pub open spec fn lookup_provider(entries: Seq<(String, ProviderConfig)>, key: Seq<char>) -> Option<ProviderConfig>
    decreases entries.len(),
{
    if entries.len() == 0 {
        None
    } else if entries[0].0@ == key {
        Some(entries[0].1)
    } else {
        lookup_provider(entries.drop_first(), key)
    }
}

/// No format name occurs twice among the entries.
pub open spec fn distinct_provider_names(entries: Seq<(String, ProviderConfig)>) -> bool {
    forall|i: int, j: int|
        0 <= i < entries.len() && 0 <= j < entries.len() && i != j ==> entries[i].0@ != entries[j].0@
}

/// Looking up in a list with one more entry at the end.
proof fn lemma_lookup_push(s: Seq<(String, ProviderConfig)>, x: (String, ProviderConfig), key: Seq<char>)
    ensures
        lookup_provider(s.push(x), key) == (match lookup_provider(s, key) {
            Some(p) => Some(p),
            None => if x.0@ == key { Some(x.1) } else { None },
        }),
    decreases s.len(),
{
    if s.len() > 0 {
        assert(s.push(x)[0] == s[0]);
        assert(s.push(x).drop_first() =~= s.drop_first().push(x));
        lemma_lookup_push(s.drop_first(), x, key);
    } else {
        let e = Seq::<(String, ProviderConfig)>::empty();
        assert(s.push(x)[0] == x);
        assert(s.push(x).drop_first() =~= e);
        assert(lookup_provider(e, key) is None);
        assert(lookup_provider(s, key) is None);
    }
}

/// A name that a lookup does not find names no entry.
proof fn lemma_lookup_none(s: Seq<(String, ProviderConfig)>, key: Seq<char>)
    ensures
        lookup_provider(s, key) is None ==> forall|j: int| 0 <= j < s.len() ==> #[trigger] s[j].0@ != key,
    decreases s.len(),
{
    if s.len() > 0 {
        lemma_lookup_none(s.drop_first(), key);
        assert forall|j: int| 1 <= j < s.len() implies s.drop_first()[j - 1] == #[trigger] s[j] by {}
    }
}

/// With distinct names, the entry at `i` is what a lookup of its name finds.
proof fn lemma_lookup_entry(entries: Seq<(String, ProviderConfig)>, i: int)
    requires
        distinct_provider_names(entries),
        0 <= i < entries.len(),
    ensures
        lookup_provider(entries, entries[i].0@) == Some(entries[i].1),
    decreases i,
{
    if i > 0 {
        let rest = entries.drop_first();
        assert(entries[0].0@ != entries[i].0@);
        assert(rest[i - 1] == entries[i]);
        assert(distinct_provider_names(rest)) by {
            assert forall|a: int, b: int|
                0 <= a < rest.len() && 0 <= b < rest.len() && a != b implies rest[a].0@ != rest[b].0@ by {
                assert(rest[a] == entries[a + 1] && rest[b] == entries[b + 1]);
            }
        }
        lemma_lookup_entry(rest, i - 1);
    }
}

/// A configuration whose provider names are distinct behaves as a map from
/// format name to provider defaults: looking up the name of any entry finds
/// that entry.
pub proof fn provider_lookup_finds_each_entry(app: AppConfig, i: int)
    requires
        app.wf(),
        0 <= i < app.providers@.len(),
    ensures
        app.provider(app.providers@[i].0@) == Some(app.providers@[i].1),
{
    lemma_lookup_entry(app.providers@, i);
}

impl AppConfig {
    /// Each format name has at most one provider entry.
    pub open spec fn wf(self) -> bool {
        distinct_provider_names(self.providers@)
    }

    /// The defaults configured for format `key`, if any.
    pub open spec fn provider(self, key: Seq<char>) -> Option<ProviderConfig> {
        lookup_provider(self.providers@, key)
    }

    /// An empty configuration: no default format and no providers.
    pub fn empty() -> (r: AppConfig)
        ensures
            r.wf(),
            r.default_format is None,
            r.providers@.len() == 0,
    {
        AppConfig { default_format: None, providers: Vec::new() }
    }

    /// A configuration from entries read in order; a name that occurs again
    /// keeps its first entry, so lookups find what they find in `entries`.
    pub fn from_entries(default_format: Option<String>, entries: Vec<(String, ProviderConfig)>) -> (r: AppConfig)
        ensures
            r.wf(),
            r.default_format == default_format,
            forall|key: Seq<char>| #[trigger] r.provider(key) == lookup_provider(entries@, key),
    {
        let ghost orig = entries@;
        let n = entries.len();
        let mut rest = entries;
        let mut out = AppConfig { default_format, providers: Vec::new() };
        let mut i: usize = 0;
        assert(orig.take(0) =~= Seq::<(String, ProviderConfig)>::empty());
        assert(orig.subrange(0, n as int) =~= orig);
        while i < n
            invariant
                n == orig.len(),
                i <= n,
                rest@ == orig.subrange(i as int, n as int),
                out.wf(),
                out.default_format == default_format,
                forall|key: Seq<char>| #[trigger] out.provider(key) == lookup_provider(orig.take(i as int), key),
            decreases n - i,
        {
            let e = rest.remove(0);
            assert(e == orig[i as int]);
            assert(rest@ =~= orig.subrange(i + 1, n as int));
            assert(orig.take(i + 1) =~= orig.take(i as int).push(e));
            let ghost before = out.providers@;
            let ghost before_cfg = out;
            let ghost prefix = orig.take(i as int);
            let present = out.get_provider(e.0.as_str()).is_some();
            if !present {
                proof { lemma_lookup_none(before, e.0@); }
                out.providers.push(e);
                assert(out.providers@ == before.push(e));
                assert forall|key: Seq<char>| #[trigger] out.provider(key) == lookup_provider(orig.take(i + 1), key) by {
                    lemma_lookup_push(before, e, key);
                    lemma_lookup_push(prefix, e, key);
                    assert(before_cfg.provider(key) == lookup_provider(prefix, key));
                }
                assert(out.wf()) by {
                    assert forall|a: int, b: int| 0 <= a < out.providers@.len() && 0 <= b < out.providers@.len() && a != b
                        implies out.providers@[a].0@ != out.providers@[b].0@ by {
                        if a < before.len() && b < before.len() {
                            assert(out.providers@[a] == before[a] && out.providers@[b] == before[b]);
                        } else if a < before.len() {
                            assert(out.providers@[a] == before[a]);
                            assert(before[a].0@ != e.0@);
                        } else {
                            assert(out.providers@[b] == before[b]);
                            assert(before[b].0@ != e.0@);
                        }
                    }
                }
            } else {
                assert forall|key: Seq<char>| #[trigger] out.provider(key) == lookup_provider(orig.take(i + 1), key) by {
                    lemma_lookup_push(prefix, e, key);
                    assert(before_cfg.provider(key) == lookup_provider(prefix, key));
                    assert(before_cfg.provider(e.0@) == lookup_provider(prefix, e.0@));
                }
            }
            i = i + 1;
        }
        assert(orig.take(n as int) =~= orig);
        out
    }

    /// Looks up the defaults configured for `key`.
    pub fn get_provider(&self, key: &str) -> (r: Option<&ProviderConfig>)
        ensures
            r matches Some(p) ==> self.provider(key@) == Some(*p),
            r is None ==> self.provider(key@) is None,
    {
        let n = self.providers.len();
        let mut i: usize = 0;
        assert(self.providers@.subrange(0, n as int) =~= self.providers@);
        while i < n
            invariant
                n == self.providers@.len(),
                i <= n,
                lookup_provider(self.providers@.subrange(i as int, n as int), key@)
                    == self.provider(key@),
            decreases n - i,
        {
            proof {
                let rest = self.providers@.subrange(i as int, n as int);
                assert(rest.drop_first() =~= self.providers@.subrange(i + 1, n as int));
            }
            let entry = &self.providers[i];
            if str_eq(entry.0.as_str(), key) {
                return Some(&entry.1);
            }
            i = i + 1;
        }
        None
    }
}

} // verus!
