//! The per-session context: the configured override and the cache slot
//! that memoizes the resolved preferred-language list.

use vstd::prelude::*;
use crate::resolve::{resolved, resolved_without_host, with_fallback, host_languages, LocaleEntry};
use crate::resolve::resolve_from_host;

verus! {

/// Session configuration: an optional operator-supplied override of the
/// preferred-language list, fixed when the session is set up.
pub struct Options {
    pub preferred_languages: Option<Vec<String>>,
}

/// Per-session locale state: the cache slot for the resolved list,
/// unresolved until the first query and set at most once.
pub struct State {
    preferred_languages: Option<Vec<String>>,
}

/// The per-session execution context owning the configuration and the
/// locale state.
pub struct Environment {
    pub options: Options,
    pub ns_locale: State,
}

impl State {
    /// The cached list, as the sequences of characters it holds, or
    /// `None` while the session is still unresolved.
    pub closed spec fn cached(self) -> Option<Seq<Seq<char>>> {
        self.preferred_languages.deep_view()
    }

    /// The locale state owned by the given session context.
    pub fn get(env: &mut Environment) -> (state: &mut State)
        ensures
            *state == old(env).ns_locale,
            final(env).ns_locale == *final(state),
            final(env).options == old(env).options,
    {
        &mut env.ns_locale
    }
}

impl Default for State {
    /// A fresh state with nothing resolved yet.
    fn default() -> (s: State)
        ensures
            s.cached() is None,
    {
        State { preferred_languages: None }
    }
}

/// Copies a list of language tags; the copy holds exactly the same text.
fn clone_tags(tags: &Vec<String>) -> (r: Vec<String>)
    ensures
        r.deep_view() == tags.deep_view(),
{
    let mut r: Vec<String> = Vec::new();
    let mut i: usize = 0;
    while i < tags.len()
        invariant
            i <= tags.len(),
            r.deep_view() == tags.deep_view().take(i as int),
        decreases tags.len() - i,
    {
        let ghost prefix = r.deep_view();
        r.push(tags[i].clone());
        proof {
            assert(r.deep_view() =~= prefix.push(tags.deep_view()[i as int]));
            assert(r.deep_view() =~= tags.deep_view().take(i as int + 1));
        }
        i += 1;
    }
    proof {
        assert(tags.deep_view().take(tags@.len() as int) =~= tags.deep_view());
    }
    r
}

impl Environment {
    /// The configured override, as the sequences of characters it holds.
    pub open spec fn override_view(self) -> Option<Seq<Seq<char>>> {
        self.options.preferred_languages.deep_view()
    }

    /// Whether the session has already resolved and cached its list.
    pub fn is_resolved(&self) -> (r: bool)
        ensures
            r == (self.ns_locale.cached() is Some),
    {
        self.ns_locale.preferred_languages.is_some()
    }

    /// First stage of the guest accessor: returns the cached list when
    /// the session holds one — without touching anything — and
    /// otherwise resolves and caches a configured override, verbatim.
    /// `None` means no override is configured either, and resolution
    /// must continue with the host enumeration.
    pub fn try_preferred_languages(&mut self) -> (r: Option<Vec<String>>)
        ensures
            match r {
                Some(langs) => {
                    &&& resolved_without_host(
                        old(self).ns_locale.cached(),
                        old(self).override_view(),
                    ) == Some(langs.deep_view())
                    &&& final(self).ns_locale.cached() == Some(langs.deep_view())
                    &&& final(self).options == old(self).options
                    &&& old(self).ns_locale.cached() is Some ==> *final(self) == *old(self)
                },
                None => {
                    &&& old(self).ns_locale.cached() is None
                    &&& old(self).override_view() is None
                    &&& *final(self) == *old(self)
                },
            },
    {
        match &self.ns_locale.preferred_languages {
            Some(cached_langs) => {
                let langs = clone_tags(cached_langs);
                Some(langs)
            },
            None => {
                match &self.options.preferred_languages {
                    Some(override_langs) => {
                        let langs = clone_tags(override_langs);
                        self.ns_locale.preferred_languages = Some(clone_tags(&langs));
                        Some(langs)
                    },
                    None => None,
                }
            },
        }
    }

    /// Second stage of the guest accessor, for a session with neither a
    /// cached list nor a configured override: resolves from the host
    /// enumeration with the fallback applied, caches the result, and
    /// reports whether the fallback was applied, for diagnostics.
    pub fn preferred_languages_from_host(&mut self, entries: &Vec<LocaleEntry>) -> (r: (
        Vec<String>,
        bool,
    ))
        requires
            old(self).ns_locale.cached() is None,
            old(self).override_view() is None,
        ensures
            r.0.deep_view() == resolved(
                old(self).ns_locale.cached(),
                old(self).override_view(),
                entries@,
            ),
            r.0.deep_view() == with_fallback(host_languages(entries@)),
            r.0.len() >= 1,
            r.1 <==> host_languages(entries@).len() == 0,
            final(self).ns_locale.cached() == Some(r.0.deep_view()),
            final(self).options == old(self).options,
    {
        let (langs, used_fallback) = resolve_from_host(entries);
        self.ns_locale.preferred_languages = Some(clone_tags(&langs));
        (langs, used_fallback)
    }
}

} // verus!
