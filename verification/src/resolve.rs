//! The resolution policy: which language tags a session reports, given an
//! optional override, the host's locale enumeration, and the fallback.

use vstd::prelude::*;

verus! {

/// One entry of the host's locale enumeration: a language code and a
/// region code, either of which the host may leave absent.
pub struct LocaleEntry {
    pub language: Option<String>,
    pub region: Option<String>,
}

/// The terminator of a host enumeration: an entry with neither language
/// nor region. Entries past the first sentinel are never read.
pub open spec fn is_sentinel(e: LocaleEntry) -> bool {
    e.language is None && e.region is None
}

/// The language tags a host enumeration contributes: entries are read up
/// to the first sentinel, and each entry before it contributes its
/// language alone; the region is discarded unconditionally.
pub open spec fn host_languages(entries: Seq<LocaleEntry>) -> Seq<Seq<char>>
    decreases entries.len(),
{
    if entries.len() == 0 {
        Seq::empty()
    } else if is_sentinel(entries[0]) {
        Seq::empty()
    } else {
        match entries[0].language {
            Some(l) => seq![l@] + host_languages(entries.drop_first()),
            None => host_languages(entries.drop_first()),
        }
    }
}

/// The tag reported when the host yields no information at all.
pub open spec fn default_language() -> Seq<char> {
    seq!['e', 'n']
}

/// The fallback policy: an empty list becomes the single default tag,
/// every other list is kept as it is. This is the only mechanism that
/// makes the host-derived list non-empty.
pub open spec fn with_fallback(langs: Seq<Seq<char>>) -> Seq<Seq<char>> {
    if langs.len() == 0 {
        seq![default_language()]
    } else {
        langs
    }
}

/// Splitting a sentinel-free prefix off a host enumeration splits its
/// contributed languages at the same point.
proof fn lemma_host_languages_split(entries: Seq<LocaleEntry>, i: int)
    requires
        0 <= i <= entries.len(),
        forall|j: int| 0 <= j < i ==> !is_sentinel(entries[j]),
    ensures
        host_languages(entries) == host_languages(entries.take(i)) + host_languages(
            entries.skip(i),
        ),
    decreases i,
{
    if i == 0 {
        assert(entries.take(0) =~= Seq::<LocaleEntry>::empty());
        assert(entries.skip(0) =~= entries);
        assert(host_languages(entries.take(0)) + host_languages(entries) =~= host_languages(
            entries,
        ));
    } else {
        let rest = entries.drop_first();
        assert forall|j: int| 0 <= j < i - 1 implies !is_sentinel(rest[j]) by {
            assert(rest[j] == entries[j + 1]);
        }
        lemma_host_languages_split(rest, i - 1);
        assert(entries.take(i).drop_first() =~= rest.take(i - 1));
        assert(entries.skip(i) =~= rest.skip(i - 1));
        assert(!is_sentinel(entries[0]));
        assert(entries.take(i)[0] == entries[0]);
        match entries[0].language {
            Some(l) => {
                assert(host_languages(entries) == seq![l@] + host_languages(rest));
                assert(host_languages(entries.take(i)) == seq![l@] + host_languages(
                    rest.take(i - 1),
                ));
                assert(host_languages(entries) =~= host_languages(entries.take(i))
                    + host_languages(entries.skip(i)));
            },
            None => {
                assert(host_languages(entries) == host_languages(rest));
                assert(host_languages(entries.take(i)) == host_languages(rest.take(i - 1)));
                assert(host_languages(entries) =~= host_languages(entries.take(i))
                    + host_languages(entries.skip(i)));
            },
        }
    }
}

/// Reads the language tags out of a host enumeration: stops at the first
/// sentinel, keeps each earlier entry's language, and discards every
/// region.
pub fn extract_languages(entries: &Vec<LocaleEntry>) -> (langs: Vec<String>)
    ensures
        langs.deep_view() == host_languages(entries@),
{
    let mut langs: Vec<String> = Vec::new();
    let mut i: usize = 0;
    while i < entries.len()
        invariant
            i <= entries.len(),
            forall|j: int| 0 <= j < i ==> !is_sentinel(entries@[j]),
            langs.deep_view() == host_languages(entries@.take(i as int)),
        decreases entries.len() - i,
    {
        let entry = &entries[i];
        if entry.language.is_none() && entry.region.is_none() {
            proof {
                lemma_host_languages_split(entries@, i as int);
                assert(entries@.skip(i as int)[0] == entries@[i as int]);
                assert(host_languages(entries@.skip(i as int)) =~= Seq::<Seq<char>>::empty());
                assert(host_languages(entries@) =~= host_languages(entries@.take(i as int)));
            }
            return langs;
        }
        let ghost prefix = langs.deep_view();
        match &entry.language {
            Some(l) => {
                langs.push(l.clone());
                proof {
                    assert(langs.deep_view() =~= prefix + seq![entries@[i as int].language->Some_0@]);
                }
            },
            None => {},
        }
        proof {
            let next = (i + 1) as int;
            let idx = i as int;
            assert forall|j: int| 0 <= j < idx implies !is_sentinel(entries@.take(next)[j]) by {
                assert(entries@.take(next)[j] == entries@[j]);
            }
            lemma_host_languages_split(entries@.take(next), idx);
            assert(entries@.take(next).take(idx) =~= entries@.take(idx));
            let last = entries@.take(next).skip(idx);
            assert(last =~= seq![entries@[idx]]);
            assert(last.drop_first() =~= Seq::<LocaleEntry>::empty());
            assert(host_languages(Seq::<LocaleEntry>::empty()) == Seq::<Seq<char>>::empty());
            assert(host_languages(entries@.take(next)) =~= langs.deep_view());
        }
        i += 1;
    }
    proof {
        assert(entries@.take(entries@.len() as int) =~= entries@);
    }
    langs
}

/// Applies the fallback policy to an already-extracted list of tags.
pub fn apply_fallback(langs: Vec<String>) -> (r: Vec<String>)
    ensures
        r.deep_view() == with_fallback(langs.deep_view()),
{
    if langs.len() == 0 {
        let mut r: Vec<String> = Vec::new();
        r.push("en".to_owned());
        proof {
            reveal_strlit("en");
            assert("en"@ =~= default_language());
            assert(r.deep_view() =~~= seq![default_language()]);
        }
        r
    } else {
        langs
    }
}

/// The part of the resolution policy that needs no host query: a cached
/// list wins outright, then a configured override, verbatim. `None`
/// means the host must be consulted.
pub open spec fn resolved_without_host(
    cached: Option<Seq<Seq<char>>>,
    override_langs: Option<Seq<Seq<char>>>,
) -> Option<Seq<Seq<char>>> {
    match cached {
        Some(l) => Some(l),
        None => override_langs,
    }
}

/// The full resolution policy of one session: the cache wins, then the
/// override (verbatim, even when empty), then the host enumeration with
/// the fallback applied.
pub open spec fn resolved(
    cached: Option<Seq<Seq<char>>>,
    override_langs: Option<Seq<Seq<char>>>,
    host: Seq<LocaleEntry>,
) -> Seq<Seq<char>> {
    match resolved_without_host(cached, override_langs) {
        Some(l) => l,
        None => with_fallback(host_languages(host)),
    }
}

/// Resolves the preferred languages from the host enumeration alone:
/// extraction followed by the fallback policy. The second component
/// reports whether the fallback was applied, for diagnostics.
pub fn resolve_from_host(entries: &Vec<LocaleEntry>) -> (r: (Vec<String>, bool))
    ensures
        r.0.deep_view() == with_fallback(host_languages(entries@)),
        r.1 <==> host_languages(entries@).len() == 0,
        r.0.len() >= 1,
{
    let langs = extract_languages(entries);
    let used_fallback = langs.len() == 0;
    let resolved_langs = apply_fallback(langs);
    proof {
        assert(resolved_langs.deep_view().len() == resolved_langs@.len());
    }
    (resolved_langs, used_fallback)
}

/// Law: resolution is idempotent within a session. Once a first query
/// has cached its result, any later query resolves to that same list,
/// whatever the host would report by then.
pub proof fn lemma_resolution_idempotent(
    override_langs: Option<Seq<Seq<char>>>,
    host_first: Seq<LocaleEntry>,
    host_later: Seq<LocaleEntry>,
)
    ensures
        ({
            let first = resolved(None, override_langs, host_first);
            resolved(Some(first), override_langs, host_later) == first
        }),
{
}

/// Law: a configured override takes precedence. On a fresh session it is
/// the resolved list, exactly and verbatim, whatever the host holds —
/// so the host is never consulted.
pub proof fn lemma_override_precedence(override_langs: Seq<Seq<char>>, host: Seq<LocaleEntry>)
    ensures
        resolved(None, Some(override_langs), host) == override_langs,
{
}

/// Law: on the no-override path the resolved list is never empty.
pub proof fn lemma_no_override_nonempty(host: Seq<LocaleEntry>)
    ensures
        resolved(None, None, host).len() >= 1,
{
}

/// Law: the region codes of a host enumeration never influence which
/// tags come out. Two enumerations that agree on their languages, and on
/// where a region is present at all, contribute the same tags.
pub proof fn lemma_region_discarded(a: Seq<LocaleEntry>, b: Seq<LocaleEntry>)
    requires
        a.len() == b.len(),
        forall|i: int| 0 <= i < a.len() ==> a[i].language == b[i].language,
        forall|i: int| 0 <= i < a.len() ==> (a[i].region is Some <==> b[i].region is Some),
    ensures
        host_languages(a) == host_languages(b),
    decreases a.len(),
{
    if a.len() != 0 {
        assert(a[0].language == b[0].language);
        assert(is_sentinel(a[0]) <==> is_sentinel(b[0]));
        if !is_sentinel(a[0]) {
            let ra = a.drop_first();
            let rb = b.drop_first();
            assert forall|i: int| 0 <= i < ra.len() implies ra[i].language == rb[i].language && (
            ra[i].region is Some <==> rb[i].region is Some) by {
                assert(ra[i] == a[i + 1]);
                assert(rb[i] == b[i + 1]);
            }
            lemma_region_discarded(ra, rb);
        }
    }
}

/// Law: the first sentinel ends enumeration for good. Whatever follows a
/// host sequence that already holds a sentinel, the contributed tags are
/// unchanged.
pub proof fn lemma_sentinel_terminates(entries: Seq<LocaleEntry>, i: int, tail: Seq<LocaleEntry>)
    requires
        0 <= i < entries.len(),
        is_sentinel(entries[i]),
    ensures
        host_languages(entries + tail) == host_languages(entries),
    decreases i,
{
    let whole = entries + tail;
    assert(whole.len() == entries.len() + tail.len());
    assert(whole[0] == entries[0]);
    if is_sentinel(entries[0]) {
        assert(host_languages(whole) =~= host_languages(entries));
    } else {
        let re = entries.drop_first();
        assert(i >= 1);
        assert(re[i - 1] == entries[i]);
        lemma_sentinel_terminates(re, i - 1, tail);
        assert(whole.drop_first() =~= re + tail);
    }
}

} // verus!
