//! The set of provider adapters the runtime hosts, at most one per kind.
use vstd::prelude::*;

use crate::error::RuntimeError;
use crate::provider::{ProviderKind, ProviderMetadata, RuntimeProvider};
use crate::text::{seq_lt, str_lt, lemma_seq_lt_irreflexive, lemma_seq_lt_transitive};

verus! {

/// Whether no kind occurs twice among the entries.
pub open spec fn kinds_distinct<P>(entries: Seq<(ProviderKind, P)>) -> bool {
    forall|i: int, j: int|
        0 <= i < j < entries.len() ==> #[trigger] entries[i].0 != #[trigger] entries[j].0
}

/// Whether `kind` has an entry.
pub open spec fn has_kind<P>(entries: Seq<(ProviderKind, P)>, kind: ProviderKind) -> bool {
    exists|i: int| 0 <= i < entries.len() && #[trigger] entries[i].0 == kind
}

/// Whether the metadata is in ascending order of display name.
pub open spec fn sorted_by_display_name(items: Seq<ProviderMetadata>) -> bool {
    forall|i: int, j: int|
        0 <= i < j < items.len() ==> !seq_lt(
            #[trigger] items[j].display_name@,
            #[trigger] items[i].display_name@,
        )
}

/// A provider registered under a kind the registry lacked is afterwards the
/// one and only provider found under that kind, so that registering the
/// kind again is refused; the other kinds are as they were.
pub proof fn lemma_registered_provider_is_found<P>(
    entries: Seq<(ProviderKind, P)>,
    kind: ProviderKind,
    provider: P,
)
    requires
        kinds_distinct(entries),
        !has_kind(entries, kind),
    ensures
        ({
            let after = entries.push((kind, provider));
            &&& kinds_distinct(after)
            &&& has_kind(after, kind)
            &&& forall|i: int| 0 <= i < after.len() && #[trigger] after[i].0 == kind ==> after[i].1 == provider
            &&& forall|k: ProviderKind| k != kind ==> has_kind(after, k) == has_kind(entries, k)
        }),
{
    let after = entries.push((kind, provider));
    assert(after[entries.len() as int].0 == kind);
    assert forall|k: ProviderKind| k != kind implies has_kind(after, k) == has_kind(entries, k) by {
        if has_kind(entries, k) {
            let i = choose|i: int| 0 <= i < entries.len() && #[trigger] entries[i].0 == k;
            assert(after[i].0 == k);
        }
    }
}

/// How many kinds have a provider among the entries.
pub open spec fn kinds_present<P>(entries: Seq<(ProviderKind, P)>) -> nat {
    (if has_kind(entries, ProviderKind::Codex) { 1nat } else { 0nat }) + (if has_kind(
        entries,
        ProviderKind::Claude,
    ) {
        1nat
    } else {
        0nat
    })
}

/// A registry holds exactly one provider for each kind that has one, so its
/// length is the number of kinds with a provider, at most the two kinds
/// there are; each successful registration adds one kind.
pub proof fn lemma_len_counts_registered_kinds<P>(entries: Seq<(ProviderKind, P)>)
    requires
        kinds_distinct(entries),
    ensures
        entries.len() == kinds_present(entries),
        entries.len() <= 2,
    decreases entries.len(),
{
    if entries.len() > 0 {
        let prev = entries.drop_last();
        let last = entries.last();
        assert(kinds_distinct(prev)) by {
            assert forall|i: int, j: int| 0 <= i < j < prev.len() implies #[trigger] prev[i].0
                != #[trigger] prev[j].0 by {
                assert(prev[i] == entries[i] && prev[j] == entries[j]);
            }
        }
        lemma_len_counts_registered_kinds(prev);
        assert(!has_kind(prev, last.0)) by {
            if has_kind(prev, last.0) {
                let i = choose|i: int| 0 <= i < prev.len() && #[trigger] prev[i].0 == last.0;
                assert(entries[i].0 == entries[entries.len() - 1].0);
            }
        }
        assert forall|k: ProviderKind| has_kind(entries, k) == (has_kind(prev, k) || last.0 == k) by {
            if has_kind(entries, k) {
                let i = choose|i: int| 0 <= i < entries.len() && #[trigger] entries[i].0 == k;
                if i < prev.len() {
                    assert(prev[i] == entries[i]);
                }
            }
            if has_kind(prev, k) {
                let i = choose|i: int| 0 <= i < prev.len() && #[trigger] prev[i].0 == k;
                assert(entries[i] == prev[i]);
            }
            if last.0 == k {
                assert(entries[entries.len() - 1].0 == k);
            }
        }
        assert(has_kind(entries, ProviderKind::Codex) == (has_kind(prev, ProviderKind::Codex)
            || last.0 == ProviderKind::Codex));
        assert(has_kind(entries, ProviderKind::Claude) == (has_kind(prev, ProviderKind::Claude)
            || last.0 == ProviderKind::Claude));
    } else {
        assert(!has_kind(entries, ProviderKind::Codex));
        assert(!has_kind(entries, ProviderKind::Claude));
    }
}

/// Registered providers, keyed by their kind.
pub struct ProviderRegistry<P> {
    providers: Vec<(ProviderKind, P)>,
}

impl<P> ProviderRegistry<P> {
    #[verifier::type_invariant]
    spec fn inv(self) -> bool {
        kinds_distinct(self.providers@)
    }

    /// The registered providers with their kinds, in registration order.
    pub closed spec fn entries(self) -> Seq<(ProviderKind, P)> {
        self.providers@
    }

    pub fn new() -> (r: Self)
        ensures
            r.entries() == Seq::<(ProviderKind, P)>::empty(),
    {
        ProviderRegistry { providers: Vec::new() }
    }

    /// Registers `provider` under `kind`; refused when that kind already has
    /// a provider, which leaves the registry as it was.
    pub fn register_as(&mut self, kind: ProviderKind, provider: P) -> (r: Result<(), RuntimeError>)
        ensures
            kinds_distinct(final(self).entries()),
            has_kind(old(self).entries(), kind) ==> final(self).entries() == old(self).entries()
                && (r matches Err(RuntimeError::ProviderAlreadyRegistered(m)) && m@ == kind.name()),
            !has_kind(old(self).entries(), kind) ==> final(self).entries() == old(self).entries().push(
                (kind, provider),
            ) && r is Ok,
    {
        proof {
            use_type_invariant(&*self);
        }
        let mut i: usize = 0;
        while i < self.providers.len()
            invariant
                i <= self.providers@.len(),
                kinds_distinct(self.providers@),
                forall|j: int| 0 <= j < i ==> self.providers@[j].0 != kind,
            decreases self.providers@.len() - i,
        {
            if self.providers[i].0 == kind {
                return Err(RuntimeError::ProviderAlreadyRegistered(kind.as_str().to_string()));
            }
            i += 1;
        }
        let mut providers: Vec<(ProviderKind, P)> = Vec::new();
        std::mem::swap(&mut providers, &mut self.providers);
        providers.push((kind, provider));
        self.providers = providers;
        Ok(())
    }
}


impl<P: RuntimeProvider> ProviderRegistry<P> {
    /// Registers `provider` under the kind it reports (its `kind()`, asked
    /// once); refused, leaving the registry as it was and naming the kind,
    /// when that kind already has a provider.
    pub fn register(&mut self, provider: P) -> (r: Result<(), RuntimeError>)
        ensures
            kinds_distinct(final(self).entries()),
            exists|k: ProviderKind|
                {
                    &&& #[trigger] call_ensures(P::kind, (&provider,), k)
                    &&& has_kind(old(self).entries(), k) ==> final(self).entries() == old(
                        self,
                    ).entries() && (r matches Err(RuntimeError::ProviderAlreadyRegistered(m))
                        && m@ == k.name())
                    &&& !has_kind(old(self).entries(), k) ==> r is Ok && final(self).entries()
                        == old(self).entries().push((k, provider))
                },
    {
        let kind = provider.kind();
        let ghost reported = kind;
        let r = self.register_as(kind, provider);
        assert(call_ensures(P::kind, (&provider,), reported));
        r
    }

    /// The metadata each provider reports (its `metadata()`, asked once per
    /// provider), in ascending order of display name.
    pub fn metadata(&self) -> (items: Vec<ProviderMetadata>)
        ensures
            items@.len() == self.entries().len(),
            sorted_by_display_name(items@),
            exists|reported: Seq<ProviderMetadata>|
                {
                    &&& reported.len() == self.entries().len()
                    &&& forall|i: int|
                        0 <= i < reported.len() ==> call_ensures(
                            P::metadata,
                            (&self.entries()[i].1,),
                            #[trigger] reported[i],
                        )
                    &&& items@.to_multiset() == reported.to_multiset()
                },
    {
        let mut raw: Vec<ProviderMetadata> = Vec::new();
        let mut i: usize = 0;
        while i < self.providers.len()
            invariant
                i <= self.providers@.len(),
                raw@.len() == i,
                forall|j: int|
                    0 <= j < i ==> call_ensures(
                        P::metadata,
                        (&self.providers@[j].1,),
                        #[trigger] raw@[j],
                    ),
            decreases self.providers@.len() - i,
        {
            let m = self.providers[i].1.metadata();
            raw.push(m);
            i += 1;
        }
        let ghost reported = raw@;
        let items = sort_metadata(raw);
        assert(forall|j: int|
            0 <= j < reported.len() ==> call_ensures(
                P::metadata,
                (&self.entries()[j].1,),
                #[trigger] reported[j],
            ));
        items
    }
}

impl<P: Clone> ProviderRegistry<P> {
    /// A clone of the provider registered under `kind`, if any.
    pub fn get(&self, kind: ProviderKind) -> (r: Option<P>)
        ensures
            r is None <==> !has_kind(self.entries(), kind),
            r matches Some(p) ==> exists|i: int|
                0 <= i < self.entries().len() && #[trigger] self.entries()[i].0 == kind && cloned(
                    self.entries()[i].1,
                    p,
                ),
    {
        let mut i: usize = 0;
        while i < self.providers.len()
            invariant
                i <= self.providers@.len(),
                forall|j: int| 0 <= j < i ==> self.providers@[j].0 != kind,
            decreases self.providers@.len() - i,
        {
            if self.providers[i].0 == kind {
                let p = self.providers[i].1.clone();
                assert(cloned(self.providers@[i as int].1, p));
                assert(self.entries()[i as int].0 == kind);
                return Some(p);
            }
            i += 1;
        }
        None
    }
}

impl<P> ProviderRegistry<P> {
    pub fn len(&self) -> (n: usize)
        ensures
            n == self.entries().len(),
    {
        self.providers.len()
    }

    pub fn is_empty(&self) -> (b: bool)
        ensures
            b == (self.entries().len() == 0),
    {
        self.providers.len() == 0
    }
}

/// The same metadata in ascending order of display name (`sort_by` on
/// `display_name`).
pub fn sort_metadata(items: Vec<ProviderMetadata>) -> (sorted: Vec<ProviderMetadata>)
    ensures
        sorted@.len() == items@.len(),
        sorted@.to_multiset() == items@.to_multiset(),
        sorted_by_display_name(sorted@),
{
    broadcast use vstd::seq_lib::group_to_multiset_ensures, vstd::multiset::group_multiset_axioms;

    let mut rest = items;
    let mut out: Vec<ProviderMetadata> = Vec::new();
    let ghost initial = rest@;
    assert(out@.to_multiset().add(rest@.to_multiset()) =~= initial.to_multiset());
    while rest.len() > 0
        invariant
            out@.to_multiset().add(rest@.to_multiset()) == initial.to_multiset(),
            out@.len() + rest@.len() == initial.len(),
            sorted_by_display_name(out@),
        decreases rest@.len(),
    {
        let ghost before = rest@;
        let x = rest.pop().unwrap();
        proof {
            assert(before =~= rest@.push(x));
        }
        let mut p: usize = 0;
        while p < out.len() && !str_lt(x.display_name.as_str(), out[p].display_name.as_str())
            invariant
                p <= out@.len(),
                forall|j: int| 0 <= j < p ==> !seq_lt(x.display_name@, #[trigger] out@[j].display_name@),
            decreases out@.len() - p,
        {
            p += 1;
        }
        let ghost old_out = out@;
        out.insert(p, x);
        proof {
            assert(out@ == old_out.insert(p as int, x));
            vstd::seq_lib::to_multiset_insert(old_out, p as int, x);
            vstd::seq_lib::to_multiset_build(rest@, x);
            assert(out@.to_multiset().add(rest@.to_multiset()) =~= old_out.to_multiset().add(
                before.to_multiset(),
            ));
            assert forall|i: int, j: int| 0 <= i < j < out@.len() implies !seq_lt(
                #[trigger] out@[j].display_name@,
                #[trigger] out@[i].display_name@,
            ) by {
                if i < p && j == p {
                } else if i == p && j > p {
                    let q = j - 1;
                    if seq_lt(old_out[q].display_name@, x.display_name@) {
                        if q == p {
                            lemma_seq_lt_transitive(old_out[q].display_name@, x.display_name@, old_out[p as int].display_name@);
                            lemma_seq_lt_irreflexive(old_out[q].display_name@);
                        } else {
                            lemma_seq_lt_transitive(old_out[q].display_name@, x.display_name@, old_out[p as int].display_name@);
                        }
                    }
                } else if i < p && j > p {
                    assert(old_out[i] == out@[i]);
                    assert(old_out[j - 1] == out@[j]);
                } else if i > p {
                    assert(old_out[i - 1] == out@[i]);
                    assert(old_out[j - 1] == out@[j]);
                } else {
                    assert(old_out[i] == out@[i]);
                    assert(old_out[j] == out@[j]);
                }
            }
        }
    }
    out
}

} // verus!
