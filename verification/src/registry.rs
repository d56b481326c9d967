//! The language registry: every descriptor loaded once, indexed by its
//! unique identifier, read-only from then on.
//!
//! The caller enumerates the configuration directory and parses each file;
//! this module takes the per-file outcomes, validates every descriptor's
//! templates, rejects duplicate identifiers with a named error, and reports
//! each skipped file with its reason instead of swallowing it.

use crate::language::Language;
use vstd::prelude::*;

verus! {

broadcast use vstd::std_specs::hash::group_hash_axioms;

/// What reading and parsing one descriptor file gave.
pub enum ParseOutcome {
    /// The file parsed into a descriptor.
    Parsed(Language),
    /// The file was unreadable or did not parse as a descriptor.
    Malformed,
}

/// Why a descriptor file contributed no registry entry.
#[derive(Clone, Copy, Debug, PartialEq, Eq, Structural)]
pub enum SkipReason {
    /// The file was unreadable or did not parse as a descriptor.
    Malformed,
    /// The descriptor parsed, but one of its command templates is invalid.
    InvalidTemplate,
}

/// Two descriptors claim the same identifier: a configuration bug, rejected
/// at load time rather than silently resolved.
#[derive(Clone, Copy, Debug, PartialEq, Eq, Structural)]
pub struct DuplicateIdError {
    /// The identifier that two descriptors share.
    pub uuid: u128,
}

/// The per-file outcomes of one registry load, kept for observability.
pub struct LoadReport {
    /// Index and reason of every skipped entry, in input order.
    pub skipped: Vec<(usize, SkipReason)>,
}

/// An entry that contributes to the registry: parsed, with valid templates.
pub open spec fn entry_ok(e: ParseOutcome) -> bool {
    e matches ParseOutcome::Parsed(l) && l.wf_templates()
}

/// Why an entry contributes nothing.
pub open spec fn skip_reason(e: ParseOutcome) -> SkipReason {
    if e is Malformed {
        SkipReason::Malformed
    } else {
        SkipReason::InvalidTemplate
    }
}

/// The registry built from the first `n` entries: each contributing
/// descriptor under its identifier, later entries inserted later.
pub open spec fn loaded_map(entries: Seq<ParseOutcome>, n: int) -> Map<u128, Language>
    decreases n
        when 0 <= n <= entries.len()
{
    if n == 0 {
        Map::empty()
    } else {
        let m = loaded_map(entries, n - 1);
        if entry_ok(entries[n - 1]) {
            m.insert(entries[n - 1]->Parsed_0.uuid, entries[n - 1]->Parsed_0)
        } else {
            m
        }
    }
}

/// The skipped indices and reasons among the first `n` entries, in order.
pub open spec fn skipped_list(entries: Seq<ParseOutcome>, n: int) -> Seq<(usize, SkipReason)>
    decreases n
        when 0 <= n <= entries.len()
{
    if n == 0 {
        Seq::empty()
    } else {
        let s = skipped_list(entries, n - 1);
        if entry_ok(entries[n - 1]) {
            s
        } else {
            s.push((((n - 1) as usize), skip_reason(entries[n - 1])))
        }
    }
}

/// No two contributing entries share an identifier.
pub open spec fn no_duplicate_ids(entries: Seq<ParseOutcome>, n: int) -> bool {
    forall|i: int, j: int|
        0 <= i < j < n && entry_ok(#[trigger] entries[i]) && entry_ok(#[trigger] entries[j])
            ==> entries[i]->Parsed_0.uuid != entries[j]->Parsed_0.uuid
}

/// The registry built from the first `n` entries holds an identifier exactly
/// when some contributing entry among them carries it.
pub proof fn lemma_loaded_map_ids(entries: Seq<ParseOutcome>, n: int)
    requires
        0 <= n <= entries.len(),
    ensures
        forall|id: u128|
            loaded_map(entries, n).contains_key(id) <==> exists|i: int|
                0 <= i < n && entry_ok(#[trigger] entries[i]) && entries[i]->Parsed_0.uuid == id,
    decreases n,
{
    if n > 0 {
        lemma_loaded_map_ids(entries, n - 1);
        assert forall|id: u128| loaded_map(entries, n).contains_key(id) implies exists|i: int|
            0 <= i < n && entry_ok(#[trigger] entries[i]) && entries[i]->Parsed_0.uuid == id by {
            if entry_ok(entries[n - 1]) && entries[n - 1]->Parsed_0.uuid == id {
                assert(entry_ok(entries[n - 1]) && entries[n - 1]->Parsed_0.uuid == id);
            } else {
                assert(loaded_map(entries, n - 1).contains_key(id));
            }
        }
        assert forall|id: u128|
            (exists|i: int|
                0 <= i < n && entry_ok(#[trigger] entries[i]) && entries[i]->Parsed_0.uuid
                    == id) implies loaded_map(entries, n).contains_key(id) by {
            let i = choose|i: int|
                0 <= i < n && entry_ok(#[trigger] entries[i]) && entries[i]->Parsed_0.uuid == id;
            if i < n - 1 {
                assert(loaded_map(entries, n - 1).contains_key(id));
            }
        }
    }
}

/// Law: the registry maps each identifier it holds to a descriptor whose own
/// identifier matches it exactly.
pub proof fn lemma_registry_key_matches_descriptor(entries: Seq<ParseOutcome>, n: int)
    requires
        0 <= n <= entries.len(),
    ensures
        forall|id: u128| #[trigger]
            loaded_map(entries, n).contains_key(id) ==> loaded_map(entries, n)[id].uuid == id,
    decreases n,
{
    if n > 0 {
        lemma_registry_key_matches_descriptor(entries, n - 1);
        assert forall|id: u128| #[trigger]
            loaded_map(entries, n).contains_key(id) implies loaded_map(entries, n)[id].uuid
            == id by {
            if !(entry_ok(entries[n - 1]) && entries[n - 1]->Parsed_0.uuid == id) {
                assert(loaded_map(entries, n - 1).contains_key(id));
            }
        }
    }
}

/// Law: with no duplicate identifiers, the registry maps each contributing
/// entry's identifier to exactly that descriptor.
pub proof fn lemma_registry_entry(entries: Seq<ParseOutcome>, n: int, i: int)
    requires
        0 <= i < n <= entries.len(),
        entry_ok(entries[i]),
        no_duplicate_ids(entries, n),
    ensures
        loaded_map(entries, n).contains_key(entries[i]->Parsed_0.uuid),
        loaded_map(entries, n)[entries[i]->Parsed_0.uuid] == entries[i]->Parsed_0,
    decreases n,
{
    if i == n - 1 {
    } else {
        lemma_registry_entry(entries, n - 1, i);
    }
}

/// The language registry: one descriptor per identifier, immutable after
/// construction and safe to share read-only.
pub struct Languages {
    langs: std::collections::HashMap<u128, Language>,
}

impl View for Languages {
    type V = Map<u128, Language>;

    closed spec fn view(&self) -> Map<u128, Language> {
        self.langs@
    }
}

impl Languages {
    /// Builds the registry from the per-file parse outcomes of one
    /// configuration directory scan. Descriptors with invalid templates and
    /// files that did not parse are skipped and reported; a duplicate
    /// identifier among the contributing descriptors rejects the whole load.
    pub fn load(entries: Vec<ParseOutcome>) -> (r: Result<
        (Languages, LoadReport),
        DuplicateIdError,
    >)
        ensures
            ({
                let n = entries@.len() as int;
                match r {
                    Ok(p) => {
                        &&& no_duplicate_ids(entries@, n)
                        &&& p.0@ == loaded_map(entries@, n)
                        &&& p.1.skipped@ == skipped_list(entries@, n)
                    },
                    Err(e) => {
                        &&& !no_duplicate_ids(entries@, n)
                        &&& exists|i: int, j: int|
                            0 <= i < j < n && entry_ok(#[trigger] entries@[i]) && entry_ok(
                                #[trigger] entries@[j],
                            ) && entries@[i]->Parsed_0.uuid == e.uuid
                                && entries@[j]->Parsed_0.uuid == e.uuid
                    },
                }
            }),
    {
        let n = entries.len();
        let mut langs: std::collections::HashMap<u128, Language> =
            std::collections::HashMap::new();
        let mut skipped: Vec<(usize, SkipReason)> = Vec::new();
        let mut k: usize = 0;
        while k < n
            invariant
                0 <= k <= n,
                n == entries@.len(),
                langs@ == loaded_map(entries@, k as int),
                skipped@ == skipped_list(entries@, k as int),
                no_duplicate_ids(entries@, k as int),
            decreases n - k,
        {
            match &entries[k] {
                ParseOutcome::Parsed(l) => {
                    if l.templates_valid() {
                        if langs.contains_key(&l.uuid) {
                            proof {
                                lemma_loaded_map_ids(entries@, k as int);
                            }
                            return Err(DuplicateIdError { uuid: l.uuid });
                        }
                        langs.insert(l.uuid, l.clone());
                        proof {
                            lemma_loaded_map_ids(entries@, k as int);
                            assert forall|i: int, j: int|
                                0 <= i < j < k + 1 && entry_ok(#[trigger] entries@[i]) && entry_ok(
                                    #[trigger] entries@[j],
                                ) implies entries@[i]->Parsed_0.uuid
                                != entries@[j]->Parsed_0.uuid by {
                                if j == k as int {
                                    assert(!loaded_map(entries@, k as int).contains_key(
                                        entries@[j]->Parsed_0.uuid,
                                    ));
                                }
                            }
                        }
                    } else {
                        skipped.push((k, SkipReason::InvalidTemplate));
                    }
                },
                ParseOutcome::Malformed => {
                    skipped.push((k, SkipReason::Malformed));
                },
            }
            k = k + 1;
        }
        Ok((Languages { langs }, LoadReport { skipped }))
    }

    /// Looks the identifier up: the descriptor loaded under it, or nothing.
    pub fn get(&self, uuid: u128) -> (r: Option<&Language>)
        ensures
            match r {
                Some(l) => self@.contains_key(uuid) && *l == self@[uuid],
                None => !self@.contains_key(uuid),
            },
    {
        self.langs.get(&uuid)
    }

    /// How many languages the registry holds.
    pub fn len(&self) -> (r: usize)
        ensures
            r == self@.len(),
    {
        self.langs.len()
    }
}

} // verus!
