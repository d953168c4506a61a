//! Per-model cost, tier, and cache economics used to enrich routing decisions.
//!
//! Prices are integers: micro-USD per million tokens (`500_000` is $0.50 per
//! MTok). A catalog is normally built from a model provider's
//! `list_models()` so that Choice prices match the executing provider.

use vstd::prelude::*;

use crate::error::RouterError;
use crate::keyed_map::KeyedMap;
use crate::model_provider::{cursor_cards, cursor_model_cards, infos_match, profile_of_info, ModelInfo};
use crate::text::{fixed_text, push_fixed, str_eq};

verus! {

/// Placeholder capability / cost tier.
#[derive(Debug, Clone, Copy, PartialEq, Eq, Structural)]
pub enum ModelTier {
    Small,
    Mid,
    Frontier,
}

pub open spec fn tier_name(t: ModelTier) -> Seq<char> {
    match t {
        ModelTier::Small => "T-small"@,
        ModelTier::Mid => "T-mid"@,
        ModelTier::Frontier => "T-frontier"@,
    }
}

pub open spec fn tier_description(t: ModelTier) -> Seq<char> {
    match t {
        ModelTier::Small => "small / cheap"@,
        ModelTier::Mid => "mid"@,
        ModelTier::Frontier => "frontier"@,
    }
}

impl ModelTier {
    pub fn as_str(self) -> (s: &'static str)
        ensures
            s@ == tier_name(self),
    {
        match self {
            ModelTier::Small => "T-small",
            ModelTier::Mid => "T-mid",
            ModelTier::Frontier => "T-frontier",
        }
    }

    pub fn label(self) -> (s: &'static str)
        ensures
            s@ == tier_description(self),
    {
        match self {
            ModelTier::Small => "small / cheap",
            ModelTier::Mid => "mid",
            ModelTier::Frontier => "frontier",
        }
    }
}

/// `$` followed by a micro-USD amount with two fraction digits.
pub open spec fn dollars2(micros: nat) -> Seq<char> {
    "$"@ + fixed_text(micros, 10000, 2)
}

/// Cost / cache / capability profile for one LLM id.
#[derive(Debug, PartialEq, Eq)]
pub struct ModelCostProfile {
    /// Explicit id, when known.
    pub id: Option<String>,
    /// Paper tier: T-small | T-mid | T-frontier.
    pub tier: Option<ModelTier>,
    /// Whether this model can run tool / function-calling loops.
    pub tool_capable: bool,
    /// Input (prompt) price, micro-USD per MTok.
    pub input_usd_per_mtok: u64,
    /// Output (completion) price, micro-USD per MTok.
    pub output_usd_per_mtok: u64,
    /// Placeholder input band text (e.g. `$0.05–0.20`).
    pub cost_band_in: Option<String>,
    /// Placeholder output band text.
    pub cost_band_out: Option<String>,
    /// The provider supports prompt caching for this model.
    pub cache_eligible: bool,
    /// Cached-input read price, micro-USD per MTok.
    pub cache_read_usd_per_mtok: Option<u64>,
    /// Cache-write price, micro-USD per MTok.
    pub cache_write_usd_per_mtok: Option<u64>,
    /// Free-form provider cache / capability notes.
    pub notes: Option<String>,
}

impl Clone for ModelCostProfile {
    fn clone(&self) -> (r: Self)
        ensures
            r == *self,
    {
        ModelCostProfile {
            id: self.id.clone(),
            tier: self.tier,
            tool_capable: self.tool_capable,
            input_usd_per_mtok: self.input_usd_per_mtok,
            output_usd_per_mtok: self.output_usd_per_mtok,
            cost_band_in: self.cost_band_in.clone(),
            cost_band_out: self.cost_band_out.clone(),
            cache_eligible: self.cache_eligible,
            cache_read_usd_per_mtok: self.cache_read_usd_per_mtok,
            cache_write_usd_per_mtok: self.cache_write_usd_per_mtok,
            notes: self.notes.clone(),
        }
    }
}

/// `"T-mid (mid)"` style label of a tier.
pub open spec fn tier_label_text(t: ModelTier) -> Seq<char> {
    tier_name(t) + " ("@ + tier_description(t) + ")"@
}

/// The band note of a profile: the placeholder bands when both are set,
/// else the numeric in/out prices.
pub open spec fn band_note_text(p: ModelCostProfile) -> Seq<char> {
    match (p.cost_band_in, p.cost_band_out) {
        (Some(i), Some(o)) => i@ + " / 1M in, "@ + o@ + " / 1M out"@,
        _ => dollars2(p.input_usd_per_mtok as nat) + "/"@ + dollars2(p.output_usd_per_mtok as nat)
            + " per MTok in/out"@,
    }
}

impl ModelCostProfile {
    pub fn tier_label(&self) -> (r: Option<String>)
        ensures
            match self.tier {
                Some(t) => r is Some && r.unwrap()@ == tier_label_text(t),
                None => r is None,
            },
    {
        match self.tier {
            Some(t) => {
                let mut s = String::new();
                s.append(t.as_str());
                s.append(" (");
                s.append(t.label());
                s.append(")");
                Some(s)
            },
            None => None,
        }
    }

    pub fn band_note(&self) -> (r: String)
        ensures
            r@ == band_note_text(*self),
    {
        let mut s = String::new();
        match (&self.cost_band_in, &self.cost_band_out) {
            (Some(i), Some(o)) => {
                s.append(i.as_str());
                s.append(" / 1M in, ");
                s.append(o.as_str());
                s.append(" / 1M out");
            },
            _ => {
                s.append("$");
                push_fixed(&mut s, self.input_usd_per_mtok, 10000, 2);
                s.append("/");
                s.append("$");
                push_fixed(&mut s, self.output_usd_per_mtok, 10000, 2);
                s.append(" per MTok in/out");
            },
        }
        proof {
            if self.cost_band_in is Some && self.cost_band_out is Some {
                assert(s@ =~= band_note_text(*self));
            } else {
                assert(s@ =~= band_note_text(*self));
            }
        }
        s
    }
}

/// Catalog of known models keyed by stable model id (e.g. `composer-2.5`).
#[derive(Debug, Clone, PartialEq)]
pub struct ModelCatalog {
    pub models: KeyedMap<ModelCostProfile>,
}

/// The catalog a list of provider cards builds; a later card for the same
/// id replaces an earlier one.
pub open spec fn catalog_of_infos(infos: Seq<ModelInfo>) -> Map<Seq<char>, ModelCostProfile>
    decreases infos.len(),
{
    if infos.len() == 0 {
        Map::empty()
    } else {
        catalog_of_infos(infos.drop_last()).insert(
            infos.last().id@,
            profile_of_info(infos.last()),
        )
    }
}

/// Allowlisted model + cost/cache enrichment ready for the prompt packer.
#[derive(Debug, PartialEq)]
pub struct EnrichedCandidate {
    pub model_id: String,
    pub is_current: bool,
    pub profile: ModelCostProfile,
}

pub open spec fn string_views(s: Seq<String>) -> Seq<Seq<char>> {
    s.map_values(|x: String| x@)
}

/// Index `i` holds the first allowlisted id that the catalog lacks.
pub open spec fn first_missing(models: Map<Seq<char>, ModelCostProfile>, allow: Seq<String>, i: int) -> bool {
    &&& 0 <= i < allow.len()
    &&& !models.contains_key(allow[i]@)
    &&& forall|j: int| 0 <= j < i ==> models.contains_key(#[trigger] allow[j]@)
}

/// The candidate rows for an allowlist whose ids are all in the catalog.
pub open spec fn enriched_rows(
    models: Map<Seq<char>, ModelCostProfile>,
    allow: Seq<String>,
    current: Option<Seq<char>>,
    rows: Seq<EnrichedCandidate>,
) -> bool {
    &&& rows.len() == allow.len()
    &&& forall|i: int|
        0 <= i < rows.len() ==> {
            &&& (#[trigger] rows[i]).model_id@ == allow[i]@
            &&& rows[i].is_current == (current == Some(allow[i]@))
            &&& rows[i].profile == models[allow[i]@]
        }
}

pub open spec fn opt_str_view(o: Option<&str>) -> Option<Seq<char>> {
    match o {
        Some(s) => Some(s@),
        None => None,
    }
}

impl ModelCatalog {
    pub fn new() -> (c: Self)
        ensures
            c.models@ == Map::<Seq<char>, ModelCostProfile>::empty(),
    {
        ModelCatalog { models: KeyedMap::new() }
    }

    pub fn insert(&mut self, id: String, profile: ModelCostProfile)
        ensures
            final(self).models@ == old(self).models@.insert(id@, profile),
    {
        self.models.insert(id, profile);
    }

    pub fn get(&self, id: &str) -> (r: Option<&ModelCostProfile>)
        ensures
            r is Some <==> self.models@.contains_key(id@),
            r is Some ==> *r.unwrap() == self.models@[id@],
    {
        self.models.get(id)
    }

    /// Builds a catalog from provider model cards (`list_models()`).
    pub fn from_model_infos(models: &[ModelInfo]) -> (c: Self)
        ensures
            c.models@ == catalog_of_infos(models@),
    {
        let mut catalog = ModelCatalog::new();
        let n = models.len();
        let mut i: usize = 0;
        while i < n
            invariant
                n == models@.len(),
                i <= n,
                catalog.models@ == catalog_of_infos(models@.take(i as int)),
            decreases n - i,
        {
            let m = &models[i];
            let p = m.to_cost_profile();
            catalog.insert(m.id.clone(), p);
            proof {
                assert(models@.take(i as int + 1).drop_last() =~= models@.take(i as int));
            }
            i = i + 1;
        }
        proof {
            assert(models@.take(n as int) =~= models@);
        }
        catalog
    }

    /// Resolves allowlisted models into enriched candidate rows, in
    /// allowlist order.
    pub fn enrich_allowlist(&self, allowlist: &[String], current_model: Option<&str>) -> (r: Result<
        Vec<EnrichedCandidate>,
        RouterError,
    >)
        ensures
            allowlist@.len() == 0 ==> r matches Err(RouterError::EmptyAllowlist),
            allowlist@.len() > 0 && current_model is Some && !string_views(allowlist@).contains(
                current_model.unwrap()@,
            ) ==> (r matches Err(RouterError::CurrentNotAllowlisted(c)) && c@
                == current_model.unwrap()@),
            allowlist@.len() > 0 && (current_model is Some ==> string_views(allowlist@).contains(
                current_model.unwrap()@,
            )) ==> match r {
                Ok(rows) => (forall|i: int| 0 <= i < allowlist@.len() ==> self.models@.contains_key(#[trigger] allowlist@[i]@))
                    && enriched_rows(self.models@, allowlist@, opt_str_view(current_model), rows@),
                Err(RouterError::MissingCatalogEntry(id)) => exists|i: int| first_missing(self.models@, allowlist@, i) && id@ == allowlist@[i]@,
                Err(_) => false,
            },
    {
        if allowlist.len() == 0 {
            return Err(RouterError::EmptyAllowlist);
        }
        if let Some(cur) = current_model {
            let mut found = false;
            let mut i: usize = 0;
            while i < allowlist.len()
                invariant
                    i <= allowlist@.len(),
                    found == exists|j: int| 0 <= j < i && allowlist@[j]@ == cur@,
                decreases allowlist@.len() - i,
            {
                if str_eq(allowlist[i].as_str(), cur) {
                    found = true;
                }
                i = i + 1;
            }
            if !found {
                proof {
                    if string_views(allowlist@).contains(cur@) {
                        let j = choose|j: int| 0 <= j < string_views(allowlist@).len() && string_views(allowlist@)[j] == cur@;
                        assert(allowlist@[j]@ == cur@);
                    }
                }
                return Err(RouterError::CurrentNotAllowlisted(cur.to_owned()));
            }
            proof {
                let j = choose|j: int| 0 <= j < allowlist@.len() && allowlist@[j]@ == cur@;
                assert(string_views(allowlist@)[j] == cur@);
            }
        }
        let mut out: Vec<EnrichedCandidate> = Vec::new();
        let n = allowlist.len();
        let mut i: usize = 0;
        while i < n
            invariant
                n == allowlist@.len(),
                i <= n,
                out@.len() == i,
                current_model is Some ==> string_views(allowlist@).contains(current_model.unwrap()@),
                forall|j: int| 0 <= j < i ==> self.models@.contains_key(#[trigger] allowlist@[j]@),
                forall|j: int|
                    0 <= j < i ==> {
                        &&& (#[trigger] out@[j]).model_id@ == allowlist@[j]@
                        &&& out@[j].is_current == (opt_str_view(current_model) == Some(allowlist@[j]@))
                        &&& out@[j].profile == self.models@[allowlist@[j]@]
                    },
            decreases n - i,
        {
            let id = &allowlist[i];
            match self.get(id.as_str()) {
                Some(profile) => {
                    let is_current = match current_model {
                        Some(cur) => str_eq(cur, id.as_str()),
                        None => false,
                    };
                    out.push(EnrichedCandidate {
                        model_id: id.clone(),
                        is_current,
                        profile: profile.clone(),
                    });
                },
                None => {
                    proof {
                        assert(first_missing(self.models@, allowlist@, i as int));
                    }
                    return Err(RouterError::MissingCatalogEntry(id.clone()));
                },
            }
            i = i + 1;
        }
        Ok(out)
    }
}

/// A card is found in the catalog built from a card list unless a later card
/// reuses its id; every catalog key is some card's id.
pub proof fn lemma_catalog_lookup(infos: Seq<ModelInfo>, i: int)
    requires
        0 <= i < infos.len(),
        forall|j: int| i < j < infos.len() ==> (#[trigger] infos[j]).id@ != infos[i].id@,
    ensures
        catalog_of_infos(infos).contains_key(infos[i].id@),
        catalog_of_infos(infos)[infos[i].id@] == profile_of_info(infos[i]),
    decreases infos.len(),
{
    if i < infos.len() - 1 {
        let t = infos.drop_last();
        assert forall|j: int| i < j < t.len() implies (#[trigger] t[j]).id@ != t[i].id@ by {
            assert(t[j] == infos[j]);
        }
        lemma_catalog_lookup(t, i);
    }
}

pub proof fn lemma_catalog_keys(infos: Seq<ModelInfo>, k: Seq<char>)
    requires
        catalog_of_infos(infos).contains_key(k),
    ensures
        exists|i: int| 0 <= i < infos.len() && (#[trigger] infos[i]).id@ == k,
    decreases infos.len(),
{
    if infos.len() > 0 && infos.last().id@ != k {
        lemma_catalog_keys(infos.drop_last(), k);
        let i = choose|i: int| 0 <= i < infos.drop_last().len() && (#[trigger] infos.drop_last()[i]).id@ == k;
        assert(infos[i] == infos.drop_last()[i]);
    } else if infos.len() > 0 {
        assert(infos[infos.len() - 1].id@ == k);
    }
}

impl ModelCatalog {
    /// Built-in illustrative rates for offline route-only demos and tests:
    /// the Cursor price snapshot cards.
    pub fn demo() -> (c: Self)
        ensures
            exists|infos: Seq<ModelInfo>| infos_match(infos, cursor_cards()) && c.models@ == catalog_of_infos(infos),
    {
        let cards = cursor_model_cards();
        ModelCatalog::from_model_infos(cards.as_slice())
    }
}

} // verus!
