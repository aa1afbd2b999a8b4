use vstd::prelude::*;

use crate::stat::{SlotType, Stat, STAT_COUNT};
use crate::weights::{apply_pairs, total_of, zero_weights, WeightContainer};

verus! {

/// One entry of a configuration: the weights to set in the two tables of the
/// slot named by `tag`, each list applied in order.
#[derive(Clone, Debug)]
pub struct ArtifactRecord {
    pub tag: SlotType,
    pub primary_weights: Vec<(Stat, u32)>,
    pub secondary_weights: Vec<(Stat, u32)>,
}

/// The pairs a record sets in its primary (`primary`) or secondary table.
pub open spec fn record_pairs(r: ArtifactRecord, primary: bool) -> Seq<(Stat, u32)> {
    if primary {
        r.primary_weights@
    } else {
        r.secondary_weights@
    }
}

/// The primary (`primary`) or secondary weights of slot `tag` once the
/// records `recs` have been imported, in order, into empty tables.
pub open spec fn slot_weights(recs: Seq<ArtifactRecord>, tag: SlotType, primary: bool) -> Seq<u32>
    decreases recs.len(),
{
    if recs.len() == 0 {
        zero_weights()
    } else {
        let prev = slot_weights(recs.drop_last(), tag, primary);
        if recs.last().tag == tag {
            apply_pairs(prev, record_pairs(recs.last(), primary))
        } else {
            prev
        }
    }
}

/// The weight that the last pair for `stat` in `pairs` gives it, if any.
pub open spec fn last_set(pairs: Seq<(Stat, u32)>, stat: Stat) -> Option<u32>
    decreases pairs.len(),
{
    if pairs.len() == 0 {
        None
    } else if pairs.last().0 == stat {
        Some(pairs.last().1)
    } else {
        last_set(pairs.drop_last(), stat)
    }
}

/// The weight that the last mention of `stat` in the primary (`primary`) or
/// secondary pairs of a record for slot `tag` gives it; zero if none does.
pub open spec fn last_write(recs: Seq<ArtifactRecord>, tag: SlotType, primary: bool, stat: Stat) -> u32
    decreases recs.len(),
{
    if recs.len() == 0 {
        0
    } else if recs.last().tag == tag && last_set(record_pairs(recs.last(), primary), stat) is Some {
        last_set(record_pairs(recs.last(), primary), stat).unwrap()
    } else {
        last_write(recs.drop_last(), tag, primary, stat)
    }
}

proof fn lemma_apply_pairs_at(w: Seq<u32>, pairs: Seq<(Stat, u32)>, stat: Stat)
    requires
        w.len() == STAT_COUNT,
    ensures
        apply_pairs(w, pairs).len() == STAT_COUNT,
        apply_pairs(w, pairs)[stat.spec_index()] == match last_set(pairs, stat) {
            Some(v) => v,
            None => w[stat.spec_index()],
        },
    decreases pairs.len(),
{
    if pairs.len() > 0 {
        lemma_apply_pairs_at(w, pairs.drop_last(), stat);
        lemma_apply_pairs_at(w, pairs.drop_last(), pairs.last().0);
    }
}

proof fn lemma_slot_weights_at(recs: Seq<ArtifactRecord>, tag: SlotType, primary: bool, stat: Stat)
    ensures
        slot_weights(recs, tag, primary).len() == STAT_COUNT,
        slot_weights(recs, tag, primary)[stat.spec_index()] == last_write(recs, tag, primary, stat),
    decreases recs.len(),
{
    if recs.len() > 0 {
        lemma_slot_weights_at(recs.drop_last(), tag, primary, stat);
        let prev = slot_weights(recs.drop_last(), tag, primary);
        lemma_apply_pairs_at(prev, record_pairs(recs.last(), primary), stat);
    }
}

/// Importing the same records twice gives the same tables: for every slot
/// type, equal tags, equal weights and so equal totals.
pub proof fn lemma_import_deterministic(a: ArtifactBases, b: ArtifactBases, recs: Seq<ArtifactRecord>)
    requires
        a.wf(),
        b.wf(),
        a.imported_from(recs),
        b.imported_from(recs),
    ensures
        forall|t: SlotType|
            #![trigger a.base_of(t), b.base_of(t)]
            a.base_of(t).tag == b.base_of(t).tag
                && a.base_of(t).primary_wc@ == b.base_of(t).primary_wc@
                && a.base_of(t).secondary_wc@ == b.base_of(t).secondary_wc@
                && total_of(a.base_of(t).primary_wc@) == total_of(b.base_of(t).primary_wc@)
                && total_of(a.base_of(t).secondary_wc@) == total_of(b.base_of(t).secondary_wc@),
{
    assert forall|t: SlotType|
        #![trigger a.base_of(t), b.base_of(t)]
        a.base_of(t).tag == b.base_of(t).tag
            && a.base_of(t).primary_wc@ == b.base_of(t).primary_wc@
            && a.base_of(t).secondary_wc@ == b.base_of(t).secondary_wc@ by {
        assert(a.base_of(t).wf() && b.base_of(t).wf());
    }
}

/// After an import, the weight of each stat in each table is the one its
/// last mention for that slot and table gave it, in record order and in
/// list order; zero where it is never mentioned.
pub proof fn lemma_import_last_write_wins(bases: ArtifactBases, recs: Seq<ArtifactRecord>, tag: SlotType, stat: Stat)
    requires
        bases.imported_from(recs),
    ensures
        bases.base_of(tag).primary_wc@[stat.spec_index()] == last_write(recs, tag, true, stat),
        bases.base_of(tag).secondary_wc@[stat.spec_index()] == last_write(recs, tag, false, stat),
{
    lemma_slot_weights_at(recs, tag, true, stat);
    lemma_slot_weights_at(recs, tag, false, stat);
    assert(bases.base_of(tag).primary_wc@ == slot_weights(recs, tag, true));
}

/// The weight tables of one slot type.
#[derive(Clone, Copy, Debug)]
pub struct ArtifactBase {
    pub tag: SlotType,
    pub primary_wc: WeightContainer,
    pub secondary_wc: WeightContainer,
}

impl ArtifactBase {
    /// Both tables are well formed.
    pub open spec fn wf(&self) -> bool {
        self.primary_wc.wf() && self.secondary_wc.wf()
    }

    /// A slot of type `tag` with empty tables.
    pub fn new(tag: SlotType) -> (r: ArtifactBase)
        ensures
            r.wf(),
            r.tag == tag,
            r.primary_wc@ == zero_weights(),
            r.secondary_wc@ == zero_weights(),
    {
        ArtifactBase { tag, primary_wc: WeightContainer::new(), secondary_wc: WeightContainer::new() }
    }

    /// A copy of this slot's tables.
    pub fn instance(&self) -> (r: ArtifactBase)
        ensures
            r == *self,
    {
        *self
    }

    /// Applies a record's primary and secondary pairs to the two tables.
    fn apply_record(&mut self, rec: &ArtifactRecord)
        requires
            old(self).wf(),
        ensures
            final(self).wf(),
            final(self).tag == old(self).tag,
            final(self).primary_wc@ == apply_pairs(old(self).primary_wc@, rec.primary_weights@),
            final(self).secondary_wc@ == apply_pairs(old(self).secondary_wc@, rec.secondary_weights@),
    {
        self.primary_wc.set_all(&rec.primary_weights);
        self.secondary_wc.set_all(&rec.secondary_weights);
    }
}

/// The weight tables of all five slot types.
#[derive(Clone, Copy, Debug)]
pub struct ArtifactBases {
    pub flower: ArtifactBase,
    pub plume: ArtifactBase,
    pub sands: ArtifactBase,
    pub goblet: ArtifactBase,
    pub circlet: ArtifactBase,
}

impl ArtifactBases {
    /// The entry for slot type `tag`.
    pub open spec fn base_of(&self, tag: SlotType) -> ArtifactBase {
        match tag {
            SlotType::Flower => self.flower,
            SlotType::Plume => self.plume,
            SlotType::Sands => self.sands,
            SlotType::Goblet => self.goblet,
            SlotType::Circlet => self.circlet,
        }
    }

    /// Every entry is well formed and tagged with the slot type it stands for.
    pub open spec fn wf(&self) -> bool {
        forall|t: SlotType| #[trigger] self.base_of(t).wf() && self.base_of(t).tag == t
    }

    /// Each slot's tables hold what importing `recs` in order into empty
    /// tables gives.
    pub open spec fn imported_from(&self, recs: Seq<ArtifactRecord>) -> bool {
        forall|t: SlotType|
            #![trigger self.base_of(t)]
            self.base_of(t).primary_wc@ == slot_weights(recs, t, true)
                && self.base_of(t).secondary_wc@ == slot_weights(recs, t, false)
    }

    /// All five slot types, each with empty tables.
    pub fn new() -> (r: ArtifactBases)
        ensures
            r.wf(),
            r.imported_from(Seq::empty()),
    {
        ArtifactBases {
            flower: ArtifactBase::new(SlotType::Flower),
            plume: ArtifactBase::new(SlotType::Plume),
            sands: ArtifactBase::new(SlotType::Sands),
            goblet: ArtifactBase::new(SlotType::Goblet),
            circlet: ArtifactBase::new(SlotType::Circlet),
        }
    }

    /// The entry for slot type `tag`.
    pub fn base(&self, tag: SlotType) -> (r: &ArtifactBase)
        ensures
            *r == self.base_of(tag),
    {
        match tag {
            SlotType::Flower => &self.flower,
            SlotType::Plume => &self.plume,
            SlotType::Sands => &self.sands,
            SlotType::Goblet => &self.goblet,
            SlotType::Circlet => &self.circlet,
        }
    }
}

impl Default for ArtifactBases {
    /// All five slot types, each with empty tables.
    fn default() -> (r: ArtifactBases)
        ensures
            r.wf(),
            r.imported_from(Seq::empty()),
    {
        ArtifactBases::new()
    }
}

/// Builds the tables of all five slot types from `records`: starting from
/// empty tables, each record's pairs are set, in order, in the tables of
/// the slot it names. Slots that no record names stay empty.
pub fn import_records(records: &Vec<ArtifactRecord>) -> (r: ArtifactBases)
    ensures
        r.wf(),
        r.imported_from(records@),
{
    let mut bases = ArtifactBases::new();
    let mut i: usize = 0;
    while i < records.len()
        invariant
            bases.wf(),
            0 <= i <= records@.len(),
            bases.imported_from(records@.subrange(0, i as int)),
        decreases records@.len() - i,
    {
        let rec = &records[i];
        let ghost before = bases;
        proof {
            assert(bases.base_of(SlotType::Flower).wf());
            assert(bases.base_of(SlotType::Plume).wf());
            assert(bases.base_of(SlotType::Sands).wf());
            assert(bases.base_of(SlotType::Goblet).wf());
            assert(bases.base_of(SlotType::Circlet).wf());
        }
        match rec.tag {
            SlotType::Flower => bases.flower.apply_record(rec),
            SlotType::Plume => bases.plume.apply_record(rec),
            SlotType::Sands => bases.sands.apply_record(rec),
            SlotType::Goblet => bases.goblet.apply_record(rec),
            SlotType::Circlet => bases.circlet.apply_record(rec),
        }
        proof {
            let done = records@.subrange(0, i as int + 1);
            assert(done.drop_last() =~= records@.subrange(0, i as int));
            assert(done.last() == *rec);
            assert forall|t: SlotType| #[trigger] bases.base_of(t).wf() && bases.base_of(t).tag == t by {
                assert(before.base_of(t).wf());
            }
            assert forall|t: SlotType|
                #![trigger bases.base_of(t)]
                bases.base_of(t).primary_wc@ == slot_weights(done, t, true)
                    && bases.base_of(t).secondary_wc@ == slot_weights(done, t, false) by {
                assert(before.base_of(t).primary_wc@ == slot_weights(records@.subrange(0, i as int), t, true));
            }
        }
        i = i + 1;
    }
    proof {
        assert(records@.subrange(0, i as int) =~= records@);
    }
    bases
}

} // verus!
