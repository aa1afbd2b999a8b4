use artifact_weights::{
    import_records, ArtifactBase, ArtifactBases, ArtifactRecord, SlotType, Stat, WeightContainer, SLOT_COUNT,
    STAT_COUNT,
};

fn record(tag: SlotType, primary: Vec<(Stat, u32)>, secondary: Vec<(Stat, u32)>) -> ArtifactRecord {
    ArtifactRecord { tag, primary_weights: primary, secondary_weights: secondary }
}

fn weights(wc: &WeightContainer) -> Vec<u32> {
    (0..STAT_COUNT).map(|i| wc.get_weight(Stat::from_index(i).unwrap())).collect()
}

fn all_slots() -> Vec<SlotType> {
    (0..SLOT_COUNT).map(|i| SlotType::from_index(i).unwrap()).collect()
}

fn flower_config() -> Vec<ArtifactRecord> {
    vec![record(
        SlotType::Flower,
        vec![(Stat::Hp, 1)],
        vec![(Stat::Hp, 1), (Stat::Atk, 1), (Stat::CritRate, 1), (Stat::CritDamage, 1)],
    )]
}

#[test]
fn default_bases_are_tagged_and_empty() {
    let bases = ArtifactBases::default();
    for t in all_slots() {
        let b = bases.base(t);
        assert_eq!(b.tag, t);
        assert_eq!(b.primary_wc.get_tot_weight(), 0);
        assert_eq!(b.secondary_wc.get_tot_weight(), 0);
    }
    assert_eq!(ArtifactBases::new().circlet.tag, SlotType::Circlet);
}

#[test]
fn import_flower_scenario() {
    let bases = import_records(&flower_config());
    for _ in 0..100 {
        assert_eq!(bases.flower.primary_wc.choose_rand(), Some(Stat::Hp));
    }
    let mut counts = vec![0u64; STAT_COUNT];
    let draws = 1_000_000u64;
    for _ in 0..draws {
        if let Some(s) = bases.flower.secondary_wc.choose_rand() {
            counts[s.index()] += 1;
        }
    }
    for s in [Stat::Hp, Stat::Atk, Stat::CritRate, Stat::CritDamage] {
        let share = counts[s.index()] as f64 / draws as f64;
        assert!((share - 0.25).abs() < 0.01, "{:?} share {}", s, share);
    }
    for i in 0..STAT_COUNT {
        let s = Stat::from_index(i).unwrap();
        if ![Stat::Hp, Stat::Atk, Stat::CritRate, Stat::CritDamage].contains(&s) {
            assert_eq!(counts[i], 0);
        }
    }
    for t in [SlotType::Plume, SlotType::Sands, SlotType::Goblet, SlotType::Circlet] {
        assert_eq!(bases.base(t).primary_wc.get_tot_weight(), 0);
        assert_eq!(bases.base(t).secondary_wc.get_tot_weight(), 0);
        assert_eq!(bases.base(t).primary_wc.choose_rand(), None);
    }
}

#[test]
fn import_twice_gives_identical_tables() {
    let config = vec![
        record(SlotType::Sands, vec![(Stat::Atk, 3), (Stat::Def, 2)], vec![(Stat::ElementalMastery, 4)]),
        record(SlotType::Goblet, vec![(Stat::Pyro, 5)], vec![(Stat::Hp, 1), (Stat::Pyro, 0)]),
        record(SlotType::Sands, vec![(Stat::Atk, 8)], vec![]),
    ];
    let a = import_records(&config);
    let b = import_records(&config);
    for t in all_slots() {
        let (x, y) = (a.base(t), b.base(t));
        assert_eq!(x.tag, y.tag);
        assert_eq!(weights(&x.primary_wc), weights(&y.primary_wc));
        assert_eq!(weights(&x.secondary_wc), weights(&y.secondary_wc));
        assert_eq!(x.primary_wc.get_tot_weight(), y.primary_wc.get_tot_weight());
        assert_eq!(x.secondary_wc.get_tot_weight(), y.secondary_wc.get_tot_weight());
    }
}

#[test]
fn import_last_write_wins() {
    let config = vec![
        record(SlotType::Plume, vec![(Stat::AtkFlat, 2), (Stat::AtkFlat, 9)], vec![(Stat::Cryo, 1)]),
        record(SlotType::Circlet, vec![(Stat::Healing, 4)], vec![]),
        record(SlotType::Plume, vec![(Stat::Hp, 3)], vec![(Stat::Cryo, 6), (Stat::Hydro, 2)]),
    ];
    let bases = import_records(&config);
    let plume = bases.base(SlotType::Plume);
    assert_eq!(plume.tag, SlotType::Plume);
    assert_eq!(plume.primary_wc.get_weight(Stat::AtkFlat), 9);
    assert_eq!(plume.primary_wc.get_weight(Stat::Hp), 3);
    assert_eq!(plume.primary_wc.get_tot_weight(), 12);
    assert_eq!(plume.secondary_wc.get_weight(Stat::Cryo), 6);
    assert_eq!(plume.secondary_wc.get_weight(Stat::Hydro), 2);
    assert_eq!(plume.secondary_wc.get_tot_weight(), 8);
    assert_eq!(bases.circlet.primary_wc.get_weight(Stat::Healing), 4);
    assert_eq!(bases.circlet.secondary_wc.get_tot_weight(), 0);
    assert_eq!(bases.flower.primary_wc.get_tot_weight(), 0);
}

#[test]
fn import_of_nothing_is_default() {
    let bases = import_records(&vec![]);
    for t in all_slots() {
        assert_eq!(bases.base(t).tag, t);
        assert_eq!(weights(&bases.base(t).primary_wc), vec![0; STAT_COUNT]);
        assert_eq!(weights(&bases.base(t).secondary_wc), vec![0; STAT_COUNT]);
    }
}

#[test]
fn instance_copies_tables() {
    let bases = import_records(&flower_config());
    let copy: ArtifactBase = bases.flower.instance();
    assert_eq!(copy.tag, SlotType::Flower);
    assert_eq!(weights(&copy.primary_wc), weights(&bases.flower.primary_wc));
    assert_eq!(weights(&copy.secondary_wc), weights(&bases.flower.secondary_wc));
    assert_eq!(copy.secondary_wc.get_tot_weight(), 4);
}

#[test]
fn slot_index_round_trip() {
    for i in 0..SLOT_COUNT {
        assert_eq!(SlotType::from_index(i).unwrap().index(), i);
    }
    assert_eq!(SlotType::from_index(SLOT_COUNT), None);
}
