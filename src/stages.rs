use vstd::prelude::*;

verus! {

pub const TERRAN_MARINE: u32 = 0;
pub const TERRAN_VULTURE: u32 = 2;
pub const TERRAN_SCV: u32 = 7;
pub const TERRAN_MEDIC: u32 = 34;
pub const TERRAN_COMMAND_CENTER: u32 = 106;
pub const TERRAN_SUPPLY_DEPOT: u32 = 109;
pub const TERRAN_REFINERY: u32 = 110;
pub const TERRAN_BARRACKS: u32 = 111;
pub const TERRAN_ACADEMY: u32 = 112;
pub const TERRAN_FACTORY: u32 = 113;
pub const TERRAN_STARPORT: u32 = 114;
pub const TERRAN_SCIENCE_FACILITY: u32 = 116;
pub const TERRAN_ENGINEERING_BAY: u32 = 122;
pub const TERRAN_ARMORY: u32 = 123;
pub const TERRAN_MISSILE_TURRET: u32 = 124;

/// One strategic phase: how many entities of each unit kind are wanted, and
/// which upgrades, in declaration order.
#[derive(Clone, Debug)]
pub struct BuildStage {
    pub name: String,
    /// `(unit kind, desired count)`, each kind at most once.
    pub desired_counts: Vec<(u32, u32)>,
    pub desired_upgrades: Vec<u32>,
}

/// No unit kind is listed twice.
pub open spec fn keys_unique(s: Seq<(u32, u32)>) -> bool {
    forall|i: int, j: int| 0 <= i < j < s.len() ==> #[trigger] s[i].0 != #[trigger] s[j].0
}

/// Sets the desired count of `kind`: in place where it is listed, else
/// appended.
pub open spec fn with_count(s: Seq<(u32, u32)>, kind: u32, count: u32) -> Seq<(u32, u32)> {
    if exists|i: int| 0 <= i < s.len() && #[trigger] s[i].0 == kind {
        let i = choose|i: int| 0 <= i < s.len() && #[trigger] s[i].0 == kind;
        s.update(i, (kind, count))
    } else {
        s.push((kind, count))
    }
}

impl BuildStage {
    pub open spec fn wf(&self) -> bool {
        keys_unique(self.desired_counts@)
    }

    pub fn new(name: &str) -> (r: Self)
        ensures
            r.name@ == name@,
            r.desired_counts@ == Seq::<(u32, u32)>::empty(),
            r.desired_upgrades@ == Seq::<u32>::empty(),
            r.wf(),
    {
        BuildStage { name: name.to_owned(), desired_counts: Vec::new(), desired_upgrades: Vec::new() }
    }

    pub fn with_unit(self, unit_type: u32, count: u32) -> (r: Self)
        requires
            self.wf(),
        ensures
            r.name == self.name,
            r.desired_counts@ == with_count(self.desired_counts@, unit_type, count),
            r.desired_upgrades == self.desired_upgrades,
            r.wf(),
    {
        let BuildStage { name, desired_counts, desired_upgrades } = self;
        let mut counts = desired_counts;
        let ghost old_counts = counts@;
        let mut i: usize = 0;
        while i < counts.len() && counts[i].0 != unit_type
            invariant
                i <= counts.len(),
                counts@ == old_counts,
                keys_unique(old_counts),
                forall|j: int| 0 <= j < i ==> #[trigger] old_counts[j].0 != unit_type,
            decreases counts.len() - i,
        {
            i = i + 1;
        }
        if i < counts.len() {
            counts.set(i, (unit_type, count));
            proof {
                let c = choose|j: int| 0 <= j < old_counts.len() && #[trigger] old_counts[j].0 == unit_type;
                assert(old_counts[i as int].0 == unit_type);
                assert(c == i);
                assert(keys_unique(counts@)) by {
                    assert forall|a: int, b: int| 0 <= a < b < counts@.len() implies
                        #[trigger] counts@[a].0 != #[trigger] counts@[b].0 by {
                        assert(old_counts[a].0 != old_counts[b].0);
                    }
                }
            }
        } else {
            counts.push((unit_type, count));
            proof {
                assert(!exists|j: int| 0 <= j < old_counts.len() && #[trigger] old_counts[j].0 == unit_type);
                assert(keys_unique(counts@)) by {
                    assert forall|a: int, b: int| 0 <= a < b < counts@.len() implies
                        #[trigger] counts@[a].0 != #[trigger] counts@[b].0 by {
                        if b < old_counts.len() {
                            assert(old_counts[a].0 != old_counts[b].0);
                        } else {
                            assert(old_counts[a].0 != unit_type);
                        }
                    }
                }
            }
        }
        BuildStage { name, desired_counts: counts, desired_upgrades }
    }

    pub fn with_upgrade(self, upgrade_type: u32) -> (r: Self)
        requires
            self.wf(),
        ensures
            r.name == self.name,
            r.desired_counts == self.desired_counts,
            r.desired_upgrades@ == self.desired_upgrades@.push(upgrade_type),
            r.wf(),
    {
        let mut s = self;
        s.desired_upgrades.push(upgrade_type);
        s
    }
}

/// A stage with the given unit goals and no upgrade goals.
fn stage(name: &str, counts: Vec<(u32, u32)>) -> (r: BuildStage)
    requires
        keys_unique(counts@),
    ensures
        r.name@ == name@,
        r.desired_counts == counts,
        r.desired_upgrades@.len() == 0,
        r.wf(),
{
    BuildStage { name: name.to_owned(), desired_counts: counts, desired_upgrades: Vec::new() }
}

/// The goal table: the stages of the match, in order.
pub fn get_build_stages() -> (r: Vec<BuildStage>)
    ensures
        r@.len() == 6,
        forall|k: int| 0 <= k < r@.len() ==> (#[trigger] r@[k]).wf() && r@[k].desired_upgrades@.len() == 0,
            r@[0].name@ == "Start"@,
            r@[0].desired_counts@ == seq![(TERRAN_SCV, 8u32), (TERRAN_SUPPLY_DEPOT, 1u32)],
            r@[1].name@ == "Basic Production"@,
            r@[1].desired_counts@ == seq![(TERRAN_SCV, 12u32), (TERRAN_BARRACKS, 2u32)],
            r@[2].name@ == "stage 3"@,
            r@[2].desired_counts@ == seq![(TERRAN_SCV, 17u32), (TERRAN_SUPPLY_DEPOT, 2u32), (TERRAN_BARRACKS, 2u32), (TERRAN_MARINE, 6u32), (TERRAN_COMMAND_CENTER, 2u32), (TERRAN_REFINERY, 1u32)],
            r@[3].name@ == "Mid Game"@,
            r@[3].desired_counts@ == seq![(TERRAN_FACTORY, 1u32), (TERRAN_SCV, 20u32), (TERRAN_ENGINEERING_BAY, 1u32), (TERRAN_SUPPLY_DEPOT, 2u32), (TERRAN_BARRACKS, 2u32), (TERRAN_MARINE, 15u32)],
            r@[4].name@ == "next step"@,
            r@[4].desired_counts@ == seq![(TERRAN_MISSILE_TURRET, 2u32), (TERRAN_MARINE, 20u32), (TERRAN_VULTURE, 4u32), (TERRAN_ACADEMY, 1u32), (TERRAN_MEDIC, 4u32), (TERRAN_SCV, 30u32), (TERRAN_BARRACKS, 8u32)],
            r@[5].name@ == "late game tech"@,
            r@[5].desired_counts@ == seq![(TERRAN_SCIENCE_FACILITY, 1u32), (TERRAN_STARPORT, 1u32), (TERRAN_SCV, 30u32), (TERRAN_FACTORY, 2u32), (TERRAN_ARMORY, 1u32), (TERRAN_VULTURE, 50u32)],
{
    vec![
        stage("Start", vec![(TERRAN_SCV, 8u32), (TERRAN_SUPPLY_DEPOT, 1u32)]),
        stage("Basic Production", vec![(TERRAN_SCV, 12u32), (TERRAN_BARRACKS, 2u32)]),
        stage("stage 3", vec![(TERRAN_SCV, 17u32), (TERRAN_SUPPLY_DEPOT, 2u32), (TERRAN_BARRACKS, 2u32), (TERRAN_MARINE, 6u32), (TERRAN_COMMAND_CENTER, 2u32), (TERRAN_REFINERY, 1u32)]),
        stage("Mid Game", vec![(TERRAN_FACTORY, 1u32), (TERRAN_SCV, 20u32), (TERRAN_ENGINEERING_BAY, 1u32), (TERRAN_SUPPLY_DEPOT, 2u32), (TERRAN_BARRACKS, 2u32), (TERRAN_MARINE, 15u32)]),
        stage("next step", vec![(TERRAN_MISSILE_TURRET, 2u32), (TERRAN_MARINE, 20u32), (TERRAN_VULTURE, 4u32), (TERRAN_ACADEMY, 1u32), (TERRAN_MEDIC, 4u32), (TERRAN_SCV, 30u32), (TERRAN_BARRACKS, 8u32)]),
        stage("late game tech", vec![(TERRAN_SCIENCE_FACILITY, 1u32), (TERRAN_STARPORT, 1u32), (TERRAN_SCV, 30u32), (TERRAN_FACTORY, 2u32), (TERRAN_ARMORY, 1u32), (TERRAN_VULTURE, 50u32)]),
    ]
}

} // verus!
