//! The skill list: the player's learned skills by page and slot, and the
//! rule deciding whether a skill can be levelled up right now.

use vstd::prelude::*;

verus! {

/// Identifier of the basic skill tab.
pub const TAB_BASIC: i32 = 21;

/// The skill-list window's per-tab scroll state.
pub struct UiStateSkillList {
    pub current_page: i32,
    pub scroll_index_basic: i32,
    pub scroll_index_active: i32,
    pub scroll_index_passive: i32,
}

impl Default for UiStateSkillList {
    fn default() -> (r: Self)
        ensures
            r.current_page == TAB_BASIC,
            r.scroll_index_basic == 0,
            r.scroll_index_active == 0,
            r.scroll_index_passive == 0,
    {
        UiStateSkillList {
            current_page: TAB_BASIC,
            scroll_index_basic: 0,
            scroll_index_active: 0,
            scroll_index_passive: 0,
        }
    }
}

/// What the skill database records about one skill level.
pub struct SkillData {
    /// The family this skill level belongs to; a skill with no base is its
    /// own family.
    pub base_skill_id: Option<u16>,
    /// The level within the family.
    pub level: u32,
    /// Skill points needed to learn this level.
    pub learn_point_cost: u32,
    /// Job class required to learn it, if any.
    pub required_job_class: Option<u16>,
    /// Skills required first: (skill identifier, required level).
    pub required_skills: Vec<(u16, u32)>,
    /// Ability values required: (ability kind, required value).
    pub required_ability: Vec<(u8, i64)>,
}

/// The skill database, indexed by skill identifier.
pub struct SkillDatabase {
    pub skills: Vec<Option<SkillData>>,
}

impl SkillDatabase {
    /// The record at `id`, if the identifier is known and populated.
    pub open spec fn spec_skill(self, id: int) -> Option<SkillData> {
        if 0 <= id < self.skills@.len() {
            self.skills@[id]
        } else {
            None
        }
    }

    pub fn get_skill(&self, id: u16) -> (r: Option<&SkillData>)
        ensures
            match r {
                Some(data) => self.spec_skill(id as int) == Some(*data),
                None => self.spec_skill(id as int) is None,
            },
    {
        if (id as usize) < self.skills.len() {
            match &self.skills[id as usize] {
                Some(data) => Some(data),
                None => None,
            }
        } else {
            None
        }
    }
}

/// A job class: the job identifiers it contains.
pub struct JobClassData {
    pub jobs: Vec<u16>,
}

/// The job-class table, indexed by class identifier.
pub struct JobClassLibrary {
    pub classes: Vec<Option<JobClassData>>,
}

impl JobClassLibrary {
    pub open spec fn spec_class(self, id: int) -> Option<JobClassData> {
        if 0 <= id < self.classes@.len() {
            self.classes@[id]
        } else {
            None
        }
    }
}

/// The family a skill belongs to: its recorded base, or itself.
pub open spec fn spec_base_of(data: SkillData, id: u16) -> u16 {
    match data.base_skill_id {
        Some(b) => b,
        None => id,
    }
}

/// The player's learned skills: pages of slots, each slot holding a skill
/// identifier or nothing.
pub struct SkillList {
    pub pages: Vec<Vec<Option<u16>>>,
}

impl SkillList {
    /// The skill learned at (page, slot), if the position exists and is
    /// occupied.
    pub open spec fn spec_skill_at(self, page: int, slot: int) -> Option<u16> {
        if 0 <= page < self.pages@.len() && 0 <= slot < self.pages@[page]@.len() {
            self.pages@[page]@[slot]
        } else {
            None
        }
    }

    pub fn get_skill(&self, page: usize, slot: usize) -> (r: Option<u16>)
        ensures
            r == self.spec_skill_at(page as int, slot as int),
    {
        if page < self.pages.len() && slot < self.pages[page].len() {
            self.pages[page][slot]
        } else {
            None
        }
    }

    /// Position (page, slot) holds a learned skill of family `base`.
    pub open spec fn spec_match_at(self, db: SkillDatabase, page: int, slot: int, base: u16) -> bool {
        match self.spec_skill_at(page, slot) {
            Some(id) => match db.spec_skill(id as int) {
                Some(data) => spec_base_of(data, id) == base,
                None => false,
            },
            None => false,
        }
    }

    /// Search the list in page-major order for a learned skill of family
    /// `base` and return its position and recorded level.
    pub fn find_skill_level(&self, db: &SkillDatabase, base: u16) -> (r: Option<
        (usize, usize, u32),
    >)
        ensures
            match r {
                Some(found) => {
                    &&& self.spec_match_at(*db, found.0 as int, found.1 as int, base)
                    &&& match self.spec_skill_at(found.0 as int, found.1 as int) {
                        Some(id) => match db.spec_skill(id as int) {
                            Some(data) => found.2 == data.level,
                            None => false,
                        },
                        None => false,
                    }
                    &&& forall|p: int, s: int|
                        0 <= p < self.pages@.len() && 0 <= s < self.pages@[p]@.len() && (p
                            < found.0 || (p == found.0 && s < found.1))
                            ==> !self.spec_match_at(*db, p, s, base)
                },
                None => forall|p: int, s: int|
                    0 <= p < self.pages@.len() && 0 <= s < self.pages@[p]@.len()
                        ==> !self.spec_match_at(*db, p, s, base),
            },
    {
        let mut page: usize = 0;
        while page < self.pages.len()
            invariant
                page <= self.pages@.len(),
                forall|p: int, s: int|
                    0 <= p < page && 0 <= s < self.pages@[p]@.len() ==> !self.spec_match_at(
                        *db,
                        p,
                        s,
                        base,
                    ),
            decreases self.pages@.len() - page,
        {
            let row = &self.pages[page];
            let mut slot: usize = 0;
            while slot < row.len()
                invariant
                    page < self.pages@.len(),
                    row == &self.pages@[page as int],
                    slot <= row@.len(),
                    forall|p: int, s: int|
                        0 <= p < page && 0 <= s < self.pages@[p]@.len() ==> !self.spec_match_at(
                            *db,
                            p,
                            s,
                            base,
                        ),
                    forall|s: int|
                        0 <= s < slot ==> !self.spec_match_at(*db, page as int, s, base),
                decreases row@.len() - slot,
            {
                if let Some(id) = row[slot] {
                    if let Some(data) = db.get_skill(id) {
                        let b = match data.base_skill_id {
                            Some(b) => b,
                            None => id,
                        };
                        if b == base {
                            return Some((page, slot, data.level));
                        }
                    }
                }
                slot += 1;
            }
            page += 1;
        }
        None
    }
}

/// The player's current ability values, as resolved outside: one entry per
/// ability kind.
pub struct AbilityValues {
    pub values: Vec<(u8, i64)>,
}

impl AbilityValues {
    /// The first recorded value for `kind`, if any.
    pub open spec fn spec_value_of(self, kind: u8) -> Option<i64> {
        spec_first_value(self.values@, kind)
    }

    pub fn value_of(&self, kind: u8) -> (r: Option<i64>)
        ensures
            r == self.spec_value_of(kind),
    {
        let mut i: usize = 0;
        proof {
            assert(self.values@.skip(0) =~= self.values@);
        }
        while i < self.values.len()
            invariant
                i <= self.values@.len(),
                spec_first_value(self.values@, kind) == spec_first_value(
                    self.values@.skip(i as int),
                    kind,
                ),
            decreases self.values@.len() - i,
        {
            let (k, v) = self.values[i];
            proof {
                assert(self.values@.skip(i as int)[0] == (k, v));
                assert(self.values@.skip(i as int).skip(1) =~= self.values@.skip(i + 1));
            }
            if k == kind {
                return Some(v);
            }
            i += 1;
        }
        proof {
            assert(self.values@.skip(self.values@.len() as int) =~= Seq::<(u8, i64)>::empty());
        }
        None
    }
}

/// The first value recorded for `kind` in an ability list.
pub open spec fn spec_first_value(values: Seq<(u8, i64)>, kind: u8) -> Option<i64>
    decreases values.len(),
{
    if values.len() == 0 {
        None
    } else if values[0].0 == kind {
        Some(values[0].1)
    } else {
        spec_first_value(values.skip(1), kind)
    }
}

/// Why a skill cannot be levelled up right now.
#[derive(Clone, Copy, PartialEq, Eq, Structural, Debug)]
pub enum LevelUpBlock {
    NoCurrentSkillData,
    AtMaxLevel,
    NotEnoughSkillPoints,
    JobRequirementNotMet,
    SkillRequirementNotMet,
    AbilityRequirementNotMet,
    InvalidSkillSlot,
}

/// The next level of `current` exists and continues the same family.
pub open spec fn spec_has_next_level(db: SkillDatabase, current_id: u16) -> bool {
    &&& current_id < u16::MAX
    &&& match (db.spec_skill(current_id as int), db.spec_skill(current_id + 1)) {
        (Some(cur), Some(next)) => next.base_skill_id == cur.base_skill_id && next.level == cur.level
            + 1,
        _ => false,
    }
}

/// Position (page, slot) is the first position, in page-major order, that
/// holds a learned skill of family `base`.
pub open spec fn spec_first_match(
    list: SkillList,
    db: SkillDatabase,
    p: int,
    s: int,
    base: u16,
) -> bool {
    &&& 0 <= p < list.pages@.len()
    &&& 0 <= s < list.pages@[p]@.len()
    &&& list.spec_match_at(db, p, s, base)
    &&& forall|p2: int, s2: int|
        0 <= p2 < list.pages@.len() && 0 <= s2 < list.pages@[p2]@.len() && (p2 < p || (p2 == p && s2
            < s)) ==> !list.spec_match_at(db, p2, s2, base)
}

/// The recorded level of the skill learned at (page, slot); zero when the
/// position is empty or unknown.
pub open spec fn spec_level_at(list: SkillList, db: SkillDatabase, p: int, s: int) -> u32 {
    match list.spec_skill_at(p, s) {
        Some(id) => match db.spec_skill(id as int) {
            Some(data) => data.level,
            None => 0,
        },
        None => 0,
    }
}

/// The player's first learned skill of family `base` reaches `required`.
pub open spec fn spec_family_learned_at(
    db: SkillDatabase,
    list: SkillList,
    base: u16,
    required: u32,
) -> bool {
    exists|p: int, s: int|
        spec_first_match(list, db, p, s, base) && spec_level_at(list, db, p, s) >= required
}

/// One prerequisite-skill requirement is met: the requirement is checked
/// against the skill record at the required level's entry; where that
/// record is unknown the requirement is waived, otherwise the player's
/// first learned skill of that record's family (or of the requirement's
/// own identifier when the record names no base) must reach the required
/// level.
pub open spec fn spec_skill_req_met(db: SkillDatabase, list: SkillList, req: (u16, u32)) -> bool {
    let eff: u32 = if req.1 > 0 {
        req.1
    } else {
        1
    };
    let lookup = req.0 + eff - 1;
    if lookup > u16::MAX {
        true
    } else {
        match db.spec_skill(lookup) {
            Some(rdata) => {
                let base = match rdata.base_skill_id {
                    Some(b) => b,
                    None => req.0,
                };
                spec_family_learned_at(db, list, base, req.1)
            },
            None => true,
        }
    }
}

/// A first match at or above the required level witnesses the family
/// requirement.
proof fn lemma_family_learned(db: SkillDatabase, list: SkillList, base: u16, required: u32, p: int, s: int)
    requires
        spec_first_match(list, db, p, s, base),
        spec_level_at(list, db, p, s) >= required,
    ensures
        spec_family_learned_at(db, list, base, required),
{
}

/// A first match below the required level refutes the family requirement:
/// the first matching position is unique.
proof fn lemma_family_below_level(
    db: SkillDatabase,
    list: SkillList,
    base: u16,
    required: u32,
    p: int,
    s: int,
)
    requires
        spec_first_match(list, db, p, s, base),
        spec_level_at(list, db, p, s) < required,
    ensures
        !spec_family_learned_at(db, list, base, required),
{
    if spec_family_learned_at(db, list, base, required) {
        let (p2, s2) = choose|p2: int, s2: int|
            spec_first_match(list, db, p2, s2, base) && spec_level_at(list, db, p2, s2) >= required;
        if p2 < p || (p2 == p && s2 < s) {
            assert(!list.spec_match_at(db, p2, s2, base));
        } else if p2 == p && s2 == s {
        } else {
            assert(!list.spec_match_at(db, p, s, base));
        }
    }
}

/// With no matching position at all, the family requirement fails.
proof fn lemma_family_no_match(db: SkillDatabase, list: SkillList, base: u16, required: u32)
    requires
        forall|p: int, s: int|
            0 <= p < list.pages@.len() && 0 <= s < list.pages@[p]@.len() ==> !list.spec_match_at(
                db,
                p,
                s,
                base,
            ),
    ensures
        !spec_family_learned_at(db, list, base, required),
{
    if spec_family_learned_at(db, list, base, required) {
        let (p2, s2) = choose|p2: int, s2: int|
            spec_first_match(list, db, p2, s2, base) && spec_level_at(list, db, p2, s2) >= required;
        assert(!list.spec_match_at(db, p2, s2, base));
    }
}

/// The job requirement of a skill is met: no class required, the class is
/// unknown, or the player's job belongs to it.
pub open spec fn spec_job_ok(lib: JobClassLibrary, data: SkillData, job: u16) -> bool {
    match data.required_job_class {
        Some(jc) => match lib.spec_class(jc as int) {
            Some(class) => class.jobs@.contains(job),
            None => true,
        },
        None => true,
    }
}

/// One ability requirement is met: the ability kind resolves to a value at
/// least as large as required.
pub open spec fn spec_ability_req_met(av: AbilityValues, req: (u8, i64)) -> bool {
    match av.spec_value_of(req.0) {
        Some(v) => v >= req.1,
        None => false,
    }
}

/// The level-up rule, as one decision: the first failing check names the
/// reason, and a skill with every check passing levels to its successor.
/// The ability checks only apply when ability values were resolved.
pub open spec fn spec_level_up_outcome(
    db: SkillDatabase,
    lib: JobClassLibrary,
    job: u16,
    skill_points: u32,
    list: SkillList,
    abilities: Option<AbilityValues>,
    page: int,
    slot: int,
    current: u16,
) -> Result<u16, LevelUpBlock> {
    if db.spec_skill(current as int) is None {
        Err(LevelUpBlock::NoCurrentSkillData)
    } else if !spec_has_next_level(db, current) {
        Err(LevelUpBlock::AtMaxLevel)
    } else {
        let next = db.spec_skill(current + 1)->Some_0;
        if skill_points < next.learn_point_cost {
            Err(LevelUpBlock::NotEnoughSkillPoints)
        } else if !spec_job_ok(lib, next, job) {
            Err(LevelUpBlock::JobRequirementNotMet)
        } else if !(forall|k: int|
            0 <= k < next.required_skills@.len() ==> spec_skill_req_met(
                db,
                list,
                #[trigger] next.required_skills@[k],
            )) {
            Err(LevelUpBlock::SkillRequirementNotMet)
        } else if (abilities matches Some(av) && !(forall|k: int|
            0 <= k < next.required_ability@.len() ==> spec_ability_req_met(
                av,
                #[trigger] next.required_ability@[k],
            ))) {
            Err(LevelUpBlock::AbilityRequirementNotMet)
        } else if list.spec_skill_at(page, slot) != Some(current) {
            Err(LevelUpBlock::InvalidSkillSlot)
        } else {
            Ok((current + 1) as u16)
        }
    }
}

/// Decide whether one prerequisite-skill requirement is met.
#[verifier::rlimit(50)]
fn skill_req_met(db: &SkillDatabase, list: &SkillList, req: (u16, u32)) -> (r: bool)
    ensures
        r == spec_skill_req_met(*db, *list, req),
{
    let (req_id, req_level) = req;
    let eff: u32 = if req_level > 0 {
        req_level
    } else {
        1
    };
    let lookup_wide: u64 = req_id as u64 + eff as u64 - 1;
    if lookup_wide > u16::MAX as u64 {
        return true;
    }
    let lookup = lookup_wide as u16;
    proof {
        assert(req.0 + (if req.1 > 0 {
            req.1
        } else {
            1u32
        }) - 1 == lookup_wide);
    }
    match db.get_skill(lookup) {
        None => {
            proof {
                assert(spec_skill_req_met(*db, *list, req));
            }
            true
        },
        Some(rdata) => {
            let base = match rdata.base_skill_id {
                Some(b) => b,
                None => req_id,
            };
            match list.find_skill_level(db, base) {
                None => {
                    proof {
                        lemma_family_no_match(*db, *list, base, req_level);
                        assert(!spec_skill_req_met(*db, *list, req));
                    }
                    false
                },
                Some((p, s, lvl)) => {
                    let met = lvl >= req_level;
                    proof {
                        assert(list.spec_match_at(*db, p as int, s as int, base));
                        assert((p as int) < list.pages@.len() && (s as int)
                            < list.pages@[p as int]@.len()) by {
                            if !((p as int) < list.pages@.len() && (s as int)
                                < list.pages@[p as int]@.len()) {
                                assert(list.spec_skill_at(p as int, s as int) is None);
                            }
                        }
                        assert(spec_first_match(*list, *db, p as int, s as int, base));
                        assert(spec_level_at(*list, *db, p as int, s as int) == lvl);
                        if met {
                            lemma_family_learned(*db, *list, base, req_level, p as int, s as int);
                        } else {
                            lemma_family_below_level(
                                *db,
                                *list,
                                base,
                                req_level,
                                p as int,
                                s as int,
                            );
                        }
                        assert(spec_skill_req_met(*db, *list, req) == met);
                    }
                    met
                },
            }
        },
    }
}

/// Decide whether the skill at `slot` holding `current_skill_id` can be
/// levelled up right now, and to which skill; the first failing check is
/// reported. A skill whose successor record is missing, or which is the
/// last representable identifier, counts as at its maximum level.
#[verifier::loop_isolation(false)]
pub fn can_level_up_skill_now(
    db: &SkillDatabase,
    job_classes: &JobClassLibrary,
    job: u16,
    skill_points: u32,
    skill_list: &SkillList,
    abilities: Option<&AbilityValues>,
    page: usize,
    slot: usize,
    current_skill_id: u16,
) -> (r: Result<u16, LevelUpBlock>)
    ensures
        r == spec_level_up_outcome(
            *db,
            *job_classes,
            job,
            skill_points,
            *skill_list,
            match abilities {
                Some(av) => Some(*av),
                None => None,
            },
            page as int,
            slot as int,
            current_skill_id,
        ),
{
    let current = match db.get_skill(current_skill_id) {
        Some(data) => data,
        None => {
            return Err(LevelUpBlock::NoCurrentSkillData);
        },
    };
    if current_skill_id == u16::MAX {
        return Err(LevelUpBlock::AtMaxLevel);
    }
    let next_id = current_skill_id + 1;
    let next = match db.get_skill(next_id) {
        Some(data) => data,
        None => {
            return Err(LevelUpBlock::AtMaxLevel);
        },
    };
    let base_matches = match (next.base_skill_id, current.base_skill_id) {
        (Some(a), Some(b)) => a == b,
        (None, None) => true,
        _ => false,
    };
    if !base_matches || current.level == u32::MAX || next.level != current.level + 1 {
        return Err(LevelUpBlock::AtMaxLevel);
    }
    if skill_points < next.learn_point_cost {
        return Err(LevelUpBlock::NotEnoughSkillPoints);
    }
    if let Some(jc) = next.required_job_class {
        if (jc as usize) < job_classes.classes.len() {
            if let Some(class) = &job_classes.classes[jc as usize] {
                let mut found = false;
                let mut i: usize = 0;
                while i < class.jobs.len()
                    invariant
                        i <= class.jobs@.len(),
                        found == class.jobs@.take(i as int).contains(job),
                    decreases class.jobs@.len() - i,
                {
                    if class.jobs[i] == job {
                        found = true;
                    }
                    proof {
                        let pre = class.jobs@.take(i as int);
                        let post = class.jobs@.take(i + 1);
                        assert(post.contains(job) == (pre.contains(job) || class.jobs@[i as int]
                            == job)) by {
                            if post.contains(job) {
                                let t = choose|t: int| 0 <= t < post.len() && post[t] == job;
                                if t < i {
                                    assert(pre[t] == job);
                                    assert(pre.contains(job));
                                }
                            }
                            if pre.contains(job) {
                                let t = choose|t: int| 0 <= t < pre.len() && pre[t] == job;
                                assert(post[t] == job);
                                assert(post.contains(job));
                            }
                            if class.jobs@[i as int] == job {
                                assert(post[i as int] == job);
                                assert(post.contains(job));
                            }
                        }
                    }
                    i += 1;
                }
                proof {
                    assert(class.jobs@.take(class.jobs@.len() as int) =~= class.jobs@);
                }
                if !found {
                    return Err(LevelUpBlock::JobRequirementNotMet);
                }
            }
        }
    }
    let mut k: usize = 0;
    while k < next.required_skills.len()
        invariant
            k <= next.required_skills@.len(),
            forall|j: int|
                0 <= j < k ==> spec_skill_req_met(*db, *skill_list, #[trigger] next.required_skills@[j]),
        decreases next.required_skills@.len() - k,
    {
        if !skill_req_met(db, skill_list, next.required_skills[k]) {
            proof {
                assert(db.spec_skill(current_skill_id + 1) == Some(*next));
                assert(!spec_skill_req_met(*db, *skill_list, next.required_skills@[k as int]));
                assert(!(forall|j: int|
                    0 <= j < next.required_skills@.len() ==> spec_skill_req_met(
                        *db,
                        *skill_list,
                        #[trigger] next.required_skills@[j],
                    )));
            }
            return Err(LevelUpBlock::SkillRequirementNotMet);
        }
        k += 1;
    }
    if let Some(av) = abilities {
        let mut k2: usize = 0;
        while k2 < next.required_ability.len()
            invariant
                k2 <= next.required_ability@.len(),
                forall|j: int|
                    0 <= j < k2 ==> spec_ability_req_met(*av, #[trigger] next.required_ability@[j]),
            decreases next.required_ability@.len() - k2,
        {
            let (kind, required) = next.required_ability[k2];
            let ok = match av.value_of(kind) {
                Some(v) => v >= required,
                None => false,
            };
            if !ok {
                proof {
                    assert(db.spec_skill(current_skill_id + 1) == Some(*next));
                    assert(!spec_ability_req_met(*av, next.required_ability@[k2 as int]));
                    assert(!(forall|j: int|
                        0 <= j < next.required_ability@.len() ==> spec_ability_req_met(
                            *av,
                            #[trigger] next.required_ability@[j],
                        )));
                }
                return Err(LevelUpBlock::AbilityRequirementNotMet);
            }
            k2 += 1;
        }
    }
    let at_slot = skill_list.get_skill(page, slot);
    let slot_ok = match at_slot {
        Some(id) => id == current_skill_id,
        None => false,
    };
    if !slot_ok {
        return Err(LevelUpBlock::InvalidSkillSlot);
    }
    Ok(next_id)
}

} // verus!
