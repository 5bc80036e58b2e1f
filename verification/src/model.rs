//! The exercise record model: entity types, their mathematical views, their
//! well-formedness invariants, default values, and the editing operations the
//! authoring flow performs on them.

use crate::text::str_eq;
use vstd::prelude::*;

verus! {

/// Whether the movement recruits several muscle groups or isolates one.
#[derive(Debug, Clone, Copy, PartialEq, Eq, Structural)]
pub enum ExerciseType {
    Compound,
    Isolation,
}

/// Shape of the mechanical load through the movement's range of motion.
#[derive(Debug, Clone, Copy, PartialEq, Eq, Structural)]
pub enum ResistanceProfile {
    Ascending,
    Descending,
    Bell,
    Constant,
}

/// Anatomical plane the movement primarily occurs in.
#[derive(Debug, Clone, Copy, PartialEq, Eq, Structural)]
pub enum PlaneOfMotion {
    Sagittal,
    Frontal,
    Transverse,
}

/// A named sub-region of the selected muscle group, with an active flag.
#[derive(Debug, PartialEq)]
pub struct MuscleDivision {
    pub name: String,
    pub active: bool,
}

impl Clone for MuscleDivision {
    fn clone(&self) -> (r: Self)
        ensures
            r == *self,
    {
        MuscleDivision { name: self.name.clone(), active: self.active }
    }
}

/// The primary muscle group of an exercise together with its divisions, in
/// insertion order.
#[derive(Debug, Clone, PartialEq)]
pub struct TargetMuscles {
    pub muscle_name: String,
    pub muscle_divisions: Vec<MuscleDivision>,
}

/// A body joint involved in the movement: either held at a fixed angle
/// (`dynamic == false`, only `angle` present) or moving through a range
/// (`dynamic == true`, `angle_initial` and `angle_final` present and
/// `direction` optional). Fields irrelevant to the current mode are `None`,
/// not zeroed; [`JointView::wf`] states this invariant.
#[derive(Debug, Clone, PartialEq)]
pub struct Joint {
    pub name: String,
    pub dynamic: bool,
    pub angle: Option<u32>,
    pub direction: Option<String>,
    pub angle_initial: Option<u32>,
    pub angle_final: Option<u32>,
}

/// The joints involved in an exercise, in insertion order, removable by
/// position.
#[derive(Debug, Clone, PartialEq)]
pub struct JointsInvolved {
    pub joints: Vec<Joint>,
}

/// One saved resistance-training movement record.
#[derive(Debug, Clone, PartialEq)]
pub struct Exercise {
    pub name: String,
    pub id: u32,
    pub exercise_type: ExerciseType,
    pub description: String,
    pub target_muscles: TargetMuscles,
    pub joints_involved: JointsInvolved,
    pub resistance_profile: ResistanceProfile,
    pub plane_of_motion: PlaneOfMotion,
    pub tips: String,
    pub technique_video: String,
}

// ---------------------------------------------------------------------------
// Mathematical views
// ---------------------------------------------------------------------------

pub ghost struct MuscleDivisionView {
    pub name: Seq<char>,
    pub active: bool,
}

pub ghost struct TargetMusclesView {
    pub muscle_name: Seq<char>,
    pub muscle_divisions: Seq<MuscleDivisionView>,
}

pub ghost struct JointView {
    pub name: Seq<char>,
    pub dynamic: bool,
    pub angle: Option<u32>,
    pub direction: Option<Seq<char>>,
    pub angle_initial: Option<u32>,
    pub angle_final: Option<u32>,
}

pub ghost struct JointsInvolvedView {
    pub joints: Seq<JointView>,
}

pub ghost struct ExerciseView {
    pub name: Seq<char>,
    pub id: u32,
    pub exercise_type: ExerciseType,
    pub description: Seq<char>,
    pub target_muscles: TargetMusclesView,
    pub joints_involved: JointsInvolvedView,
    pub resistance_profile: ResistanceProfile,
    pub plane_of_motion: PlaneOfMotion,
    pub tips: Seq<char>,
    pub technique_video: Seq<char>,
}

impl View for MuscleDivision {
    type V = MuscleDivisionView;

    open spec fn view(&self) -> MuscleDivisionView {
        MuscleDivisionView { name: self.name@, active: self.active }
    }
}

impl View for TargetMuscles {
    type V = TargetMusclesView;

    open spec fn view(&self) -> TargetMusclesView {
        TargetMusclesView {
            muscle_name: self.muscle_name@,
            muscle_divisions: self.muscle_divisions@.map_values(|d: MuscleDivision| d@),
        }
    }
}

impl View for Joint {
    type V = JointView;

    open spec fn view(&self) -> JointView {
        JointView {
            name: self.name@,
            dynamic: self.dynamic,
            angle: self.angle,
            direction: match self.direction {
                Some(d) => Some(d@),
                None => None,
            },
            angle_initial: self.angle_initial,
            angle_final: self.angle_final,
        }
    }
}

impl View for JointsInvolved {
    type V = JointsInvolvedView;

    open spec fn view(&self) -> JointsInvolvedView {
        JointsInvolvedView { joints: self.joints@.map_values(|j: Joint| j@) }
    }
}

impl View for Exercise {
    type V = ExerciseView;

    open spec fn view(&self) -> ExerciseView {
        ExerciseView {
            name: self.name@,
            id: self.id,
            exercise_type: self.exercise_type,
            description: self.description@,
            target_muscles: self.target_muscles@,
            joints_involved: self.joints_involved@,
            resistance_profile: self.resistance_profile,
            plane_of_motion: self.plane_of_motion,
            tips: self.tips@,
            technique_video: self.technique_video@,
        }
    }
}

// ---------------------------------------------------------------------------
// Well-formedness
// ---------------------------------------------------------------------------

/// The largest angle, in degrees, a joint configuration may record.
pub const MAX_ANGLE: u32 = 180;

impl JointView {
    /// A joint is well formed when exactly the fields of its current mode are
    /// present and every recorded angle lies in `0 ..= MAX_ANGLE`.
    pub open spec fn wf(self) -> bool {
        if self.dynamic {
            &&& self.angle is None
            &&& self.angle_initial is Some
            &&& self.angle_final is Some
            &&& self.angle_initial->0 <= MAX_ANGLE
            &&& self.angle_final->0 <= MAX_ANGLE
        } else {
            &&& self.angle is Some
            &&& self.angle->0 <= MAX_ANGLE
            &&& self.direction is None
            &&& self.angle_initial is None
            &&& self.angle_final is None
        }
    }
}

impl ExerciseView {
    pub open spec fn wf(self) -> bool {
        forall|i: int|
            0 <= i < self.joints_involved.joints.len() ==> (
            #[trigger] self.joints_involved.joints[i]).wf()
    }
}

impl Joint {
    pub open spec fn wf(&self) -> bool {
        self@.wf()
    }
}

impl Exercise {
    pub open spec fn wf(&self) -> bool {
        self@.wf()
    }
}

// ---------------------------------------------------------------------------
// Construction
// ---------------------------------------------------------------------------

/// The view every freshly constructed exercise has: id `0`, compound,
/// transverse plane, constant resistance, all text empty, both sequences
/// empty.
pub open spec fn default_exercise_view() -> ExerciseView {
    ExerciseView {
        name: Seq::empty(),
        id: 0,
        exercise_type: ExerciseType::Compound,
        description: Seq::empty(),
        target_muscles: TargetMusclesView {
            muscle_name: Seq::empty(),
            muscle_divisions: Seq::empty(),
        },
        joints_involved: JointsInvolvedView { joints: Seq::empty() },
        resistance_profile: ResistanceProfile::Constant,
        plane_of_motion: PlaneOfMotion::Transverse,
        tips: Seq::empty(),
        technique_video: Seq::empty(),
    }
}

impl Exercise {
    /// A fresh record for a new editing session.
    pub fn create_default() -> (r: Exercise)
        ensures
            r@ == default_exercise_view(),
            r.wf(),
    {
        let r = Exercise {
            name: String::new(),
            id: 0,
            exercise_type: ExerciseType::Compound,
            description: String::new(),
            target_muscles: TargetMuscles {
                muscle_name: String::new(),
                muscle_divisions: Vec::new(),
            },
            joints_involved: JointsInvolved { joints: Vec::new() },
            resistance_profile: ResistanceProfile::Constant,
            plane_of_motion: PlaneOfMotion::Transverse,
            tips: String::new(),
            technique_video: String::new(),
        };
        proof {
            assert(r@.target_muscles.muscle_divisions =~= Seq::<MuscleDivisionView>::empty());
            assert(r@.joints_involved.joints =~= Seq::<JointView>::empty());
            assert(r@ =~= default_exercise_view());
        }
        r
    }
}

// ---------------------------------------------------------------------------
// Editing the division list
// ---------------------------------------------------------------------------

/// The division sequence with every entry of the given name removed.
pub open spec fn remove_division(ds: Seq<MuscleDivisionView>, name: Seq<char>) -> Seq<
    MuscleDivisionView,
>
    decreases ds.len(),
{
    if ds.len() == 0 {
        Seq::empty()
    } else if ds[0].name == name {
        remove_division(ds.drop_first(), name)
    } else {
        seq![ds[0]] + remove_division(ds.drop_first(), name)
    }
}

/// The division sequence after recording the given name with the given flag:
/// all previous entries of that name are removed, and one fresh entry is
/// appended.
pub open spec fn set_division(
    ds: Seq<MuscleDivisionView>,
    name: Seq<char>,
    active: bool,
) -> Seq<MuscleDivisionView> {
    remove_division(ds, name).push(MuscleDivisionView { name, active })
}

/// How many entries of the sequence carry the given name.
pub open spec fn count_division(ds: Seq<MuscleDivisionView>, name: Seq<char>) -> nat
    decreases ds.len(),
{
    if ds.len() == 0 {
        0
    } else {
        (if ds[0].name == name {
            1nat
        } else {
            0nat
        }) + count_division(ds.drop_first(), name)
    }
}

/// Whether some entry of the sequence carries the given name and is active.
pub open spec fn division_active_in(ds: Seq<MuscleDivisionView>, name: Seq<char>) -> bool {
    exists|i: int| 0 <= i < ds.len() && (#[trigger] ds[i]).name == name && ds[i].active
}

proof fn lemma_remove_division_push(ds: Seq<MuscleDivisionView>, name: Seq<char>, d: MuscleDivisionView)
    ensures
        remove_division(ds.push(d), name) == if d.name == name {
            remove_division(ds, name)
        } else {
            remove_division(ds, name).push(d)
        },
    decreases ds.len(),
{
    if ds.len() == 0 {
        assert(ds.push(d).drop_first() =~= Seq::<MuscleDivisionView>::empty());
        if d.name != name {
            assert(seq![d] + remove_division(Seq::empty(), name) =~= remove_division(
                ds,
                name,
            ).push(d));
        }
    } else {
        assert(ds.push(d).drop_first() =~= ds.drop_first().push(d));
        lemma_remove_division_push(ds.drop_first(), name, d);
        if ds[0].name != name {
            if d.name != name {
                assert(seq![ds[0]] + remove_division(ds.drop_first(), name).push(d)
                    =~= (seq![ds[0]] + remove_division(ds.drop_first(), name)).push(d));
            }
        }
    }
}

proof fn lemma_count_remove_division(ds: Seq<MuscleDivisionView>, name: Seq<char>)
    ensures
        count_division(remove_division(ds, name), name) == 0,
    decreases ds.len(),
{
    if ds.len() == 0 {
    } else {
        lemma_count_remove_division(ds.drop_first(), name);
        if ds[0].name != name {
            let rest = remove_division(ds.drop_first(), name);
            assert((seq![ds[0]] + rest).drop_first() =~= rest);
        }
    }
}

proof fn lemma_count_division_push(ds: Seq<MuscleDivisionView>, name: Seq<char>, d: MuscleDivisionView)
    ensures
        count_division(ds.push(d), name) == count_division(ds, name) + if d.name == name {
            1nat
        } else {
            0nat
        },
    decreases ds.len(),
{
    if ds.len() == 0 {
        assert(ds.push(d)[0] == d);
        assert(ds.push(d).drop_first() =~= Seq::<MuscleDivisionView>::empty());
        assert(count_division(ds.push(d), name) == (if d.name == name {
            1nat
        } else {
            0nat
        }) + count_division(Seq::<MuscleDivisionView>::empty(), name));
        assert(count_division(Seq::<MuscleDivisionView>::empty(), name) == 0);
    } else {
        assert(ds.push(d)[0] == ds[0]);
        assert(ds.push(d).drop_first() =~= ds.drop_first().push(d));
        lemma_count_division_push(ds.drop_first(), name, d);
        assert(count_division(ds.push(d), name) == (if ds[0].name == name {
            1nat
        } else {
            0nat
        }) + count_division(ds.drop_first().push(d), name));
        assert(count_division(ds, name) == (if ds[0].name == name {
            1nat
        } else {
            0nat
        }) + count_division(ds.drop_first(), name));
    }
}

/// Recording a division for a name always leaves exactly one entry for it.
pub proof fn lemma_set_division_single_entry(
    ds: Seq<MuscleDivisionView>,
    name: Seq<char>,
    active: bool,
)
    ensures
        count_division(set_division(ds, name, active), name) == 1,
{
    lemma_count_remove_division(ds, name);
    lemma_count_division_push(
        remove_division(ds, name),
        name,
        MuscleDivisionView { name, active },
    );
}

impl TargetMuscles {
    /// Whether the division of the given name is currently recorded as
    /// active.
    pub fn division_active(&self, name: &str) -> (r: bool)
        ensures
            r == division_active_in(self@.muscle_divisions, name@),
    {
        let n = self.muscle_divisions.len();
        let mut i: usize = 0;
        while i < n
            invariant
                n == self.muscle_divisions.len(),
                0 <= i <= n,
                forall|k: int|
                    0 <= k < i ==> !((#[trigger] self@.muscle_divisions[k]).name == name@
                        && self@.muscle_divisions[k].active),
            decreases n - i,
        {
            let d = &self.muscle_divisions[i];
            if d.active && str_eq(d.name.as_str(), name) {
                assert(self@.muscle_divisions[i as int].name == name@
                    && self@.muscle_divisions[i as int].active);
                return true;
            }
            i = i + 1;
        }
        false
    }

    /// Records the division of the given name with the given flag, removing
    /// every earlier entry of that name first, so that the list never
    /// accumulates duplicates for a name.
    pub fn set_division_active(&mut self, name: &str, active: bool)
        ensures
            final(self)@.muscle_name == old(self)@.muscle_name,
            final(self)@.muscle_divisions == set_division(
                old(self)@.muscle_divisions,
                name@,
                active,
            ),
            count_division(final(self)@.muscle_divisions, name@) == 1,
    {
        let ghost ds0 = self@.muscle_divisions;
        let mut kept: Vec<MuscleDivision> = Vec::new();
        let n = self.muscle_divisions.len();
        let mut i: usize = 0;
        while i < n
            invariant
                n == self.muscle_divisions.len(),
                self@.muscle_divisions == ds0,
                0 <= i <= n,
                kept@.map_values(|d: MuscleDivision| d@) == remove_division(
                    ds0.take(i as int),
                    name@,
                ),
            decreases n - i,
        {
            let d = &self.muscle_divisions[i];
            proof {
                assert(ds0.take(i + 1) =~= ds0.take(i as int).push(ds0[i as int]));
                lemma_remove_division_push(ds0.take(i as int), name@, ds0[i as int]);
            }
            if !str_eq(d.name.as_str(), name) {
                let dc = d.clone();
                kept.push(dc);
                proof {
                    assert(kept@.map_values(|d: MuscleDivision| d@) =~= kept@.drop_last().map_values(
                        |d: MuscleDivision| d@,
                    ).push(dc@));
                }
            }
            i = i + 1;
        }
        proof {
            assert(ds0.take(n as int) =~= ds0);
        }
        let entry = MuscleDivision { name: name.to_owned(), active };
        let ghost ev = entry@;
        kept.push(entry);
        proof {
            assert(kept@.map_values(|d: MuscleDivision| d@) =~= kept@.drop_last().map_values(
                |d: MuscleDivision| d@,
            ).push(ev));
        }
        self.muscle_divisions = kept;
        proof {
            lemma_count_remove_division(ds0, name@);
            lemma_count_division_push(
                remove_division(ds0, name@),
                name@,
                MuscleDivisionView { name: name@, active },
            );
        }
    }

    /// Flips the recorded state of the division of the given name: if it is
    /// currently active it is recorded inactive, and the other way round.
    pub fn toggle_division(&mut self, name: &str)
        ensures
            final(self)@.muscle_name == old(self)@.muscle_name,
            final(self)@.muscle_divisions == set_division(
                old(self)@.muscle_divisions,
                name@,
                !division_active_in(old(self)@.muscle_divisions, name@),
            ),
            count_division(final(self)@.muscle_divisions, name@) == 1,
    {
        let cur = self.division_active(name);
        self.set_division_active(name, !cur);
    }
}

// ---------------------------------------------------------------------------
// Editing the joint list
// ---------------------------------------------------------------------------

impl JointsInvolved {
    /// Appends a joint at the end of the list.
    pub fn add_joint(&mut self, j: Joint)
        ensures
            final(self)@.joints == old(self)@.joints.push(j@),
    {
        let ghost jv = j@;
        self.joints.push(j);
        proof {
            assert(self.joints@.map_values(|x: Joint| x@) =~= self.joints@.drop_last().map_values(
                |x: Joint| x@,
            ).push(jv));
        }
    }

    /// Removes and returns the joint at the given position; later joints move
    /// one position forward.
    pub fn remove_joint(&mut self, i: usize) -> (r: Joint)
        requires
            i < old(self)@.joints.len(),
        ensures
            final(self)@.joints == old(self)@.joints.remove(i as int),
            r@ == old(self)@.joints[i as int],
    {
        let r = self.joints.remove(i);
        proof {
            assert(self.joints@.map_values(|x: Joint| x@) =~= old(self).joints@.map_values(
                |x: Joint| x@,
            ).remove(i as int));
        }
        r
    }
}

} // verus!
