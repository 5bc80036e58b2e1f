//! The laws this library promises, stated once and proved for every input.

use crate::de::spec_deserialize;
use crate::model::ExerciseView;
use crate::model::JointView;
use crate::model::MuscleDivisionView;
use crate::model::count_division;
use crate::model::set_division;
use crate::rt::lemma_spec_round_trip;
use crate::ser::dec_digits;
use crate::ser::exercise_type_token;
use crate::ser::plane_token;
use crate::ser::quoted;
use crate::ser::resistance_token;
use crate::ser::ser_direction;
use crate::ser::ser_joint;
use crate::ser::spec_serialize;
use crate::model::ExerciseType;
use crate::model::PlaneOfMotion;
use crate::model::ResistanceProfile;
use crate::ser::bool_seq;
use vstd::prelude::*;

verus! {

/// Round trip: every well-formed exercise record, serialized and read back,
/// yields the same record — field for field, including the omission of the
/// joint fields irrelevant to each joint's mode.
pub proof fn lemma_round_trip(v: ExerciseView)
    requires
        v.wf(),
    ensures
        spec_deserialize(spec_serialize(v)) == Some(v),
{
    lemma_spec_round_trip(v);
}

/// A static joint serializes exactly its `name`, `dynamic` and `angle`
/// members: no `direction`, `intitial_angle` or `final_angle` key appears in
/// its text. A dynamic joint serializes no `angle` member.
pub proof fn lemma_joint_mode_omission(j: JointView)
    requires
        j.wf(),
    ensures
        !j.dynamic ==> ser_joint(j) == "\n      {\n        \"name\": "@ + quoted(j.name)
            + ",\n        \"dynamic\": "@ + bool_seq(false) + ",\n        \"angle\": "@
            + dec_digits(j.angle->0 as nat) + "\n      }"@,
        j.dynamic ==> ser_joint(j) == "\n      {\n        \"name\": "@ + quoted(j.name)
            + ",\n        \"dynamic\": "@ + bool_seq(true) + ser_direction(j.direction)
            + ",\n        \"intitial_angle\": "@ + dec_digits(j.angle_initial->0 as nat)
            + ",\n        \"final_angle\": "@ + dec_digits(j.angle_final->0 as nat) + "\n      }"@,
{
}

/// Every enum value serializes as exactly one of the defined lowercase
/// tokens; each token holds lowercase letters only.
pub proof fn lemma_enum_tokens(t: ExerciseType, r: ResistanceProfile, p: PlaneOfMotion)
    ensures
        exercise_type_token(t) == "compound"@ || exercise_type_token(t) == "isolation"@,
        resistance_token(r) == "ascending"@ || resistance_token(r) == "descending"@
            || resistance_token(r) == "bell"@ || resistance_token(r) == "constant"@,
        plane_token(p) == "sagittal"@ || plane_token(p) == "frontal"@ || plane_token(p)
            == "transverse"@,
        forall|k: int|
            0 <= k < exercise_type_token(t).len() ==> 97 <= (#[trigger] exercise_type_token(
                t,
            )[k]) as u32 <= 122,
        forall|k: int|
            0 <= k < resistance_token(r).len() ==> 97 <= (#[trigger] resistance_token(r)[k]) as u32
                <= 122,
        forall|k: int|
            0 <= k < plane_token(p).len() ==> 97 <= (#[trigger] plane_token(p)[k]) as u32 <= 122,
{
    reveal_strlit("compound");
    reveal_strlit("isolation");
    reveal_strlit("ascending");
    reveal_strlit("descending");
    reveal_strlit("bell");
    reveal_strlit("constant");
    reveal_strlit("sagittal");
    reveal_strlit("frontal");
    reveal_strlit("transverse");
}

/// Recording a division twice for the same name — as toggling its flag does
/// — leaves exactly one entry for that name, never an accumulation of
/// duplicates.
pub proof fn lemma_toggle_twice_single_entry(
    ds: Seq<MuscleDivisionView>,
    name: Seq<char>,
    first: bool,
    second: bool,
)
    ensures
        count_division(set_division(set_division(ds, name, first), name, second), name) == 1,
{
    crate::model::lemma_set_division_single_entry(set_division(ds, name, first), name, second);
}

} // verus!
