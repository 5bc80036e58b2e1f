//! A verified data model for authoring resistance-training exercise records
//! and persisting them as JSON documents.
//!
//! The library defines the record types (an exercise, its target muscles and
//! divisions, the joints involved), their well-formedness invariants, and a
//! canonical two-way JSON serialization with a proved round-trip law.

mod de;
mod filename;
mod laws;
mod model;
mod rt;
mod ser;
mod text;

pub use model::Exercise;
pub use model::ExerciseType;
pub use model::ExerciseView;
pub use model::Joint;
pub use model::JointView;
pub use model::JointsInvolved;
pub use model::JointsInvolvedView;
pub use model::MuscleDivision;
pub use model::MuscleDivisionView;
pub use model::PlaneOfMotion;
pub use model::ResistanceProfile;
pub use model::TargetMuscles;
pub use model::TargetMusclesView;
pub use model::MAX_ANGLE;
pub use model::default_exercise_view;
pub use model::count_division;
pub use model::division_active_in;
pub use model::remove_division;
pub use model::set_division;
pub use model::lemma_set_division_single_entry;
pub use ser::serialize;
pub use ser::spec_serialize;
pub use de::deserialize;
pub use de::spec_deserialize;
pub use de::ParseError;
pub use filename::derive_filename;
pub use filename::derive_filename_spec;
pub use filename::fallback_filename;
pub use filename::lower_of;
pub use filename::trim_front;
pub use filename::trim_back;
pub use filename::underscored;
pub use filename::white_space;
pub use laws::lemma_round_trip;
pub use laws::lemma_joint_mode_omission;
pub use laws::lemma_enum_tokens;
pub use laws::lemma_toggle_twice_single_entry;
