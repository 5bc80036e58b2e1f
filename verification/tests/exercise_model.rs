use hypertrophy_archive::deserialize;
use hypertrophy_archive::derive_filename;
use hypertrophy_archive::serialize;
use hypertrophy_archive::Exercise;
use hypertrophy_archive::ExerciseType;
use hypertrophy_archive::Joint;
use hypertrophy_archive::JointsInvolved;
use hypertrophy_archive::MuscleDivision;
use hypertrophy_archive::PlaneOfMotion;
use hypertrophy_archive::ResistanceProfile;
use hypertrophy_archive::TargetMuscles;

fn static_joint(name: &str, angle: u32) -> Joint {
    Joint {
        name: name.to_string(),
        dynamic: false,
        angle: Some(angle),
        direction: None,
        angle_initial: None,
        angle_final: None,
    }
}

fn dynamic_joint(name: &str, direction: Option<&str>, initial: u32, last: u32) -> Joint {
    Joint {
        name: name.to_string(),
        dynamic: true,
        angle: None,
        direction: direction.map(|d| d.to_string()),
        angle_initial: Some(initial),
        angle_final: Some(last),
    }
}

fn sample_exercise() -> Exercise {
    Exercise {
        name: "flat_chest_press".to_string(),
        id: 0,
        exercise_type: ExerciseType::Compound,
        description: "A pressing movement performed lying on a flat bench.".to_string(),
        target_muscles: TargetMuscles {
            muscle_name: "chest".to_string(),
            muscle_divisions: vec![
                MuscleDivision { name: "sternocostal".to_string(), active: true },
                MuscleDivision { name: "clavicular".to_string(), active: true },
                MuscleDivision { name: "abdominal".to_string(), active: true },
            ],
        },
        joints_involved: JointsInvolved {
            joints: vec![
                static_joint("shoulder", 45),
                dynamic_joint("elbow", None, 30, 180),
            ],
        },
        resistance_profile: ResistanceProfile::Descending,
        plane_of_motion: PlaneOfMotion::Transverse,
        tips: "Keep the shoulder blades retracted.".to_string(),
        technique_video: "https://example.org/flat_chest_press".to_string(),
    }
}

#[test]
fn default_exercise_has_documented_initial_values() {
    let e = Exercise::create_default();
    assert_eq!(e.name, "");
    assert_eq!(e.id, 0);
    assert!(matches!(e.exercise_type, ExerciseType::Compound));
    assert!(matches!(e.plane_of_motion, PlaneOfMotion::Transverse));
    assert!(matches!(e.resistance_profile, ResistanceProfile::Constant));
    assert_eq!(e.description, "");
    assert_eq!(e.tips, "");
    assert_eq!(e.technique_video, "");
    assert!(e.target_muscles.muscle_name.is_empty());
    assert!(e.target_muscles.muscle_divisions.is_empty());
    assert!(e.joints_involved.joints.is_empty());
}

#[test]
fn serialize_default_exercise_exact_text() {
    let e = Exercise::create_default();
    let expected = "{\n  \"name\": \"\",\n  \"id\": 0,\n  \"type\": \"compound\",\n  \"description\": \"\",\n  \"target_muscles\": {\n    \"muscle_name\": \"\",\n    \"muscle_division\": []\n  },\n  \"joints_involved\": {\n    \"joint\": []\n  },\n  \"resistance_profile\": \"constant\",\n  \"plane_of_motion\": \"transverse\",\n  \"tips\": \"\",\n  \"technique_video\": \"\"\n}";
    assert_eq!(serialize(&e), expected);
}

#[test]
fn round_trip_default_exercise() {
    let e = Exercise::create_default();
    let text = serialize(&e);
    let back = deserialize(&text).unwrap();
    assert_eq!(back, e);
}

#[test]
fn round_trip_sample_exercise() {
    let e = sample_exercise();
    let text = serialize(&e);
    let back = deserialize(&text).unwrap();
    assert_eq!(back, e);
}

#[test]
fn round_trip_with_direction_and_escapes() {
    let mut e = sample_exercise();
    e.name = "say \"hello\"\\ and\nmore\ttext".to_string();
    e.description = "line one\nline two".to_string();
    e.joints_involved.joints.push(dynamic_joint("wrist", Some("pronating"), 0, 90));
    let text = serialize(&e);
    let back = deserialize(&text).unwrap();
    assert_eq!(back, e);
}

// The sample document written out, read back through plain bytes, and
// compared field for field.
#[test]
fn end_to_end_sample_document() {
    let e = sample_exercise();
    let text = serialize(&e);
    let bytes: Vec<u8> = text.clone().into_bytes();
    let read_back = String::from_utf8(bytes).unwrap();
    let restored = deserialize(&read_back).unwrap();
    assert_eq!(restored, e);
}

#[test]
fn sample_document_holds_expected_member_lines() {
    let e = sample_exercise();
    let text = serialize(&e);
    assert!(text.contains("\"name\": \"flat_chest_press\""));
    assert!(text.contains("\"type\": \"compound\""));
    assert!(text.contains("\"muscle_name\": \"chest\""));
    assert!(text.contains("\"muscle_division\": ["));
    assert!(text.contains("\"joint\": ["));
    assert!(text.contains("\"angle\": 45"));
    assert!(text.contains("\"intitial_angle\": 30"));
    assert!(text.contains("\"final_angle\": 180"));
    assert!(text.contains("\"resistance_profile\": \"descending\""));
    assert!(text.contains("\"plane_of_motion\": \"transverse\""));
}

#[test]
fn static_joint_omits_range_fields() {
    let mut e = Exercise::create_default();
    e.joints_involved.joints.push(static_joint("knee", 90));
    let text = serialize(&e);
    assert!(text.contains("\"angle\": 90"));
    assert!(!text.contains("direction"));
    assert!(!text.contains("intitial_angle"));
    assert!(!text.contains("final_angle"));
    assert!(!text.contains("null"));
}

#[test]
fn dynamic_joint_omits_fixed_angle_and_optional_direction() {
    let mut e = Exercise::create_default();
    e.joints_involved.joints.push(dynamic_joint("hip", None, 10, 120));
    let text = serialize(&e);
    assert!(!text.contains("\"angle\":"));
    assert!(!text.contains("direction"));
    assert!(text.contains("\"intitial_angle\": 10"));
    assert!(text.contains("\"final_angle\": 120"));
    assert!(!text.contains("null"));
}

#[test]
fn enum_tokens_are_lowercase() {
    let mut e = Exercise::create_default();
    e.exercise_type = ExerciseType::Isolation;
    e.resistance_profile = ResistanceProfile::Bell;
    e.plane_of_motion = PlaneOfMotion::Sagittal;
    let text = serialize(&e);
    assert!(text.contains("\"type\": \"isolation\""));
    assert!(text.contains("\"resistance_profile\": \"bell\""));
    assert!(text.contains("\"plane_of_motion\": \"sagittal\""));
}

#[test]
fn deserialize_rejects_unknown_enum_token() {
    let e = Exercise::create_default();
    let text = serialize(&e).replace("\"compound\"", "\"sideways\"");
    assert!(deserialize(&text).is_err());
}

#[test]
fn deserialize_rejects_wrong_case_enum_token() {
    let e = Exercise::create_default();
    let text = serialize(&e).replace("\"compound\"", "\"Compound\"");
    assert!(deserialize(&text).is_err());
}

#[test]
fn deserialize_rejects_malformed_text() {
    let err = deserialize("this is not an exercise document").unwrap_err();
    assert!(!err.message.is_empty());
    assert!(deserialize("").is_err());
    assert!(deserialize("{").is_err());
}

#[test]
fn deserialize_rejects_missing_member() {
    let e = Exercise::create_default();
    let text = serialize(&e).replace("\"tips\": \"\",\n", "");
    assert!(deserialize(&text).is_err());
}

#[test]
fn deserialize_rejects_out_of_range_angle() {
    let mut e = Exercise::create_default();
    e.joints_involved.joints.push(static_joint("knee", 90));
    let text = serialize(&e).replace("\"angle\": 90", "\"angle\": 181");
    assert!(deserialize(&text).is_err());
}

#[test]
fn deserialize_rejects_trailing_text() {
    let e = Exercise::create_default();
    let mut text = serialize(&e);
    text.push_str("x");
    assert!(deserialize(&text).is_err());
}

#[test]
fn deserialize_accepts_extra_whitespace_between_tokens() {
    let e = sample_exercise();
    let text = serialize(&e).replace("\"id\": 0", "\"id\" :\t\r\n 0");
    let back = deserialize(&text).unwrap();
    assert_eq!(back, e);
}

#[test]
fn derive_filename_lowercases_and_joins_words() {
    assert_eq!(derive_filename("Flat Chest Press "), "flat_chest_press");
}

#[test]
fn derive_filename_blank_name_falls_back() {
    assert_eq!(derive_filename("   "), "unnamed_exercise");
    assert_eq!(derive_filename(""), "unnamed_exercise");
}

#[test]
fn derive_filename_keeps_inner_characters() {
    assert_eq!(derive_filename("  Incline DB Press 2 "), "incline_db_press_2");
}

#[test]
fn derive_filename_trims_the_full_whitespace_set() {
    assert_eq!(derive_filename("\u{b}"), "unnamed_exercise");
    assert_eq!(derive_filename("\u{c}\u{a0}\u{2003}"), "unnamed_exercise");
    assert_eq!(derive_filename("\u{2000}Row\u{3000}"), "row");
}

#[test]
fn derive_filename_lowercases_beyond_ascii() {
    assert_eq!(derive_filename("\u{c9}clair Press"), "\u{e9}clair_press");
    assert_eq!(derive_filename("PRESS"), "press");
}

#[test]
fn toggling_a_division_twice_leaves_one_entry() {
    let mut tm = TargetMuscles {
        muscle_name: "chest".to_string(),
        muscle_divisions: Vec::new(),
    };
    tm.toggle_division("sternocostal");
    tm.toggle_division("sternocostal");
    let matching: Vec<&MuscleDivision> = tm
        .muscle_divisions
        .iter()
        .filter(|d| d.name == "sternocostal")
        .collect();
    assert_eq!(matching.len(), 1);
    assert!(!matching[0].active);
}

#[test]
fn toggling_a_division_flips_its_flag() {
    let mut tm = TargetMuscles {
        muscle_name: "back".to_string(),
        muscle_divisions: Vec::new(),
    };
    tm.toggle_division("rhomboids");
    assert!(tm.division_active("rhomboids"));
    tm.toggle_division("rhomboids");
    assert!(!tm.division_active("rhomboids"));
}

#[test]
fn set_division_active_replaces_earlier_entries() {
    let mut tm = TargetMuscles {
        muscle_name: "biceps".to_string(),
        muscle_divisions: vec![
            MuscleDivision { name: "long head".to_string(), active: true },
            MuscleDivision { name: "short head".to_string(), active: true },
        ],
    };
    tm.set_division_active("long head", false);
    assert_eq!(tm.muscle_divisions.len(), 2);
    assert_eq!(tm.muscle_divisions[0].name, "short head");
    assert_eq!(tm.muscle_divisions[1].name, "long head");
    assert!(!tm.muscle_divisions[1].active);
}

#[test]
fn joints_are_added_in_order_and_removable_by_position() {
    let mut ji = JointsInvolved { joints: Vec::new() };
    ji.add_joint(static_joint("shoulder", 45));
    ji.add_joint(dynamic_joint("elbow", None, 30, 180));
    ji.add_joint(static_joint("wrist", 0));
    assert_eq!(ji.joints.len(), 3);
    let removed = ji.remove_joint(1);
    assert_eq!(removed.name, "elbow");
    assert_eq!(ji.joints.len(), 2);
    assert_eq!(ji.joints[0].name, "shoulder");
    assert_eq!(ji.joints[1].name, "wrist");
}

#[test]
fn round_trip_every_enum_variant() {
    for (ty, rp, pm) in [
        (ExerciseType::Compound, ResistanceProfile::Ascending, PlaneOfMotion::Sagittal),
        (ExerciseType::Isolation, ResistanceProfile::Descending, PlaneOfMotion::Frontal),
        (ExerciseType::Compound, ResistanceProfile::Bell, PlaneOfMotion::Transverse),
        (ExerciseType::Isolation, ResistanceProfile::Constant, PlaneOfMotion::Sagittal),
    ] {
        let mut e = Exercise::create_default();
        e.exercise_type = ty;
        e.resistance_profile = rp;
        e.plane_of_motion = pm;
        let back = deserialize(&serialize(&e)).unwrap();
        assert_eq!(back, e);
    }
}

#[test]
fn round_trip_large_id() {
    let mut e = Exercise::create_default();
    e.id = u32::MAX;
    let text = serialize(&e);
    assert!(text.contains("\"id\": 4294967295"));
    let back = deserialize(&text).unwrap();
    assert_eq!(back, e);
}

#[test]
fn deserialize_rejects_id_overflow() {
    let e = Exercise::create_default();
    let text = serialize(&e).replace("\"id\": 0", "\"id\": 4294967296");
    assert!(deserialize(&text).is_err());
}

#[test]
fn control_characters_are_escaped_and_restored() {
    let mut e = Exercise::create_default();
    e.tips = "bell\u{7} and \u{1f} end".to_string();
    let text = serialize(&e);
    assert!(text.contains("\\u0007"));
    assert!(text.contains("\\u001f"));
    let back = deserialize(&text).unwrap();
    assert_eq!(back, e);
}
