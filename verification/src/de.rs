//! Parsing an exercise record back out of its serialized document.
//!
//! The grammar accepted is the canonical document layout written by
//! [`crate::ser::serialize`] — same member order, same renamed keys, same
//! omission rules — with arbitrary whitespace between tokens and the standard
//! JSON escape forms inside strings. [`spec_parse_exercise`] and its helpers
//! are the exact mathematical statement of what is accepted;
//! [`deserialize`] decides it.

use crate::model::Exercise;
use crate::model::ExerciseType;
use crate::model::ExerciseView;
use crate::model::Joint;
use crate::model::JointView;
use crate::model::JointsInvolved;
use crate::model::JointsInvolvedView;
use crate::model::MuscleDivision;
use crate::model::MuscleDivisionView;
use crate::model::PlaneOfMotion;
use crate::model::ResistanceProfile;
use crate::model::TargetMuscles;
use crate::model::TargetMusclesView;
use crate::model::MAX_ANGLE;
use crate::text::push_char;
use vstd::prelude::*;

verus! {

// ---------------------------------------------------------------------------
// Characters
// ---------------------------------------------------------------------------

/// The whitespace accepted between tokens.
pub open spec fn ws_char(c: char) -> bool {
    c == ' ' || c == '\n' || c == '\t' || c == '\r'
}

/// The value of a decimal digit character, if it is one.
pub open spec fn digit_val(c: char) -> Option<nat> {
    if 48 <= c as u32 <= 57 {
        Some((c as u32 - 48) as nat)
    } else {
        None
    }
}

/// The value of a hexadecimal digit character, if it is one; both cases are
/// accepted.
pub open spec fn hex_val(c: char) -> Option<nat> {
    if 48 <= c as u32 <= 57 {
        Some((c as u32 - 48) as nat)
    } else if 97 <= c as u32 <= 102 {
        Some((c as u32 - 87) as nat)
    } else if 65 <= c as u32 <= 70 {
        Some((c as u32 - 55) as nat)
    } else {
        None
    }
}

/// The character a single-character escape stands for, if the escape is
/// recognised.
pub open spec fn esc_code(e: char) -> Option<char> {
    if e == '"' {
        Some('"')
    } else if e == '\\' {
        Some('\\')
    } else if e == '/' {
        Some('/')
    } else if e == 'n' {
        Some('\n')
    } else if e == 't' {
        Some('\t')
    } else if e == 'r' {
        Some('\r')
    } else if e == 'b' {
        Some(8u8 as char)
    } else if e == 'f' {
        Some(12u8 as char)
    } else {
        None
    }
}

// ---------------------------------------------------------------------------
// Tokens
// ---------------------------------------------------------------------------

/// The first position at or after `i` that does not hold whitespace.
pub open spec fn skip_ws(s: Seq<char>, i: int) -> int
    decreases s.len() - i,
{
    if 0 <= i < s.len() && ws_char(s[i]) {
        skip_ws(s, i + 1)
    } else {
        i
    }
}

/// Position after the literal `t` when it stands at `i`.
pub open spec fn parse_lit(s: Seq<char>, i: int, t: Seq<char>) -> Option<int> {
    if 0 <= i && i + t.len() <= s.len() && s.subrange(i, i + t.len() as int) == t {
        Some(i + t.len() as int)
    } else {
        None
    }
}

/// Position after the literal `t` when it stands at `i` after whitespace.
pub open spec fn tok(s: Seq<char>, i: int, t: Seq<char>) -> Option<int> {
    parse_lit(s, skip_ws(s, i), t)
}

// ---------------------------------------------------------------------------
// Strings
// ---------------------------------------------------------------------------

/// The contents of a JSON string, read from just after the opening quote up
/// to and over the closing quote.
pub open spec fn parse_str_body(s: Seq<char>, i: int) -> Option<(Seq<char>, int)>
    decreases s.len() - i,
{
    if !(0 <= i < s.len()) {
        None
    } else {
        let c = s[i];
        if c == '"' {
            Some((Seq::empty(), i + 1))
        } else if c == '\\' {
            if i + 1 >= s.len() {
                None
            } else {
                let e = s[i + 1];
                if e == 'u' {
                    if i + 6 > s.len() {
                        None
                    } else if s[i + 2] == '0' && s[i + 3] == '0' && hex_val(s[i + 4]) is Some
                        && hex_val(s[i + 5]) is Some {
                        let code = hex_val(s[i + 4])->0 * 16 + hex_val(s[i + 5])->0;
                        match parse_str_body(s, i + 6) {
                            None => None,
                            Some((t, j)) => Some((seq![(code as u8) as char] + t, j)),
                        }
                    } else {
                        None
                    }
                } else {
                    match esc_code(e) {
                        None => None,
                        Some(c2) => match parse_str_body(s, i + 2) {
                            None => None,
                            Some((t, j)) => Some((seq![c2] + t, j)),
                        },
                    }
                }
            }
        } else if (c as u32) < 32 {
            None
        } else {
            match parse_str_body(s, i + 1) {
                None => None,
                Some((t, j)) => Some((seq![c] + t, j)),
            }
        }
    }
}

/// A complete JSON string starting with its opening quote at `i`.
pub open spec fn parse_quoted(s: Seq<char>, i: int) -> Option<(Seq<char>, int)> {
    if 0 <= i < s.len() && s[i] == '"' {
        parse_str_body(s, i + 1)
    } else {
        None
    }
}

// ---------------------------------------------------------------------------
// Numbers and booleans
// ---------------------------------------------------------------------------

/// Reads a run of decimal digits starting at `i`, folding them onto `acc`;
/// yields the folded value and the position after the run.
pub open spec fn parse_digits(s: Seq<char>, i: int, acc: nat) -> (nat, int)
    decreases s.len() - i,
{
    if 0 <= i < s.len() && digit_val(s[i]) is Some {
        parse_digits(s, i + 1, acc * 10 + digit_val(s[i])->0)
    } else {
        (acc, i)
    }
}

/// An unsigned decimal integer at `i`: at least one digit, no leading zero,
/// value representable in 32 bits.
pub open spec fn parse_u32(s: Seq<char>, i: int) -> Option<(u32, int)> {
    if 0 <= i < s.len() && digit_val(s[i]) is Some {
        let (v, j) = parse_digits(s, i, 0);
        if v > u32::MAX {
            None
        } else if s[i] == '0' && j > i + 1 {
            None
        } else {
            Some((v as u32, j))
        }
    } else {
        None
    }
}

/// One of the two boolean tokens at `i`.
pub open spec fn parse_bool(s: Seq<char>, i: int) -> Option<(bool, int)> {
    match parse_lit(s, i, "true"@) {
        Some(j) => Some((true, j)),
        None => match parse_lit(s, i, "false"@) {
            Some(j) => Some((false, j)),
            None => None,
        },
    }
}

// ---------------------------------------------------------------------------
// Members
// ---------------------------------------------------------------------------

/// A quoted member key (given with its quotes) followed by a colon.
pub open spec fn tok_key_colon(s: Seq<char>, i: int, qkey: Seq<char>) -> Option<int> {
    match tok(s, i, qkey) {
        None => None,
        Some(j) => tok(s, j, ":"@),
    }
}

/// A member whose value is a string.
pub open spec fn parse_field_str(s: Seq<char>, i: int, qkey: Seq<char>) -> Option<(Seq<char>, int)> {
    match tok_key_colon(s, i, qkey) {
        None => None,
        Some(j) => parse_quoted(s, skip_ws(s, j)),
    }
}

/// A member whose value is an unsigned integer.
pub open spec fn parse_field_u32(s: Seq<char>, i: int, qkey: Seq<char>) -> Option<(u32, int)> {
    match tok_key_colon(s, i, qkey) {
        None => None,
        Some(j) => parse_u32(s, skip_ws(s, j)),
    }
}

/// A member whose value is a boolean.
pub open spec fn parse_field_bool(s: Seq<char>, i: int, qkey: Seq<char>) -> Option<(bool, int)> {
    match tok_key_colon(s, i, qkey) {
        None => None,
        Some(j) => parse_bool(s, skip_ws(s, j)),
    }
}

// ---------------------------------------------------------------------------
// Enum tokens
// ---------------------------------------------------------------------------

/// An exercise-type token at `i` (after whitespace): exactly `"compound"` or
/// `"isolation"`; any other token is rejected.
pub open spec fn parse_exercise_type(s: Seq<char>, i: int) -> Option<(ExerciseType, int)> {
    match tok(s, i, "\"compound\""@) {
        Some(j) => Some((ExerciseType::Compound, j)),
        None => match tok(s, i, "\"isolation\""@) {
            Some(j) => Some((ExerciseType::Isolation, j)),
            None => None,
        },
    }
}

/// A resistance-profile token at `i` (after whitespace).
pub open spec fn parse_resistance(s: Seq<char>, i: int) -> Option<(ResistanceProfile, int)> {
    match tok(s, i, "\"ascending\""@) {
        Some(j) => Some((ResistanceProfile::Ascending, j)),
        None => match tok(s, i, "\"descending\""@) {
            Some(j) => Some((ResistanceProfile::Descending, j)),
            None => match tok(s, i, "\"bell\""@) {
                Some(j) => Some((ResistanceProfile::Bell, j)),
                None => match tok(s, i, "\"constant\""@) {
                    Some(j) => Some((ResistanceProfile::Constant, j)),
                    None => None,
                },
            },
        },
    }
}

/// A plane-of-motion token at `i` (after whitespace).
pub open spec fn parse_plane(s: Seq<char>, i: int) -> Option<(PlaneOfMotion, int)> {
    match tok(s, i, "\"sagittal\""@) {
        Some(j) => Some((PlaneOfMotion::Sagittal, j)),
        None => match tok(s, i, "\"frontal\""@) {
            Some(j) => Some((PlaneOfMotion::Frontal, j)),
            None => match tok(s, i, "\"transverse\""@) {
                Some(j) => Some((PlaneOfMotion::Transverse, j)),
                None => None,
            },
        },
    }
}

// ---------------------------------------------------------------------------
// Objects and arrays
// ---------------------------------------------------------------------------

/// One element of the `muscle_division` array.
pub open spec fn parse_division_obj(s: Seq<char>, i: int) -> Option<(MuscleDivisionView, int)> {
    match tok(s, i, "{"@) {
        None => None,
        Some(j1) => match parse_field_str(s, j1, "\"name\""@) {
            None => None,
            Some((name, j2)) => match tok(s, j2, ","@) {
                None => None,
                Some(j3) => match parse_field_bool(s, j3, "\"active\""@) {
                    None => None,
                    Some((active, j4)) => match tok(s, j4, "}"@) {
                        None => None,
                        Some(j5) => Some((MuscleDivisionView { name, active }, j5)),
                    },
                },
            },
        },
    }
}

/// The elements of a non-empty `muscle_division` array, from after the
/// opening bracket to after the closing bracket.
pub open spec fn parse_division_items(s: Seq<char>, i: int) -> Option<(Seq<MuscleDivisionView>, int)>
    decreases s.len() - i,
{
    match parse_division_obj(s, i) {
        None => None,
        Some((d, j)) => {
            if !(i < j <= s.len()) {
                None
            } else {
                let k = skip_ws(s, j);
                if !(j <= k <= s.len()) {
                    None
                } else if k < s.len() && s[k] == ',' {
                    match parse_division_items(s, k + 1) {
                        None => None,
                        Some((rest, m)) => Some((seq![d] + rest, m)),
                    }
                } else if k < s.len() && s[k] == ']' {
                    Some((seq![d], k + 1))
                } else {
                    None
                }
            }
        },
    }
}

/// The `muscle_division` array, brackets included.
pub open spec fn parse_divisions(s: Seq<char>, i: int) -> Option<(Seq<MuscleDivisionView>, int)> {
    let j = skip_ws(s, i);
    if j < s.len() && s[j] == '[' {
        let k = skip_ws(s, j + 1);
        if k < s.len() && s[k] == ']' {
            Some((Seq::empty(), k + 1))
        } else {
            parse_division_items(s, j + 1)
        }
    } else {
        None
    }
}

/// The `target_muscles` object.
pub open spec fn parse_target_muscles(s: Seq<char>, i: int) -> Option<(TargetMusclesView, int)> {
    match tok(s, i, "{"@) {
        None => None,
        Some(j1) => match parse_field_str(s, j1, "\"muscle_name\""@) {
            None => None,
            Some((muscle_name, j2)) => match tok(s, j2, ","@) {
                None => None,
                Some(j3) => match tok_key_colon(s, j3, "\"muscle_division\""@) {
                    None => None,
                    Some(j4) => match parse_divisions(s, j4) {
                        None => None,
                        Some((muscle_divisions, j5)) => match tok(s, j5, "}"@) {
                            None => None,
                            Some(j6) => Some(
                                (TargetMusclesView { muscle_name, muscle_divisions }, j6),
                            ),
                        },
                    },
                },
            },
        },
    }
}

/// One element of the `joint` array. The members after `dynamic` depend on
/// its value: a static joint has exactly `angle`, a dynamic joint has
/// `intitial_angle` and `final_angle` with `direction` optionally first.
/// Angles above [`MAX_ANGLE`] are rejected.
pub open spec fn parse_joint_obj(s: Seq<char>, i: int) -> Option<(JointView, int)> {
    match tok(s, i, "{"@) {
        None => None,
        Some(j1) => match parse_field_str(s, j1, "\"name\""@) {
            None => None,
            Some((name, j2)) => match tok(s, j2, ","@) {
                None => None,
                Some(j3) => match parse_field_bool(s, j3, "\"dynamic\""@) {
                    None => None,
                    Some((dynamic, j4)) => match tok(s, j4, ","@) {
                        None => None,
                        Some(j5) => {
                            if dynamic {
                                parse_joint_dynamic_rest(s, j5, name)
                            } else {
                                parse_joint_static_rest(s, j5, name)
                            }
                        },
                    },
                },
            },
        },
    }
}

/// The members of a static joint after `"dynamic": false,`.
pub open spec fn parse_joint_static_rest(s: Seq<char>, i: int, name: Seq<char>) -> Option<
    (JointView, int),
> {
    match parse_field_u32(s, i, "\"angle\""@) {
        None => None,
        Some((a, j)) => {
            if a > MAX_ANGLE {
                None
            } else {
                match tok(s, j, "}"@) {
                    None => None,
                    Some(j2) => Some(
                        (
                            JointView {
                                name,
                                dynamic: false,
                                angle: Some(a),
                                direction: None,
                                angle_initial: None,
                                angle_final: None,
                            },
                            j2,
                        ),
                    ),
                }
            }
        },
    }
}

/// The members of a dynamic joint after `"dynamic": true,`: an optional
/// `direction`, then the two range angles.
pub open spec fn parse_joint_dynamic_rest(s: Seq<char>, i: int, name: Seq<char>) -> Option<
    (JointView, int),
> {
    match parse_field_str(s, i, "\"direction\""@) {
        Some((dir, j)) => match tok(s, j, ","@) {
            None => None,
            Some(j2) => parse_joint_angles_rest(s, j2, name, Some(dir)),
        },
        None => parse_joint_angles_rest(s, i, name, None),
    }
}

/// The two range angles and closing brace of a dynamic joint.
pub open spec fn parse_joint_angles_rest(
    s: Seq<char>,
    i: int,
    name: Seq<char>,
    direction: Option<Seq<char>>,
) -> Option<(JointView, int)> {
    match parse_field_u32(s, i, "\"intitial_angle\""@) {
        None => None,
        Some((ai, j)) => {
            if ai > MAX_ANGLE {
                None
            } else {
                match tok(s, j, ","@) {
                    None => None,
                    Some(j2) => match parse_field_u32(s, j2, "\"final_angle\""@) {
                        None => None,
                        Some((af, j3)) => {
                            if af > MAX_ANGLE {
                                None
                            } else {
                                match tok(s, j3, "}"@) {
                                    None => None,
                                    Some(j4) => Some(
                                        (
                                            JointView {
                                                name,
                                                dynamic: true,
                                                angle: None,
                                                direction,
                                                angle_initial: Some(ai),
                                                angle_final: Some(af),
                                            },
                                            j4,
                                        ),
                                    ),
                                }
                            }
                        },
                    },
                }
            }
        },
    }
}

/// The elements of a non-empty `joint` array, from after the opening bracket
/// to after the closing bracket.
pub open spec fn parse_joint_items(s: Seq<char>, i: int) -> Option<(Seq<JointView>, int)>
    decreases s.len() - i,
{
    match parse_joint_obj(s, i) {
        None => None,
        Some((d, j)) => {
            if !(i < j <= s.len()) {
                None
            } else {
                let k = skip_ws(s, j);
                if !(j <= k <= s.len()) {
                    None
                } else if k < s.len() && s[k] == ',' {
                    match parse_joint_items(s, k + 1) {
                        None => None,
                        Some((rest, m)) => Some((seq![d] + rest, m)),
                    }
                } else if k < s.len() && s[k] == ']' {
                    Some((seq![d], k + 1))
                } else {
                    None
                }
            }
        },
    }
}

/// The `joint` array, brackets included.
pub open spec fn parse_joints(s: Seq<char>, i: int) -> Option<(Seq<JointView>, int)> {
    let j = skip_ws(s, i);
    if j < s.len() && s[j] == '[' {
        let k = skip_ws(s, j + 1);
        if k < s.len() && s[k] == ']' {
            Some((Seq::empty(), k + 1))
        } else {
            parse_joint_items(s, j + 1)
        }
    } else {
        None
    }
}

/// The `joints_involved` object.
pub open spec fn parse_joints_involved(s: Seq<char>, i: int) -> Option<(JointsInvolvedView, int)> {
    match tok(s, i, "{"@) {
        None => None,
        Some(j1) => match tok_key_colon(s, j1, "\"joint\""@) {
            None => None,
            Some(j2) => match parse_joints(s, j2) {
                None => None,
                Some((joints, j3)) => match tok(s, j3, "}"@) {
                    None => None,
                    Some(j4) => Some((JointsInvolvedView { joints }, j4)),
                },
            },
        },
    }
}

/// The whole document object, from `i` to just after its closing brace.
pub open spec fn spec_parse_exercise(s: Seq<char>, i: int) -> Option<(ExerciseView, int)> {
    match tok(s, i, "{"@) {
        None => None,
        Some(p1) => match parse_field_str(s, p1, "\"name\""@) {
            None => None,
            Some((name, p2)) => match tok(s, p2, ","@) {
                None => None,
                Some(p3) => match parse_field_u32(s, p3, "\"id\""@) {
                    None => None,
                    Some((id, p4)) => match tok(s, p4, ","@) {
                        None => None,
                        Some(p5) => match tok_key_colon(s, p5, "\"type\""@) {
                            None => None,
                            Some(p6) => match parse_exercise_type(s, p6) {
                                None => None,
                                Some((exercise_type, p7)) => match tok(s, p7, ","@) {
                                    None => None,
                                    Some(p8) => match parse_field_str(s, p8, "\"description\""@) {
                                        None => None,
                                        Some((description, p9)) => match tok(s, p9, ","@) {
                                            None => None,
                                            Some(p10) => spec_parse_exercise_tail(
                                                s,
                                                p10,
                                                name,
                                                id,
                                                exercise_type,
                                                description,
                                            ),
                                        },
                                    },
                                },
                            },
                        },
                    },
                },
            },
        },
    }
}

/// The document members from `target_muscles` on.
pub open spec fn spec_parse_exercise_tail(
    s: Seq<char>,
    i: int,
    name: Seq<char>,
    id: u32,
    exercise_type: ExerciseType,
    description: Seq<char>,
) -> Option<(ExerciseView, int)> {
    match tok_key_colon(s, i, "\"target_muscles\""@) {
        None => None,
        Some(q1) => match parse_target_muscles(s, q1) {
            None => None,
            Some((target_muscles, q2)) => match tok(s, q2, ","@) {
                None => None,
                Some(q3) => match tok_key_colon(s, q3, "\"joints_involved\""@) {
                    None => None,
                    Some(q4) => match parse_joints_involved(s, q4) {
                        None => None,
                        Some((joints_involved, q5)) => match tok(s, q5, ","@) {
                            None => None,
                            Some(q6) => match tok_key_colon(s, q6, "\"resistance_profile\""@) {
                                None => None,
                                Some(q7) => match parse_resistance(s, q7) {
                                    None => None,
                                    Some((resistance_profile, q8)) => match tok(s, q8, ","@) {
                                        None => None,
                                        Some(q9) => match tok_key_colon(
                                            s,
                                            q9,
                                            "\"plane_of_motion\""@,
                                        ) {
                                            None => None,
                                            Some(q10) => match parse_plane(s, q10) {
                                                None => None,
                                                Some((plane_of_motion, q11)) => match tok(
                                                    s,
                                                    q11,
                                                    ","@,
                                                ) {
                                                    None => None,
                                                    Some(q12) => match parse_field_str(
                                                        s,
                                                        q12,
                                                        "\"tips\""@,
                                                    ) {
                                                        None => None,
                                                        Some((tips, q13)) => match tok(
                                                            s,
                                                            q13,
                                                            ","@,
                                                        ) {
                                                            None => None,
                                                            Some(q14) => match parse_field_str(
                                                                s,
                                                                q14,
                                                                "\"technique_video\""@,
                                                            ) {
                                                                None => None,
                                                                Some((technique_video, q15)) => match tok(
                                                                    s,
                                                                    q15,
                                                                    "}"@,
                                                                ) {
                                                                    None => None,
                                                                    Some(q16) => Some(
                                                                        (
                                                                            ExerciseView {
                                                                                name,
                                                                                id,
                                                                                exercise_type,
                                                                                description,
                                                                                target_muscles,
                                                                                joints_involved,
                                                                                resistance_profile,
                                                                                plane_of_motion,
                                                                                tips,
                                                                                technique_video,
                                                                            },
                                                                            q16,
                                                                        ),
                                                                    ),
                                                                },
                                                            },
                                                        },
                                                    },
                                                },
                                            },
                                        },
                                    },
                                },
                            },
                        },
                    },
                },
            },
        },
    }
}

/// What `deserialize` accepts: the whole input must be one document, with
/// nothing but whitespace after it.
pub open spec fn spec_deserialize(s: Seq<char>) -> Option<ExerciseView> {
    match spec_parse_exercise(s, 0) {
        None => None,
        Some((v, j)) => {
            if 0 <= j <= s.len() && skip_ws(s, j) == s.len() {
                Some(v)
            } else {
                None
            }
        },
    }
}

// ---------------------------------------------------------------------------
// Position bounds of the spec parser
// ---------------------------------------------------------------------------

pub proof fn lemma_skip_ws_bounds(s: Seq<char>, i: int)
    requires
        0 <= i <= s.len(),
    ensures
        i <= skip_ws(s, i) <= s.len(),
    decreases s.len() - i,
{
    if i < s.len() && ws_char(s[i]) {
        lemma_skip_ws_bounds(s, i + 1);
    }
}

pub proof fn lemma_parse_digits_ge(s: Seq<char>, i: int, acc: nat)
    requires
        0 <= i <= s.len(),
    ensures
        parse_digits(s, i, acc).0 >= acc,
        i <= parse_digits(s, i, acc).1 <= s.len(),
    decreases s.len() - i,
{
    if i < s.len() && digit_val(s[i]) is Some {
        lemma_parse_digits_ge(s, i + 1, acc * 10 + digit_val(s[i])->0);
    }
}

// ---------------------------------------------------------------------------
// The decision procedure
// ---------------------------------------------------------------------------

/// Why a document was rejected, with a short description for the caller.
#[derive(Debug)]
pub struct ParseError {
    pub message: String,
}

fn reject(what: &str) -> ParseError {
    ParseError { message: what.to_owned() }
}

fn p_skip_ws(s: &str, n: usize, i: usize) -> (r: usize)
    requires
        n == s@.len(),
        i <= n,
    ensures
        r as int == skip_ws(s@, i as int),
        i <= r <= n,
{
    let mut j = i;
    while j < n
        invariant
            n == s@.len(),
            i <= j <= n,
            skip_ws(s@, i as int) == skip_ws(s@, j as int),
        decreases n - j,
    {
        let c = s.get_char(j);
        if c == ' ' || c == '\n' || c == '\t' || c == '\r' {
            proof {
                assert(ws_char(s@[j as int]));
            }
            j = j + 1;
        } else {
            proof {
                assert(!ws_char(s@[j as int]));
            }
            return j;
        }
    }
    j
}

fn p_lit(s: &str, n: usize, i: usize, t: &str) -> (r: Option<usize>)
    requires
        n == s@.len(),
        i <= n,
    ensures
        match r {
            Some(j) => parse_lit(s@, i as int, t@) == Some(j as int) && i <= j <= n,
            None => parse_lit(s@, i as int, t@) is None,
        },
{
    let m = t.unicode_len();
    if m > n - i {
        return None;
    }
    let mut k: usize = 0;
    while k < m
        invariant
            n == s@.len(),
            m == t@.len(),
            i + m <= n,
            0 <= k <= m,
            forall|x: int| 0 <= x < k ==> s@[i + x] == t@[x],
        decreases m - k,
    {
        if s.get_char(i + k) != t.get_char(k) {
            proof {
                assert(s@.subrange(i as int, i + m) != t@) by {
                    if s@.subrange(i as int, i + m) == t@ {
                        assert(s@.subrange(i as int, i + m)[k as int] == s@[i + k]);
                    }
                }
            }
            return None;
        }
        k = k + 1;
    }
    proof {
        assert(s@.subrange(i as int, i + m) =~= t@);
    }
    Some(i + m)
}

fn p_tok(s: &str, n: usize, i: usize, t: &str) -> (r: Option<usize>)
    requires
        n == s@.len(),
        i <= n,
    ensures
        match r {
            Some(j) => tok(s@, i as int, t@) == Some(j as int) && i <= j <= n && j as int
                == skip_ws(s@, i as int) + t@.len(),
            None => tok(s@, i as int, t@) is None,
        },
{
    let j = p_skip_ws(s, n, i);
    p_lit(s, n, j, t)
}

fn p_esc_code(e: char) -> (r: Option<char>)
    ensures
        r == esc_code(e),
{
    if e == '"' {
        Some('"')
    } else if e == '\\' {
        Some('\\')
    } else if e == '/' {
        Some('/')
    } else if e == 'n' {
        Some('\n')
    } else if e == 't' {
        Some('\t')
    } else if e == 'r' {
        Some('\r')
    } else if e == 'b' {
        Some(8u8 as char)
    } else if e == 'f' {
        Some(12u8 as char)
    } else {
        None
    }
}

fn p_hex_val(c: char) -> (r: Option<u32>)
    ensures
        match r {
            Some(v) => hex_val(c) == Some(v as nat) && v < 16,
            None => hex_val(c) is None,
        },
{
    let u = c as u32;
    if 48 <= u && u <= 57 {
        Some(u - 48)
    } else if 97 <= u && u <= 102 {
        Some(u - 87)
    } else if 65 <= u && u <= 70 {
        Some(u - 55)
    } else {
        None
    }
}

fn p_digit_val(c: char) -> (r: Option<u32>)
    ensures
        match r {
            Some(v) => digit_val(c) == Some(v as nat) && v < 10,
            None => digit_val(c) is None,
        },
{
    let u = c as u32;
    if 48 <= u && u <= 57 {
        Some(u - 48)
    } else {
        None
    }
}

fn p_str_body(s: &str, n: usize, i: usize) -> (r: Option<(String, usize)>)
    requires
        n == s@.len(),
        i <= n,
    ensures
        match r {
            Some(p) => parse_str_body(s@, i as int) == Some((p.0@, p.1 as int)) && i < p.1 <= n,
            None => parse_str_body(s@, i as int) is None,
        },
{
    let mut acc = String::new();
    let mut j = i;
    proof {
        if parse_str_body(s@, i as int) is Some {
            let (t, e) = parse_str_body(s@, i as int)->0;
            assert(Seq::<char>::empty() + t =~= t);
        }
    }
    loop
        invariant
            n == s@.len(),
            i <= j <= n,
            match parse_str_body(s@, j as int) {
                None => parse_str_body(s@, i as int) is None,
                Some((t, e)) => parse_str_body(s@, i as int) == Some((acc@ + t, e)),
            },
        decreases n - j,
    {
        if j >= n {
            return None;
        }
        let c = s.get_char(j);
        if c == '"' {
            proof {
                assert(acc@ + Seq::<char>::empty() =~= acc@);
            }
            return Some((acc, j + 1));
        } else if c == '\\' {
            if j + 1 >= n {
                return None;
            }
            let e = s.get_char(j + 1);
            if e == 'u' {
                if n - j < 6 {
                    return None;
                }
                let c2 = s.get_char(j + 2);
                let c3 = s.get_char(j + 3);
                let h1 = p_hex_val(s.get_char(j + 4));
                let h2 = p_hex_val(s.get_char(j + 5));
                if c2 == '0' && c3 == '0' && h1.is_some() && h2.is_some() {
                    let v1 = match h1 {
                        Some(v) => v,
                        None => 0,
                    };
                    let v2 = match h2 {
                        Some(v) => v,
                        None => 0,
                    };
                    let code: u32 = v1 * 16 + v2;
                    let ch = (code as u8) as char;
                    let ghost acc0 = acc@;
                    push_char(&mut acc, ch);
                    proof {
                        if parse_str_body(s@, j + 6) is Some {
                            let (t, ee) = parse_str_body(s@, j + 6)->0;
                            assert(parse_str_body(s@, j as int) == Some((seq![ch] + t, ee)));
                            assert(acc0 + (seq![ch] + t) =~= (acc0 + seq![ch]) + t);
                        }
                    }
                    j = j + 6;
                } else {
                    return None;
                }
            } else {
                match p_esc_code(e) {
                    None => {
                        return None;
                    },
                    Some(c2) => {
                        let ghost acc0 = acc@;
                        push_char(&mut acc, c2);
                        proof {
                            if parse_str_body(s@, j + 2) is Some {
                                let (t, ee) = parse_str_body(s@, j + 2)->0;
                                assert(parse_str_body(s@, j as int) == Some((seq![c2] + t, ee)));
                                assert(acc0 + (seq![c2] + t) =~= (acc0 + seq![c2]) + t);
                            }
                        }
                        j = j + 2;
                    },
                }
            }
        } else if (c as u32) < 32 {
            return None;
        } else {
            let ghost acc0 = acc@;
            push_char(&mut acc, c);
            proof {
                if parse_str_body(s@, j + 1) is Some {
                    let (t, ee) = parse_str_body(s@, j + 1)->0;
                    assert(parse_str_body(s@, j as int) == Some((seq![c] + t, ee)));
                    assert(acc0 + (seq![c] + t) =~= (acc0 + seq![c]) + t);
                }
            }
            j = j + 1;
        }
    }
}

fn p_quoted(s: &str, n: usize, i: usize) -> (r: Option<(String, usize)>)
    requires
        n == s@.len(),
        i <= n,
    ensures
        match r {
            Some(p) => parse_quoted(s@, i as int) == Some((p.0@, p.1 as int)) && i < p.1 <= n,
            None => parse_quoted(s@, i as int) is None,
        },
{
    if i < n && s.get_char(i) == '"' {
        p_str_body(s, n, i + 1)
    } else {
        None
    }
}

fn p_u32(s: &str, n: usize, i: usize) -> (r: Option<(u32, usize)>)
    requires
        n == s@.len(),
        i <= n,
    ensures
        match r {
            Some(p) => parse_u32(s@, i as int) == Some((p.0, p.1 as int)) && i < p.1 <= n,
            None => parse_u32(s@, i as int) is None,
        },
{
    if i >= n {
        return None;
    }
    let first = s.get_char(i);
    match p_digit_val(first) {
        None => {
            return None;
        },
        Some(_) => {},
    }
    let mut acc: u32 = 0;
    let mut j = i;
    loop
        invariant
            n == s@.len(),
            i <= j <= n,
            i < n,
            digit_val(s@[i as int]) is Some,
            first == s@[i as int],
            j == i ==> acc == 0,
            j > i ==> j > i,
            parse_digits(s@, i as int, 0) == parse_digits(s@, j as int, acc as nat),
        decreases n - j,
    {
        let has_digit: Option<u32> = if j < n {
            p_digit_val(s.get_char(j))
        } else {
            None
        };
        match has_digit {
            Some(d) => {
                if acc > 429496729 || (acc == 429496729 && d > 5) {
                    proof {
                        let acc2: nat = acc as nat * 10 + d as nat;
                        assert(acc2 > u32::MAX);
                        assert(parse_digits(s@, j as int, acc as nat) == parse_digits(
                            s@,
                            j + 1,
                            acc2,
                        ));
                        lemma_parse_digits_ge(s@, j + 1, acc2);
                        assert(parse_digits(s@, i as int, 0).0 > u32::MAX);
                    }
                    return None;
                }
                acc = acc * 10 + d;
                j = j + 1;
            },
            None => {
                proof {
                    assert(parse_digits(s@, j as int, acc as nat) == (acc as nat, j as int));
                }
                if first == '0' && j > i + 1 {
                    return None;
                }
                proof {
                    lemma_parse_digits_ge(s@, i + 1, digit_val(s@[i as int])->0);
                    assert(parse_digits(s@, i as int, 0) == parse_digits(
                        s@,
                        i + 1,
                        digit_val(s@[i as int])->0,
                    ));
                    assert(j > i);
                }
                return Some((acc, j));
            },
        }
    }
}

fn p_bool(s: &str, n: usize, i: usize) -> (r: Option<(bool, usize)>)
    requires
        n == s@.len(),
        i <= n,
    ensures
        match r {
            Some(p) => parse_bool(s@, i as int) == Some((p.0, p.1 as int)) && i <= p.1 <= n,
            None => parse_bool(s@, i as int) is None,
        },
{
    match p_lit(s, n, i, "true") {
        Some(j) => Some((true, j)),
        None => match p_lit(s, n, i, "false") {
            Some(j) => Some((false, j)),
            None => None,
        },
    }
}

fn p_key_colon(s: &str, n: usize, i: usize, qkey: &str) -> (r: Option<usize>)
    requires
        n == s@.len(),
        i <= n,
    ensures
        match r {
            Some(j) => tok_key_colon(s@, i as int, qkey@) == Some(j as int) && i <= j <= n,
            None => tok_key_colon(s@, i as int, qkey@) is None,
        },
{
    match p_tok(s, n, i, qkey) {
        None => None,
        Some(j) => p_tok(s, n, j, ":"),
    }
}

fn p_field_str(s: &str, n: usize, i: usize, qkey: &str) -> (r: Option<(String, usize)>)
    requires
        n == s@.len(),
        i <= n,
    ensures
        match r {
            Some(p) => parse_field_str(s@, i as int, qkey@) == Some((p.0@, p.1 as int)) && i < p.1
                <= n,
            None => parse_field_str(s@, i as int, qkey@) is None,
        },
{
    match p_key_colon(s, n, i, qkey) {
        None => None,
        Some(j) => {
            let j2 = p_skip_ws(s, n, j);
            p_quoted(s, n, j2)
        },
    }
}

fn p_field_u32(s: &str, n: usize, i: usize, qkey: &str) -> (r: Option<(u32, usize)>)
    requires
        n == s@.len(),
        i <= n,
    ensures
        match r {
            Some(p) => parse_field_u32(s@, i as int, qkey@) == Some((p.0, p.1 as int)) && i < p.1
                <= n,
            None => parse_field_u32(s@, i as int, qkey@) is None,
        },
{
    match p_key_colon(s, n, i, qkey) {
        None => None,
        Some(j) => {
            let j2 = p_skip_ws(s, n, j);
            p_u32(s, n, j2)
        },
    }
}

fn p_field_bool(s: &str, n: usize, i: usize, qkey: &str) -> (r: Option<(bool, usize)>)
    requires
        n == s@.len(),
        i <= n,
    ensures
        match r {
            Some(p) => parse_field_bool(s@, i as int, qkey@) == Some((p.0, p.1 as int)) && i <= p.1
                <= n,
            None => parse_field_bool(s@, i as int, qkey@) is None,
        },
{
    match p_key_colon(s, n, i, qkey) {
        None => None,
        Some(j) => {
            let j2 = p_skip_ws(s, n, j);
            p_bool(s, n, j2)
        },
    }
}

fn p_exercise_type(s: &str, n: usize, i: usize) -> (r: Option<(ExerciseType, usize)>)
    requires
        n == s@.len(),
        i <= n,
    ensures
        match r {
            Some(p) => parse_exercise_type(s@, i as int) == Some((p.0, p.1 as int)) && i <= p.1
                <= n,
            None => parse_exercise_type(s@, i as int) is None,
        },
{
    match p_tok(s, n, i, "\"compound\"") {
        Some(j) => Some((ExerciseType::Compound, j)),
        None => match p_tok(s, n, i, "\"isolation\"") {
            Some(j) => Some((ExerciseType::Isolation, j)),
            None => None,
        },
    }
}

fn p_resistance(s: &str, n: usize, i: usize) -> (r: Option<(ResistanceProfile, usize)>)
    requires
        n == s@.len(),
        i <= n,
    ensures
        match r {
            Some(p) => parse_resistance(s@, i as int) == Some((p.0, p.1 as int)) && i <= p.1 <= n,
            None => parse_resistance(s@, i as int) is None,
        },
{
    match p_tok(s, n, i, "\"ascending\"") {
        Some(j) => Some((ResistanceProfile::Ascending, j)),
        None => match p_tok(s, n, i, "\"descending\"") {
            Some(j) => Some((ResistanceProfile::Descending, j)),
            None => match p_tok(s, n, i, "\"bell\"") {
                Some(j) => Some((ResistanceProfile::Bell, j)),
                None => match p_tok(s, n, i, "\"constant\"") {
                    Some(j) => Some((ResistanceProfile::Constant, j)),
                    None => None,
                },
            },
        },
    }
}

fn p_plane(s: &str, n: usize, i: usize) -> (r: Option<(PlaneOfMotion, usize)>)
    requires
        n == s@.len(),
        i <= n,
    ensures
        match r {
            Some(p) => parse_plane(s@, i as int) == Some((p.0, p.1 as int)) && i <= p.1 <= n,
            None => parse_plane(s@, i as int) is None,
        },
{
    match p_tok(s, n, i, "\"sagittal\"") {
        Some(j) => Some((PlaneOfMotion::Sagittal, j)),
        None => match p_tok(s, n, i, "\"frontal\"") {
            Some(j) => Some((PlaneOfMotion::Frontal, j)),
            None => match p_tok(s, n, i, "\"transverse\"") {
                Some(j) => Some((PlaneOfMotion::Transverse, j)),
                None => None,
            },
        },
    }
}

fn p_division(s: &str, n: usize, i: usize) -> (r: Option<(MuscleDivision, usize)>)
    requires
        n == s@.len(),
        i <= n,
    ensures
        match r {
            Some(p) => parse_division_obj(s@, i as int) == Some((p.0@, p.1 as int)) && i <= p.1
                <= n,
            None => parse_division_obj(s@, i as int) is None,
        },
{
    match p_tok(s, n, i, "{") {
        None => None,
        Some(j1) => match p_field_str(s, n, j1, "\"name\"") {
            None => None,
            Some((name, j2)) => match p_tok(s, n, j2, ",") {
                None => None,
                Some(j3) => match p_field_bool(s, n, j3, "\"active\"") {
                    None => None,
                    Some((active, j4)) => match p_tok(s, n, j4, "}") {
                        None => None,
                        Some(j5) => Some((MuscleDivision { name, active }, j5)),
                    },
                },
            },
        },
    }
}

fn p_division_items(s: &str, n: usize, i: usize) -> (r: Option<(Vec<MuscleDivision>, usize)>)
    requires
        n == s@.len(),
        i <= n,
    ensures
        match r {
            Some(p) => parse_division_items(s@, i as int) == Some(
                (p.0@.map_values(|d: MuscleDivision| d@), p.1 as int),
            ) && i <= p.1 <= n,
            None => parse_division_items(s@, i as int) is None,
        },
    decreases n - i,
{
    match p_division(s, n, i) {
        None => None,
        Some((d, j)) => {
            if !(i < j && j <= n) {
                return None;
            }
            let k = p_skip_ws(s, n, j);
            let ghost dv = d@;
            if k < n && s.get_char(k) == ',' {
                match p_division_items(s, n, k + 1) {
                    None => None,
                    Some((rest, m)) => {
                        let ghost restv = rest@.map_values(|x: MuscleDivision| x@);
                        let mut v = rest;
                        v.insert(0, d);
                        proof {
                            assert(v@.map_values(|x: MuscleDivision| x@) =~= seq![dv] + restv);
                        }
                        Some((v, m))
                    },
                }
            } else if k < n && s.get_char(k) == ']' {
                let mut v: Vec<MuscleDivision> = Vec::new();
                v.push(d);
                proof {
                    assert(v@.map_values(|x: MuscleDivision| x@) =~= seq![dv]);
                }
                Some((v, k + 1))
            } else {
                None
            }
        },
    }
}

fn p_divisions(s: &str, n: usize, i: usize) -> (r: Option<(Vec<MuscleDivision>, usize)>)
    requires
        n == s@.len(),
        i <= n,
    ensures
        match r {
            Some(p) => parse_divisions(s@, i as int) == Some(
                (p.0@.map_values(|d: MuscleDivision| d@), p.1 as int),
            ) && i <= p.1 <= n,
            None => parse_divisions(s@, i as int) is None,
        },
{
    let j = p_skip_ws(s, n, i);
    if j < n && s.get_char(j) == '[' {
        let k = p_skip_ws(s, n, j + 1);
        if k < n && s.get_char(k) == ']' {
            let v: Vec<MuscleDivision> = Vec::new();
            proof {
                assert(v@.map_values(|d: MuscleDivision| d@) =~= Seq::<MuscleDivisionView>::empty());
            }
            Some((v, k + 1))
        } else {
            p_division_items(s, n, j + 1)
        }
    } else {
        None
    }
}

fn p_target_muscles(s: &str, n: usize, i: usize) -> (r: Option<(TargetMuscles, usize)>)
    requires
        n == s@.len(),
        i <= n,
    ensures
        match r {
            Some(p) => parse_target_muscles(s@, i as int) == Some((p.0@, p.1 as int)) && i <= p.1
                <= n,
            None => parse_target_muscles(s@, i as int) is None,
        },
{
    match p_tok(s, n, i, "{") {
        None => None,
        Some(j1) => match p_field_str(s, n, j1, "\"muscle_name\"") {
            None => None,
            Some((muscle_name, j2)) => match p_tok(s, n, j2, ",") {
                None => None,
                Some(j3) => match p_key_colon(s, n, j3, "\"muscle_division\"") {
                    None => None,
                    Some(j4) => match p_divisions(s, n, j4) {
                        None => None,
                        Some((muscle_divisions, j5)) => match p_tok(s, n, j5, "}") {
                            None => None,
                            Some(j6) => Some(
                                (TargetMuscles { muscle_name, muscle_divisions }, j6),
                            ),
                        },
                    },
                },
            },
        },
    }
}

fn p_joint(s: &str, n: usize, i: usize) -> (r: Option<(Joint, usize)>)
    requires
        n == s@.len(),
        i <= n,
    ensures
        match r {
            Some(p) => parse_joint_obj(s@, i as int) == Some((p.0@, p.1 as int)) && i <= p.1 <= n
                && p.0.wf(),
            None => parse_joint_obj(s@, i as int) is None,
        },
{
    match p_tok(s, n, i, "{") {
        None => None,
        Some(j1) => match p_field_str(s, n, j1, "\"name\"") {
            None => None,
            Some((name, j2)) => match p_tok(s, n, j2, ",") {
                None => None,
                Some(j3) => match p_field_bool(s, n, j3, "\"dynamic\"") {
                    None => None,
                    Some((dynamic, j4)) => match p_tok(s, n, j4, ",") {
                        None => None,
                        Some(j5) => {
                            if dynamic {
                                p_joint_dynamic_rest(s, n, j5, name)
                            } else {
                                p_joint_static_rest(s, n, j5, name)
                            }
                        },
                    },
                },
            },
        },
    }
}

fn p_joint_static_rest(s: &str, n: usize, i: usize, name: String) -> (r: Option<(Joint, usize)>)
    requires
        n == s@.len(),
        i <= n,
    ensures
        match r {
            Some(p) => parse_joint_static_rest(s@, i as int, name@) == Some((p.0@, p.1 as int)) && i
                <= p.1 <= n && p.0.wf(),
            None => parse_joint_static_rest(s@, i as int, name@) is None,
        },
{
    match p_field_u32(s, n, i, "\"angle\"") {
        None => None,
        Some((a, j)) => {
            if a > MAX_ANGLE {
                return None;
            }
            match p_tok(s, n, j, "}") {
                None => None,
                Some(j2) => Some(
                    (
                        Joint {
                            name,
                            dynamic: false,
                            angle: Some(a),
                            direction: None,
                            angle_initial: None,
                            angle_final: None,
                        },
                        j2,
                    ),
                ),
            }
        },
    }
}

fn p_joint_dynamic_rest(s: &str, n: usize, i: usize, name: String) -> (r: Option<(Joint, usize)>)
    requires
        n == s@.len(),
        i <= n,
    ensures
        match r {
            Some(p) => parse_joint_dynamic_rest(s@, i as int, name@) == Some((p.0@, p.1 as int))
                && i <= p.1 <= n && p.0.wf(),
            None => parse_joint_dynamic_rest(s@, i as int, name@) is None,
        },
{
    match p_field_str(s, n, i, "\"direction\"") {
        Some((dir, j)) => match p_tok(s, n, j, ",") {
            None => None,
            Some(j2) => p_joint_angles_rest(s, n, j2, name, Some(dir)),
        },
        None => p_joint_angles_rest(s, n, i, name, None),
    }
}

fn p_joint_angles_rest(
    s: &str,
    n: usize,
    i: usize,
    name: String,
    direction: Option<String>,
) -> (r: Option<(Joint, usize)>)
    requires
        n == s@.len(),
        i <= n,
    ensures
        match r {
            Some(p) => parse_joint_angles_rest(
                s@,
                i as int,
                name@,
                match direction {
                    Some(d) => Some(d@),
                    None => None,
                },
            ) == Some((p.0@, p.1 as int)) && i <= p.1 <= n && p.0.wf(),
            None => parse_joint_angles_rest(
                s@,
                i as int,
                name@,
                match direction {
                    Some(d) => Some(d@),
                    None => None,
                },
            ) is None,
        },
{
    match p_field_u32(s, n, i, "\"intitial_angle\"") {
        None => None,
        Some((ai, j)) => {
            if ai > MAX_ANGLE {
                return None;
            }
            match p_tok(s, n, j, ",") {
                None => None,
                Some(j2) => match p_field_u32(s, n, j2, "\"final_angle\"") {
                    None => None,
                    Some((af, j3)) => {
                        if af > MAX_ANGLE {
                            return None;
                        }
                        match p_tok(s, n, j3, "}") {
                            None => None,
                            Some(j4) => Some(
                                (
                                    Joint {
                                        name,
                                        dynamic: true,
                                        angle: None,
                                        direction,
                                        angle_initial: Some(ai),
                                        angle_final: Some(af),
                                    },
                                    j4,
                                ),
                            ),
                        }
                    },
                },
            }
        },
    }
}

fn p_joint_items(s: &str, n: usize, i: usize) -> (r: Option<(Vec<Joint>, usize)>)
    requires
        n == s@.len(),
        i <= n,
    ensures
        match r {
            Some(p) => parse_joint_items(s@, i as int) == Some(
                (p.0@.map_values(|j: Joint| j@), p.1 as int),
            ) && i <= p.1 <= n && forall|x: int| 0 <= x < p.0@.len() ==> (#[trigger] p.0@[x]).wf(),
            None => parse_joint_items(s@, i as int) is None,
        },
    decreases n - i,
{
    match p_joint(s, n, i) {
        None => None,
        Some((d, j)) => {
            if !(i < j && j <= n) {
                return None;
            }
            let k = p_skip_ws(s, n, j);
            let ghost dv = d@;
            if k < n && s.get_char(k) == ',' {
                match p_joint_items(s, n, k + 1) {
                    None => None,
                    Some((rest, m)) => {
                        let ghost restv = rest@.map_values(|x: Joint| x@);
                        let mut v = rest;
                        v.insert(0, d);
                        proof {
                            assert(v@.map_values(|x: Joint| x@) =~= seq![dv] + restv);
                        }
                        Some((v, m))
                    },
                }
            } else if k < n && s.get_char(k) == ']' {
                let mut v: Vec<Joint> = Vec::new();
                v.push(d);
                proof {
                    assert(v@.map_values(|x: Joint| x@) =~= seq![dv]);
                }
                Some((v, k + 1))
            } else {
                None
            }
        },
    }
}

fn p_joints(s: &str, n: usize, i: usize) -> (r: Option<(Vec<Joint>, usize)>)
    requires
        n == s@.len(),
        i <= n,
    ensures
        match r {
            Some(p) => parse_joints(s@, i as int) == Some(
                (p.0@.map_values(|j: Joint| j@), p.1 as int),
            ) && i <= p.1 <= n && forall|x: int| 0 <= x < p.0@.len() ==> (#[trigger] p.0@[x]).wf(),
            None => parse_joints(s@, i as int) is None,
        },
{
    let j = p_skip_ws(s, n, i);
    if j < n && s.get_char(j) == '[' {
        let k = p_skip_ws(s, n, j + 1);
        if k < n && s.get_char(k) == ']' {
            let v: Vec<Joint> = Vec::new();
            proof {
                assert(v@.map_values(|j: Joint| j@) =~= Seq::<JointView>::empty());
            }
            Some((v, k + 1))
        } else {
            p_joint_items(s, n, j + 1)
        }
    } else {
        None
    }
}

fn p_joints_involved(s: &str, n: usize, i: usize) -> (r: Option<(JointsInvolved, usize)>)
    requires
        n == s@.len(),
        i <= n,
    ensures
        match r {
            Some(p) => parse_joints_involved(s@, i as int) == Some((p.0@, p.1 as int)) && i <= p.1
                <= n && forall|x: int|
                0 <= x < p.0.joints@.len() ==> (#[trigger] p.0.joints@[x]).wf(),
            None => parse_joints_involved(s@, i as int) is None,
        },
{
    match p_tok(s, n, i, "{") {
        None => None,
        Some(j1) => match p_key_colon(s, n, j1, "\"joint\"") {
            None => None,
            Some(j2) => match p_joints(s, n, j2) {
                None => None,
                Some((joints, j3)) => match p_tok(s, n, j3, "}") {
                    None => None,
                    Some(j4) => Some((JointsInvolved { joints }, j4)),
                },
            },
        },
    }
}

fn p_exercise(s: &str, n: usize, i: usize) -> (r: Option<(Exercise, usize)>)
    requires
        n == s@.len(),
        i <= n,
    ensures
        match r {
            Some(p) => spec_parse_exercise(s@, i as int) == Some((p.0@, p.1 as int)) && i <= p.1
                <= n && p.0.wf(),
            None => spec_parse_exercise(s@, i as int) is None,
        },
{
    let r1 = match p_tok(s, n, i, "{") {
        None => None,
        Some(p1) => match p_field_str(s, n, p1, "\"name\"") {
            None => None,
            Some((name, p2)) => match p_tok(s, n, p2, ",") {
                None => None,
                Some(p3) => match p_field_u32(s, n, p3, "\"id\"") {
                    None => None,
                    Some((id, p4)) => match p_tok(s, n, p4, ",") {
                        None => None,
                        Some(p5) => match p_key_colon(s, n, p5, "\"type\"") {
                            None => None,
                            Some(p6) => match p_exercise_type(s, n, p6) {
                                None => None,
                                Some((exercise_type, p7)) => match p_tok(s, n, p7, ",") {
                                    None => None,
                                    Some(p8) => match p_field_str(s, n, p8, "\"description\"") {
                                        None => None,
                                        Some((description, p9)) => match p_tok(s, n, p9, ",") {
                                            None => None,
                                            Some(p10) => Some(
                                                (name, id, exercise_type, description, p10),
                                            ),
                                        },
                                    },
                                },
                            },
                        },
                    },
                },
            },
        },
    };
    match r1 {
        None => None,
        Some((name, id, exercise_type, description, p10)) => p_exercise_tail(
            s,
            n,
            p10,
            name,
            id,
            exercise_type,
            description,
        ),
    }
}

fn p_exercise_tail(
    s: &str,
    n: usize,
    i: usize,
    name: String,
    id: u32,
    exercise_type: ExerciseType,
    description: String,
) -> (r: Option<(Exercise, usize)>)
    requires
        n == s@.len(),
        i <= n,
    ensures
        match r {
            Some(p) => spec_parse_exercise_tail(s@, i as int, name@, id, exercise_type, description@)
                == Some((p.0@, p.1 as int)) && i <= p.1 <= n && p.0.wf(),
            None => spec_parse_exercise_tail(
                s@,
                i as int,
                name@,
                id,
                exercise_type,
                description@,
            ) is None,
        },
{
    match p_key_colon(s, n, i, "\"target_muscles\"") {
        None => None,
        Some(q1) => match p_target_muscles(s, n, q1) {
            None => None,
            Some((target_muscles, q2)) => match p_tok(s, n, q2, ",") {
                None => None,
                Some(q3) => match p_key_colon(s, n, q3, "\"joints_involved\"") {
                    None => None,
                    Some(q4) => match p_joints_involved(s, n, q4) {
                        None => None,
                        Some((joints_involved, q5)) => match p_tok(s, n, q5, ",") {
                            None => None,
                            Some(q6) => match p_key_colon(s, n, q6, "\"resistance_profile\"") {
                                None => None,
                                Some(q7) => match p_resistance(s, n, q7) {
                                    None => None,
                                    Some((resistance_profile, q8)) => match p_tok(s, n, q8, ",") {
                                        None => None,
                                        Some(q9) => match p_key_colon(
                                            s,
                                            n,
                                            q9,
                                            "\"plane_of_motion\"",
                                        ) {
                                            None => None,
                                            Some(q10) => match p_plane(s, n, q10) {
                                                None => None,
                                                Some((plane_of_motion, q11)) => match p_tok(
                                                    s,
                                                    n,
                                                    q11,
                                                    ",",
                                                ) {
                                                    None => None,
                                                    Some(q12) => match p_field_str(
                                                        s,
                                                        n,
                                                        q12,
                                                        "\"tips\"",
                                                    ) {
                                                        None => None,
                                                        Some((tips, q13)) => match p_tok(
                                                            s,
                                                            n,
                                                            q13,
                                                            ",",
                                                        ) {
                                                            None => None,
                                                            Some(q14) => match p_field_str(
                                                                s,
                                                                n,
                                                                q14,
                                                                "\"technique_video\"",
                                                            ) {
                                                                None => None,
                                                                Some((technique_video, q15)) => match p_tok(
                                                                    s,
                                                                    n,
                                                                    q15,
                                                                    "}",
                                                                ) {
                                                                    None => None,
                                                                    Some(q16) => {
                                                                        let e = Exercise {
                                                                            name,
                                                                            id,
                                                                            exercise_type,
                                                                            description,
                                                                            target_muscles,
                                                                            joints_involved,
                                                                            resistance_profile,
                                                                            plane_of_motion,
                                                                            tips,
                                                                            technique_video,
                                                                        };
                                                                        proof {
                                                                            assert(e.wf());
                                                                        }
                                                                        Some((e, q16))
                                                                    },
                                                                },
                                                            },
                                                        },
                                                    },
                                                },
                                            },
                                        },
                                    },
                                },
                            },
                        },
                    },
                },
            },
        },
    }
}

/// Reads an exercise record back from a serialized document. Succeeds on
/// exactly the texts that [`spec_deserialize`] accepts — the canonical
/// document layout, whitespace-insensitively — and the record returned is
/// well formed; every other text is rejected with a [`ParseError`].
pub fn deserialize(s: &str) -> (r: Result<Exercise, ParseError>)
    ensures
        match r {
            Ok(e) => spec_deserialize(s@) == Some(e@) && e.wf(),
            Err(_) => spec_deserialize(s@) is None,
        },
{
    let n = s.unicode_len();
    match p_exercise(s, n, 0) {
        None => Err(reject("the text is not a well-formed exercise document")),
        Some((e, j)) => {
            let k = p_skip_ws(s, n, j);
            if k == n {
                Ok(e)
            } else {
                Err(reject("unexpected text after the exercise document"))
            }
        },
    }
}

} // verus!
