//! The canonical serialized form of an exercise record: a pretty-printed
//! JSON document. The wire format renames the two sequence fields to singular
//! keys (`muscle_division`, `joint`), keeps the historical spelling
//! `intitial_angle`, writes enum values as lowercase tokens, and omits the
//! joint fields that are irrelevant to the joint's current mode.
//!
//! [`spec_serialize`] states the exact text; [`serialize`] produces it.

use crate::model::Exercise;
use crate::model::ExerciseType;
use crate::model::ExerciseView;
use crate::model::Joint;
use crate::model::JointView;
use crate::model::JointsInvolvedView;
use crate::model::MuscleDivision;
use crate::model::MuscleDivisionView;
use crate::model::PlaneOfMotion;
use crate::model::ResistanceProfile;
use crate::model::TargetMusclesView;
use crate::text::push_char;
use vstd::prelude::*;

verus! {

// ---------------------------------------------------------------------------
// Characters of numbers
// ---------------------------------------------------------------------------

/// The decimal digit character for a value in `0 ..= 9`.
pub open spec fn digit_char(n: int) -> char {
    if n == 0 {
        '0'
    } else if n == 1 {
        '1'
    } else if n == 2 {
        '2'
    } else if n == 3 {
        '3'
    } else if n == 4 {
        '4'
    } else if n == 5 {
        '5'
    } else if n == 6 {
        '6'
    } else if n == 7 {
        '7'
    } else if n == 8 {
        '8'
    } else {
        '9'
    }
}

/// The lowercase hexadecimal digit character for a value in `0 ..= 15`.
pub open spec fn hex_char(n: int) -> char {
    if n < 10 {
        digit_char(n)
    } else if n == 10 {
        'a'
    } else if n == 11 {
        'b'
    } else if n == 12 {
        'c'
    } else if n == 13 {
        'd'
    } else if n == 14 {
        'e'
    } else {
        'f'
    }
}

/// The decimal digits of `n`, most significant first, without leading zeros
/// (`0` itself is written as one digit).
pub open spec fn dec_digits(n: nat) -> Seq<char>
    decreases n,
{
    if n < 10 {
        seq![digit_char(n as int)]
    } else {
        dec_digits(n / 10).push(digit_char((n % 10) as int))
    }
}

// ---------------------------------------------------------------------------
// String escaping
// ---------------------------------------------------------------------------

/// How one character is written inside a JSON string: quote and backslash
/// are escaped, control characters become `\u00XX`, everything else stands
/// for itself.
pub open spec fn esc_char(c: char) -> Seq<char> {
    if c == '"' {
        seq!['\\', '"']
    } else if c == '\\' {
        seq!['\\', '\\']
    } else if (c as u32) < 32 {
        seq![
            '\\',
            'u',
            '0',
            '0',
            hex_char((c as u32 / 16) as int),
            hex_char((c as u32 % 16) as int),
        ]
    } else {
        seq![c]
    }
}

/// The text written inside the quotes for string contents `s`.
pub open spec fn json_escape(s: Seq<char>) -> Seq<char>
    decreases s.len(),
{
    if s.len() == 0 {
        Seq::empty()
    } else {
        esc_char(s[0]) + json_escape(s.drop_first())
    }
}

/// A complete JSON string: quote, escaped contents, quote.
pub open spec fn quoted(s: Seq<char>) -> Seq<char> {
    seq!['"'] + json_escape(s) + seq!['"']
}

pub proof fn lemma_json_escape_push(s: Seq<char>, c: char)
    ensures
        json_escape(s.push(c)) == json_escape(s) + esc_char(c),
    decreases s.len(),
{
    if s.len() == 0 {
        assert(s.push(c)[0] == c);
        assert(s.push(c).drop_first() =~= Seq::<char>::empty());
        assert(s =~= Seq::<char>::empty());
        assert(json_escape(Seq::<char>::empty()) == Seq::<char>::empty());
        assert(json_escape(s.push(c)) == esc_char(c) + Seq::<char>::empty());
        assert(esc_char(c) + Seq::<char>::empty() =~= Seq::<char>::empty() + esc_char(c));
    } else {
        assert(s.push(c)[0] == s[0]);
        assert(s.push(c).drop_first() =~= s.drop_first().push(c));
        lemma_json_escape_push(s.drop_first(), c);
        assert(esc_char(s[0]) + (json_escape(s.drop_first()) + esc_char(c)) =~= (esc_char(s[0])
            + json_escape(s.drop_first())) + esc_char(c));
    }
}

// ---------------------------------------------------------------------------
// Tokens
// ---------------------------------------------------------------------------

/// The lowercase wire token of an exercise type.
pub open spec fn exercise_type_token(t: ExerciseType) -> Seq<char> {
    match t {
        ExerciseType::Compound => "compound"@,
        ExerciseType::Isolation => "isolation"@,
    }
}

/// The lowercase wire token of a resistance profile.
pub open spec fn resistance_token(p: ResistanceProfile) -> Seq<char> {
    match p {
        ResistanceProfile::Ascending => "ascending"@,
        ResistanceProfile::Descending => "descending"@,
        ResistanceProfile::Bell => "bell"@,
        ResistanceProfile::Constant => "constant"@,
    }
}

/// The lowercase wire token of a plane of motion.
pub open spec fn plane_token(p: PlaneOfMotion) -> Seq<char> {
    match p {
        PlaneOfMotion::Sagittal => "sagittal"@,
        PlaneOfMotion::Frontal => "frontal"@,
        PlaneOfMotion::Transverse => "transverse"@,
    }
}

/// A token wrapped in quotes, as enum values appear on the wire.
pub open spec fn quoted_token(t: Seq<char>) -> Seq<char> {
    seq!['"'] + t + seq!['"']
}

/// The wire text of a boolean.
pub open spec fn bool_seq(b: bool) -> Seq<char> {
    if b {
        "true"@
    } else {
        "false"@
    }
}

// ---------------------------------------------------------------------------
// The document
// ---------------------------------------------------------------------------

/// One element of the `muscle_division` array, indented as an element of the
/// document's only division array.
pub open spec fn ser_division(d: MuscleDivisionView) -> Seq<char> {
    "\n      {\n        \"name\": "@ + quoted(d.name) + ",\n        \"active\": "@ + bool_seq(
        d.active,
    ) + "\n      }"@
}

/// The elements of a non-empty division array, separated by commas.
pub open spec fn ser_division_items(ds: Seq<MuscleDivisionView>) -> Seq<char>
    recommends
        ds.len() > 0,
    decreases ds.len(),
{
    if ds.len() <= 1 {
        ser_division(ds[0])
    } else {
        ser_division(ds[0]) + ","@ + ser_division_items(ds.drop_first())
    }
}

/// The `muscle_division` array.
pub open spec fn ser_divisions(ds: Seq<MuscleDivisionView>) -> Seq<char> {
    if ds.len() == 0 {
        "[]"@
    } else {
        "["@ + ser_division_items(ds) + "\n    ]"@
    }
}

/// The `target_muscles` object.
pub open spec fn ser_target_muscles(tm: TargetMusclesView) -> Seq<char> {
    "{\n    \"muscle_name\": "@ + quoted(tm.muscle_name) + ",\n    \"muscle_division\": "@
        + ser_divisions(tm.muscle_divisions) + "\n  }"@
}

/// The optional `direction` member of a dynamic joint: omitted entirely when
/// absent.
pub open spec fn ser_direction(d: Option<Seq<char>>) -> Seq<char> {
    match d {
        None => Seq::empty(),
        Some(t) => ",\n        \"direction\": "@ + quoted(t),
    }
}

/// One element of the `joint` array. A static joint writes only `angle`; a
/// dynamic joint writes `direction` (when present), `intitial_angle` and
/// `final_angle`.
pub open spec fn ser_joint(j: JointView) -> Seq<char> {
    "\n      {\n        \"name\": "@ + quoted(j.name) + ",\n        \"dynamic\": "@ + bool_seq(
        j.dynamic,
    ) + (if j.dynamic {
        ser_direction(j.direction) + ",\n        \"intitial_angle\": "@ + dec_digits(
            j.angle_initial->0 as nat,
        ) + ",\n        \"final_angle\": "@ + dec_digits(j.angle_final->0 as nat)
    } else {
        ",\n        \"angle\": "@ + dec_digits(j.angle->0 as nat)
    }) + "\n      }"@
}

/// The elements of a non-empty joint array, separated by commas.
pub open spec fn ser_joint_items(js: Seq<JointView>) -> Seq<char>
    recommends
        js.len() > 0,
    decreases js.len(),
{
    if js.len() <= 1 {
        ser_joint(js[0])
    } else {
        ser_joint(js[0]) + ","@ + ser_joint_items(js.drop_first())
    }
}

/// The `joint` array.
pub open spec fn ser_joints(js: Seq<JointView>) -> Seq<char> {
    if js.len() == 0 {
        "[]"@
    } else {
        "["@ + ser_joint_items(js) + "\n    ]"@
    }
}

/// The `joints_involved` object.
pub open spec fn ser_joints_involved(ji: JointsInvolvedView) -> Seq<char> {
    "{\n    \"joint\": "@ + ser_joints(ji.joints) + "\n  }"@
}

/// The complete canonical document for an exercise record.
pub open spec fn spec_serialize(e: ExerciseView) -> Seq<char> {
    "{\n  \"name\": "@ + quoted(e.name) + ",\n  \"id\": "@ + dec_digits(e.id as nat)
        + ",\n  \"type\": "@ + quoted_token(exercise_type_token(e.exercise_type))
        + ",\n  \"description\": "@ + quoted(e.description) + ",\n  \"target_muscles\": "@
        + ser_target_muscles(e.target_muscles) + ",\n  \"joints_involved\": "@
        + ser_joints_involved(e.joints_involved) + ",\n  \"resistance_profile\": "@ + quoted_token(
        resistance_token(e.resistance_profile),
    ) + ",\n  \"plane_of_motion\": "@ + quoted_token(plane_token(e.plane_of_motion))
        + ",\n  \"tips\": "@ + quoted(e.tips) + ",\n  \"technique_video\": "@ + quoted(
        e.technique_video,
    ) + "\n}"@
}

// ---------------------------------------------------------------------------
// The emitter
// ---------------------------------------------------------------------------

fn digit_exec(v: u32) -> (c: char)
    requires
        v < 10,
    ensures
        c == digit_char(v as int),
{
    if v == 0 {
        '0'
    } else if v == 1 {
        '1'
    } else if v == 2 {
        '2'
    } else if v == 3 {
        '3'
    } else if v == 4 {
        '4'
    } else if v == 5 {
        '5'
    } else if v == 6 {
        '6'
    } else if v == 7 {
        '7'
    } else if v == 8 {
        '8'
    } else {
        '9'
    }
}

fn hex_exec(v: u32) -> (c: char)
    requires
        v < 16,
    ensures
        c == hex_char(v as int),
{
    if v < 10 {
        digit_exec(v)
    } else if v == 10 {
        'a'
    } else if v == 11 {
        'b'
    } else if v == 12 {
        'c'
    } else if v == 13 {
        'd'
    } else if v == 14 {
        'e'
    } else {
        'f'
    }
}

fn append_u32(out: &mut String, v: u32)
    ensures
        final(out)@ == old(out)@ + dec_digits(v as nat),
    decreases v,
{
    if v < 10 {
        push_char(out, digit_exec(v));
    } else {
        let ghost before = out@;
        append_u32(out, v / 10);
        push_char(out, digit_exec(v % 10));
        proof {
            assert(out@ =~= before + dec_digits((v / 10) as nat).push(digit_char((v % 10) as int)));
        }
    }
}

fn append_escaped(out: &mut String, s: &str)
    ensures
        final(out)@ == old(out)@ + json_escape(s@),
{
    let ghost before = out@;
    let n = s.unicode_len();
    let mut i: usize = 0;
    while i < n
        invariant
            n == s@.len(),
            0 <= i <= n,
            out@ == before + json_escape(s@.take(i as int)),
        decreases n - i,
    {
        let ghost prefix = s@.take(i as int);
        let c = s.get_char(i);
        let cu = c as u32;
        if c == '"' {
            push_char(out, '\\');
            push_char(out, '"');
        } else if c == '\\' {
            push_char(out, '\\');
            push_char(out, '\\');
        } else if cu < 32 {
            push_char(out, '\\');
            push_char(out, 'u');
            push_char(out, '0');
            push_char(out, '0');
            push_char(out, hex_exec(cu / 16));
            push_char(out, hex_exec(cu % 16));
        } else {
            push_char(out, c);
        }
        proof {
            lemma_json_escape_push(prefix, c);
            assert(s@.take(i + 1) =~= prefix.push(c));
            assert(out@ =~= before + json_escape(s@.take(i + 1)));
        }
        i = i + 1;
    }
    proof {
        assert(s@.take(n as int) =~= s@);
    }
}

fn append_quoted(out: &mut String, s: &str)
    ensures
        final(out)@ == old(out)@ + quoted(s@),
{
    let ghost before = out@;
    push_char(out, '"');
    append_escaped(out, s);
    push_char(out, '"');
    proof {
        assert(out@ =~= before + quoted(s@));
    }
}

fn append_bool(out: &mut String, b: bool)
    ensures
        final(out)@ == old(out)@ + bool_seq(b),
{
    if b {
        out.append("true");
    } else {
        out.append("false");
    }
}

fn append_quoted_token(out: &mut String, t: &str)
    ensures
        final(out)@ == old(out)@ + quoted_token(t@),
{
    let ghost before = out@;
    push_char(out, '"');
    out.append(t);
    push_char(out, '"');
    proof {
        assert(out@ =~= before + quoted_token(t@));
    }
}

fn append_exercise_type(out: &mut String, t: &ExerciseType)
    ensures
        final(out)@ == old(out)@ + quoted_token(exercise_type_token(*t)),
{
    match t {
        ExerciseType::Compound => append_quoted_token(out, "compound"),
        ExerciseType::Isolation => append_quoted_token(out, "isolation"),
    }
}

fn append_resistance(out: &mut String, p: &ResistanceProfile)
    ensures
        final(out)@ == old(out)@ + quoted_token(resistance_token(*p)),
{
    match p {
        ResistanceProfile::Ascending => append_quoted_token(out, "ascending"),
        ResistanceProfile::Descending => append_quoted_token(out, "descending"),
        ResistanceProfile::Bell => append_quoted_token(out, "bell"),
        ResistanceProfile::Constant => append_quoted_token(out, "constant"),
    }
}

fn append_plane(out: &mut String, p: &PlaneOfMotion)
    ensures
        final(out)@ == old(out)@ + quoted_token(plane_token(*p)),
{
    match p {
        PlaneOfMotion::Sagittal => append_quoted_token(out, "sagittal"),
        PlaneOfMotion::Frontal => append_quoted_token(out, "frontal"),
        PlaneOfMotion::Transverse => append_quoted_token(out, "transverse"),
    }
}

fn append_division(out: &mut String, d: &MuscleDivision)
    ensures
        final(out)@ == old(out)@ + ser_division(d@),
{
    let ghost before = out@;
    out.append("\n      {\n        \"name\": ");
    append_quoted(out, d.name.as_str());
    out.append(",\n        \"active\": ");
    append_bool(out, d.active);
    out.append("\n      }");
    proof {
        assert(out@ =~= before + ser_division(d@));
    }
}

fn append_division_items(out: &mut String, ds: &Vec<MuscleDivision>, from: usize)
    requires
        from < ds@.len(),
    ensures
        final(out)@ == old(out)@ + ser_division_items(
            ds@.map_values(|d: MuscleDivision| d@).skip(from as int),
        ),
    decreases ds@.len() - from,
{
    let ghost views = ds@.map_values(|d: MuscleDivision| d@);
    let ghost before = out@;
    append_division(out, &ds[from]);
    proof {
        assert(views.skip(from as int)[0] == views[from as int]);
    }
    if from < ds.len() - 1 {
        out.append(",");
        append_division_items(out, ds, from + 1);
        proof {
            assert(views.skip(from as int).drop_first() =~= views.skip(from + 1));
            assert(out@ =~= before + ser_division_items(views.skip(from as int)));
        }
    } else {
        proof {
            assert(views.skip(from as int).len() == 1);
        }
    }
}

fn append_divisions(out: &mut String, ds: &Vec<MuscleDivision>)
    ensures
        final(out)@ == old(out)@ + ser_divisions(ds@.map_values(|d: MuscleDivision| d@)),
{
    let ghost before = out@;
    if ds.len() == 0 {
        out.append("[]");
    } else {
        out.append("[");
        append_division_items(out, ds, 0);
        out.append("\n    ]");
        proof {
            let views = ds@.map_values(|d: MuscleDivision| d@);
            assert(views.skip(0) =~= views);
            assert(out@ =~= before + ser_divisions(views));
        }
    }
}

fn append_joint(out: &mut String, j: &Joint)
    requires
        j.wf(),
    ensures
        final(out)@ == old(out)@ + ser_joint(j@),
{
    let ghost before = out@;
    out.append("\n      {\n        \"name\": ");
    append_quoted(out, j.name.as_str());
    out.append(",\n        \"dynamic\": ");
    append_bool(out, j.dynamic);
    if j.dynamic {
        match &j.direction {
            Some(d) => {
                out.append(",\n        \"direction\": ");
                append_quoted(out, d.as_str());
            },
            None => {},
        }
        out.append(",\n        \"intitial_angle\": ");
        let ai = match j.angle_initial {
            Some(a) => a,
            None => 0,
        };
        append_u32(out, ai);
        out.append(",\n        \"final_angle\": ");
        let af = match j.angle_final {
            Some(a) => a,
            None => 0,
        };
        append_u32(out, af);
    } else {
        out.append(",\n        \"angle\": ");
        let a = match j.angle {
            Some(a) => a,
            None => 0,
        };
        append_u32(out, a);
    }
    out.append("\n      }");
    proof {
        assert(out@ =~= before + ser_joint(j@));
    }
}

fn append_joint_items(out: &mut String, js: &Vec<Joint>, from: usize)
    requires
        from < js@.len(),
        forall|i: int| 0 <= i < js@.len() ==> (#[trigger] js@[i]).wf(),
    ensures
        final(out)@ == old(out)@ + ser_joint_items(
            js@.map_values(|j: Joint| j@).skip(from as int),
        ),
    decreases js@.len() - from,
{
    let ghost views = js@.map_values(|j: Joint| j@);
    let ghost before = out@;
    append_joint(out, &js[from]);
    proof {
        assert(views.skip(from as int)[0] == views[from as int]);
    }
    if from < js.len() - 1 {
        out.append(",");
        append_joint_items(out, js, from + 1);
        proof {
            assert(views.skip(from as int).drop_first() =~= views.skip(from + 1));
            assert(out@ =~= before + ser_joint_items(views.skip(from as int)));
        }
    } else {
        proof {
            assert(views.skip(from as int).len() == 1);
        }
    }
}

fn append_joints(out: &mut String, js: &Vec<Joint>)
    requires
        forall|i: int| 0 <= i < js@.len() ==> (#[trigger] js@[i]).wf(),
    ensures
        final(out)@ == old(out)@ + ser_joints(js@.map_values(|j: Joint| j@)),
{
    let ghost before = out@;
    if js.len() == 0 {
        out.append("[]");
    } else {
        out.append("[");
        append_joint_items(out, js, 0);
        out.append("\n    ]");
        proof {
            let views = js@.map_values(|j: Joint| j@);
            assert(views.skip(0) =~= views);
            assert(out@ =~= before + ser_joints(views));
        }
    }
}

/// Writes the canonical JSON document for a well-formed exercise record.
/// The typed model can always be represented, so serialization cannot fail.
pub fn serialize(e: &Exercise) -> (r: String)
    requires
        e.wf(),
    ensures
        r@ == spec_serialize(e@),
{
    let mut out = String::new();
    out.append("{\n  \"name\": ");
    append_quoted(&mut out, e.name.as_str());
    out.append(",\n  \"id\": ");
    append_u32(&mut out, e.id);
    out.append(",\n  \"type\": ");
    append_exercise_type(&mut out, &e.exercise_type);
    out.append(",\n  \"description\": ");
    append_quoted(&mut out, e.description.as_str());
    out.append(",\n  \"target_muscles\": ");
    let ghost before_tm = out@;
    out.append("{\n    \"muscle_name\": ");
    append_quoted(&mut out, e.target_muscles.muscle_name.as_str());
    out.append(",\n    \"muscle_division\": ");
    append_divisions(&mut out, &e.target_muscles.muscle_divisions);
    out.append("\n  }");
    proof {
        assert(out@ =~= before_tm + ser_target_muscles(e.target_muscles@));
    }
    out.append(",\n  \"joints_involved\": ");
    let ghost before_ji = out@;
    out.append("{\n    \"joint\": ");
    proof {
        assert forall|i: int|
            0 <= i < e.joints_involved.joints@.len() implies (
        #[trigger] e.joints_involved.joints@[i]).wf() by {
            assert(e@.joints_involved.joints[i] == e.joints_involved.joints@[i]@);
            assert(e@.joints_involved.joints[i].wf());
        }
    }
    append_joints(&mut out, &e.joints_involved.joints);
    out.append("\n  }");
    proof {
        assert(out@ =~= before_ji + ser_joints_involved(e.joints_involved@));
    }
    out.append(",\n  \"resistance_profile\": ");
    append_resistance(&mut out, &e.resistance_profile);
    out.append(",\n  \"plane_of_motion\": ");
    append_plane(&mut out, &e.plane_of_motion);
    out.append(",\n  \"tips\": ");
    append_quoted(&mut out, e.tips.as_str());
    out.append(",\n  \"technique_video\": ");
    append_quoted(&mut out, e.technique_video.as_str());
    out.append("\n}");
    proof {
        assert(out@ =~= spec_serialize(e@));
    }
    out
}

} // verus!
