//! The parser reads back what the serializer wrote: lemmas that walk the
//! canonical document piece by piece. The public round-trip statement built
//! on them stands in [`crate::laws`].

use crate::de::digit_val;
use crate::model::ExerciseType;
use crate::model::PlaneOfMotion;
use crate::model::ResistanceProfile;
use crate::de::parse_exercise_type;
use crate::de::parse_field_bool;
use crate::de::parse_field_str;
use crate::de::parse_field_u32;
use crate::de::parse_plane;
use crate::de::parse_resistance;
use crate::de::hex_val;
use crate::de::parse_bool;
use crate::de::parse_digits;
use crate::de::parse_lit;
use crate::de::parse_quoted;
use crate::de::parse_str_body;
use crate::de::parse_u32;
use crate::de::skip_ws;
use crate::de::tok;
use crate::de::tok_key_colon;
use crate::de::ws_char;
use crate::de::parse_division_items;
use crate::de::spec_deserialize;
use crate::de::spec_parse_exercise;
use crate::de::spec_parse_exercise_tail;
use crate::de::parse_joint_angles_rest;
use crate::de::parse_joint_dynamic_rest;
use crate::de::parse_joint_items;
use crate::de::parse_joint_obj;
use crate::de::parse_joint_static_rest;
use crate::de::parse_joints;
use crate::de::parse_joints_involved;
use crate::de::parse_division_obj;
use crate::de::parse_divisions;
use crate::de::parse_target_muscles;
use crate::model::ExerciseView;
use crate::model::JointView;
use crate::model::JointsInvolvedView;
use crate::model::MuscleDivisionView;
use crate::model::TargetMusclesView;
use crate::ser::bool_seq;
use crate::ser::dec_digits;
use crate::ser::digit_char;
use crate::ser::esc_char;
use crate::ser::hex_char;
use crate::ser::json_escape;
use crate::ser::quoted;
use crate::ser::ser_direction;
use crate::ser::ser_division;
use crate::ser::ser_joint;
use crate::ser::ser_joint_items;
use crate::ser::ser_joints;
use crate::ser::ser_joints_involved;
use crate::ser::spec_serialize;
use crate::ser::exercise_type_token;
use crate::ser::resistance_token;
use crate::ser::plane_token;
use crate::ser::quoted_token;
use crate::ser::ser_division_items;
use crate::ser::ser_divisions;
use crate::ser::ser_target_muscles;
use vstd::prelude::*;

verus! {

// ---------------------------------------------------------------------------
// Whitespace and literals
// ---------------------------------------------------------------------------

pub proof fn lemma_skip_ws_exact(s: Seq<char>, i: int, j: int)
    requires
        0 <= i <= j <= s.len(),
        forall|k: int| i <= k < j ==> ws_char(#[trigger] s[k]),
        j == s.len() || !ws_char(s[j]),
    ensures
        skip_ws(s, i) == j,
    decreases j - i,
{
    if i < j {
        lemma_skip_ws_exact(s, i + 1, j);
    }
}

/// After `pre`, the text holds whitespace `w` and then `tail`, whose first
/// character is not whitespace: skipping whitespace from the end of `pre`
/// lands exactly at `tail`.
pub proof fn lemma_skip_of(s: Seq<char>, pre: Seq<char>, w: Seq<char>, tail: Seq<char>)
    requires
        s == pre + w + tail,
        forall|k: int| 0 <= k < w.len() ==> ws_char(#[trigger] w[k]),
        tail.len() > 0,
        !ws_char(tail[0]),
    ensures
        skip_ws(s, pre.len() as int) == pre.len() + w.len(),
{
    assert forall|k: int| pre.len() <= k < pre.len() + w.len() implies ws_char(#[trigger] s[k]) by {
        assert(s[k] == w[k - pre.len()]);
    }
    assert(s[(pre.len() + w.len()) as int] == tail[0]);
    lemma_skip_ws_exact(s, pre.len() as int, (pre.len() + w.len()) as int);
}

/// After `pre`, the text holds whitespace `w`, the token `t`, and then
/// `tail`: reading the token from the end of `pre` succeeds and consumes
/// exactly `w` and `t`.
pub proof fn lemma_tok_of(s: Seq<char>, pre: Seq<char>, w: Seq<char>, t: Seq<char>, tail: Seq<char>)
    requires
        s == pre + w + t + tail,
        forall|k: int| 0 <= k < w.len() ==> ws_char(#[trigger] w[k]),
        t.len() > 0,
        !ws_char(t[0]),
    ensures
        tok(s, pre.len() as int, t) == Some((pre.len() + w.len() + t.len()) as int),
{
    let p = pre.len() as int;
    let q = pre.len() + w.len();
    assert(s =~= (pre + w) + (t + tail));
    lemma_skip_of(s, pre + w, Seq::empty(), t + tail);
    assert((t + tail)[0] == t[0]);
    assert(skip_ws(s, p) == q) by {
        assert(s =~= pre + w + (t + tail));
        lemma_skip_of(s, pre, w, t + tail);
    }
    assert(s.subrange(q as int, (q + t.len()) as int) =~= t);
    assert(parse_lit(s, q as int, t) == Some((q + t.len()) as int));
}

// ---------------------------------------------------------------------------
// Strings
// ---------------------------------------------------------------------------

pub proof fn lemma_hex_of_hex_char(d: int)
    requires
        0 <= d < 16,
    ensures
        hex_val(hex_char(d)) == Some(d as nat),
{
}

/// Reading a string body over the escaped form of `v` (followed by the
/// closing quote) yields `v` back.
pub proof fn lemma_parse_str_body_of(s: Seq<char>, pre: Seq<char>, v: Seq<char>, post: Seq<char>)
    requires
        s == pre + json_escape(v) + seq!['"'] + post,
    ensures
        parse_str_body(s, pre.len() as int) == Some(
            (v, (pre.len() + json_escape(v).len() + 1) as int),
        ),
    decreases v.len(),
{
    let i = pre.len() as int;
    if v.len() == 0 {
        assert(s[i] == '"');
    } else {
        let c = v[0];
        let rest = v.drop_first();
        assert(json_escape(v) == esc_char(c) + json_escape(rest));
        let pre2 = pre + esc_char(c);
        assert(s =~= pre2 + json_escape(rest) + seq!['"'] + post);
        lemma_parse_str_body_of(s, pre2, rest, post);
        let e2 = (pre2.len() + json_escape(rest).len() + 1) as int;
        assert(parse_str_body(s, pre2.len() as int) == Some((rest, e2)));
        if c == '"' {
            assert(s[i] == '\\');
            assert(s[i + 1] == '"');
            assert(pre2.len() == i + 2);
            assert(parse_str_body(s, i) == Some((seq![c] + rest, e2)));
        } else if c == '\\' {
            assert(s[i] == '\\');
            assert(s[i + 1] == '\\');
            assert(pre2.len() == i + 2);
            assert(parse_str_body(s, i) == Some((seq![c] + rest, e2)));
        } else if (c as u32) < 32 {
            assert(s[i] == '\\');
            assert(s[i + 1] == 'u');
            assert(s[i + 2] == '0');
            assert(s[i + 3] == '0');
            assert(s[i + 4] == hex_char((c as u32 / 16) as int));
            assert(s[i + 5] == hex_char((c as u32 % 16) as int));
            lemma_hex_of_hex_char((c as u32 / 16) as int);
            lemma_hex_of_hex_char((c as u32 % 16) as int);
            let code = hex_val(s[i + 4])->0 * 16 + hex_val(s[i + 5])->0;
            assert(code == c as u32);
            assert((code as u8) as char == c) by {
                vstd::utf8::char_u32_cast(c, c as u32);
            }
            assert(pre2.len() == i + 6);
            assert(parse_str_body(s, i) == Some((seq![c] + rest, e2)));
        } else {
            assert(s[i] == c);
            assert(pre2.len() == i + 1);
            assert(parse_str_body(s, i) == Some((seq![c] + rest, e2)));
        }
        assert(seq![c] + rest =~= v);
    }
}

/// Reading a complete JSON string over the quoted form of `v` yields `v`.
pub proof fn lemma_parse_quoted_of(s: Seq<char>, pre: Seq<char>, v: Seq<char>, post: Seq<char>)
    requires
        s == pre + quoted(v) + post,
    ensures
        parse_quoted(s, pre.len() as int) == Some((v, (pre.len() + quoted(v).len()) as int)),
{
    let i = pre.len() as int;
    assert(s[i] == '"');
    let pre2 = pre + seq!['"'];
    assert(s =~= pre2 + json_escape(v) + seq!['"'] + post);
    lemma_parse_str_body_of(s, pre2, v, post);
}

// ---------------------------------------------------------------------------
// Numbers
// ---------------------------------------------------------------------------

pub proof fn lemma_digit_of_digit_char(d: int)
    requires
        0 <= d < 10,
    ensures
        digit_val(digit_char(d)) == Some(d as nat),
{
}

pub proof fn lemma_dec_digits_shape(n: nat)
    ensures
        dec_digits(n).len() >= 1,
        forall|k: int|
            0 <= k < dec_digits(n).len() ==> digit_val(#[trigger] dec_digits(n)[k]) is Some,
        n >= 1 ==> dec_digits(n)[0] != '0',
        n < 10 ==> dec_digits(n) == seq![digit_char(n as int)],
    decreases n,
{
    if n < 10 {
        lemma_digit_of_digit_char(n as int);
    } else {
        lemma_dec_digits_shape(n / 10);
        lemma_digit_of_digit_char((n % 10) as int);
        let tail = dec_digits(n / 10);
        assert(dec_digits(n) == tail.push(digit_char((n % 10) as int)));
        assert(dec_digits(n)[0] == tail[0]);
        assert forall|k: int|
            0 <= k < dec_digits(n).len() implies digit_val(#[trigger] dec_digits(n)[k]) is Some by {
            if k < tail.len() {
                assert(dec_digits(n)[k] == tail[k]);
            } else {
                assert(dec_digits(n)[k] == digit_char((n % 10) as int));
            }
        }
    }
}

/// Folding a digit run onto an accumulator, as [`parse_digits`] does.
pub open spec fn fold_digits(acc: nat, ds: Seq<char>) -> nat
    decreases ds.len(),
{
    if ds.len() == 0 {
        acc
    } else {
        fold_digits(acc * 10 + digit_val(ds[0])->0, ds.drop_first())
    }
}

pub proof fn lemma_fold_digits_push(acc: nat, ds: Seq<char>, c: char)
    ensures
        fold_digits(acc, ds.push(c)) == fold_digits(acc, ds) * 10 + digit_val(c)->0,
    decreases ds.len(),
{
    if ds.len() == 0 {
        assert(ds.push(c)[0] == c);
        assert(ds.push(c).drop_first() =~= Seq::<char>::empty());
        assert(fold_digits(acc, ds.push(c)) == fold_digits(
            acc * 10 + digit_val(c)->0,
            Seq::<char>::empty(),
        ));
        assert(fold_digits(acc * 10 + digit_val(c)->0, Seq::<char>::empty()) == acc * 10
            + digit_val(c)->0);
        assert(fold_digits(acc, ds) == acc);
    } else {
        assert(ds.push(c)[0] == ds[0]);
        assert(ds.push(c).drop_first() =~= ds.drop_first().push(c));
        lemma_fold_digits_push(acc * 10 + digit_val(ds[0])->0, ds.drop_first(), c);
        assert(fold_digits(acc, ds.push(c)) == fold_digits(
            acc * 10 + digit_val(ds[0])->0,
            ds.drop_first().push(c),
        ));
        assert(fold_digits(acc, ds) == fold_digits(
            acc * 10 + digit_val(ds[0])->0,
            ds.drop_first(),
        ));
    }
}

pub proof fn lemma_fold_dec_digits(n: nat)
    ensures
        fold_digits(0, dec_digits(n)) == n,
    decreases n,
{
    if n < 10 {
        lemma_digit_of_digit_char(n as int);
        let ds = dec_digits(n);
        assert(ds == seq![digit_char(n as int)]);
        assert(ds.drop_first() =~= Seq::<char>::empty());
        assert(fold_digits(0, ds) == fold_digits(digit_val(ds[0])->0, ds.drop_first()));
    } else {
        lemma_fold_dec_digits(n / 10);
        lemma_digit_of_digit_char((n % 10) as int);
        lemma_fold_digits_push(0, dec_digits(n / 10), digit_char((n % 10) as int));
    }
}

/// Reading an unsigned integer over the decimal digits of `n` (followed by
/// text that does not begin with a digit) yields `n` back.
pub proof fn lemma_parse_u32_of(s: Seq<char>, pre: Seq<char>, n: u32, post: Seq<char>)
    requires
        s == pre + dec_digits(n as nat) + post,
        post.len() > 0,
        digit_val(post[0]) is None,
    ensures
        parse_u32(s, pre.len() as int) == Some((n, (pre.len() + dec_digits(n as nat).len()) as int)),
{
    let i = pre.len() as int;
    let ds = dec_digits(n as nat);
    lemma_dec_digits_shape(n as nat);
    assert(s[i] == ds[0]);
    lemma_parse_digits_of(s, pre, ds, post, 0);
    lemma_fold_dec_digits(n as nat);
    assert(parse_digits(s, i, 0) == (n as nat, i + ds.len()));
    if n >= 1 {
        assert(s[i] != '0');
    } else {
        assert(ds.len() == 1);
    }
}

/// [`parse_digits`] over a digit run laid out in the text folds exactly that
/// run.
pub proof fn lemma_parse_digits_of(
    s: Seq<char>,
    pre: Seq<char>,
    ds: Seq<char>,
    post: Seq<char>,
    acc: nat,
)
    requires
        s == pre + ds + post,
        forall|k: int| 0 <= k < ds.len() ==> digit_val(#[trigger] ds[k]) is Some,
        post.len() > 0,
        digit_val(post[0]) is None,
    ensures
        parse_digits(s, pre.len() as int, acc) == (fold_digits(acc, ds), (pre.len() + ds.len()) as int),
    decreases ds.len(),
{
    let i = pre.len() as int;
    if ds.len() == 0 {
        assert(s[i] == post[0]);
    } else {
        assert(s[i] == ds[0]);
        let pre2 = pre + seq![ds[0]];
        assert(s =~= pre2 + ds.drop_first() + post);
        assert(forall|k: int|
            0 <= k < ds.drop_first().len() ==> digit_val(#[trigger] ds.drop_first()[k]) is Some);
        lemma_parse_digits_of(s, pre2, ds.drop_first(), post, acc * 10 + digit_val(ds[0])->0);
    }
}

// ---------------------------------------------------------------------------
// Booleans
// ---------------------------------------------------------------------------

/// Reading a boolean over the wire text of `b` yields `b`.
pub proof fn lemma_parse_bool_of(s: Seq<char>, pre: Seq<char>, b: bool, post: Seq<char>)
    requires
        s == pre + bool_seq(b) + post,
    ensures
        parse_bool(s, pre.len() as int) == Some((b, (pre.len() + bool_seq(b).len()) as int)),
{
    let i = pre.len() as int;
    reveal_strlit("true");
    reveal_strlit("false");
    if b {
        assert(s.subrange(i, i + 4) =~= "true"@);
        assert(parse_lit(s, i, "true"@) == Some(i + 4));
    } else {
        assert(s[i] == 'f');
        if i + 4 <= s.len() && s.subrange(i, i + 4) == "true"@ {
            assert(s.subrange(i, i + 4)[0] == s[i]);
            assert(false);
        }
        assert(parse_lit(s, i, "true"@) is None);
        assert(s.subrange(i, i + 5) =~= "false"@);
        assert(parse_lit(s, i, "false"@) == Some(i + 5));
    }
}

// ---------------------------------------------------------------------------
// The whitespace runs the serializer writes
// ---------------------------------------------------------------------------

pub proof fn lemma_ws_literals()
    ensures
        forall|k: int| 0 <= k < "\n"@.len() ==> ws_char(#[trigger] "\n"@[k]),
        forall|k: int| 0 <= k < "\n  "@.len() ==> ws_char(#[trigger] "\n  "@[k]),
        forall|k: int| 0 <= k < "\n    "@.len() ==> ws_char(#[trigger] "\n    "@[k]),
        forall|k: int| 0 <= k < "\n      "@.len() ==> ws_char(#[trigger] "\n      "@[k]),
        forall|k: int| 0 <= k < "\n        "@.len() ==> ws_char(#[trigger] "\n        "@[k]),
        forall|k: int| 0 <= k < " "@.len() ==> ws_char(#[trigger] " "@[k]),
        "\n"@.len() == 1,
        "\n  "@.len() == 3,
        "\n    "@.len() == 5,
        "\n      "@.len() == 7,
        "\n        "@.len() == 9,
        " "@.len() == 1,
{
    reveal_strlit("\n");
    reveal_strlit("\n  ");
    reveal_strlit("\n    ");
    reveal_strlit("\n      ");
    reveal_strlit("\n        ");
    reveal_strlit(" ");
}

// ---------------------------------------------------------------------------
// One member each: key, colon, value
// ---------------------------------------------------------------------------

/// A key (with its quotes) after whitespace, then a colon: consumed exactly.
pub proof fn lemma_key_colon_of(
    s: Seq<char>,
    pre: Seq<char>,
    w: Seq<char>,
    qkey: Seq<char>,
    tail: Seq<char>,
)
    requires
        s == pre + w + qkey + ":"@ + tail,
        forall|k: int| 0 <= k < w.len() ==> ws_char(#[trigger] w[k]),
        qkey.len() > 0,
        qkey[0] == '"',
    ensures
        tok_key_colon(s, pre.len() as int, qkey) == Some(
            (pre.len() + w.len() + qkey.len() + 1) as int,
        ),
{
    reveal_strlit(":");
    assert(s =~= pre + w + qkey + (":"@ + tail));
    lemma_tok_of(s, pre, w, qkey, ":"@ + tail);
    let pre1 = pre + w + qkey;
    assert(s =~= pre1 + Seq::<char>::empty() + ":"@ + tail);
    assert(!ws_char(":"@[0]));
    lemma_tok_of(s, pre1, Seq::empty(), ":"@, tail);
}

/// A complete string member: whitespace, key, colon, one space, quoted value.
pub proof fn lemma_field_str_of(
    s: Seq<char>,
    pre: Seq<char>,
    w: Seq<char>,
    qkey: Seq<char>,
    v: Seq<char>,
    tail: Seq<char>,
)
    requires
        s == pre + w + qkey + ":"@ + " "@ + quoted(v) + tail,
        forall|k: int| 0 <= k < w.len() ==> ws_char(#[trigger] w[k]),
        qkey.len() > 0,
        qkey[0] == '"',
    ensures
        parse_field_str(s, pre.len() as int, qkey) == Some(
            (v, (pre.len() + w.len() + qkey.len() + 2 + quoted(v).len()) as int),
        ),
{
    reveal_strlit(":");
    reveal_strlit("\n");
    reveal_strlit("\n  ");
    reveal_strlit("\n    ");
    reveal_strlit("\n      ");
    reveal_strlit("\n        ");
    reveal_strlit(" ");
    lemma_ws_literals();
    assert(s =~= pre + w + qkey + ":"@ + (" "@ + quoted(v) + tail));
    lemma_key_colon_of(s, pre, w, qkey, " "@ + quoted(v) + tail);
    let pre2 = pre + w + qkey + ":"@;
    assert(pre2.len() == pre.len() + w.len() + qkey.len() + 1);
    assert(s =~= pre2 + " "@ + (quoted(v) + tail));
    assert((quoted(v) + tail)[0] == '"');
    lemma_skip_of(s, pre2, " "@, quoted(v) + tail);
    let pre3 = pre2 + " "@;
    assert(s =~= pre3 + quoted(v) + tail);
    lemma_parse_quoted_of(s, pre3, v, tail);
    assert(skip_ws(s, pre2.len() as int) == pre3.len());
}

/// A complete unsigned-integer member.
pub proof fn lemma_field_u32_of(
    s: Seq<char>,
    pre: Seq<char>,
    w: Seq<char>,
    qkey: Seq<char>,
    n: u32,
    tail: Seq<char>,
)
    requires
        s == pre + w + qkey + ":"@ + " "@ + dec_digits(n as nat) + tail,
        forall|k: int| 0 <= k < w.len() ==> ws_char(#[trigger] w[k]),
        qkey.len() > 0,
        qkey[0] == '"',
        tail.len() > 0,
        digit_val(tail[0]) is None,
    ensures
        parse_field_u32(s, pre.len() as int, qkey) == Some(
            (n, (pre.len() + w.len() + qkey.len() + 2 + dec_digits(n as nat).len()) as int),
        ),
{
    reveal_strlit(":");
    reveal_strlit("\n");
    reveal_strlit("\n  ");
    reveal_strlit("\n    ");
    reveal_strlit("\n      ");
    reveal_strlit("\n        ");
    reveal_strlit(" ");
    lemma_ws_literals();
    assert(s =~= pre + w + qkey + ":"@ + (" "@ + dec_digits(n as nat) + tail));
    lemma_key_colon_of(s, pre, w, qkey, " "@ + dec_digits(n as nat) + tail);
    let pre2 = pre + w + qkey + ":"@;
    assert(pre2.len() == pre.len() + w.len() + qkey.len() + 1);
    assert(s =~= pre2 + " "@ + (dec_digits(n as nat) + tail));
    lemma_dec_digits_shape(n as nat);
    assert((dec_digits(n as nat) + tail)[0] == dec_digits(n as nat)[0]);
    assert(!ws_char((dec_digits(n as nat) + tail)[0]));
    lemma_skip_of(s, pre2, " "@, dec_digits(n as nat) + tail);
    let pre3 = pre2 + " "@;
    assert(s =~= pre3 + dec_digits(n as nat) + tail);
    lemma_parse_u32_of(s, pre3, n, tail);
    assert(skip_ws(s, pre2.len() as int) == pre3.len());
}

/// A complete boolean member.
pub proof fn lemma_field_bool_of(
    s: Seq<char>,
    pre: Seq<char>,
    w: Seq<char>,
    qkey: Seq<char>,
    b: bool,
    tail: Seq<char>,
)
    requires
        s == pre + w + qkey + ":"@ + " "@ + bool_seq(b) + tail,
        forall|k: int| 0 <= k < w.len() ==> ws_char(#[trigger] w[k]),
        qkey.len() > 0,
        qkey[0] == '"',
    ensures
        parse_field_bool(s, pre.len() as int, qkey) == Some(
            (b, (pre.len() + w.len() + qkey.len() + 2 + bool_seq(b).len()) as int),
        ),
{
    reveal_strlit(":");
    reveal_strlit("true");
    reveal_strlit("false");
    reveal_strlit("\n");
    reveal_strlit("\n  ");
    reveal_strlit("\n    ");
    reveal_strlit("\n      ");
    reveal_strlit("\n        ");
    reveal_strlit(" ");
    lemma_ws_literals();
    assert(s =~= pre + w + qkey + ":"@ + (" "@ + bool_seq(b) + tail));
    lemma_key_colon_of(s, pre, w, qkey, " "@ + bool_seq(b) + tail);
    let pre2 = pre + w + qkey + ":"@;
    assert(pre2.len() == pre.len() + w.len() + qkey.len() + 1);
    assert(s =~= pre2 + " "@ + (bool_seq(b) + tail));
    assert((bool_seq(b) + tail)[0] == bool_seq(b)[0]);
    assert(!ws_char(bool_seq(b)[0]));
    lemma_skip_of(s, pre2, " "@, bool_seq(b) + tail);
    let pre3 = pre2 + " "@;
    assert(s =~= pre3 + bool_seq(b) + tail);
    lemma_parse_bool_of(s, pre3, b, tail);
    assert(skip_ws(s, pre2.len() as int) == pre3.len());
}

// ---------------------------------------------------------------------------
// Enum tokens
// ---------------------------------------------------------------------------

/// A literal fails to match wherever one of its characters differs from the
/// text.
pub proof fn lemma_lit_mismatch(s: Seq<char>, i: int, t: Seq<char>, k: int)
    requires
        0 <= k < t.len(),
        (0 <= i && i + t.len() <= s.len()) ==> s[i + k] != t[k],
    ensures
        parse_lit(s, i, t) is None,
{
    if 0 <= i && i + t.len() <= s.len() {
        if s.subrange(i, i + t.len() as int) == t {
            assert(s.subrange(i, i + t.len() as int)[k] == s[i + k]);
        }
    }
}

pub proof fn lemma_parse_exercise_type_of(
    s: Seq<char>,
    pre: Seq<char>,
    w: Seq<char>,
    t: ExerciseType,
    tail: Seq<char>,
)
    requires
        s == pre + w + crate::ser::quoted_token(crate::ser::exercise_type_token(t)) + tail,
        forall|k: int| 0 <= k < w.len() ==> ws_char(#[trigger] w[k]),
    ensures
        parse_exercise_type(s, pre.len() as int) == Some(
            (
                t,
                (pre.len() + w.len() + crate::ser::exercise_type_token(t).len() + 2) as int,
            ),
        ),
{
    reveal_strlit("compound");
    reveal_strlit("isolation");
    reveal_strlit("\"compound\"");
    reveal_strlit("\"isolation\"");
    let qt = crate::ser::quoted_token(crate::ser::exercise_type_token(t));
    let q = (pre.len() + w.len()) as int;
    assert((qt + tail)[0] == '"');
    assert(s =~= pre + w + (qt + tail));
    lemma_skip_of(s, pre, w, qt + tail);
    assert(s[q + 1] == qt[1]);
    match t {
        ExerciseType::Compound => {
            assert(qt =~= "\"compound\""@);
            assert(s =~= pre + w + "\"compound\""@ + tail);
            lemma_tok_of(s, pre, w, "\"compound\""@, tail);
        },
        ExerciseType::Isolation => {
            assert(qt =~= "\"isolation\""@);
            assert(s =~= pre + w + "\"isolation\""@ + tail);
            lemma_lit_mismatch(s, q, "\"compound\""@, 1);
            lemma_tok_of(s, pre, w, "\"isolation\""@, tail);
        },
    }
}

pub proof fn lemma_parse_resistance_of(
    s: Seq<char>,
    pre: Seq<char>,
    w: Seq<char>,
    t: ResistanceProfile,
    tail: Seq<char>,
)
    requires
        s == pre + w + crate::ser::quoted_token(crate::ser::resistance_token(t)) + tail,
        forall|k: int| 0 <= k < w.len() ==> ws_char(#[trigger] w[k]),
    ensures
        parse_resistance(s, pre.len() as int) == Some(
            (t, (pre.len() + w.len() + crate::ser::resistance_token(t).len() + 2) as int),
        ),
{
    reveal_strlit("ascending");
    reveal_strlit("descending");
    reveal_strlit("bell");
    reveal_strlit("constant");
    reveal_strlit("\"ascending\"");
    reveal_strlit("\"descending\"");
    reveal_strlit("\"bell\"");
    reveal_strlit("\"constant\"");
    let qt = crate::ser::quoted_token(crate::ser::resistance_token(t));
    let q = (pre.len() + w.len()) as int;
    assert((qt + tail)[0] == '"');
    assert(s =~= pre + w + (qt + tail));
    lemma_skip_of(s, pre, w, qt + tail);
    assert(s[q + 1] == qt[1]);
    match t {
        ResistanceProfile::Ascending => {
            assert(qt =~= "\"ascending\""@);
            assert(s =~= pre + w + "\"ascending\""@ + tail);
            lemma_tok_of(s, pre, w, "\"ascending\""@, tail);
        },
        ResistanceProfile::Descending => {
            assert(qt =~= "\"descending\""@);
            assert(s =~= pre + w + "\"descending\""@ + tail);
            lemma_lit_mismatch(s, q, "\"ascending\""@, 1);
            lemma_tok_of(s, pre, w, "\"descending\""@, tail);
        },
        ResistanceProfile::Bell => {
            assert(qt =~= "\"bell\""@);
            assert(s =~= pre + w + "\"bell\""@ + tail);
            lemma_lit_mismatch(s, q, "\"ascending\""@, 1);
            lemma_lit_mismatch(s, q, "\"descending\""@, 1);
            lemma_tok_of(s, pre, w, "\"bell\""@, tail);
        },
        ResistanceProfile::Constant => {
            assert(qt =~= "\"constant\""@);
            assert(s =~= pre + w + "\"constant\""@ + tail);
            lemma_lit_mismatch(s, q, "\"ascending\""@, 1);
            lemma_lit_mismatch(s, q, "\"descending\""@, 1);
            lemma_lit_mismatch(s, q, "\"bell\""@, 1);
            lemma_tok_of(s, pre, w, "\"constant\""@, tail);
        },
    }
}

pub proof fn lemma_parse_plane_of(
    s: Seq<char>,
    pre: Seq<char>,
    w: Seq<char>,
    t: PlaneOfMotion,
    tail: Seq<char>,
)
    requires
        s == pre + w + crate::ser::quoted_token(crate::ser::plane_token(t)) + tail,
        forall|k: int| 0 <= k < w.len() ==> ws_char(#[trigger] w[k]),
    ensures
        parse_plane(s, pre.len() as int) == Some(
            (t, (pre.len() + w.len() + crate::ser::plane_token(t).len() + 2) as int),
        ),
{
    reveal_strlit("sagittal");
    reveal_strlit("frontal");
    reveal_strlit("transverse");
    reveal_strlit("\"sagittal\"");
    reveal_strlit("\"frontal\"");
    reveal_strlit("\"transverse\"");
    let qt = crate::ser::quoted_token(crate::ser::plane_token(t));
    let q = (pre.len() + w.len()) as int;
    assert((qt + tail)[0] == '"');
    assert(s =~= pre + w + (qt + tail));
    lemma_skip_of(s, pre, w, qt + tail);
    assert(s[q + 1] == qt[1]);
    match t {
        PlaneOfMotion::Sagittal => {
            assert(qt =~= "\"sagittal\""@);
            assert(s =~= pre + w + "\"sagittal\""@ + tail);
            lemma_tok_of(s, pre, w, "\"sagittal\""@, tail);
        },
        PlaneOfMotion::Frontal => {
            assert(qt =~= "\"frontal\""@);
            assert(s =~= pre + w + "\"frontal\""@ + tail);
            lemma_lit_mismatch(s, q, "\"sagittal\""@, 1);
            lemma_tok_of(s, pre, w, "\"frontal\""@, tail);
        },
        PlaneOfMotion::Transverse => {
            assert(qt =~= "\"transverse\""@);
            assert(s =~= pre + w + "\"transverse\""@ + tail);
            lemma_lit_mismatch(s, q, "\"sagittal\""@, 1);
            lemma_lit_mismatch(s, q, "\"frontal\""@, 1);
            lemma_tok_of(s, pre, w, "\"transverse\""@, tail);
        },
    }
}

// ---------------------------------------------------------------------------
// Division objects and arrays
// ---------------------------------------------------------------------------

/// Reading one division element over its serialized form yields it back.
#[verifier::rlimit(100)]
#[verifier::spinoff_prover]
pub proof fn lemma_division_of(
    s: Seq<char>,
    pre: Seq<char>,
    d: MuscleDivisionView,
    tail: Seq<char>,
)
    requires
        s == pre + ser_division(d) + tail,
    ensures
        parse_division_obj(s, pre.len() as int) == Some(
            (d, (pre.len() + ser_division(d).len()) as int),
        ),
{
    reveal_strlit("\n      {\n        \"name\": ");
    reveal_strlit(",\n        \"active\": ");
    reveal_strlit("\n      }");
    reveal_strlit("\"name\"");
    reveal_strlit("\"active\"");
    reveal_strlit("{");
    reveal_strlit("}");
    reveal_strlit(",");
    reveal_strlit(":");
    reveal_strlit("\n");
    reveal_strlit("\n  ");
    reveal_strlit("\n    ");
    reveal_strlit("\n      ");
    reveal_strlit("\n        ");
    reveal_strlit(" ");
    lemma_ws_literals();
    assert("\n      {\n        \"name\": "@ =~= "\n      "@ + "{"@ + "\n        "@ + "\"name\""@
        + ":"@ + " "@);
    assert(",\n        \"active\": "@ =~= ","@ + "\n        "@ + "\"active\""@ + ":"@ + " "@);
    assert("\n      }"@ =~= "\n      "@ + "}"@);
    let t1 = "\n        "@ + "\"name\""@ + ":"@ + " "@ + quoted(d.name) + ",\n        \"active\": "@
        + bool_seq(d.active) + "\n      }"@ + tail;
    assert(s =~= pre + "\n      "@ + "{"@ + t1);
    lemma_tok_of(s, pre, "\n      "@, "{"@, t1);
    let pre1 = pre + "\n      "@ + "{"@;
    let t2 = ","@ + ("\n        "@ + "\"active\""@ + ":"@ + " "@ + bool_seq(d.active) + ("\n      "@
        + "}"@ + tail));
    assert(s =~= pre1 + "\n        "@ + "\"name\""@ + ":"@ + " "@ + quoted(d.name) + t2);
    lemma_field_str_of(s, pre1, "\n        "@, "\"name\""@, d.name, t2);
    let pre2 = pre1 + "\n        "@ + "\"name\""@ + ":"@ + " "@ + quoted(d.name);
    let t3 = "\n        "@ + "\"active\""@ + ":"@ + " "@ + bool_seq(d.active) + ("\n      "@ + "}"@
        + tail);
    assert(s =~= pre2 + Seq::<char>::empty() + ","@ + t3);
    assert(!ws_char(","@[0]));
    lemma_tok_of(s, pre2, Seq::empty(), ","@, t3);
    let pre3 = pre2 + ","@;
    let t4 = "\n      "@ + "}"@ + tail;
    assert(s =~= pre3 + "\n        "@ + "\"active\""@ + ":"@ + " "@ + bool_seq(d.active) + t4);
    lemma_field_bool_of(s, pre3, "\n        "@, "\"active\""@, d.active, t4);
    let pre4 = pre3 + "\n        "@ + "\"active\""@ + ":"@ + " "@ + bool_seq(d.active);
    assert(s =~= pre4 + "\n      "@ + "}"@ + tail);
    assert(!ws_char("}"@[0]));
    lemma_tok_of(s, pre4, "\n      "@, "}"@, tail);
    assert(MuscleDivisionView { name: d.name, active: d.active } == d);
}

/// Reading the elements of a non-empty division array (and its closing
/// bracket) yields them back in order.
#[verifier::rlimit(60)]
#[verifier::spinoff_prover]
pub proof fn lemma_division_items_of(
    s: Seq<char>,
    pre: Seq<char>,
    ds: Seq<MuscleDivisionView>,
    tail: Seq<char>,
)
    requires
        ds.len() >= 1,
        s == pre + ser_division_items(ds) + "\n    ]"@ + tail,
    ensures
        parse_division_items(s, pre.len() as int) == Some(
            (ds, (pre.len() + ser_division_items(ds).len() + 6) as int),
        ),
    decreases ds.len(),
{
    reveal_strlit("\n      {\n        \"name\": ");
    reveal_strlit("\n    ]");
    reveal_strlit("]");
    reveal_strlit(",");
    reveal_strlit("\n");
    reveal_strlit("\n  ");
    reveal_strlit("\n    ");
    reveal_strlit("\n      ");
    reveal_strlit("\n        ");
    reveal_strlit(" ");
    lemma_ws_literals();
    assert("\n    ]"@ =~= "\n    "@ + "]"@);
    if ds.len() == 1 {
        assert(ser_division_items(ds) == ser_division(ds[0]));
        assert(s =~= pre + ser_division(ds[0]) + ("\n    "@ + "]"@ + tail));
        lemma_division_of(s, pre, ds[0], "\n    "@ + "]"@ + tail);
        let j = (pre.len() + ser_division(ds[0]).len()) as int;
        let prej = pre + ser_division(ds[0]);
        assert(s =~= prej + "\n    "@ + ("]"@ + tail));
        assert(!ws_char(("]"@ + tail)[0]));
        lemma_skip_of(s, prej, "\n    "@, "]"@ + tail);
        let k = j + 5;
        assert(s[k] == ']');
        assert(seq![ds[0]] =~= ds);
    } else {
        assert(ser_division_items(ds) == ser_division(ds[0]) + ","@ + ser_division_items(
            ds.drop_first(),
        ));
        let rest_text = ","@ + ser_division_items(ds.drop_first()) + "\n    ]"@ + tail;
        assert(s =~= pre + ser_division(ds[0]) + rest_text);
        lemma_division_of(s, pre, ds[0], rest_text);
        let j = (pre.len() + ser_division(ds[0]).len()) as int;
        let prej = pre + ser_division(ds[0]);
        assert(s =~= prej + Seq::<char>::empty() + (","@ + (ser_division_items(ds.drop_first())
            + "\n    ]"@ + tail)));
        assert(!ws_char(","@[0]));
        lemma_skip_of(
            s,
            prej,
            Seq::empty(),
            ","@ + (ser_division_items(ds.drop_first()) + "\n    ]"@ + tail),
        );
        assert(s[j] == ',');
        let pre2 = prej + ","@;
        assert(s =~= pre2 + ser_division_items(ds.drop_first()) + "\n    ]"@ + tail);
        lemma_division_items_of(s, pre2, ds.drop_first(), tail);
        assert(seq![ds[0]] + ds.drop_first() =~= ds);
    }
}

/// Reading the division array (with any whitespace before it) yields the
/// divisions back.
#[verifier::rlimit(60)]
#[verifier::spinoff_prover]
pub proof fn lemma_divisions_of(
    s: Seq<char>,
    pre: Seq<char>,
    w: Seq<char>,
    ds: Seq<MuscleDivisionView>,
    tail: Seq<char>,
)
    requires
        s == pre + w + ser_divisions(ds) + tail,
        forall|k: int| 0 <= k < w.len() ==> ws_char(#[trigger] w[k]),
    ensures
        parse_divisions(s, pre.len() as int) == Some(
            (ds, (pre.len() + w.len() + ser_divisions(ds).len()) as int),
        ),
{
    reveal_strlit("\n      {\n        \"name\": ");
    reveal_strlit("{\n        \"name\": ");
    reveal_strlit("[]");
    reveal_strlit("[");
    reveal_strlit("]");
    reveal_strlit("\n    ]");
    reveal_strlit("\n");
    reveal_strlit("\n  ");
    reveal_strlit("\n    ");
    reveal_strlit("\n      ");
    reveal_strlit("\n        ");
    reveal_strlit(" ");
    lemma_ws_literals();
    let p = pre.len() as int;
    let jj = (pre.len() + w.len()) as int;
    if ds.len() == 0 {
        assert(ser_divisions(ds) == "[]"@);
        assert("[]"@ =~= "["@ + "]"@);
        assert(s =~= pre + w + ("["@ + "]"@ + tail));
        assert(!ws_char(("["@ + "]"@ + tail)[0]));
        lemma_skip_of(s, pre, w, "["@ + "]"@ + tail);
        assert(s[jj] == '[');
        let prej = pre + w + "["@;
        assert(s =~= prej + Seq::<char>::empty() + ("]"@ + tail));
        assert(!ws_char(("]"@ + tail)[0]));
        lemma_skip_of(s, prej, Seq::empty(), "]"@ + tail);
        assert(s[jj + 1] == ']');
    } else {
        assert(ser_divisions(ds) == "["@ + ser_division_items(ds) + "\n    ]"@);
        assert(s =~= pre + w + ("["@ + (ser_division_items(ds) + "\n    ]"@ + tail)));
        assert(!ws_char('['));
        lemma_skip_of(s, pre, w, "["@ + (ser_division_items(ds) + "\n    ]"@ + tail));
        assert(s[jj] == '[');
        let prej = pre + w + "["@;
        // The first element begins with a newline run and an opening brace,
        // so the character after the whitespace is not a closing bracket.
        assert("\n      {\n        \"name\": "@ =~= "\n      "@ + "{\n        \"name\": "@);
        assert(ser_division_items(ds)[0] == ser_division(ds[0])[0]);
        assert(ser_division(ds[0]) =~= "\n      "@ + ("{\n        \"name\": "@ + quoted(
            ds[0].name,
        ) + ",\n        \"active\": "@ + bool_seq(ds[0].active) + "\n      }"@));
        let after_ws = "{\n        \"name\": "@ + quoted(ds[0].name) + ",\n        \"active\": "@
            + bool_seq(ds[0].active) + "\n      }"@ + (if ds.len() == 1 {
            Seq::<char>::empty()
        } else {
            ","@ + ser_division_items(ds.drop_first())
        }) + "\n    ]"@ + tail;
        assert(s =~= prej + "\n      "@ + after_ws) by {
            if ds.len() == 1 {
                assert(ser_division_items(ds) == ser_division(ds[0]));
            } else {
                assert(ser_division_items(ds) == ser_division(ds[0]) + ","@ + ser_division_items(
                    ds.drop_first(),
                ));
            }
        }
        assert(after_ws[0] == '{');
        lemma_skip_of(s, prej, "\n      "@, after_ws);
        assert(s[jj + 8] == '{');
        assert(s =~= prej + ser_division_items(ds) + "\n    ]"@ + tail);
        lemma_division_items_of(s, prej, ds, tail);
    }
}

/// Reading the second half of the `target_muscles` object: the division
/// member and the closing brace.
#[verifier::rlimit(100)]
#[verifier::spinoff_prover]
pub proof fn lemma_target_muscles_tail_of(
    s: Seq<char>,
    pre: Seq<char>,
    ds: Seq<MuscleDivisionView>,
    tail: Seq<char>,
)
    requires
        s == pre + "\n    "@ + "\"muscle_division\""@ + ":"@ + " "@ + ser_divisions(ds) + "\n  "@
            + "}"@ + tail,
    ensures
        tok_key_colon(s, pre.len() as int, "\"muscle_division\""@) == Some(
            (pre.len() + 6 + "\"muscle_division\""@.len()) as int,
        ),
        parse_divisions(s, (pre.len() + 6 + "\"muscle_division\""@.len()) as int) == Some(
            (ds, (pre.len() + 7 + "\"muscle_division\""@.len() + ser_divisions(ds).len()) as int),
        ),
        tok(
            s,
            (pre.len() + 7 + "\"muscle_division\""@.len() + ser_divisions(ds).len()) as int,
            "}"@,
        ) == Some((s.len() - tail.len()) as int),
{
    reveal_strlit("\n");
    reveal_strlit("\n  ");
    reveal_strlit("\n    ");
    reveal_strlit(" ");
    reveal_strlit("\"muscle_division\"");
    reveal_strlit("}");
    reveal_strlit(":");
    lemma_ws_literals();
    let t4 = " "@ + ser_divisions(ds) + ("\n  "@ + "}"@ + tail);
    assert(s =~= pre + "\n    "@ + "\"muscle_division\""@ + ":"@ + t4);
    lemma_key_colon_of(s, pre, "\n    "@, "\"muscle_division\""@, t4);
    let pre4 = pre + "\n    "@ + "\"muscle_division\""@ + ":"@;
    assert(pre4.len() == pre.len() + 6 + "\"muscle_division\""@.len());
    assert(s =~= pre4 + " "@ + ser_divisions(ds) + ("\n  "@ + "}"@ + tail));
    lemma_divisions_of(s, pre4, " "@, ds, "\n  "@ + "}"@ + tail);
    let pre5 = pre4 + " "@ + ser_divisions(ds);
    assert(s =~= pre5 + "\n  "@ + "}"@ + tail);
    assert(!ws_char("}"@[0]));
    lemma_tok_of(s, pre5, "\n  "@, "}"@, tail);
}

/// Reading the `target_muscles` object (with any whitespace before it)
/// yields it back.
#[verifier::rlimit(100)]
#[verifier::spinoff_prover]
pub proof fn lemma_target_muscles_of(
    s: Seq<char>,
    pre: Seq<char>,
    w: Seq<char>,
    tm: TargetMusclesView,
    tail: Seq<char>,
)
    requires
        s == pre + w + ser_target_muscles(tm) + tail,
        forall|k: int| 0 <= k < w.len() ==> ws_char(#[trigger] w[k]),
    ensures
        parse_target_muscles(s, pre.len() as int) == Some(
            (tm, (pre.len() + w.len() + ser_target_muscles(tm).len()) as int),
        ),
{
    reveal_strlit("\n");
    reveal_strlit("\n  ");
    reveal_strlit("\n    ");
    reveal_strlit(" ");
    reveal_strlit("{\n    \"muscle_name\": ");
    reveal_strlit(",\n    \"muscle_division\": ");
    reveal_strlit("\n  }");
    reveal_strlit("\"muscle_name\"");
    reveal_strlit("\"muscle_division\"");
    reveal_strlit("{");
    reveal_strlit("}");
    reveal_strlit(",");
    reveal_strlit(":");
    lemma_ws_literals();
    assert("{\n    \"muscle_name\": "@ =~= "{"@ + "\n    "@ + "\"muscle_name\""@ + ":"@ + " "@);
    assert(",\n    \"muscle_division\": "@ =~= ","@ + ("\n    "@ + "\"muscle_division\""@ + ":"@
        + " "@));
    assert("\n  }"@ =~= "\n  "@ + "}"@);
    let t1 = "\n    "@ + "\"muscle_name\""@ + ":"@ + " "@ + quoted(tm.muscle_name)
        + ",\n    \"muscle_division\": "@ + ser_divisions(tm.muscle_divisions) + "\n  }"@ + tail;
    assert(s =~= pre + w + "{"@ + t1);
    assert(!ws_char("{"@[0]));
    lemma_tok_of(s, pre, w, "{"@, t1);
    let pre1 = pre + w + "{"@;
    let t2 = ","@ + ("\n    "@ + "\"muscle_division\""@ + ":"@ + " "@ + ser_divisions(
        tm.muscle_divisions,
    ) + ("\n  "@ + "}"@ + tail));
    assert(s =~= pre1 + "\n    "@ + "\"muscle_name\""@ + ":"@ + " "@ + quoted(tm.muscle_name) + t2);
    lemma_field_str_of(s, pre1, "\n    "@, "\"muscle_name\""@, tm.muscle_name, t2);
    let pre2 = pre1 + "\n    "@ + "\"muscle_name\""@ + ":"@ + " "@ + quoted(tm.muscle_name);
    let t3 = "\n    "@ + "\"muscle_division\""@ + ":"@ + " "@ + ser_divisions(tm.muscle_divisions)
        + ("\n  "@ + "}"@ + tail);
    assert(s =~= pre2 + Seq::<char>::empty() + ","@ + t3);
    assert(!ws_char(","@[0]));
    lemma_tok_of(s, pre2, Seq::empty(), ","@, t3);
    let pre3 = pre2 + ","@;
    assert(s =~= pre3 + "\n    "@ + "\"muscle_division\""@ + ":"@ + " "@ + ser_divisions(
        tm.muscle_divisions,
    ) + "\n  "@ + "}"@ + tail);
    lemma_target_muscles_tail_of(s, pre3, tm.muscle_divisions, tail);
    assert(TargetMusclesView {
        muscle_name: tm.muscle_name,
        muscle_divisions: tm.muscle_divisions,
    } == tm);
}

// ---------------------------------------------------------------------------
// Joint objects and arrays
// ---------------------------------------------------------------------------

/// Reading a `final_angle` member and a closing brace.
#[verifier::rlimit(100)]
#[verifier::spinoff_prover]
pub proof fn lemma_final_angle_of(s: Seq<char>, pre: Seq<char>, af: u32, tail: Seq<char>)
    requires
        af <= crate::model::MAX_ANGLE,
        s == pre + "\n        "@ + "\"final_angle\""@ + ":"@ + " "@ + dec_digits(af as nat)
            + "\n      "@ + "}"@ + tail,
    ensures
        parse_field_u32(s, pre.len() as int, "\"final_angle\""@) == Some(
            (
                af,
                (pre.len() + 11 + "\"final_angle\""@.len() + dec_digits(af as nat).len()) as int,
            ),
        ),
        tok(
            s,
            (pre.len() + 11 + "\"final_angle\""@.len() + dec_digits(af as nat).len()) as int,
            "}"@,
        ) == Some((s.len() - tail.len()) as int),
{
    reveal_strlit("\n");
    reveal_strlit("\n      ");
    reveal_strlit("\n        ");
    reveal_strlit(" ");
    reveal_strlit("\"final_angle\"");
    reveal_strlit("}");
    reveal_strlit(":");
    lemma_ws_literals();
    let t3 = "\n      "@ + "}"@ + tail;
    assert(s =~= pre + "\n        "@ + "\"final_angle\""@ + ":"@ + " "@ + dec_digits(af as nat)
        + t3);
    assert(t3[0] == '\n');
    assert(digit_val(t3[0]) is None);
    lemma_field_u32_of(s, pre, "\n        "@, "\"final_angle\""@, af, t3);
    let pre3 = pre + "\n        "@ + "\"final_angle\""@ + ":"@ + " "@ + dec_digits(af as nat);
    assert(pre3.len() == pre.len() + 11 + "\"final_angle\""@.len() + dec_digits(af as nat).len());
    assert(s =~= pre3 + "\n      "@ + "}"@ + tail);
    assert(!ws_char("}"@[0]));
    lemma_tok_of(s, pre3, "\n      "@, "}"@, tail);
}

/// Reading the two range angles and the closing brace of a dynamic joint.
#[verifier::rlimit(100)]
#[verifier::spinoff_prover]
pub proof fn lemma_joint_angles_rest_of(
    s: Seq<char>,
    pre: Seq<char>,
    name: Seq<char>,
    dir: Option<Seq<char>>,
    ai: u32,
    af: u32,
    tail: Seq<char>,
)
    requires
        ai <= crate::model::MAX_ANGLE,
        af <= crate::model::MAX_ANGLE,
        s == pre + "\n        "@ + "\"intitial_angle\""@ + ":"@ + " "@ + dec_digits(ai as nat)
            + ",\n        \"final_angle\": "@ + dec_digits(af as nat) + "\n      }"@ + tail,
    ensures
        parse_joint_angles_rest(s, pre.len() as int, name, dir) == Some(
            (
                JointView {
                    name,
                    dynamic: true,
                    angle: None,
                    direction: dir,
                    angle_initial: Some(ai),
                    angle_final: Some(af),
                },
                (s.len() - tail.len()) as int,
            ),
        ),
{
    reveal_strlit("\n");
    reveal_strlit("\n      ");
    reveal_strlit("\n        ");
    reveal_strlit(" ");
    reveal_strlit(",\n        \"final_angle\": ");
    reveal_strlit("\n      }");
    reveal_strlit("\"intitial_angle\"");
    reveal_strlit("\"final_angle\"");
    reveal_strlit("}");
    reveal_strlit(",");
    reveal_strlit(":");
    lemma_ws_literals();
    assert(",\n        \"final_angle\": "@ =~= ","@ + ("\n        "@ + "\"final_angle\""@ + ":"@
        + " "@));
    assert("\n      }"@ =~= "\n      "@ + "}"@);
    lemma_dec_digits_shape(ai as nat);
    let t1 = ","@ + ("\n        "@ + "\"final_angle\""@ + ":"@ + " "@ + dec_digits(af as nat)
        + ("\n      "@ + "}"@ + tail));
    assert(s =~= pre + "\n        "@ + "\"intitial_angle\""@ + ":"@ + " "@ + dec_digits(ai as nat)
        + t1);
    assert(t1[0] == ',');
    assert(digit_val(t1[0]) is None);
    lemma_field_u32_of(s, pre, "\n        "@, "\"intitial_angle\""@, ai, t1);
    let pre1 = pre + "\n        "@ + "\"intitial_angle\""@ + ":"@ + " "@ + dec_digits(ai as nat);
    let t2 = "\n        "@ + "\"final_angle\""@ + ":"@ + " "@ + dec_digits(af as nat) + ("\n      "@
        + "}"@ + tail);
    assert(s =~= pre1 + Seq::<char>::empty() + ","@ + t2);
    assert(!ws_char(","@[0]));
    lemma_tok_of(s, pre1, Seq::empty(), ","@, t2);
    let pre2 = pre1 + ","@;
    assert(s =~= pre2 + "\n        "@ + "\"final_angle\""@ + ":"@ + " "@ + dec_digits(af as nat)
        + "\n      "@ + "}"@ + tail);
    lemma_final_angle_of(s, pre2, af, tail);
}

/// Reading the members of a static joint after its mode flag.
#[verifier::rlimit(100)]
#[verifier::spinoff_prover]
pub proof fn lemma_joint_static_of(
    s: Seq<char>,
    pre: Seq<char>,
    name: Seq<char>,
    a: u32,
    tail: Seq<char>,
)
    requires
        a <= crate::model::MAX_ANGLE,
        s == pre + "\n        "@ + "\"angle\""@ + ":"@ + " "@ + dec_digits(a as nat) + "\n      "@
            + "}"@ + tail,
    ensures
        parse_joint_static_rest(s, pre.len() as int, name) == Some(
            (
                JointView {
                    name,
                    dynamic: false,
                    angle: Some(a),
                    direction: None,
                    angle_initial: None,
                    angle_final: None,
                },
                (s.len() - tail.len()) as int,
            ),
        ),
{
    reveal_strlit("\n");
    reveal_strlit("\n        ");
    reveal_strlit("\n      ");
    reveal_strlit(" ");
    reveal_strlit("\"angle\"");
    reveal_strlit("}");
    reveal_strlit(":");
    lemma_ws_literals();
    let t6 = "\n      "@ + "}"@ + tail;
    assert(s =~= pre + "\n        "@ + "\"angle\""@ + ":"@ + " "@ + dec_digits(a as nat) + t6);
    assert(t6[0] == '\n');
    assert(digit_val(t6[0]) is None);
    lemma_field_u32_of(s, pre, "\n        "@, "\"angle\""@, a, t6);
    let pre6 = pre + "\n        "@ + "\"angle\""@ + ":"@ + " "@ + dec_digits(a as nat);
    assert(s =~= pre6 + "\n      "@ + "}"@ + tail);
    assert(!ws_char("}"@[0]));
    lemma_tok_of(s, pre6, "\n      "@, "}"@, tail);
}

/// Reading the members of a dynamic joint after its mode flag: the optional
/// direction, then the two range angles.
#[verifier::rlimit(100)]
#[verifier::spinoff_prover]
pub proof fn lemma_joint_dynamic_of(
    s: Seq<char>,
    pre: Seq<char>,
    name: Seq<char>,
    dir: Option<Seq<char>>,
    ai: u32,
    af: u32,
    tail: Seq<char>,
)
    requires
        ai <= crate::model::MAX_ANGLE,
        af <= crate::model::MAX_ANGLE,
        s == pre + (match dir {
            Some(d) => "\n        "@ + "\"direction\""@ + ":"@ + " "@ + quoted(d) + ","@,
            None => Seq::<char>::empty(),
        }) + "\n        "@ + "\"intitial_angle\""@ + ":"@ + " "@ + dec_digits(ai as nat)
            + ",\n        \"final_angle\": "@ + dec_digits(af as nat) + "\n      }"@ + tail,
    ensures
        parse_joint_dynamic_rest(s, pre.len() as int, name) == Some(
            (
                JointView {
                    name,
                    dynamic: true,
                    angle: None,
                    direction: dir,
                    angle_initial: Some(ai),
                    angle_final: Some(af),
                },
                (s.len() - tail.len()) as int,
            ),
        ),
{
    reveal_strlit("\n");
    reveal_strlit("\n      ");
    reveal_strlit("\n        ");
    reveal_strlit(" ");
    reveal_strlit("\"direction\"");
    reveal_strlit("\"intitial_angle\"");
    reveal_strlit(",\n        \"final_angle\": ");
    reveal_strlit("\n      }");
    reveal_strlit("}");
    reveal_strlit(",");
    reveal_strlit(":");
    lemma_ws_literals();
    match dir {
        Some(d) => {
            let t6 = ","@ + ("\n        "@ + "\"intitial_angle\""@ + ":"@ + " "@ + dec_digits(
                ai as nat,
            ) + ",\n        \"final_angle\": "@ + dec_digits(af as nat) + ("\n      }"@ + tail));
            assert(s =~= pre + "\n        "@ + "\"direction\""@ + ":"@ + " "@ + quoted(d) + t6);
            lemma_field_str_of(s, pre, "\n        "@, "\"direction\""@, d, t6);
            let pre6 = pre + "\n        "@ + "\"direction\""@ + ":"@ + " "@ + quoted(d);
            let t7 = "\n        "@ + "\"intitial_angle\""@ + ":"@ + " "@ + dec_digits(ai as nat)
                + ",\n        \"final_angle\": "@ + dec_digits(af as nat) + ("\n      }"@ + tail);
            assert(s =~= pre6 + Seq::<char>::empty() + ","@ + t7);
            assert(!ws_char(","@[0]));
            lemma_tok_of(s, pre6, Seq::empty(), ","@, t7);
            let pre7 = pre6 + ","@;
            assert(s =~= pre7 + "\n        "@ + "\"intitial_angle\""@ + ":"@ + " "@ + dec_digits(
                ai as nat,
            ) + ",\n        \"final_angle\": "@ + dec_digits(af as nat) + "\n      }"@ + tail);
            lemma_joint_angles_rest_of(s, pre7, name, dir, ai, af, tail);
        },
        None => {
            let q = pre.len() as int;
            assert(s =~= pre + "\n        "@ + ("\"intitial_angle\""@ + ":"@ + " "@ + dec_digits(
                ai as nat,
            ) + ",\n        \"final_angle\": "@ + dec_digits(af as nat) + ("\n      }"@ + tail)));
            lemma_skip_of(
                s,
                pre,
                "\n        "@,
                "\"intitial_angle\""@ + ":"@ + " "@ + dec_digits(ai as nat)
                    + ",\n        \"final_angle\": "@ + dec_digits(af as nat) + ("\n      }"@
                    + tail),
            );
            assert(s[q + 9] == '"');
            assert(s[q + 10] == 'i');
            lemma_lit_mismatch(s, q + 9, "\"direction\""@, 1);
            assert(parse_field_str(s, q, "\"direction\""@) is None);
            assert(s =~= pre + "\n        "@ + "\"intitial_angle\""@ + ":"@ + " "@ + dec_digits(
                ai as nat,
            ) + ",\n        \"final_angle\": "@ + dec_digits(af as nat) + "\n      }"@ + tail);
            lemma_joint_angles_rest_of(s, pre, name, dir, ai, af, tail);
        },
    }
}

/// Reading the opening of a joint element: brace, name member, mode flag,
/// and the comma that follows it.
#[verifier::rlimit(100)]
#[verifier::spinoff_prover]
pub proof fn lemma_joint_prefix_of(
    s: Seq<char>,
    pre: Seq<char>,
    name: Seq<char>,
    dy: bool,
    rest: Seq<char>,
)
    requires
        s == pre + "\n      "@ + "{"@ + "\n        "@ + "\"name\""@ + ":"@ + " "@ + quoted(name)
            + ","@ + "\n        "@ + "\"dynamic\""@ + ":"@ + " "@ + bool_seq(dy) + ","@ + rest,
    ensures
        tok(s, pre.len() as int, "{"@) == Some((pre.len() + 8) as int),
        parse_field_str(s, (pre.len() + 8) as int, "\"name\""@) == Some(
            (name, (pre.len() + 25 + quoted(name).len()) as int),
        ),
        tok(s, (pre.len() + 25 + quoted(name).len()) as int, ","@) == Some(
            (pre.len() + 26 + quoted(name).len()) as int,
        ),
        parse_field_bool(s, (pre.len() + 26 + quoted(name).len()) as int, "\"dynamic\""@) == Some(
            (dy, (pre.len() + 46 + quoted(name).len() + bool_seq(dy).len()) as int),
        ),
        tok(
            s,
            (pre.len() + 46 + quoted(name).len() + bool_seq(dy).len()) as int,
            ","@,
        ) == Some((s.len() - rest.len()) as int),
        s.len() - rest.len() == pre.len() + 47 + quoted(name).len() + bool_seq(dy).len(),
{
    reveal_strlit("\n");
    reveal_strlit("\n      ");
    reveal_strlit("\n        ");
    reveal_strlit(" ");
    reveal_strlit("\"name\"");
    reveal_strlit("\"dynamic\"");
    reveal_strlit("{");
    reveal_strlit(",");
    reveal_strlit(":");
    reveal_strlit("true");
    reveal_strlit("false");
    lemma_ws_literals();
    let t1 = "\n        "@ + "\"name\""@ + ":"@ + " "@ + quoted(name) + (","@ + ("\n        "@
        + "\"dynamic\""@ + ":"@ + " "@ + bool_seq(dy) + (","@ + rest)));
    assert(s =~= pre + "\n      "@ + "{"@ + t1);
    lemma_tok_of(s, pre, "\n      "@, "{"@, t1);
    let pre1 = pre + "\n      "@ + "{"@;
    let t2 = ","@ + ("\n        "@ + "\"dynamic\""@ + ":"@ + " "@ + bool_seq(dy) + (","@ + rest));
    assert(s =~= pre1 + "\n        "@ + "\"name\""@ + ":"@ + " "@ + quoted(name) + t2);
    lemma_field_str_of(s, pre1, "\n        "@, "\"name\""@, name, t2);
    let pre2 = pre1 + "\n        "@ + "\"name\""@ + ":"@ + " "@ + quoted(name);
    let t3 = "\n        "@ + "\"dynamic\""@ + ":"@ + " "@ + bool_seq(dy) + (","@ + rest);
    assert(s =~= pre2 + Seq::<char>::empty() + ","@ + t3);
    assert(!ws_char(","@[0]));
    lemma_tok_of(s, pre2, Seq::empty(), ","@, t3);
    let pre3 = pre2 + ","@;
    let t4 = ","@ + rest;
    assert(s =~= pre3 + "\n        "@ + "\"dynamic\""@ + ":"@ + " "@ + bool_seq(dy) + t4);
    lemma_field_bool_of(s, pre3, "\n        "@, "\"dynamic\""@, dy, t4);
    let pre4 = pre3 + "\n        "@ + "\"dynamic\""@ + ":"@ + " "@ + bool_seq(dy);
    assert(s =~= pre4 + Seq::<char>::empty() + ","@ + rest);
    lemma_tok_of(s, pre4, Seq::empty(), ","@, rest);
}

/// Reading a serialized static joint element yields it back.
#[verifier::rlimit(100)]
#[verifier::spinoff_prover]
pub proof fn lemma_joint_of_static(s: Seq<char>, pre: Seq<char>, j: JointView, tail: Seq<char>)
    requires
        j.wf(),
        !j.dynamic,
        s == pre + ser_joint(j) + tail,
    ensures
        parse_joint_obj(s, pre.len() as int) == Some(
            (j, (pre.len() + ser_joint(j).len()) as int),
        ),
{
    reveal_strlit("\n");
    reveal_strlit("\n      ");
    reveal_strlit("\n        ");
    reveal_strlit(" ");
    reveal_strlit("\n      {\n        \"name\": ");
    reveal_strlit(",\n        \"dynamic\": ");
    reveal_strlit(",\n        \"angle\": ");
    reveal_strlit("\n      }");
    reveal_strlit("\"name\"");
    reveal_strlit("\"dynamic\"");
    reveal_strlit("\"angle\"");
    reveal_strlit("{");
    reveal_strlit("}");
    reveal_strlit(",");
    reveal_strlit(":");
    assert("\n      {\n        \"name\": "@ =~= "\n      "@ + "{"@ + "\n        "@ + "\"name\""@
        + ":"@ + " "@);
    assert(",\n        \"dynamic\": "@ =~= ","@ + "\n        "@ + "\"dynamic\""@ + ":"@ + " "@);
    assert(",\n        \"angle\": "@ =~= ","@ + ("\n        "@ + "\"angle\""@ + ":"@ + " "@));
    assert("\n      }"@ =~= "\n      "@ + "}"@);
    let body = ",\n        \"angle\": "@ + dec_digits(j.angle->0 as nat);
    assert(ser_joint(j) == "\n      {\n        \"name\": "@ + quoted(j.name)
        + ",\n        \"dynamic\": "@ + bool_seq(j.dynamic) + body + "\n      }"@);
    assert(body[0] == ',');
    let rest = body.drop_first() + "\n      }"@ + tail;
    assert(s =~= pre + "\n      "@ + "{"@ + "\n        "@ + "\"name\""@ + ":"@ + " "@ + quoted(
        j.name,
    ) + ","@ + "\n        "@ + "\"dynamic\""@ + ":"@ + " "@ + bool_seq(j.dynamic) + ","@ + rest) by {
        assert(seq![body[0]] + body.drop_first() =~= body);
    }
    lemma_joint_prefix_of(s, pre, j.name, j.dynamic, rest);
    let p5 = (s.len() - rest.len()) as int;
    let pre5 = pre + "\n      "@ + "{"@ + "\n        "@ + "\"name\""@ + ":"@ + " "@ + quoted(
        j.name,
    ) + ","@ + "\n        "@ + "\"dynamic\""@ + ":"@ + " "@ + bool_seq(j.dynamic) + ","@;
    assert(pre5.len() == p5);
    assert(body.drop_first() =~= "\n        "@ + "\"angle\""@ + ":"@ + " "@ + dec_digits(
        j.angle->0 as nat,
    ));
    assert(s =~= pre5 + "\n        "@ + "\"angle\""@ + ":"@ + " "@ + dec_digits(j.angle->0 as nat)
        + "\n      "@ + "}"@ + tail);
    lemma_joint_static_of(s, pre5, j.name, j.angle->0, tail);
    assert(JointView {
        name: j.name,
        dynamic: false,
        angle: Some(j.angle->0),
        direction: None,
        angle_initial: None,
        angle_final: None,
    } == j);
}

/// The text of a dynamic joint with a direction, regrouped around its
/// member boundaries.
#[verifier::rlimit(100)]
#[verifier::spinoff_prover]
pub proof fn lemma_dyn_some_shape(s: Seq<char>, pre: Seq<char>, j: JointView, tail: Seq<char>)
    requires
        j.wf(),
        j.dynamic,
        j.direction is Some,
        s == pre + ser_joint(j) + tail,
    ensures
        s == pre + "\n      "@ + "{"@ + "\n        "@ + "\"name\""@ + ":"@ + " "@ + quoted(j.name)
            + ","@ + "\n        "@ + "\"dynamic\""@ + ":"@ + " "@ + bool_seq(j.dynamic) + ","@ + (
        "\n        "@ + "\"direction\""@ + ":"@ + " "@ + quoted(j.direction->0) + ","@ + "\n        "@
            + "\"intitial_angle\""@ + ":"@ + " "@ + dec_digits(j.angle_initial->0 as nat)
            + ",\n        \"final_angle\": "@ + dec_digits(j.angle_final->0 as nat) + "\n      }"@
            + tail),
{
    reveal_strlit("\n");
    reveal_strlit("\n      ");
    reveal_strlit("\n        ");
    reveal_strlit(" ");
    reveal_strlit("\n      {\n        \"name\": ");
    reveal_strlit(",\n        \"dynamic\": ");
    reveal_strlit(",\n        \"direction\": ");
    reveal_strlit(",\n        \"intitial_angle\": ");
    reveal_strlit("\n      }");
    reveal_strlit("\"name\"");
    reveal_strlit("\"dynamic\"");
    reveal_strlit("\"direction\"");
    reveal_strlit("\"intitial_angle\"");
    reveal_strlit("{");
    reveal_strlit("}");
    reveal_strlit(",");
    reveal_strlit(":");
    assert("\n      {\n        \"name\": "@ =~= "\n      "@ + "{"@ + "\n        "@ + "\"name\""@
        + ":"@ + " "@);
    assert(",\n        \"dynamic\": "@ =~= ","@ + "\n        "@ + "\"dynamic\""@ + ":"@ + " "@);
    assert(",\n        \"direction\": "@ =~= ","@ + ("\n        "@ + "\"direction\""@ + ":"@
        + " "@));
    assert(",\n        \"intitial_angle\": "@ =~= ","@ + ("\n        "@ + "\"intitial_angle\""@
        + ":"@ + " "@));
    assert("\n      }"@ =~= "\n      "@ + "}"@);
    let body = ser_direction(j.direction) + ",\n        \"intitial_angle\": "@ + dec_digits(
        j.angle_initial->0 as nat,
    ) + ",\n        \"final_angle\": "@ + dec_digits(j.angle_final->0 as nat);
    assert(ser_joint(j) == "\n      {\n        \"name\": "@ + quoted(j.name)
        + ",\n        \"dynamic\": "@ + bool_seq(j.dynamic) + body + "\n      }"@);
    assert(ser_direction(j.direction) == ",\n        \"direction\": "@ + quoted(j.direction->0));
    assert(s =~= pre + "\n      "@ + "{"@ + "\n        "@ + "\"name\""@ + ":"@ + " "@ + quoted(
        j.name,
    ) + ","@ + "\n        "@ + "\"dynamic\""@ + ":"@ + " "@ + bool_seq(j.dynamic) + ","@ + (
    "\n        "@ + "\"direction\""@ + ":"@ + " "@ + quoted(j.direction->0) + ","@ + "\n        "@
        + "\"intitial_angle\""@ + ":"@ + " "@ + dec_digits(j.angle_initial->0 as nat)
        + ",\n        \"final_angle\": "@ + dec_digits(j.angle_final->0 as nat) + "\n      }"@
        + tail));
}

/// The same text, regrouped to start at the direction member.
#[verifier::rlimit(100)]
#[verifier::spinoff_prover]
pub proof fn lemma_dyn_some_shape2(s: Seq<char>, pre: Seq<char>, j: JointView, tail: Seq<char>)
    requires
        j.wf(),
        j.dynamic,
        j.direction is Some,
        s == pre + ser_joint(j) + tail,
    ensures
        s == (pre + "\n      "@ + "{"@ + "\n        "@ + "\"name\""@ + ":"@ + " "@ + quoted(j.name)
            + ","@ + "\n        "@ + "\"dynamic\""@ + ":"@ + " "@ + bool_seq(j.dynamic) + ","@) + (
        "\n        "@ + "\"direction\""@ + ":"@ + " "@ + quoted(j.direction->0) + ","@) + "\n        "@
            + "\"intitial_angle\""@ + ":"@ + " "@ + dec_digits(j.angle_initial->0 as nat)
            + ",\n        \"final_angle\": "@ + dec_digits(j.angle_final->0 as nat) + "\n      }"@
            + tail,
{
    reveal_strlit("\n");
    reveal_strlit("\n      ");
    reveal_strlit("\n        ");
    reveal_strlit(" ");
    reveal_strlit("\n      {\n        \"name\": ");
    reveal_strlit(",\n        \"dynamic\": ");
    reveal_strlit(",\n        \"direction\": ");
    reveal_strlit(",\n        \"intitial_angle\": ");
    reveal_strlit("\n      }");
    reveal_strlit("\"name\"");
    reveal_strlit("\"dynamic\"");
    reveal_strlit("\"direction\"");
    reveal_strlit("\"intitial_angle\"");
    reveal_strlit("{");
    reveal_strlit("}");
    reveal_strlit(",");
    reveal_strlit(":");
    assert("\n      {\n        \"name\": "@ =~= "\n      "@ + "{"@ + "\n        "@ + "\"name\""@
        + ":"@ + " "@);
    assert(",\n        \"dynamic\": "@ =~= ","@ + "\n        "@ + "\"dynamic\""@ + ":"@ + " "@);
    assert(",\n        \"direction\": "@ =~= ","@ + ("\n        "@ + "\"direction\""@ + ":"@
        + " "@));
    assert(",\n        \"intitial_angle\": "@ =~= ","@ + ("\n        "@ + "\"intitial_angle\""@
        + ":"@ + " "@));
    assert("\n      }"@ =~= "\n      "@ + "}"@);
    let body = ser_direction(j.direction) + ",\n        \"intitial_angle\": "@ + dec_digits(
        j.angle_initial->0 as nat,
    ) + ",\n        \"final_angle\": "@ + dec_digits(j.angle_final->0 as nat);
    assert(ser_joint(j) == "\n      {\n        \"name\": "@ + quoted(j.name)
        + ",\n        \"dynamic\": "@ + bool_seq(j.dynamic) + body + "\n      }"@);
    assert(ser_direction(j.direction) == ",\n        \"direction\": "@ + quoted(j.direction->0));
    assert(s =~= (pre + "\n      "@ + "{"@ + "\n        "@ + "\"name\""@ + ":"@ + " "@ + quoted(
        j.name,
    ) + ","@ + "\n        "@ + "\"dynamic\""@ + ":"@ + " "@ + bool_seq(j.dynamic) + ","@) + (
    "\n        "@ + "\"direction\""@ + ":"@ + " "@ + quoted(j.direction->0) + ","@) + "\n        "@
        + "\"intitial_angle\""@ + ":"@ + " "@ + dec_digits(j.angle_initial->0 as nat)
        + ",\n        \"final_angle\": "@ + dec_digits(j.angle_final->0 as nat) + "\n      }"@
        + tail);
}

/// Reading a serialized dynamic joint element that records a direction.
#[verifier::rlimit(100)]
#[verifier::spinoff_prover]
pub proof fn lemma_joint_of_dynamic_some(
    s: Seq<char>,
    pre: Seq<char>,
    j: JointView,
    tail: Seq<char>,
)
    requires
        j.wf(),
        j.dynamic,
        j.direction is Some,
        s == pre + ser_joint(j) + tail,
    ensures
        parse_joint_obj(s, pre.len() as int) == Some(
            (j, (pre.len() + ser_joint(j).len()) as int),
        ),
{
    reveal_strlit("\n");
    reveal_strlit("\n      ");
    reveal_strlit("\n        ");
    reveal_strlit(" ");
    reveal_strlit("\"name\"");
    reveal_strlit("\"dynamic\"");
    reveal_strlit("{");
    reveal_strlit(",");
    reveal_strlit(":");
    reveal_strlit("true");
    reveal_strlit("false");
    let rest = "\n        "@ + "\"direction\""@ + ":"@ + " "@ + quoted(j.direction->0) + ","@
        + "\n        "@ + "\"intitial_angle\""@ + ":"@ + " "@ + dec_digits(
        j.angle_initial->0 as nat,
    ) + ",\n        \"final_angle\": "@ + dec_digits(j.angle_final->0 as nat) + "\n      }"@ + tail;
    lemma_dyn_some_shape(s, pre, j, tail);
    lemma_joint_prefix_of(s, pre, j.name, j.dynamic, rest);
    let p5 = (s.len() - rest.len()) as int;
    let pre5 = pre + "\n      "@ + "{"@ + "\n        "@ + "\"name\""@ + ":"@ + " "@ + quoted(
        j.name,
    ) + ","@ + "\n        "@ + "\"dynamic\""@ + ":"@ + " "@ + bool_seq(j.dynamic) + ","@;
    assert(pre5.len() == pre.len() + 47 + quoted(j.name).len() + bool_seq(j.dynamic).len());
    assert(pre5.len() == p5);
    let dirpart = "\n        "@ + "\"direction\""@ + ":"@ + " "@ + quoted(j.direction->0) + ","@;
    lemma_dyn_some_shape2(s, pre, j, tail);
    assert(s == pre5 + dirpart + "\n        "@ + "\"intitial_angle\""@ + ":"@ + " "@ + dec_digits(
        j.angle_initial->0 as nat,
    ) + ",\n        \"final_angle\": "@ + dec_digits(j.angle_final->0 as nat) + "\n      }"@
        + tail);
    lemma_joint_dynamic_of(
        s,
        pre5,
        j.name,
        j.direction,
        j.angle_initial->0,
        j.angle_final->0,
        tail,
    );
    assert(JointView {
        name: j.name,
        dynamic: true,
        angle: None,
        direction: j.direction,
        angle_initial: Some(j.angle_initial->0),
        angle_final: Some(j.angle_final->0),
    } == j);
}

/// The text of a dynamic joint without a direction, regrouped around its
/// member boundaries.
#[verifier::rlimit(100)]
#[verifier::spinoff_prover]
pub proof fn lemma_dyn_none_shape(s: Seq<char>, pre: Seq<char>, j: JointView, tail: Seq<char>)
    requires
        j.wf(),
        j.dynamic,
        j.direction is None,
        s == pre + ser_joint(j) + tail,
    ensures
        s == pre + "\n      "@ + "{"@ + "\n        "@ + "\"name\""@ + ":"@ + " "@ + quoted(j.name)
            + ","@ + "\n        "@ + "\"dynamic\""@ + ":"@ + " "@ + bool_seq(j.dynamic) + ","@ + (
        "\n        "@ + "\"intitial_angle\""@ + ":"@ + " "@ + dec_digits(j.angle_initial->0 as nat)
            + ",\n        \"final_angle\": "@ + dec_digits(j.angle_final->0 as nat) + "\n      }"@
            + tail),
        s == (pre + "\n      "@ + "{"@ + "\n        "@ + "\"name\""@ + ":"@ + " "@ + quoted(j.name)
            + ","@ + "\n        "@ + "\"dynamic\""@ + ":"@ + " "@ + bool_seq(j.dynamic) + ","@)
            + "\n        "@ + "\"intitial_angle\""@ + ":"@ + " "@ + dec_digits(
            j.angle_initial->0 as nat,
        ) + ",\n        \"final_angle\": "@ + dec_digits(j.angle_final->0 as nat) + "\n      }"@
            + tail,
{
    reveal_strlit("\n");
    reveal_strlit("\n      ");
    reveal_strlit("\n        ");
    reveal_strlit(" ");
    reveal_strlit("\n      {\n        \"name\": ");
    reveal_strlit(",\n        \"dynamic\": ");
    reveal_strlit(",\n        \"direction\": ");
    reveal_strlit(",\n        \"intitial_angle\": ");
    reveal_strlit("\n      }");
    reveal_strlit("\"name\"");
    reveal_strlit("\"dynamic\"");
    reveal_strlit("\"direction\"");
    reveal_strlit("\"intitial_angle\"");
    reveal_strlit("{");
    reveal_strlit("}");
    reveal_strlit(",");
    reveal_strlit(":");
    assert("\n      {\n        \"name\": "@ =~= "\n      "@ + "{"@ + "\n        "@ + "\"name\""@
        + ":"@ + " "@);
    assert(",\n        \"dynamic\": "@ =~= ","@ + "\n        "@ + "\"dynamic\""@ + ":"@ + " "@);
    assert(",\n        \"direction\": "@ =~= ","@ + ("\n        "@ + "\"direction\""@ + ":"@
        + " "@));
    assert(",\n        \"intitial_angle\": "@ =~= ","@ + ("\n        "@ + "\"intitial_angle\""@
        + ":"@ + " "@));
    assert("\n      }"@ =~= "\n      "@ + "}"@);
    let body = ser_direction(j.direction) + ",\n        \"intitial_angle\": "@ + dec_digits(
        j.angle_initial->0 as nat,
    ) + ",\n        \"final_angle\": "@ + dec_digits(j.angle_final->0 as nat);
    assert(ser_joint(j) == "\n      {\n        \"name\": "@ + quoted(j.name)
        + ",\n        \"dynamic\": "@ + bool_seq(j.dynamic) + body + "\n      }"@);
    assert(ser_direction(j.direction) == Seq::<char>::empty());
    assert(s =~= pre + "\n      "@ + "{"@ + "\n        "@ + "\"name\""@ + ":"@ + " "@ + quoted(
        j.name,
    ) + ","@ + "\n        "@ + "\"dynamic\""@ + ":"@ + " "@ + bool_seq(j.dynamic) + ","@ + (
    "\n        "@ + "\"intitial_angle\""@ + ":"@ + " "@ + dec_digits(j.angle_initial->0 as nat)
        + ",\n        \"final_angle\": "@ + dec_digits(j.angle_final->0 as nat) + "\n      }"@
        + tail));
    assert(s =~= (pre + "\n      "@ + "{"@ + "\n        "@ + "\"name\""@ + ":"@ + " "@ + quoted(
        j.name,
    ) + ","@ + "\n        "@ + "\"dynamic\""@ + ":"@ + " "@ + bool_seq(j.dynamic) + ","@)
        + "\n        "@ + "\"intitial_angle\""@ + ":"@ + " "@ + dec_digits(
        j.angle_initial->0 as nat,
    ) + ",\n        \"final_angle\": "@ + dec_digits(j.angle_final->0 as nat) + "\n      }"@
        + tail);
}

/// Reading a serialized dynamic joint element without a direction.
#[verifier::rlimit(100)]
#[verifier::spinoff_prover]
pub proof fn lemma_joint_of_dynamic_none(
    s: Seq<char>,
    pre: Seq<char>,
    j: JointView,
    tail: Seq<char>,
)
    requires
        j.wf(),
        j.dynamic,
        j.direction is None,
        s == pre + ser_joint(j) + tail,
    ensures
        parse_joint_obj(s, pre.len() as int) == Some(
            (j, (pre.len() + ser_joint(j).len()) as int),
        ),
{
    reveal_strlit("\n");
    reveal_strlit("\n      ");
    reveal_strlit("\n        ");
    reveal_strlit(" ");
    reveal_strlit("\n      {\n        \"name\": ");
    reveal_strlit(",\n        \"dynamic\": ");
    reveal_strlit(",\n        \"direction\": ");
    reveal_strlit(",\n        \"intitial_angle\": ");
    reveal_strlit("\n      }");
    reveal_strlit("\"name\"");
    reveal_strlit("\"dynamic\"");
    reveal_strlit("\"direction\"");
    reveal_strlit("\"intitial_angle\"");
    reveal_strlit("{");
    reveal_strlit("}");
    reveal_strlit(",");
    reveal_strlit(":");
    let body = ser_direction(j.direction) + ",\n        \"intitial_angle\": "@ + dec_digits(
        j.angle_initial->0 as nat,
    ) + ",\n        \"final_angle\": "@ + dec_digits(j.angle_final->0 as nat);
    assert(ser_joint(j) == "\n      {\n        \"name\": "@ + quoted(j.name)
        + ",\n        \"dynamic\": "@ + bool_seq(j.dynamic) + body + "\n      }"@);
    let rest = "\n        "@ + "\"intitial_angle\""@ + ":"@ + " "@ + dec_digits(
        j.angle_initial->0 as nat,
    ) + ",\n        \"final_angle\": "@ + dec_digits(j.angle_final->0 as nat) + "\n      }"@ + tail;
    lemma_dyn_none_shape(s, pre, j, tail);
    lemma_joint_prefix_of(s, pre, j.name, j.dynamic, rest);
    let p5 = (s.len() - rest.len()) as int;
    let pre5 = pre + "\n      "@ + "{"@ + "\n        "@ + "\"name\""@ + ":"@ + " "@ + quoted(
        j.name,
    ) + ","@ + "\n        "@ + "\"dynamic\""@ + ":"@ + " "@ + bool_seq(j.dynamic) + ","@;
    assert(pre5.len() == p5);
    lemma_joint_dynamic_of(
        s,
        pre5,
        j.name,
        j.direction,
        j.angle_initial->0,
        j.angle_final->0,
        tail,
    );
    assert(JointView {
        name: j.name,
        dynamic: true,
        angle: None,
        direction: j.direction,
        angle_initial: Some(j.angle_initial->0),
        angle_final: Some(j.angle_final->0),
    } == j);
}

/// Reading one joint element over its serialized form yields it back.
pub proof fn lemma_joint_of(s: Seq<char>, pre: Seq<char>, j: JointView, tail: Seq<char>)
    requires
        j.wf(),
        s == pre + ser_joint(j) + tail,
    ensures
        parse_joint_obj(s, pre.len() as int) == Some(
            (j, (pre.len() + ser_joint(j).len()) as int),
        ),
{
    if j.dynamic {
        if j.direction is Some {
            lemma_joint_of_dynamic_some(s, pre, j, tail);
        } else {
            lemma_joint_of_dynamic_none(s, pre, j, tail);
        }
    } else {
        lemma_joint_of_static(s, pre, j, tail);
    }
}

// ---------------------------------------------------------------------------
// Joint arrays
// ---------------------------------------------------------------------------

/// The serialized form of a joint begins with a newline run and an opening
/// brace.
/// The serialized form of a joint begins with a newline run and an opening
/// brace.
#[verifier::rlimit(100)]
#[verifier::spinoff_prover]
pub proof fn lemma_ser_joint_head(j: JointView)
    ensures
        ser_joint(j).len() >= 8,
        forall|k: int| 0 <= k < 7 ==> ws_char(#[trigger] ser_joint(j)[k]),
        ser_joint(j)[7] == '{',
{
    reveal_strlit("\n      {\n        \"name\": ");
    let big = "\n      {\n        \"name\": "@;
    assert(big.len() == 25);
    assert forall|k: int| 0 <= k < 7 implies ws_char(#[trigger] ser_joint(j)[k]) by {
        assert(ser_joint(j)[k] == big[k]);
    }
    assert(ser_joint(j)[7] == big[7]);
}

/// The single-element case of a joint array's items.
#[verifier::rlimit(100)]
#[verifier::spinoff_prover]
pub proof fn lemma_joint_items_of_base(
    s: Seq<char>,
    pre: Seq<char>,
    js: Seq<JointView>,
    tail: Seq<char>,
)
    requires
        js.len() == 1,
        forall|k: int| 0 <= k < js.len() ==> (#[trigger] js[k]).wf(),
        s == pre + ser_joint_items(js) + "\n    ]"@ + tail,
    ensures
        parse_joint_items(s, pre.len() as int) == Some(
            (js, (pre.len() + ser_joint_items(js).len() + 6) as int),
        ),
{
    reveal_strlit("\n");
    reveal_strlit("\n    ");
    reveal_strlit("\n    ]");
    reveal_strlit("]");
    reveal_strlit(",");
    lemma_ws_literals();
    lemma_ser_joint_head(js[0]);
    assert("\n    ]"@ =~= "\n    "@ + "]"@);
    assert(ser_joint_items(js) == ser_joint(js[0]));
    assert(s =~= pre + ser_joint(js[0]) + ("\n    "@ + "]"@ + tail));
    lemma_joint_of(s, pre, js[0], "\n    "@ + "]"@ + tail);
    let j = (pre.len() + ser_joint(js[0]).len()) as int;
    let prej = pre + ser_joint(js[0]);
    assert(s =~= prej + "\n    "@ + ("]"@ + tail));
    assert(!ws_char(("]"@ + tail)[0]));
    lemma_skip_of(s, prej, "\n    "@, "]"@ + tail);
    let k = j + 5;
    assert(s[k] == ']');
    assert(seq![js[0]] =~= js);
}

/// Reading the elements of a non-empty joint array (and its closing bracket)
/// yields them back in order.
#[verifier::rlimit(100)]
#[verifier::spinoff_prover]
pub proof fn lemma_joint_items_of(s: Seq<char>, pre: Seq<char>, js: Seq<JointView>, tail: Seq<char>)
    requires
        js.len() >= 1,
        forall|k: int| 0 <= k < js.len() ==> (#[trigger] js[k]).wf(),
        s == pre + ser_joint_items(js) + "\n    ]"@ + tail,
    ensures
        parse_joint_items(s, pre.len() as int) == Some(
            (js, (pre.len() + ser_joint_items(js).len() + 6) as int),
        ),
    decreases js.len(),
{
    reveal_strlit("\n");
    reveal_strlit("\n    ");
    reveal_strlit("\n    ]");
    reveal_strlit("]");
    reveal_strlit(",");
    lemma_ws_literals();
    lemma_ser_joint_head(js[0]);
    if js.len() == 1 {
        lemma_joint_items_of_base(s, pre, js, tail);
    } else {
        assert(ser_joint_items(js) == ser_joint(js[0]) + ","@ + ser_joint_items(js.drop_first()));
        let rest_text = ","@ + ser_joint_items(js.drop_first()) + "\n    ]"@ + tail;
        assert(s =~= pre + ser_joint(js[0]) + rest_text);
        lemma_joint_of(s, pre, js[0], rest_text);
        let j = (pre.len() + ser_joint(js[0]).len()) as int;
        let prej = pre + ser_joint(js[0]);
        assert(s =~= prej + Seq::<char>::empty() + (","@ + (ser_joint_items(js.drop_first())
            + "\n    ]"@ + tail)));
        assert(!ws_char(","@[0]));
        lemma_skip_of(
            s,
            prej,
            Seq::empty(),
            ","@ + (ser_joint_items(js.drop_first()) + "\n    ]"@ + tail),
        );
        assert(s[j] == ',');
        let pre2 = prej + ","@;
        assert(s =~= pre2 + ser_joint_items(js.drop_first()) + "\n    ]"@ + tail);
        assert(forall|k: int|
            0 <= k < js.drop_first().len() ==> (#[trigger] js.drop_first()[k]).wf());
        lemma_joint_items_of(s, pre2, js.drop_first(), tail);
        assert(seq![js[0]] + js.drop_first() =~= js);
    }
}

/// Reading the joint array (with any whitespace before it) yields the
/// joints back.
#[verifier::rlimit(100)]
#[verifier::spinoff_prover]
pub proof fn lemma_joints_of(
    s: Seq<char>,
    pre: Seq<char>,
    w: Seq<char>,
    js: Seq<JointView>,
    tail: Seq<char>,
)
    requires
        forall|k: int| 0 <= k < js.len() ==> (#[trigger] js[k]).wf(),
        s == pre + w + ser_joints(js) + tail,
        forall|k: int| 0 <= k < w.len() ==> ws_char(#[trigger] w[k]),
    ensures
        parse_joints(s, pre.len() as int) == Some(
            (js, (pre.len() + w.len() + ser_joints(js).len()) as int),
        ),
{
    reveal_strlit("\n");
    reveal_strlit("\n    ");
    reveal_strlit("[]");
    reveal_strlit("[");
    reveal_strlit("]");
    reveal_strlit("\n    ]");
    lemma_ws_literals();
    let jj = (pre.len() + w.len()) as int;
    if js.len() == 0 {
        assert(ser_joints(js) == "[]"@);
        assert("[]"@ =~= "["@ + "]"@);
        assert(s =~= pre + w + ("["@ + "]"@ + tail));
        assert(!ws_char(("["@ + "]"@ + tail)[0]));
        lemma_skip_of(s, pre, w, "["@ + "]"@ + tail);
        assert(s[jj] == '[');
        let prej = pre + w + "["@;
        assert(s =~= prej + Seq::<char>::empty() + ("]"@ + tail));
        assert(!ws_char(("]"@ + tail)[0]));
        lemma_skip_of(s, prej, Seq::empty(), "]"@ + tail);
        assert(s[jj + 1] == ']');
    } else {
        lemma_ser_joint_head(js[0]);
        assert(ser_joints(js) == "["@ + ser_joint_items(js) + "\n    ]"@);
        assert(s =~= pre + w + ("["@ + (ser_joint_items(js) + "\n    ]"@ + tail)));
        assert(!ws_char('['));
        lemma_skip_of(s, pre, w, "["@ + (ser_joint_items(js) + "\n    ]"@ + tail));
        assert(s[jj] == '[');
        let prej = pre + w + "["@;
        assert(s =~= prej + ser_joint_items(js) + "\n    ]"@ + tail);
        // the characters after the bracket: the first element's leading
        // newline run, then its opening brace
        assert forall|x: int| jj + 1 <= x < jj + 8 implies ws_char(#[trigger] s[x]) by {
            assert(ser_joint_items(js)[x - (jj + 1)] == ser_joint(js[0])[x - (jj + 1)]);
            assert(s[x] == ser_joint_items(js)[x - (jj + 1)]);
        }
        assert(s[jj + 8] == ser_joint(js[0])[7]) by {
            assert(ser_joint_items(js)[7] == ser_joint(js[0])[7]);
            assert(s[jj + 8] == ser_joint_items(js)[7]);
        }
        lemma_skip_ws_exact(s, jj + 1, jj + 8);
        assert(s[jj + 8] == '{');
        lemma_joint_items_of(s, prej, js, tail);
    }
}

/// Reading the joint member and the closing brace of `joints_involved`.
#[verifier::rlimit(100)]
#[verifier::spinoff_prover]
pub proof fn lemma_joints_involved_tail_of(
    s: Seq<char>,
    pre: Seq<char>,
    js: Seq<JointView>,
    tail: Seq<char>,
)
    requires
        forall|k: int| 0 <= k < js.len() ==> (#[trigger] js[k]).wf(),
        s == pre + "\n    "@ + "\"joint\""@ + ":"@ + " "@ + ser_joints(js) + "\n  "@ + "}"@ + tail,
    ensures
        tok_key_colon(s, pre.len() as int, "\"joint\""@) == Some(
            (pre.len() + 6 + "\"joint\""@.len()) as int,
        ),
        parse_joints(s, (pre.len() + 6 + "\"joint\""@.len()) as int, ) == Some(
            (js, (pre.len() + 7 + "\"joint\""@.len() + ser_joints(js).len()) as int),
        ),
        tok(
            s,
            (pre.len() + 7 + "\"joint\""@.len() + ser_joints(js).len()) as int,
            "}"@,
        ) == Some((s.len() - tail.len()) as int),
{
    reveal_strlit("\n");
    reveal_strlit("\n  ");
    reveal_strlit("\n    ");
    reveal_strlit(" ");
    reveal_strlit("\"joint\"");
    reveal_strlit("}");
    reveal_strlit(":");
    lemma_ws_literals();
    let t2 = " "@ + ser_joints(js) + ("\n  "@ + "}"@ + tail);
    assert(s =~= pre + "\n    "@ + "\"joint\""@ + ":"@ + t2);
    lemma_key_colon_of(s, pre, "\n    "@, "\"joint\""@, t2);
    let pre2 = pre + "\n    "@ + "\"joint\""@ + ":"@;
    assert(pre2.len() == pre.len() + 6 + "\"joint\""@.len());
    assert(s =~= pre2 + " "@ + ser_joints(js) + ("\n  "@ + "}"@ + tail));
    lemma_joints_of(s, pre2, " "@, js, "\n  "@ + "}"@ + tail);
    let pre3 = pre2 + " "@ + ser_joints(js);
    assert(s =~= pre3 + "\n  "@ + "}"@ + tail);
    assert(!ws_char("}"@[0]));
    lemma_tok_of(s, pre3, "\n  "@, "}"@, tail);
}

/// Reading the `joints_involved` object (with any whitespace before it)
/// yields it back.
#[verifier::rlimit(100)]
#[verifier::spinoff_prover]
pub proof fn lemma_joints_involved_of(
    s: Seq<char>,
    pre: Seq<char>,
    w: Seq<char>,
    ji: JointsInvolvedView,
    tail: Seq<char>,
)
    requires
        forall|k: int| 0 <= k < ji.joints.len() ==> (#[trigger] ji.joints[k]).wf(),
        s == pre + w + ser_joints_involved(ji) + tail,
        forall|k: int| 0 <= k < w.len() ==> ws_char(#[trigger] w[k]),
    ensures
        parse_joints_involved(s, pre.len() as int) == Some(
            (ji, (pre.len() + w.len() + ser_joints_involved(ji).len()) as int),
        ),
{
    reveal_strlit("\n");
    reveal_strlit("\n  ");
    reveal_strlit("\n    ");
    reveal_strlit(" ");
    reveal_strlit("{\n    \"joint\": ");
    reveal_strlit("\n  }");
    reveal_strlit("\"joint\"");
    reveal_strlit("{");
    reveal_strlit("}");
    reveal_strlit(":");
    lemma_ws_literals();
    assert("{\n    \"joint\": "@ =~= "{"@ + "\n    "@ + "\"joint\""@ + ":"@ + " "@);
    assert("\n  }"@ =~= "\n  "@ + "}"@);
    let t1 = "\n    "@ + "\"joint\""@ + ":"@ + " "@ + ser_joints(ji.joints) + "\n  "@ + "}"@ + tail;
    assert(s =~= pre + w + "{"@ + t1);
    assert(!ws_char("{"@[0]));
    lemma_tok_of(s, pre, w, "{"@, t1);
    let pre1 = pre + w + "{"@;
    assert(s =~= pre1 + "\n    "@ + "\"joint\""@ + ":"@ + " "@ + ser_joints(ji.joints) + "\n  "@
        + "}"@ + tail);
    lemma_joints_involved_tail_of(s, pre1, ji.joints, tail);
    assert(JointsInvolvedView { joints: ji.joints } == ji);
}

// ---------------------------------------------------------------------------
// The whole document
// ---------------------------------------------------------------------------

/// Position just after the serialized `name` value.
pub open spec fn pos_name(v: ExerciseView) -> int {
    ("{\n  \"name\": "@.len() + quoted(v.name).len()) as int
}

/// Position just after the serialized `id` value.
pub open spec fn pos_id(v: ExerciseView) -> int {
    pos_name(v) + (",\n  \"id\": "@.len() + dec_digits(v.id as nat).len()) as int
}

/// Position just after the serialized `type` value.
pub open spec fn pos_type(v: ExerciseView) -> int {
    pos_id(v) + (",\n  \"type\": "@.len() + exercise_type_token(v.exercise_type).len()) as int + 2
}

/// Position just after the serialized `description` value.
pub open spec fn pos_desc(v: ExerciseView) -> int {
    pos_type(v) + (",\n  \"description\": "@.len() + quoted(v.description).len()) as int
}

/// Position just after the serialized `target_muscles` value.
pub open spec fn pos_tm(v: ExerciseView) -> int {
    pos_desc(v) + (",\n  \"target_muscles\": "@.len() + ser_target_muscles(v.target_muscles).len()) as int
}

/// Position just after the serialized `joints_involved` value.
pub open spec fn pos_ji(v: ExerciseView) -> int {
    pos_tm(v) + (",\n  \"joints_involved\": "@.len() + ser_joints_involved(v.joints_involved).len()) as int
}

/// Position just after the serialized `resistance_profile` value.
pub open spec fn pos_rp(v: ExerciseView) -> int {
    pos_ji(v) + (",\n  \"resistance_profile\": "@.len() + resistance_token(
        v.resistance_profile,
    ).len()) as int + 2
}

/// Position just after the serialized `plane_of_motion` value.
pub open spec fn pos_pm(v: ExerciseView) -> int {
    pos_rp(v) + (",\n  \"plane_of_motion\": "@.len() + plane_token(v.plane_of_motion).len()) as int + 2
}

/// Position just after the serialized `tips` value.
pub open spec fn pos_tips(v: ExerciseView) -> int {
    pos_pm(v) + (",\n  \"tips\": "@.len() + quoted(v.tips).len()) as int
}

/// Position just after the serialized `technique_video` value.
pub open spec fn pos_tv(v: ExerciseView) -> int {
    pos_tips(v) + (",\n  \"technique_video\": "@.len() + quoted(v.technique_video).len()) as int
}

/// Reading the document's opening brace and `name` member.
#[verifier::rlimit(100)]
#[verifier::spinoff_prover]
pub proof fn lemma_doc_open_of(s: Seq<char>, v: ExerciseView)
    requires
        s == spec_serialize(v),
    ensures
        tok(s, 0, "{"@) == Some(1int),
        parse_field_str(s, 1, "\"name\""@) == Some((v.name, pos_name(v))),
{
    reveal_strlit("\n");
    reveal_strlit("\n  ");
    reveal_strlit(" ");
    reveal_strlit("{\n  \"name\": ");
    reveal_strlit("\"name\"");
    reveal_strlit("{");
    reveal_strlit(":");
    lemma_ws_literals();
    assert("{\n  \"name\": "@ =~= "{"@ + "\n  "@ + "\"name\""@ + ":"@ + " "@);
    let rest1 = ",\n  \"id\": "@ + dec_digits(v.id as nat) + ",\n  \"type\": "@ + quoted_token(
        exercise_type_token(v.exercise_type),
    ) + ",\n  \"description\": "@ + quoted(v.description) + ",\n  \"target_muscles\": "@
        + ser_target_muscles(v.target_muscles) + ",\n  \"joints_involved\": "@
        + ser_joints_involved(v.joints_involved) + ",\n  \"resistance_profile\": "@ + quoted_token(
        resistance_token(v.resistance_profile),
    ) + ",\n  \"plane_of_motion\": "@ + quoted_token(plane_token(v.plane_of_motion))
        + ",\n  \"tips\": "@ + quoted(v.tips) + ",\n  \"technique_video\": "@ + quoted(
        v.technique_video,
    ) + "\n}"@;
    let pre0 = Seq::<char>::empty();
    let t1 = "\n  "@ + "\"name\""@ + ":"@ + " "@ + quoted(v.name) + rest1;
    assert(s =~= pre0 + Seq::<char>::empty() + "{"@ + t1);
    assert(!ws_char("{"@[0]));
    lemma_tok_of(s, pre0, Seq::empty(), "{"@, t1);
    let pre1 = pre0 + Seq::<char>::empty() + "{"@;
    assert(pre1.len() == 1);
    assert(s =~= pre1 + "\n  "@ + "\"name\""@ + ":"@ + " "@ + quoted(v.name) + rest1);
    lemma_field_str_of(s, pre1, "\n  "@, "\"name\""@, v.name, rest1);
    let pre2 = pre1 + "\n  "@ + "\"name\""@ + ":"@ + " "@ + quoted(v.name);
    assert(pre2.len() == pos_name(v));
}

/// Reading the comma before the `id` member of the document.
#[verifier::rlimit(100)]
#[verifier::spinoff_prover]
pub proof fn lemma_doc_id_comma_of(s: Seq<char>, v: ExerciseView)
    requires
        v.wf(),
        s == spec_serialize(v),
    ensures
        tok(s, pos_name(v), ","@) == Some(pos_name(v) + 1),
{
    reveal_strlit("\n");
    reveal_strlit("\n  ");
    reveal_strlit(" ");
    reveal_strlit(",\n  \"id\": ");
    reveal_strlit("\"id\"");
    reveal_strlit(",");
    reveal_strlit(":");
    lemma_ws_literals();
    assert(",\n  \"id\": "@ =~= ","@ + "\n  "@ + "\"id\""@ + ":"@ + " "@);
    let pre_a = "{\n  \"name\": "@ + quoted(v.name);
    assert(pre_a.len() == pos_name(v));
    let rest_a = ",\n  \"type\": "@ + quoted_token(exercise_type_token(v.exercise_type)) + ",\n  \"description\": "@ + quoted(v.description) + ",\n  \"target_muscles\": "@ + ser_target_muscles(v.target_muscles) + ",\n  \"joints_involved\": "@ + ser_joints_involved(v.joints_involved) + ",\n  \"resistance_profile\": "@ + quoted_token(resistance_token(v.resistance_profile)) + ",\n  \"plane_of_motion\": "@ + quoted_token(plane_token(v.plane_of_motion)) + ",\n  \"tips\": "@ + quoted(v.tips) + ",\n  \"technique_video\": "@ + quoted(v.technique_video) + "\n}"@;
    let t_comma = "\n  "@ + "\"id\""@ + ":"@ + " "@ + dec_digits(v.id as nat) + rest_a;
    assert(s =~= pre_a + Seq::<char>::empty() + ","@ + t_comma);
    assert(!ws_char(","@[0]));
    lemma_tok_of(s, pre_a, Seq::empty(), ","@, t_comma);
}

/// The document regrouped at its `id` member.
#[verifier::rlimit(100)]
#[verifier::spinoff_prover]
pub proof fn lemma_doc_id_shape(s: Seq<char>, v: ExerciseView)
    requires
        v.wf(),
        s == spec_serialize(v),
    ensures
        s == ("{\n  \"name\": "@ + quoted(v.name) + ","@) + "\n  "@ + "\"id\""@ + ":"@ + " "@
            + dec_digits(v.id as nat) + (",\n  \"type\": "@ + quoted_token(exercise_type_token(v.exercise_type)) + ",\n  \"description\": "@ + quoted(v.description) + ",\n  \"target_muscles\": "@ + ser_target_muscles(v.target_muscles) + ",\n  \"joints_involved\": "@ + ser_joints_involved(v.joints_involved) + ",\n  \"resistance_profile\": "@ + quoted_token(resistance_token(v.resistance_profile)) + ",\n  \"plane_of_motion\": "@ + quoted_token(plane_token(v.plane_of_motion)) + ",\n  \"tips\": "@ + quoted(v.tips) + ",\n  \"technique_video\": "@ + quoted(v.technique_video) + "\n}"@),
{
    reveal_strlit("\n");
    reveal_strlit("\n  ");
    reveal_strlit(" ");
    reveal_strlit(",\n  \"id\": ");
    reveal_strlit("\"id\"");
    reveal_strlit(",");
    reveal_strlit(":");
    assert(",\n  \"id\": "@ =~= ","@ + "\n  "@ + "\"id\""@ + ":"@ + " "@);
    assert(s =~= ("{\n  \"name\": "@ + quoted(v.name) + ","@) + "\n  "@ + "\"id\""@ + ":"@
        + " "@ + dec_digits(v.id as nat) + (",\n  \"type\": "@ + quoted_token(exercise_type_token(v.exercise_type)) + ",\n  \"description\": "@ + quoted(v.description) + ",\n  \"target_muscles\": "@ + ser_target_muscles(v.target_muscles) + ",\n  \"joints_involved\": "@ + ser_joints_involved(v.joints_involved) + ",\n  \"resistance_profile\": "@ + quoted_token(resistance_token(v.resistance_profile)) + ",\n  \"plane_of_motion\": "@ + quoted_token(plane_token(v.plane_of_motion)) + ",\n  \"tips\": "@ + quoted(v.tips) + ",\n  \"technique_video\": "@ + quoted(v.technique_video) + "\n}"@));
}

/// Reading the `id` member of the document.
#[verifier::rlimit(100)]
#[verifier::spinoff_prover]
pub proof fn lemma_doc_id_of(s: Seq<char>, v: ExerciseView)
    requires
        v.wf(),
        s == spec_serialize(v),
    ensures
        tok(s, pos_name(v), ","@) == Some(pos_name(v) + 1),
        parse_field_u32(s, pos_name(v) + 1, "\"id\""@) == Some((v.id, pos_id(v))),
{
    lemma_doc_id_comma_of(s, v);
    reveal_strlit("\n");
    reveal_strlit("\n  ");
    reveal_strlit(" ");
    reveal_strlit(",\n  \"id\": ");
    reveal_strlit("\"id\"");
    reveal_strlit(",");
    reveal_strlit(":");
    lemma_ws_literals();
    let pre_b = "{\n  \"name\": "@ + quoted(v.name) + ","@;
    assert(pre_b.len() == pos_name(v) + 1);
    let rest_a = ",\n  \"type\": "@ + quoted_token(exercise_type_token(v.exercise_type)) + ",\n  \"description\": "@ + quoted(v.description) + ",\n  \"target_muscles\": "@ + ser_target_muscles(v.target_muscles) + ",\n  \"joints_involved\": "@ + ser_joints_involved(v.joints_involved) + ",\n  \"resistance_profile\": "@ + quoted_token(resistance_token(v.resistance_profile)) + ",\n  \"plane_of_motion\": "@ + quoted_token(plane_token(v.plane_of_motion)) + ",\n  \"tips\": "@ + quoted(v.tips) + ",\n  \"technique_video\": "@ + quoted(v.technique_video) + "\n}"@;
    lemma_doc_id_shape(s, v);
    reveal_strlit(",\n  \"type\": ");
    assert(rest_a[0] == ',');
    assert(digit_val(rest_a[0]) is None);
    lemma_field_u32_of(s, pre_b, "\n  "@, "\"id\""@, v.id, rest_a);
}

/// Reading the comma and `type` member of the document.
#[verifier::rlimit(100)]
#[verifier::spinoff_prover]
pub proof fn lemma_doc_type_of(s: Seq<char>, v: ExerciseView)
    requires
        v.wf(),
        s == spec_serialize(v),
    ensures
        tok(s, pos_id(v), ","@) == Some(pos_id(v) + 1),
        tok_key_colon(s, pos_id(v) + 1, "\"type\""@) == Some(pos_id(v) + 5 + "\"type\""@.len()),
        parse_exercise_type(s, pos_id(v) + 5 + "\"type\""@.len()) == Some((v.exercise_type, pos_type(v))),
{
    reveal_strlit("\n");
    reveal_strlit("\n  ");
    reveal_strlit(" ");
    reveal_strlit(",\n  \"type\": ");
    reveal_strlit("\"type\"");
    reveal_strlit(",");
    reveal_strlit(":");
    lemma_ws_literals();
    assert(",\n  \"type\": "@ =~= ","@ + "\n  "@ + "\"type\""@ + ":"@ + " "@);
    let pre_a = "{\n  \"name\": "@ + quoted(v.name) + ",\n  \"id\": "@ + dec_digits(v.id as nat);
    assert(pre_a.len() == pos_id(v));
    let rest_a = ",\n  \"description\": "@ + quoted(v.description) + ",\n  \"target_muscles\": "@ + ser_target_muscles(v.target_muscles) + ",\n  \"joints_involved\": "@ + ser_joints_involved(v.joints_involved) + ",\n  \"resistance_profile\": "@ + quoted_token(resistance_token(v.resistance_profile)) + ",\n  \"plane_of_motion\": "@ + quoted_token(plane_token(v.plane_of_motion)) + ",\n  \"tips\": "@ + quoted(v.tips) + ",\n  \"technique_video\": "@ + quoted(v.technique_video) + "\n}"@;
    let t_comma = "\n  "@ + "\"type\""@ + ":"@ + " "@ + quoted_token(exercise_type_token(v.exercise_type)) + rest_a;
    assert(s =~= pre_a + Seq::<char>::empty() + ","@ + t_comma);
    assert(!ws_char(","@[0]));
    lemma_tok_of(s, pre_a, Seq::empty(), ","@, t_comma);
    let pre_b = pre_a + ","@;
    let t_kc = " "@ + quoted_token(exercise_type_token(v.exercise_type)) + rest_a;
    assert(s =~= pre_b + "\n  "@ + "\"type\""@ + ":"@ + t_kc);
    lemma_key_colon_of(s, pre_b, "\n  "@, "\"type\""@, t_kc);
    let pre_c = pre_b + "\n  "@ + "\"type\""@ + ":"@;
    assert(pre_c.len() == pos_id(v) + 5 + "\"type\""@.len());
    assert(s =~= pre_c + " "@ + quoted_token(exercise_type_token(v.exercise_type)) + rest_a);
    lemma_parse_exercise_type_of(s, pre_c, " "@, v.exercise_type, rest_a);
}

/// Reading the comma and `description` member of the document.
#[verifier::rlimit(100)]
#[verifier::spinoff_prover]
pub proof fn lemma_doc_description_of(s: Seq<char>, v: ExerciseView)
    requires
        v.wf(),
        s == spec_serialize(v),
    ensures
        tok(s, pos_type(v), ","@) == Some(pos_type(v) + 1),
        parse_field_str(s, pos_type(v) + 1, "\"description\""@) == Some((v.description, pos_desc(v))),
{
    reveal_strlit("\n");
    reveal_strlit("\n  ");
    reveal_strlit(" ");
    reveal_strlit(",\n  \"description\": ");
    reveal_strlit("\"description\"");
    reveal_strlit(",");
    reveal_strlit(":");
    lemma_ws_literals();
    assert(",\n  \"description\": "@ =~= ","@ + "\n  "@ + "\"description\""@ + ":"@ + " "@);
    let pre_a = "{\n  \"name\": "@ + quoted(v.name) + ",\n  \"id\": "@ + dec_digits(v.id as nat) + ",\n  \"type\": "@ + quoted_token(exercise_type_token(v.exercise_type));
    assert(pre_a.len() == pos_type(v));
    let rest_a = ",\n  \"target_muscles\": "@ + ser_target_muscles(v.target_muscles) + ",\n  \"joints_involved\": "@ + ser_joints_involved(v.joints_involved) + ",\n  \"resistance_profile\": "@ + quoted_token(resistance_token(v.resistance_profile)) + ",\n  \"plane_of_motion\": "@ + quoted_token(plane_token(v.plane_of_motion)) + ",\n  \"tips\": "@ + quoted(v.tips) + ",\n  \"technique_video\": "@ + quoted(v.technique_video) + "\n}"@;
    let t_comma = "\n  "@ + "\"description\""@ + ":"@ + " "@ + quoted(v.description) + rest_a;
    assert(s =~= pre_a + Seq::<char>::empty() + ","@ + t_comma);
    assert(!ws_char(","@[0]));
    lemma_tok_of(s, pre_a, Seq::empty(), ","@, t_comma);
    let pre_b = pre_a + ","@;
    assert(s =~= pre_b + "\n  "@ + "\"description\""@ + ":"@ + " "@ + quoted(v.description) + rest_a);
    lemma_field_str_of(s, pre_b, "\n  "@, "\"description\""@, v.description, rest_a);
}

/// Reading the comma and `target_muscles` member of the document.
#[verifier::rlimit(100)]
#[verifier::spinoff_prover]
pub proof fn lemma_doc_target_muscles_of(s: Seq<char>, v: ExerciseView)
    requires
        v.wf(),
        s == spec_serialize(v),
    ensures
        tok(s, pos_desc(v), ","@) == Some(pos_desc(v) + 1),
        tok_key_colon(s, pos_desc(v) + 1, "\"target_muscles\""@) == Some(pos_desc(v) + 5 + "\"target_muscles\""@.len()),
        parse_target_muscles(s, pos_desc(v) + 5 + "\"target_muscles\""@.len()) == Some((v.target_muscles, pos_tm(v))),
{
    reveal_strlit("\n");
    reveal_strlit("\n  ");
    reveal_strlit(" ");
    reveal_strlit(",\n  \"target_muscles\": ");
    reveal_strlit("\"target_muscles\"");
    reveal_strlit(",");
    reveal_strlit(":");
    lemma_ws_literals();
    assert(",\n  \"target_muscles\": "@ =~= ","@ + "\n  "@ + "\"target_muscles\""@ + ":"@ + " "@);
    let pre_a = "{\n  \"name\": "@ + quoted(v.name) + ",\n  \"id\": "@ + dec_digits(v.id as nat) + ",\n  \"type\": "@ + quoted_token(exercise_type_token(v.exercise_type)) + ",\n  \"description\": "@ + quoted(v.description);
    assert(pre_a.len() == pos_desc(v));
    let rest_a = ",\n  \"joints_involved\": "@ + ser_joints_involved(v.joints_involved) + ",\n  \"resistance_profile\": "@ + quoted_token(resistance_token(v.resistance_profile)) + ",\n  \"plane_of_motion\": "@ + quoted_token(plane_token(v.plane_of_motion)) + ",\n  \"tips\": "@ + quoted(v.tips) + ",\n  \"technique_video\": "@ + quoted(v.technique_video) + "\n}"@;
    let t_comma = "\n  "@ + "\"target_muscles\""@ + ":"@ + " "@ + ser_target_muscles(v.target_muscles) + rest_a;
    assert(s =~= pre_a + Seq::<char>::empty() + ","@ + t_comma);
    assert(!ws_char(","@[0]));
    lemma_tok_of(s, pre_a, Seq::empty(), ","@, t_comma);
    let pre_b = pre_a + ","@;
    let t_kc = " "@ + ser_target_muscles(v.target_muscles) + rest_a;
    assert(s =~= pre_b + "\n  "@ + "\"target_muscles\""@ + ":"@ + t_kc);
    lemma_key_colon_of(s, pre_b, "\n  "@, "\"target_muscles\""@, t_kc);
    let pre_c = pre_b + "\n  "@ + "\"target_muscles\""@ + ":"@;
    assert(pre_c.len() == pos_desc(v) + 5 + "\"target_muscles\""@.len());
    assert(s =~= pre_c + " "@ + ser_target_muscles(v.target_muscles) + rest_a);
    lemma_target_muscles_of(s, pre_c, " "@, v.target_muscles, rest_a);
}

/// Reading the comma and key before the `joints_involved` value.
#[verifier::rlimit(100)]
#[verifier::spinoff_prover]
pub proof fn lemma_doc_ji_key_of(s: Seq<char>, v: ExerciseView)
    requires
        v.wf(),
        s == spec_serialize(v),
    ensures
        tok(s, pos_tm(v), ","@) == Some(pos_tm(v) + 1),
        tok_key_colon(s, pos_tm(v) + 1, "\"joints_involved\""@) == Some(
            pos_tm(v) + 5 + "\"joints_involved\""@.len(),
        ),
{
    reveal_strlit("\n");
    reveal_strlit("\n  ");
    reveal_strlit(" ");
    reveal_strlit(",\n  \"joints_involved\": ");
    reveal_strlit("\"joints_involved\"");
    reveal_strlit(",");
    reveal_strlit(":");
    lemma_ws_literals();
    assert(",\n  \"joints_involved\": "@ =~= ","@ + "\n  "@ + "\"joints_involved\""@ + ":"@
        + " "@);
    let pre_a = "{\n  \"name\": "@ + quoted(v.name) + ",\n  \"id\": "@ + dec_digits(v.id as nat) + ",\n  \"type\": "@ + quoted_token(exercise_type_token(v.exercise_type)) + ",\n  \"description\": "@ + quoted(v.description) + ",\n  \"target_muscles\": "@ + ser_target_muscles(v.target_muscles);
    assert(pre_a.len() == pos_tm(v));
    let rest_a = ",\n  \"resistance_profile\": "@ + quoted_token(resistance_token(v.resistance_profile)) + ",\n  \"plane_of_motion\": "@ + quoted_token(plane_token(v.plane_of_motion)) + ",\n  \"tips\": "@ + quoted(v.tips) + ",\n  \"technique_video\": "@ + quoted(v.technique_video) + "\n}"@;
    let t_comma = "\n  "@ + "\"joints_involved\""@ + ":"@ + " "@ + ser_joints_involved(
        v.joints_involved,
    ) + rest_a;
    assert(s =~= pre_a + Seq::<char>::empty() + ","@ + t_comma);
    assert(!ws_char(","@[0]));
    lemma_tok_of(s, pre_a, Seq::empty(), ","@, t_comma);
    let pre_b = pre_a + ","@;
    let t_kc = " "@ + ser_joints_involved(v.joints_involved) + rest_a;
    assert(s =~= pre_b + "\n  "@ + "\"joints_involved\""@ + ":"@ + t_kc);
    lemma_key_colon_of(s, pre_b, "\n  "@, "\"joints_involved\""@, t_kc);
}

/// Reading the comma and `joints_involved` member of the document.
#[verifier::rlimit(100)]
#[verifier::spinoff_prover]
pub proof fn lemma_doc_joints_involved_of(s: Seq<char>, v: ExerciseView)
    requires
        v.wf(),
        s == spec_serialize(v),
    ensures
        tok(s, pos_tm(v), ","@) == Some(pos_tm(v) + 1),
        tok_key_colon(s, pos_tm(v) + 1, "\"joints_involved\""@) == Some(
            pos_tm(v) + 5 + "\"joints_involved\""@.len(),
        ),
        parse_joints_involved(s, pos_tm(v) + 5 + "\"joints_involved\""@.len()) == Some(
            (v.joints_involved, pos_ji(v)),
        ),
{
    lemma_doc_ji_key_of(s, v);
    reveal_strlit("\n");
    reveal_strlit("\n  ");
    reveal_strlit(" ");
    reveal_strlit(",\n  \"joints_involved\": ");
    reveal_strlit("\"joints_involved\"");
    reveal_strlit(",");
    reveal_strlit(":");
    lemma_ws_literals();
    assert(",\n  \"joints_involved\": "@ =~= ","@ + "\n  "@ + "\"joints_involved\""@ + ":"@
        + " "@);
    let pre_a = "{\n  \"name\": "@ + quoted(v.name) + ",\n  \"id\": "@ + dec_digits(v.id as nat) + ",\n  \"type\": "@ + quoted_token(exercise_type_token(v.exercise_type)) + ",\n  \"description\": "@ + quoted(v.description) + ",\n  \"target_muscles\": "@ + ser_target_muscles(v.target_muscles);
    assert(pre_a.len() == pos_tm(v));
    let rest_a = ",\n  \"resistance_profile\": "@ + quoted_token(resistance_token(v.resistance_profile)) + ",\n  \"plane_of_motion\": "@ + quoted_token(plane_token(v.plane_of_motion)) + ",\n  \"tips\": "@ + quoted(v.tips) + ",\n  \"technique_video\": "@ + quoted(v.technique_video) + "\n}"@;
    let pre_c = pre_a + ","@ + "\n  "@ + "\"joints_involved\""@ + ":"@;
    assert(pre_c.len() == pos_tm(v) + 5 + "\"joints_involved\""@.len());
    assert(s =~= pre_c + " "@ + ser_joints_involved(v.joints_involved) + rest_a);
    assert(forall|k: int|
        0 <= k < v.joints_involved.joints.len() ==> (#[trigger] v.joints_involved.joints[k]).wf());
    lemma_joints_involved_of(s, pre_c, " "@, v.joints_involved, rest_a);
}

/// Reading the comma and `resistance_profile` member of the document.
#[verifier::rlimit(100)]
#[verifier::spinoff_prover]
pub proof fn lemma_doc_resistance_profile_of(s: Seq<char>, v: ExerciseView)
    requires
        v.wf(),
        s == spec_serialize(v),
    ensures
        tok(s, pos_ji(v), ","@) == Some(pos_ji(v) + 1),
        tok_key_colon(s, pos_ji(v) + 1, "\"resistance_profile\""@) == Some(pos_ji(v) + 5 + "\"resistance_profile\""@.len()),
        parse_resistance(s, pos_ji(v) + 5 + "\"resistance_profile\""@.len()) == Some((v.resistance_profile, pos_rp(v))),
{
    reveal_strlit("\n");
    reveal_strlit("\n  ");
    reveal_strlit(" ");
    reveal_strlit(",\n  \"resistance_profile\": ");
    reveal_strlit("\"resistance_profile\"");
    reveal_strlit(",");
    reveal_strlit(":");
    lemma_ws_literals();
    assert(",\n  \"resistance_profile\": "@ =~= ","@ + "\n  "@ + "\"resistance_profile\""@ + ":"@ + " "@);
    let pre_a = "{\n  \"name\": "@ + quoted(v.name) + ",\n  \"id\": "@ + dec_digits(v.id as nat) + ",\n  \"type\": "@ + quoted_token(exercise_type_token(v.exercise_type)) + ",\n  \"description\": "@ + quoted(v.description) + ",\n  \"target_muscles\": "@ + ser_target_muscles(v.target_muscles) + ",\n  \"joints_involved\": "@ + ser_joints_involved(v.joints_involved);
    assert(pre_a.len() == pos_ji(v));
    let rest_a = ",\n  \"plane_of_motion\": "@ + quoted_token(plane_token(v.plane_of_motion)) + ",\n  \"tips\": "@ + quoted(v.tips) + ",\n  \"technique_video\": "@ + quoted(v.technique_video) + "\n}"@;
    let t_comma = "\n  "@ + "\"resistance_profile\""@ + ":"@ + " "@ + quoted_token(resistance_token(v.resistance_profile)) + rest_a;
    assert(s =~= pre_a + Seq::<char>::empty() + ","@ + t_comma);
    assert(!ws_char(","@[0]));
    lemma_tok_of(s, pre_a, Seq::empty(), ","@, t_comma);
    let pre_b = pre_a + ","@;
    let t_kc = " "@ + quoted_token(resistance_token(v.resistance_profile)) + rest_a;
    assert(s =~= pre_b + "\n  "@ + "\"resistance_profile\""@ + ":"@ + t_kc);
    lemma_key_colon_of(s, pre_b, "\n  "@, "\"resistance_profile\""@, t_kc);
    let pre_c = pre_b + "\n  "@ + "\"resistance_profile\""@ + ":"@;
    assert(pre_c.len() == pos_ji(v) + 5 + "\"resistance_profile\""@.len());
    assert(s =~= pre_c + " "@ + quoted_token(resistance_token(v.resistance_profile)) + rest_a);
    lemma_parse_resistance_of(s, pre_c, " "@, v.resistance_profile, rest_a);
}

/// Reading the comma and `plane_of_motion` member of the document.
#[verifier::rlimit(100)]
#[verifier::spinoff_prover]
pub proof fn lemma_doc_plane_of_motion_of(s: Seq<char>, v: ExerciseView)
    requires
        v.wf(),
        s == spec_serialize(v),
    ensures
        tok(s, pos_rp(v), ","@) == Some(pos_rp(v) + 1),
        tok_key_colon(s, pos_rp(v) + 1, "\"plane_of_motion\""@) == Some(pos_rp(v) + 5 + "\"plane_of_motion\""@.len()),
        parse_plane(s, pos_rp(v) + 5 + "\"plane_of_motion\""@.len()) == Some((v.plane_of_motion, pos_pm(v))),
{
    reveal_strlit("\n");
    reveal_strlit("\n  ");
    reveal_strlit(" ");
    reveal_strlit(",\n  \"plane_of_motion\": ");
    reveal_strlit("\"plane_of_motion\"");
    reveal_strlit(",");
    reveal_strlit(":");
    lemma_ws_literals();
    assert(",\n  \"plane_of_motion\": "@ =~= ","@ + "\n  "@ + "\"plane_of_motion\""@ + ":"@ + " "@);
    let pre_a = "{\n  \"name\": "@ + quoted(v.name) + ",\n  \"id\": "@ + dec_digits(v.id as nat) + ",\n  \"type\": "@ + quoted_token(exercise_type_token(v.exercise_type)) + ",\n  \"description\": "@ + quoted(v.description) + ",\n  \"target_muscles\": "@ + ser_target_muscles(v.target_muscles) + ",\n  \"joints_involved\": "@ + ser_joints_involved(v.joints_involved) + ",\n  \"resistance_profile\": "@ + quoted_token(resistance_token(v.resistance_profile));
    assert(pre_a.len() == pos_rp(v));
    let rest_a = ",\n  \"tips\": "@ + quoted(v.tips) + ",\n  \"technique_video\": "@ + quoted(v.technique_video) + "\n}"@;
    let t_comma = "\n  "@ + "\"plane_of_motion\""@ + ":"@ + " "@ + quoted_token(plane_token(v.plane_of_motion)) + rest_a;
    assert(s =~= pre_a + Seq::<char>::empty() + ","@ + t_comma);
    assert(!ws_char(","@[0]));
    lemma_tok_of(s, pre_a, Seq::empty(), ","@, t_comma);
    let pre_b = pre_a + ","@;
    let t_kc = " "@ + quoted_token(plane_token(v.plane_of_motion)) + rest_a;
    assert(s =~= pre_b + "\n  "@ + "\"plane_of_motion\""@ + ":"@ + t_kc);
    lemma_key_colon_of(s, pre_b, "\n  "@, "\"plane_of_motion\""@, t_kc);
    let pre_c = pre_b + "\n  "@ + "\"plane_of_motion\""@ + ":"@;
    assert(pre_c.len() == pos_rp(v) + 5 + "\"plane_of_motion\""@.len());
    assert(s =~= pre_c + " "@ + quoted_token(plane_token(v.plane_of_motion)) + rest_a);
    lemma_parse_plane_of(s, pre_c, " "@, v.plane_of_motion, rest_a);
}

/// Reading the comma and `tips` member of the document.
#[verifier::rlimit(100)]
#[verifier::spinoff_prover]
pub proof fn lemma_doc_tips_of(s: Seq<char>, v: ExerciseView)
    requires
        v.wf(),
        s == spec_serialize(v),
    ensures
        tok(s, pos_pm(v), ","@) == Some(pos_pm(v) + 1),
        parse_field_str(s, pos_pm(v) + 1, "\"tips\""@) == Some((v.tips, pos_tips(v))),
{
    reveal_strlit("\n");
    reveal_strlit("\n  ");
    reveal_strlit(" ");
    reveal_strlit(",\n  \"tips\": ");
    reveal_strlit("\"tips\"");
    reveal_strlit(",");
    reveal_strlit(":");
    lemma_ws_literals();
    assert(",\n  \"tips\": "@ =~= ","@ + "\n  "@ + "\"tips\""@ + ":"@ + " "@);
    let pre_a = "{\n  \"name\": "@ + quoted(v.name) + ",\n  \"id\": "@ + dec_digits(v.id as nat) + ",\n  \"type\": "@ + quoted_token(exercise_type_token(v.exercise_type)) + ",\n  \"description\": "@ + quoted(v.description) + ",\n  \"target_muscles\": "@ + ser_target_muscles(v.target_muscles) + ",\n  \"joints_involved\": "@ + ser_joints_involved(v.joints_involved) + ",\n  \"resistance_profile\": "@ + quoted_token(resistance_token(v.resistance_profile)) + ",\n  \"plane_of_motion\": "@ + quoted_token(plane_token(v.plane_of_motion));
    assert(pre_a.len() == pos_pm(v));
    let rest_a = ",\n  \"technique_video\": "@ + quoted(v.technique_video) + "\n}"@;
    let t_comma = "\n  "@ + "\"tips\""@ + ":"@ + " "@ + quoted(v.tips) + rest_a;
    assert(s =~= pre_a + Seq::<char>::empty() + ","@ + t_comma);
    assert(!ws_char(","@[0]));
    lemma_tok_of(s, pre_a, Seq::empty(), ","@, t_comma);
    let pre_b = pre_a + ","@;
    assert(s =~= pre_b + "\n  "@ + "\"tips\""@ + ":"@ + " "@ + quoted(v.tips) + rest_a);
    lemma_field_str_of(s, pre_b, "\n  "@, "\"tips\""@, v.tips, rest_a);
}

/// Reading the comma and `technique_video` member of the document.
#[verifier::rlimit(100)]
#[verifier::spinoff_prover]
pub proof fn lemma_doc_technique_video_of(s: Seq<char>, v: ExerciseView)
    requires
        v.wf(),
        s == spec_serialize(v),
    ensures
        tok(s, pos_tips(v), ","@) == Some(pos_tips(v) + 1),
        parse_field_str(s, pos_tips(v) + 1, "\"technique_video\""@) == Some((v.technique_video, pos_tv(v))),
{
    reveal_strlit("\n");
    reveal_strlit("\n  ");
    reveal_strlit(" ");
    reveal_strlit(",\n  \"technique_video\": ");
    reveal_strlit("\"technique_video\"");
    reveal_strlit(",");
    reveal_strlit(":");
    lemma_ws_literals();
    assert(",\n  \"technique_video\": "@ =~= ","@ + "\n  "@ + "\"technique_video\""@ + ":"@ + " "@);
    let pre_a = "{\n  \"name\": "@ + quoted(v.name) + ",\n  \"id\": "@ + dec_digits(v.id as nat) + ",\n  \"type\": "@ + quoted_token(exercise_type_token(v.exercise_type)) + ",\n  \"description\": "@ + quoted(v.description) + ",\n  \"target_muscles\": "@ + ser_target_muscles(v.target_muscles) + ",\n  \"joints_involved\": "@ + ser_joints_involved(v.joints_involved) + ",\n  \"resistance_profile\": "@ + quoted_token(resistance_token(v.resistance_profile)) + ",\n  \"plane_of_motion\": "@ + quoted_token(plane_token(v.plane_of_motion)) + ",\n  \"tips\": "@ + quoted(v.tips);
    assert(pre_a.len() == pos_tips(v));
    let rest_a = "\n}"@;
    let t_comma = "\n  "@ + "\"technique_video\""@ + ":"@ + " "@ + quoted(v.technique_video) + rest_a;
    assert(s =~= pre_a + Seq::<char>::empty() + ","@ + t_comma);
    assert(!ws_char(","@[0]));
    lemma_tok_of(s, pre_a, Seq::empty(), ","@, t_comma);
    let pre_b = pre_a + ","@;
    assert(s =~= pre_b + "\n  "@ + "\"technique_video\""@ + ":"@ + " "@ + quoted(v.technique_video) + rest_a);
    lemma_field_str_of(s, pre_b, "\n  "@, "\"technique_video\""@, v.technique_video, rest_a);
}

/// Reading the document's closing brace; nothing follows it.
#[verifier::rlimit(100)]
#[verifier::spinoff_prover]
pub proof fn lemma_doc_close_of(s: Seq<char>, v: ExerciseView)
    requires
        v.wf(),
        s == spec_serialize(v),
    ensures
        tok(s, pos_tv(v), "}"@) == Some(s.len() as int),
        s.len() == pos_tv(v) + 2,
{
    reveal_strlit("\n");
    reveal_strlit("\n}");
    reveal_strlit("}");
    lemma_ws_literals();
    assert("\n}"@ =~= "\n"@ + "}"@);
    let pre_a = "{\n  \"name\": "@ + quoted(v.name) + ",\n  \"id\": "@ + dec_digits(v.id as nat) + ",\n  \"type\": "@ + quoted_token(exercise_type_token(v.exercise_type)) + ",\n  \"description\": "@ + quoted(v.description) + ",\n  \"target_muscles\": "@ + ser_target_muscles(v.target_muscles) + ",\n  \"joints_involved\": "@ + ser_joints_involved(v.joints_involved) + ",\n  \"resistance_profile\": "@ + quoted_token(resistance_token(v.resistance_profile)) + ",\n  \"plane_of_motion\": "@ + quoted_token(plane_token(v.plane_of_motion)) + ",\n  \"tips\": "@ + quoted(v.tips) + ",\n  \"technique_video\": "@ + quoted(v.technique_video);
    assert(pre_a.len() == pos_tv(v));
    assert(s =~= pre_a + "\n"@ + "}"@ + Seq::<char>::empty());
    assert(!ws_char("}"@[0]));
    lemma_tok_of(s, pre_a, "\n"@, "}"@, Seq::empty());
}

// ---------------------------------------------------------------------------
// Putting the document back together
// ---------------------------------------------------------------------------

/// Reading the members from `target_muscles` to the closing brace.
#[verifier::rlimit(100)]
#[verifier::spinoff_prover]
pub proof fn lemma_parse_exercise_tail_of(s: Seq<char>, v: ExerciseView)
    requires
        v.wf(),
        s == spec_serialize(v),
    ensures
        tok(s, pos_desc(v), ","@) == Some(pos_desc(v) + 1),
        spec_parse_exercise_tail(
            s,
            pos_desc(v) + 1,
            v.name,
            v.id,
            v.exercise_type,
            v.description,
        ) == Some((v, s.len() as int)),
{
    lemma_doc_target_muscles_of(s, v);
    lemma_doc_joints_involved_of(s, v);
    lemma_doc_resistance_profile_of(s, v);
    lemma_doc_plane_of_motion_of(s, v);
    lemma_doc_tips_of(s, v);
    lemma_doc_technique_video_of(s, v);
    lemma_doc_close_of(s, v);
    assert(ExerciseView {
        name: v.name,
        id: v.id,
        exercise_type: v.exercise_type,
        description: v.description,
        target_muscles: v.target_muscles,
        joints_involved: v.joints_involved,
        resistance_profile: v.resistance_profile,
        plane_of_motion: v.plane_of_motion,
        tips: v.tips,
        technique_video: v.technique_video,
    } == v);
}

/// Assembling the member facts into the whole-document parse.
#[verifier::rlimit(100)]
#[verifier::spinoff_prover]
pub proof fn lemma_parse_exercise_assemble(s: Seq<char>, v: ExerciseView)
    requires
        tok(s, 0, "{"@) == Some(1int),
        parse_field_str(s, 1, "\"name\""@) == Some((v.name, pos_name(v))),
        tok(s, pos_name(v), ","@) == Some(pos_name(v) + 1),
        parse_field_u32(s, pos_name(v) + 1, "\"id\""@) == Some((v.id, pos_id(v))),
        tok(s, pos_id(v), ","@) == Some(pos_id(v) + 1),
        tok_key_colon(s, pos_id(v) + 1, "\"type\""@) == Some(pos_id(v) + 5 + "\"type\""@.len()),
        parse_exercise_type(s, pos_id(v) + 5 + "\"type\""@.len()) == Some(
            (v.exercise_type, pos_type(v)),
        ),
        tok(s, pos_type(v), ","@) == Some(pos_type(v) + 1),
        parse_field_str(s, pos_type(v) + 1, "\"description\""@) == Some(
            (v.description, pos_desc(v)),
        ),
        tok(s, pos_desc(v), ","@) == Some(pos_desc(v) + 1),
        spec_parse_exercise_tail(
            s,
            pos_desc(v) + 1,
            v.name,
            v.id,
            v.exercise_type,
            v.description,
        ) == Some((v, s.len() as int)),
    ensures
        spec_parse_exercise(s, 0) == Some((v, s.len() as int)),
{
}

/// The facts for the document's first four members, bundled.
#[verifier::rlimit(100)]
#[verifier::spinoff_prover]
pub proof fn lemma_doc_head_facts(s: Seq<char>, v: ExerciseView)
    requires
        v.wf(),
        s == spec_serialize(v),
    ensures
        tok(s, 0, "{"@) == Some(1int),
        parse_field_str(s, 1, "\"name\""@) == Some((v.name, pos_name(v))),
        tok(s, pos_name(v), ","@) == Some(pos_name(v) + 1),
        parse_field_u32(s, pos_name(v) + 1, "\"id\""@) == Some((v.id, pos_id(v))),
        tok(s, pos_id(v), ","@) == Some(pos_id(v) + 1),
        tok_key_colon(s, pos_id(v) + 1, "\"type\""@) == Some(pos_id(v) + 5 + "\"type\""@.len()),
        parse_exercise_type(s, pos_id(v) + 5 + "\"type\""@.len()) == Some(
            (v.exercise_type, pos_type(v)),
        ),
        tok(s, pos_type(v), ","@) == Some(pos_type(v) + 1),
        parse_field_str(s, pos_type(v) + 1, "\"description\""@) == Some(
            (v.description, pos_desc(v)),
        ),
{
    lemma_doc_open_of(s, v);
    lemma_doc_id_of(s, v);
    lemma_doc_type_of(s, v);
    lemma_doc_description_of(s, v);
}

/// Reading the whole document back yields the record it was written from.
#[verifier::rlimit(100)]
#[verifier::spinoff_prover]
pub proof fn lemma_parse_exercise_of(s: Seq<char>, v: ExerciseView)
    requires
        v.wf(),
        s == spec_serialize(v),
    ensures
        spec_parse_exercise(s, 0) == Some((v, s.len() as int)),
{
    lemma_doc_head_facts(s, v);
    lemma_parse_exercise_tail_of(s, v);
    lemma_parse_exercise_assemble(s, v);
}

/// What the serializer writes, the deserializer accepts, and it yields the
/// same record.
pub proof fn lemma_spec_round_trip(v: ExerciseView)
    requires
        v.wf(),
    ensures
        spec_deserialize(spec_serialize(v)) == Some(v),
{
    let s = spec_serialize(v);
    lemma_parse_exercise_of(s, v);
    assert(skip_ws(s, s.len() as int) == s.len());
}

} // verus!
