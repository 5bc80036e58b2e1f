//! Deriving a default file name from an exercise name: surrounding
//! whitespace is trimmed, inner spaces become underscores, the result is
//! lowercased, and an empty result falls back to a fixed name.

use crate::text::push_char;
use vstd::prelude::*;

verus! {

/// The name used when the exercise name holds nothing but whitespace.
pub open spec fn fallback_filename() -> Seq<char> {
    "unnamed_exercise"@
}

/// The characters `str::trim` removes: the Unicode `White_Space` set.
pub open spec fn white_space(c: char) -> bool {
    let u = c as u32;
    (9 <= u <= 13) || u == 32 || u == 0x85 || u == 0xA0 || u == 0x1680 || (0x2000 <= u <= 0x200A)
        || u == 0x2028 || u == 0x2029 || u == 0x202F || u == 0x205F || u == 0x3000
}

/// The text with its leading whitespace removed.
pub open spec fn trim_front(s: Seq<char>) -> Seq<char>
    decreases s.len(),
{
    if s.len() > 0 && white_space(s[0]) {
        trim_front(s.drop_first())
    } else {
        s
    }
}

/// The text with its trailing whitespace removed.
pub open spec fn trim_back(s: Seq<char>) -> Seq<char>
    decreases s.len(),
{
    if s.len() > 0 && white_space(s[s.len() - 1]) {
        trim_back(s.drop_last())
    } else {
        s
    }
}

/// The text with every space replaced by an underscore.
pub open spec fn underscored(s: Seq<char>) -> Seq<char> {
    s.map_values(|c: char| if c == ' ' { '_' } else { c })
}

/// What `str::to_lowercase` returns for the given characters: a function of
/// its argument alone.
pub uninterp spec fn lower_of(s: Seq<char>) -> Seq<char>;

/// The file name derived from an exercise name: the name trimmed, its inner
/// spaces replaced by underscores and the result lowercased — or the
/// fallback name when the trimmed name is empty.
pub open spec fn derive_filename_spec(s: Seq<char>) -> Seq<char> {
    let trimmed = trim_back(trim_front(s));
    if trimmed.len() == 0 {
        fallback_filename()
    } else {
        lower_of(underscored(trimmed))
    }
}

/// Relies on `str::to_lowercase`: the Unicode lowercase equivalent of the
/// text, a value that depends on the characters alone.
#[verifier::external_body]
fn lowercase(s: &str) -> (r: String)
    ensures
        r@ == lower_of(s@),
{
    s.to_lowercase()
}

fn is_white_space_at(s: &str, n: usize, i: usize) -> (r: bool)
    requires
        n == s@.len(),
        i < n,
    ensures
        r == white_space(s@[i as int]),
{
    let u = s.get_char(i) as u32;
    (9 <= u && u <= 13) || u == 32 || u == 0x85 || u == 0xA0 || u == 0x1680 || (0x2000 <= u && u
        <= 0x200A) || u == 0x2028 || u == 0x2029 || u == 0x202F || u == 0x205F || u == 0x3000
}

/// Derives the default file name for an exercise: trims surrounding
/// whitespace, replaces inner spaces with underscores, lowercases the
/// result, and substitutes the fallback name when nothing remains.
pub fn derive_filename(name: &str) -> (r: String)
    ensures
        r@ == derive_filename_spec(name@),
{
    let n = name.unicode_len();
    let mut start: usize = 0;
    proof {
        assert(name@.skip(0) =~= name@);
    }
    while start < n && is_white_space_at(name, n, start)
        invariant
            n == name@.len(),
            0 <= start <= n,
            trim_front(name@) == trim_front(name@.skip(start as int)),
        decreases n - start,
    {
        proof {
            let t = name@.skip(start as int);
            assert(t[0] == name@[start as int]);
            assert(white_space(t[0]));
            assert(t.drop_first() =~= name@.skip(start + 1));
        }
        start = start + 1;
    }
    proof {
        if start < n {
            assert(!white_space(name@.skip(start as int)[0]));
        }
        assert(trim_front(name@) == name@.skip(start as int));
    }
    let ghost t = name@.skip(start as int);
    let mut end: usize = n;
    proof {
        assert(t.take(n - start as int) =~= t);
    }
    while end > start && is_white_space_at(name, n, end - 1)
        invariant
            n == name@.len(),
            start <= end <= n,
            t == name@.skip(start as int),
            trim_back(t) == trim_back(t.take(end - start as int)),
        decreases end,
    {
        proof {
            let u = t.take(end - start as int);
            assert(u[u.len() - 1] == name@[end - 1]);
            assert(white_space(u[u.len() - 1]));
            assert(u.drop_last() =~= t.take(end - 1 - start as int));
        }
        end = end - 1;
    }
    proof {
        let u = t.take(end - start as int);
        if end > start {
            assert(u[u.len() - 1] == name@[end - 1]);
            assert(!white_space(u[u.len() - 1]));
        }
        assert(trim_back(t) == u);
    }
    let ghost trimmed = trim_back(trim_front(name@));
    if start == end {
        proof {
            assert(trimmed.len() == 0);
            reveal_strlit("unnamed_exercise");
        }
        let r = String::from_str("unnamed_exercise");
        return r;
    }
    let mut core = String::new();
    let mut k = start;
    while k < end
        invariant
            n == name@.len(),
            start <= k <= end <= n,
            trimmed == name@.skip(start as int).take(end - start as int),
            trimmed.len() == end - start,
            core@ == underscored(trimmed.take(k - start as int)),
        decreases end - k,
    {
        let c = name.get_char(k);
        let mc = if c == ' ' {
            '_'
        } else {
            c
        };
        push_char(&mut core, mc);
        proof {
            assert(trimmed[k - start as int] == name@[k as int]);
            assert(underscored(trimmed.take(k + 1 - start as int)) =~= underscored(
                trimmed.take(k - start as int),
            ).push(mc));
        }
        k = k + 1;
    }
    proof {
        assert(trimmed.take(end - start as int) =~= trimmed);
        assert(core@ == underscored(trimmed));
    }
    lowercase(core.as_str())
}

} // verus!
