//! PEP 503 package-name normalization: lower-case the name and turn every
//! underscore and period into a hyphen. The parse and render operations never
//! call this; callers apply it themselves when comparing package names.

use vstd::prelude::*;

verus! {

/// The lower-case form of one character: an ASCII capital letter is folded to
/// its small form, every other character passes through unchanged.
pub open spec fn lower_char(c: char) -> char {
    if 65 <= c as u32 && c as u32 <= 90 {
        ((c as u32 + 32) as char)
    } else {
        c
    }
}

/// The normalized form of one character: `_` and `.` become `-`, everything
/// else is lower-cased.
pub open spec fn norm_char(c: char) -> char {
    if c == '_' || c == '.' {
        '-'
    } else {
        lower_char(c)
    }
}

/// The normalized form of a name: each character normalized in place, with no
/// collapsing of repeated separators and no trimming.
pub open spec fn normalized(s: Seq<char>) -> Seq<char> {
    s.map_values(|c: char| norm_char(c))
}

fn normalize_char(c: char) -> (r: char)
    ensures
        r == norm_char(c),
{
    if c == '_' || c == '.' {
        '-'
    } else {
        let u = c as u32;
        if 65 <= u && u <= 90 {
            ((u + 32) as u8) as char
        } else {
            c
        }
    }
}

/// Normalizes a package name for comparison across index boundaries:
/// lower-cases it and replaces every `_` and `.` with `-`.
pub fn normalize(name: &str) -> (r: String)
    ensures
        r@ == normalized(name@),
{
    let n = name.unicode_len();
    let mut out = String::new();
    let mut i: usize = 0;
    while i < n
        invariant
            n == name@.len(),
            i <= n,
            out@ == normalized(name@).take(i as int),
        decreases n - i,
    {
        let c = name.get_char(i);
        let d = normalize_char(c);
        push_char(&mut out, d);
        proof {
            assert(out@ =~= normalized(name@).take(i + 1));
        }
        i = i + 1;
    }
    proof {
        assert(out@ =~= normalized(name@));
    }
    out
}

/// Relies on String::push: appends the given character to the end of the
/// string.
#[verifier::external_body]
fn push_char(s: &mut String, c: char)
    ensures
        final(s)@ == old(s)@.push(c),
{
    s.push(c);
}

/// Normalization is idempotent: normalizing an already-normalized name
/// changes nothing.
pub proof fn lemma_normalize_idempotent(s: Seq<char>)
    ensures
        normalized(normalized(s)) == normalized(s),
{
    assert forall|c: char| #[trigger] norm_char(norm_char(c)) == norm_char(c) by {
        lemma_norm_char_idempotent(c);
    }
    assert(normalized(normalized(s)) =~= normalized(s));
}

proof fn lemma_norm_char_idempotent(c: char)
    ensures
        norm_char(norm_char(c)) == norm_char(c),
{
    vstd::utf8::char_is_scalar(c);
}

} // verus!
