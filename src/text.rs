//! Character-level access to text: decoding and appending.

use vstd::prelude::*;
use vstd::std_specs::iter::IteratorSpec;

verus! {

broadcast use vstd::string::group_string_axioms;

/// The characters of `s`, decoded once so that they can be indexed.
pub(crate) fn to_chars(s: &str) -> (r: Vec<char>)
    ensures
        r@ == s@,
{
    let mut v: Vec<char> = Vec::new();
    let mut it = s.chars();
    loop
        invariant
            v@ + it.remaining() == s@,
            it.obeys_prophetic_iter_laws(),
            it.decrease() is Some,
        ensures
            v@ == s@,
        decreases it.decrease()->0,
    {
        match it.next() {
            Some(c) => {
                v.push(c);
                assert(v@ + it.remaining() =~= s@);
            },
            None => {
                assert(v@ =~= s@);
                break;
            },
        }
    }
    v
}

/// Relies on std's `String::push`: appends one character.
#[verifier::external_body]
pub(crate) fn push_char(s: &mut String, c: char)
    ensures
        final(s)@ == old(s)@.push(c),
{
    s.push(c)
}

/// Appends the characters `t[from..to]` to `s`.
pub(crate) fn push_range(s: &mut String, t: &[char], from: usize, to: usize)
    requires
        from <= to <= t@.len(),
    ensures
        final(s)@ == old(s)@ + t@.subrange(from as int, to as int),
{
    let mut k: usize = from;
    while k < to
        invariant
            from <= k <= to <= t@.len(),
            s@ == old(s)@ + t@.subrange(from as int, k as int),
        decreases to - k,
    {
        push_char(s, t[k]);
        k = k + 1;
        assert(s@ =~= old(s)@ + t@.subrange(from as int, k as int));
    }
}

} // verus!
