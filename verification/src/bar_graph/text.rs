//! Building text one character at a time.

use vstd::prelude::*;

verus! {

/// `String::push` appends one character. The standard library documents it
/// so; the contract is taken on trust.
pub assume_specification[ String::push ](s: &mut String, c: char)
    ensures
        final(s)@ == old(s)@.push(c),
;

/// The character `c`, `n` times.
pub open spec fn repeated(c: char, n: nat) -> Seq<char> {
    Seq::new(n, |i: int| c)
}

/// Appends `c` to `out`, `n` times.
pub fn push_repeated(out: &mut String, c: char, n: usize)
    ensures
        final(out)@ == old(out)@ + repeated(c, n as nat),
{
    let mut done: usize = 0;
    while done < n
        invariant
            done <= n,
            out@ == old(out)@ + repeated(c, done as nat),
        decreases n - done,
    {
        out.push(c);
        done = done + 1;
        assert(out@ =~= old(out)@ + repeated(c, done as nat));
    }
}

} // verus!
