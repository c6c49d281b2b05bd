//! Small verified helpers for assembling replacement text as byte vectors.

use vstd::prelude::*;

verus! {

/// `n` space bytes.
pub open spec fn spec_spaces(n: int) -> Seq<u8> {
    Seq::new(if n >= 0 { n as nat } else { 0nat }, |i: int| 32u8)
}

/// The indent unit is four spaces; one indent prefix is `level` units.
pub open spec fn spec_indent(level: int) -> Seq<u8> {
    spec_spaces(4 * level)
}

/// A single line break.
pub open spec fn spec_lb() -> Seq<u8> {
    seq![10u8]
}

/// Appends `count` space bytes.
pub fn push_spaces(out: &mut Vec<u8>, count: usize)
    ensures
        final(out)@ == old(out)@ + spec_spaces(count as int),
{
    let mut i: usize = 0;
    while i < count
        invariant
            0 <= i <= count,
            out@ == old(out)@ + spec_spaces(i as int),
        decreases count - i,
    {
        out.push(32);
        proof {
            assert(spec_spaces(i + 1) == spec_spaces(i as int).push(32u8));
        }
        i += 1;
    }
    proof {
        assert(out@ == old(out)@ + spec_spaces(count as int));
    }
}

/// Appends the indent prefix for `level` nesting levels.
pub fn push_indent(out: &mut Vec<u8>, level: usize)
    ensures
        final(out)@ == old(out)@ + spec_indent(level as int),
{
    let mut j: usize = 0;
    while j < level
        invariant
            0 <= j <= level,
            out@ == old(out)@ + spec_spaces(4 * j),
        decreases level - j,
    {
        push_spaces(out, 4);
        proof {
            assert(out@ =~= old(out)@ + spec_spaces(4 * (j + 1)));
        }
        j += 1;
    }
    proof {
        assert(out@ == old(out)@ + spec_indent(level as int));
    }
}

/// Appends one line break.
pub fn push_lb(out: &mut Vec<u8>)
    ensures
        final(out)@ == old(out)@ + spec_lb(),
{
    out.push(10);
    proof {
        assert(old(out)@ + spec_lb() == old(out)@.push(10u8));
    }
}

/// Appends the bytes of `buf` in `[a, b)`.
pub fn push_range(out: &mut Vec<u8>, buf: &Vec<u8>, a: usize, b: usize)
    requires
        a <= b <= buf@.len(),
    ensures
        final(out)@ == old(out)@ + buf@.subrange(a as int, b as int),
{
    let mut i: usize = a;
    while i < b
        invariant
            a <= i <= b <= buf@.len(),
            out@ == old(out)@ + buf@.subrange(a as int, i as int),
        decreases b - i,
    {
        out.push(buf[i]);
        proof {
            assert(buf@.subrange(a as int, i + 1)
                == buf@.subrange(a as int, i as int).push(buf@[i as int]));
        }
        i += 1;
    }
}

/// Appends all of another byte vector.
pub fn push_all(out: &mut Vec<u8>, other: &Vec<u8>)
    ensures
        final(out)@ == old(out)@ + other@,
{
    let n = other.len();
    push_range(out, other, 0, n);
    proof {
        assert(other@.subrange(0, n as int) == other@);
    }
}

/// Appends one byte.
pub fn push1(out: &mut Vec<u8>, a: u8)
    ensures
        final(out)@ == old(out)@ + seq![a],
{
    out.push(a);
    proof {
        assert(old(out)@ + seq![a] =~= old(out)@.push(a));
    }
}

/// Appends two bytes.
pub fn push2(out: &mut Vec<u8>, a: u8, b: u8)
    ensures
        final(out)@ == old(out)@ + seq![a, b],
{
    out.push(a);
    out.push(b);
    proof {
        assert(old(out)@ + seq![a, b] =~= old(out)@.push(a).push(b));
    }
}

/// Appends three bytes.
pub fn push3(out: &mut Vec<u8>, a: u8, b: u8, c: u8)
    ensures
        final(out)@ == old(out)@ + seq![a, b, c],
{
    out.push(a);
    out.push(b);
    out.push(c);
    proof {
        assert(old(out)@ + seq![a, b, c] =~= old(out)@.push(a).push(b).push(c));
    }
}

/// Whether a buffer range contains a line break.
pub open spec fn spec_has_lb(buf: Seq<u8>, a: int, b: int) -> bool {
    exists|i: int| a <= i < b && buf[i] == 10
}

/// Reports whether the bytes in `[a, b)` contain a line break.
pub fn has_lb(buf: &Vec<u8>, a: usize, b: usize) -> (r: bool)
    requires
        a <= b <= buf@.len(),
    ensures
        r == spec_has_lb(buf@, a as int, b as int),
{
    let mut i: usize = a;
    while i < b
        invariant
            a <= i <= b <= buf@.len(),
            forall|k: int| a <= k < i ==> buf@[k] != 10,
        decreases b - i,
    {
        if buf[i] == 10 {
            return true;
        }
        i += 1;
    }
    false
}


/// The bytes of `acc` with `[a, b)` replaced by `ins`.
pub fn replace_range(acc: &Vec<u8>, a: usize, b: usize, ins: &Vec<u8>) -> (r: Vec<u8>)
    requires
        a <= b <= acc@.len(),
    ensures
        r@ == acc@.take(a as int) + ins@ + acc@.skip(b as int),
{
    let mut out: Vec<u8> = Vec::new();
    push_range(&mut out, acc, 0, a);
    push_all(&mut out, ins);
    let n = acc.len();
    push_range(&mut out, acc, b, n);
    proof {
        assert(acc@.subrange(0, a as int) == acc@.take(a as int));
        assert(acc@.subrange(b as int, n as int) == acc@.skip(b as int));
        assert((acc@.take(a as int) + ins@) + acc@.skip(b as int)
            =~= acc@.take(a as int) + ins@ + acc@.skip(b as int));
    }
    out
}


/// Whether every byte in `[a, b)` is blank: a space, tab, carriage return or
/// line break.
pub open spec fn spec_all_blank(buf: Seq<u8>, a: int, b: int) -> bool {
    forall|i: int| a <= i < b ==> buf[i] == 32 || buf[i] == 9 || buf[i] == 13 || buf[i] == 10
}

/// Reports whether the bytes in `[a, b)` are all blank.
pub fn all_blank(buf: &Vec<u8>, a: usize, b: usize) -> (r: bool)
    requires
        a <= b <= buf@.len(),
    ensures
        r == spec_all_blank(buf@, a as int, b as int),
{
    let mut i: usize = a;
    while i < b
        invariant
            a <= i <= b <= buf@.len(),
            forall|k: int| a <= k < i ==> buf@[k] == 32 || buf@[k] == 9 || buf@[k] == 13
                || buf@[k] == 10,
        decreases b - i,
    {
        let c = buf[i];
        if !(c == 32 || c == 9 || c == 13 || c == 10) {
            return false;
        }
        i += 1;
    }
    true
}

} // verus!
