//! Octonions laid out as flat buffers of components, eight per octonion.

use vstd::prelude::*;
use crate::octonion::{Octonion, components, from_components};
use crate::text::{ascii_chars, decimal, usize_to_string};

verus! {

/// The components of all octonions, eight per octonion, in order.
pub open spec fn flatten<T>(s: Seq<Octonion<T>>) -> Seq<T>
    decreases s.len(),
{
    if s.len() == 0 {
        Seq::empty()
    } else {
        flatten(s.drop_last()) + components(s.last())
    }
}

/// The octonions read from consecutive groups of eight components (a final
/// group of fewer than eight is ignored).
pub open spec fn unflatten<T>(flat: Seq<T>) -> Seq<Octonion<T>> {
    Seq::new(flat.len() / 8, |i: int| from_components(flat.subrange(8 * i, 8 * i + 8)))
}

/// The message for a buffer whose length is not a multiple of eight.
pub open spec fn flat_length_message(len: nat) -> Seq<char> {
    "flat buffer length "@ + ascii_chars(decimal(len)) + " is not a multiple of 8"@
}

/// A flat buffer has eight components per octonion, and the group at
/// position `i` is the components of the octonion at position `i`.
pub proof fn lemma_flatten_groups<T>(s: Seq<Octonion<T>>)
    ensures
        flatten(s).len() == 8 * s.len(),
        forall|i: int| 0 <= i < s.len() ==> #[trigger] flatten(s).subrange(8 * i, 8 * i + 8) == components(s[i]),
    decreases s.len(),
{
    if s.len() > 0 {
        let t = s.drop_last();
        lemma_flatten_groups(t);
        assert forall|i: int| 0 <= i < s.len() implies #[trigger] flatten(s).subrange(8 * i, 8 * i + 8)
            == components(s[i]) by {
            if i < t.len() {
                assert(flatten(s).subrange(8 * i, 8 * i + 8) =~= flatten(t).subrange(8 * i, 8 * i + 8));
            } else {
                assert(flatten(s).subrange(8 * i, 8 * i + 8) =~= components(s.last()));
            }
        }
    }
}

/// Flattening and reading back gives the same octonions.
pub proof fn law_flat_roundtrip<T>(s: Seq<Octonion<T>>)
    ensures
        unflatten(flatten(s)) == s,
        flatten(s).len() % 8 == 0,
{
    lemma_flatten_groups(s);
    let u = unflatten(flatten(s));
    assert forall|i: int| 0 <= i < s.len() implies #[trigger] u[i] == s[i] by {
        assert(flatten(s).subrange(8 * i, 8 * i + 8) == components(s[i]));
    }
    assert(u =~= s);
}

/// The components of the octonions, eight per octonion, in order.
pub fn octonions_to_flat<T: Copy>(octs: &[Octonion<T>]) -> (buf: Vec<T>)
    ensures
        buf@ == flatten(octs@),
{
    let mut buf: Vec<T> = Vec::new();
    let mut i: usize = 0;
    while i < octs.len()
        invariant
            i <= octs@.len(),
            buf@ == flatten(octs@.subrange(0, i as int)),
        decreases octs@.len() - i,
    {
        let o = octs[i];
        let ghost before = buf@;
        buf.push(o.r);
        buf.push(o.e1);
        buf.push(o.e2);
        buf.push(o.e3);
        buf.push(o.e4);
        buf.push(o.e5);
        buf.push(o.e6);
        buf.push(o.e7);
        proof {
            let next = octs@.subrange(0, i + 1);
            assert(next.drop_last() =~= octs@.subrange(0, i as int));
            assert(next.last() == o);
            assert(buf@ =~= before + components(o));
        }
        i = i + 1;
    }
    assert(octs@.subrange(0, i as int) =~= octs@);
    buf
}

/// The octonions in a flat buffer, or a message when its length is not a
/// multiple of eight.
pub fn flat_to_octonions<T: Copy>(flat: &[T]) -> (r: Result<Vec<Octonion<T>>, String>)
    ensures
        match r {
            Ok(v) => flat@.len() % 8 == 0 && v@ == unflatten(flat@),
            Err(m) => flat@.len() % 8 != 0 && m@ == flat_length_message(flat@.len()),
        },
{
    if flat.len() % 8 != 0 {
        let mut m = String::from_str("flat buffer length ");
        let n = usize_to_string(flat.len());
        m.append(n.as_str());
        m.append(" is not a multiple of 8");
        return Err(m);
    }
    let len = flat.len();
    let n = len / 8;
    let mut out: Vec<Octonion<T>> = Vec::new();
    let mut i: usize = 0;
    while i < n
        invariant
            i <= n,
            n == flat@.len() / 8,
            8 * n == flat@.len(),
            len == flat@.len(),
            out@ == unflatten(flat@).subrange(0, i as int),
        decreases n - i,
    {
        let base = i * 8;
        let arr: [T; 8] = [
            flat[base],
            flat[base + 1],
            flat[base + 2],
            flat[base + 3],
            flat[base + 4],
            flat[base + 5],
            flat[base + 6],
            flat[base + 7],
        ];
        assert(arr@ =~= flat@.subrange(8 * i, 8 * i + 8));
        let o = Octonion::from_array(arr);
        out.push(o);
        i = i + 1;
        assert(out@ =~= unflatten(flat@).subrange(0, i as int));
    }
    assert(unflatten(flat@).subrange(0, i as int) =~= unflatten(flat@));
    Ok(out)
}

} // verus!
