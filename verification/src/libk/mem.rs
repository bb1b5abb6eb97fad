//! The freestanding memory primitives, on byte buffers: copy, overlapping
//! move, fill and compare.
use vstd::prelude::*;

verus! {

/// Copies the first `n` bytes of `src` into the first `n` bytes of `dest`.
pub fn memcpy(dest: &mut Vec<u8>, src: &Vec<u8>, n: usize)
    requires
        n <= old(dest)@.len(),
        n <= src@.len(),
    ensures
        final(dest)@ == src@.subrange(0, n as int) + old(dest)@.subrange(n as int, old(dest)@.len() as int),
{
    let mut i: usize = 0;
    while i < n
        invariant
            i <= n,
            n <= src@.len(),
            n <= old(dest)@.len(),
            dest@.len() == old(dest)@.len(),
            forall|k: int| 0 <= k < i ==> #[trigger] dest@[k] == src@[k],
            forall|k: int| i <= k < dest@.len() ==> #[trigger] dest@[k] == old(dest)@[k],
        decreases n - i,
    {
        dest.set(i, src[i]);
        i = i + 1;
    }
    assert(dest@ =~= src@.subrange(0, n as int) + old(dest)@.subrange(n as int, old(dest)@.len() as int));
}

/// The buffer after the `n` bytes at `src` are moved to `dest`: the bytes
/// at `dest` are those that were at `src` before the move, whatever the
/// overlap; the rest of the buffer is unchanged.
pub open spec fn moved(buf: Seq<u8>, dest: int, src: int, n: int) -> Seq<u8> {
    Seq::new(buf.len(), |k: int| if dest <= k < dest + n { buf[src + (k - dest)] } else { buf[k] })
}

/// Moves `n` bytes inside one buffer from offset `src` to offset `dest`;
/// the two ranges may overlap. Copies forward when `dest` comes first and
/// backward otherwise, so that no byte is overwritten before it is read.
pub fn memmove(buf: &mut Vec<u8>, dest: usize, src: usize, n: usize)
    requires
        dest + n <= old(buf)@.len(),
        src + n <= old(buf)@.len(),
    ensures
        final(buf)@ == moved(old(buf)@, dest as int, src as int, n as int),
{
    let ghost b0 = buf@;
    let len: usize = buf.len();
    if dest <= src {
        let mut i: usize = 0;
        while i < n
            invariant
                i <= n,
                dest <= src,
                dest + n <= b0.len(),
                src + n <= b0.len(),
                buf@.len() == b0.len(),
                len == b0.len(),
                forall|k: int| dest <= k < dest + i ==> #[trigger] buf@[k] == b0[src + (k - dest)],
                forall|k: int| 0 <= k < buf@.len() && !(dest <= k < dest + i) ==> #[trigger] buf@[k] == b0[k],
            decreases n - i,
        {
            let v = buf[src + i];
            buf.set(dest + i, v);
            i = i + 1;
        }
    } else {
        let mut m: usize = n;
        while m > 0
            invariant
                m <= n,
                src < dest,
                dest + n <= b0.len(),
                src + n <= b0.len(),
                buf@.len() == b0.len(),
                len == b0.len(),
                forall|k: int| dest + m <= k < dest + n ==> #[trigger] buf@[k] == b0[src + (k - dest)],
                forall|k: int| 0 <= k < buf@.len() && !(dest + m <= k < dest + n) ==> #[trigger] buf@[k] == b0[k],
            decreases m,
        {
            m = m - 1;
            let v = buf[src + m];
            buf.set(dest + m, v);
        }
    }
    assert(buf@ =~= moved(b0, dest as int, src as int, n as int));
}

/// Sets the first `n` bytes of `dest` to the low byte of `c`.
pub fn memset(dest: &mut Vec<u8>, c: i32, n: usize)
    requires
        n <= old(dest)@.len(),
    ensures
        final(dest)@ == Seq::new(n as nat, |k: int| c as u8) + old(dest)@.subrange(n as int, old(dest)@.len() as int),
{
    let byte: u8 = c as u8;
    let mut i: usize = 0;
    while i < n
        invariant
            i <= n,
            byte == c as u8,
            dest@.len() == old(dest)@.len(),
            n <= dest@.len(),
            forall|k: int| 0 <= k < i ==> #[trigger] dest@[k] == byte,
            forall|k: int| i <= k < dest@.len() ==> #[trigger] dest@[k] == old(dest)@[k],
        decreases n - i,
    {
        dest.set(i, byte);
        i = i + 1;
    }
    assert(dest@ =~= Seq::new(n as nat, |k: int| c as u8) + old(dest)@.subrange(n as int, old(dest)@.len() as int));
}

/// The index of the first of the first `n` bytes where `a` and `b`
/// differ, or `n` where they agree.
pub open spec fn first_difference(a: Seq<u8>, b: Seq<u8>, n: int) -> int
    decreases n,
{
    if n <= 0 {
        0
    } else if first_difference(a, b, n - 1) < n - 1 {
        first_difference(a, b, n - 1)
    } else if a[n - 1] != b[n - 1] {
        n - 1
    } else {
        n
    }
}

/// What comparing the first `n` bytes gives: the difference of the first
/// pair that differs, or 0.
pub open spec fn compared(a: Seq<u8>, b: Seq<u8>, n: usize) -> int {
    let d = first_difference(a, b, n as int);
    if d < n { a[d] as int - b[d] as int } else { 0 }
}

/// The first `n` bytes of `a` and `b` agree.
pub open spec fn same_prefix(a: Seq<u8>, b: Seq<u8>, n: usize) -> bool {
    a.subrange(0, n as int) == b.subrange(0, n as int)
}

/// `first_difference` at a machine index.
pub open spec fn differs_first_at(a: Seq<u8>, b: Seq<u8>, n: usize) -> int {
    first_difference(a, b, n as int)
}

proof fn lemma_first_difference(a: Seq<u8>, b: Seq<u8>, n: int)
    requires
        0 <= n,
    ensures
        0 <= first_difference(a, b, n) <= n,
        forall|k: int| 0 <= k < first_difference(a, b, n) ==> a[k] == b[k],
        first_difference(a, b, n) < n ==> a[first_difference(a, b, n)] != b[first_difference(a, b, n)],
    decreases n,
{
    if n > 0 {
        lemma_first_difference(a, b, n - 1);
    }
}

proof fn lemma_first_difference_prefix(a: Seq<u8>, b: Seq<u8>, i: int, n: int)
    requires
        0 <= i < n,
        first_difference(a, b, i) == i,
        a[i] != b[i],
    ensures
        first_difference(a, b, n) == i,
    decreases n - i,
{
    if n > i + 1 {
        lemma_first_difference_prefix(a, b, i, n - 1);
    }
}

proof fn lemma_found(a: Seq<u8>, b: Seq<u8>, i: usize, n: usize)
    requires
        i < n,
        n <= a.len(),
        n <= b.len(),
        differs_first_at(a, b, i) == i,
        a[i as int] != b[i as int],
    ensures
        compared(a, b, n) == a[i as int] as int - b[i as int] as int,
        !same_prefix(a, b, n),
{
    lemma_first_difference_prefix(a, b, i as int, n as int);
    assert(a.subrange(0, n as int)[i as int] != b.subrange(0, n as int)[i as int]);
}

proof fn lemma_step(a: Seq<u8>, b: Seq<u8>, i: usize, n: usize)
    requires
        i < n,
        i < a.len(),
        i < b.len(),
        differs_first_at(a, b, i) == i,
        a[i as int] == b[i as int],
    ensures
        differs_first_at(a, b, (i + 1) as usize) == i + 1,
{
}

proof fn lemma_agree(a: Seq<u8>, b: Seq<u8>, n: usize)
    requires
        n <= a.len(),
        n <= b.len(),
        differs_first_at(a, b, n) == n,
    ensures
        compared(a, b, n) == 0,
        same_prefix(a, b, n),
{
    lemma_first_difference(a, b, n as int);
    assert(a.subrange(0, n as int) =~= b.subrange(0, n as int));
}

fn byte_difference(x: u8, y: u8) -> (r: i32)
    ensures
        r == x as int - y as int,
{
    (x as i32) - (y as i32)
}

/// Compares the first `n` bytes of `a` and `b`: the difference of the
/// first pair that differs, or 0 when they all agree.
pub fn memcmp(a: &Vec<u8>, b: &Vec<u8>, n: usize) -> (r: i32)
    requires
        n <= a@.len(),
        n <= b@.len(),
    ensures
        r == compared(a@, b@, n),
        r == 0 <==> same_prefix(a@, b@, n),
{
    let mut i: usize = 0;
    while i < n
        invariant
            i <= n,
            n <= a@.len(),
            n <= b@.len(),
            differs_first_at(a@, b@, i) == i,
        decreases n - i,
    {
        if a[i] != b[i] {
            proof {
                lemma_found(a@, b@, i, n);
            }
            return byte_difference(a[i], b[i]);
        }
        proof {
            lemma_step(a@, b@, i, n);
        }
        i = i + 1;
    }
    proof {
        lemma_agree(a@, b@, n);
    }
    0
}

} // verus!
