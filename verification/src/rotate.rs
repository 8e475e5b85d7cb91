//! Rotation of a sequence of elements to the right.
use vstd::prelude::*;

verus! {

/// `s` rotated `k` places to the right: the last `k` elements move, in
/// order, to the front.
pub open spec fn rotated_right<T>(s: Seq<T>, k: int) -> Seq<T>
    recommends
        0 <= k <= s.len(),
{
    s.subrange(s.len() - k, s.len() as int) + s.subrange(0, s.len() - k)
}

/// Element `i` of `s` rotated `k` places lands at position `(i + k) mod n`.
pub proof fn lemma_rotated_right_index<T>(s: Seq<T>, k: int, i: int)
    requires
        0 <= k <= s.len(),
        0 <= i < s.len(),
    ensures
        rotated_right(s, k).len() == s.len(),
        rotated_right(s, k)[(i + k) % (s.len() as int)] == s[i],
{
    let n = s.len() as int;
    if i + k < n {
        assert((i + k) % n == i + k) by (nonlinear_arith)
            requires
                0 <= i + k < n,
        ;
    } else {
        assert((i + k) % n == i + k - n) by (nonlinear_arith)
            requires
                n <= i + k < 2 * n,
        ;
    }
}

/// Rotating by `a` and then by `b` is rotating by `a + b`, taken modulo the
/// length.
pub proof fn lemma_rotate_right_compose<T>(s: Seq<T>, a: int, b: int)
    requires
        s.len() > 0,
        0 <= a <= s.len(),
        0 <= b <= s.len(),
    ensures
        rotated_right(rotated_right(s, a), b) == rotated_right(s, (a + b) % (s.len() as int)),
{
    let n = s.len() as int;
    let c = (a + b) % n;
    assert(0 <= c < n) by (nonlinear_arith)
        requires
            n > 0,
            c == (a + b) % n,
    ;
    let lhs = rotated_right(rotated_right(s, a), b);
    let rhs = rotated_right(s, c);
    assert forall|j: int| 0 <= j < n implies lhs[j] == rhs[j] by {
        // position j of the result holds the element that started at (j - a - b) mod n
        let i = (j + 2 * n - a - b) % n;
        assert(0 <= i < n) by (nonlinear_arith)
            requires
                n > 0,
                i == (j + 2 * n - a - b) % n,
        ;
        let m = (i + a) % n;
        assert(0 <= m < n) by (nonlinear_arith)
            requires
                n > 0,
                m == (i + a) % n,
        ;
        lemma_rotated_right_index(s, a, i);
        lemma_rotated_right_index(rotated_right(s, a), b, m);
        lemma_rotated_right_index(s, c, i);
        assert((m + b) % n == j) by (nonlinear_arith)
            requires
                n > 0,
                0 <= j < n,
                0 <= a <= n,
                0 <= b <= n,
                i == (j + 2 * n - a - b) % n,
                m == (i + a) % n,
        ;
        assert((i + c) % n == j) by (nonlinear_arith)
            requires
                n > 0,
                0 <= j < n,
                0 <= a <= n,
                0 <= b <= n,
                i == (j + 2 * n - a - b) % n,
                c == (a + b) % n,
        ;
    }
    assert(lhs =~= rhs);
}

/// Rotating by nothing, or by the whole length, leaves the sequence as it is.
pub proof fn lemma_rotate_right_whole<T>(s: Seq<T>)
    ensures
        rotated_right(s, 0) == s,
        rotated_right(s, s.len() as int) == s,
{
    assert(rotated_right(s, 0) =~= s);
    assert(rotated_right(s, s.len() as int) =~= s);
}

/// Rotating by `k` and then by `n - k` gives back the original sequence.
pub proof fn lemma_rotate_right_undo<T>(s: Seq<T>, k: int)
    requires
        0 <= k <= s.len(),
    ensures
        rotated_right(rotated_right(s, k), s.len() - k) == s,
{
    let n = s.len() as int;
    if n == 0 {
        assert(rotated_right(s, k) =~= s);
        lemma_rotate_right_whole(s);
    } else {
        lemma_rotate_right_compose(s, k, n - k);
        assert((k + (n - k)) % n == 0) by (nonlinear_arith)
            requires
                n > 0,
        ;
        lemma_rotate_right_whole(s);
    }
}

/// A rotation only moves elements: it keeps each of them, as many times.
pub proof fn lemma_rotate_right_permutes<T>(s: Seq<T>, k: int)
    requires
        0 <= k <= s.len(),
    ensures
        rotated_right(s, k).len() == s.len(),
        rotated_right(s, k).to_multiset() == s.to_multiset(),
{
    let front = s.subrange(s.len() - k, s.len() as int);
    let back = s.subrange(0, s.len() - k);
    vstd::seq_lib::lemma_multiset_commutative(front, back);
    vstd::seq_lib::lemma_multiset_commutative(back, front);
    assert(back + front =~= s);
}

/// `s` rotated one place to the right, `m` times over.
pub open spec fn rotated_right_times<T>(s: Seq<T>, m: nat) -> Seq<T>
    decreases m,
{
    if m == 0 {
        s
    } else {
        rotated_right(rotated_right_times(s, (m - 1) as nat), 1)
    }
}

/// Rotating one place `m` times is rotating `m` places, taken modulo the
/// length.
proof fn lemma_rotated_right_times_mod<T>(s: Seq<T>, m: nat)
    requires
        s.len() > 0,
    ensures
        rotated_right_times(s, m) == rotated_right(s, (m % s.len()) as int),
    decreases m,
{
    let n = s.len() as int;
    if m == 0 {
        lemma_rotate_right_whole(s);
    } else {
        let p = ((m - 1) as nat % s.len()) as int;
        lemma_rotated_right_times_mod(s, (m - 1) as nat);
        assert(0 <= p < n) by (nonlinear_arith)
            requires
                n > 0,
                n == s.len(),
                m > 0,
                p == ((m - 1) as nat % s.len()) as int,
        ;
        lemma_rotate_right_compose(s, p, 1);
        assert((p + 1) % n == m % s.len()) by (nonlinear_arith)
            requires
                n > 0,
                n == s.len(),
                m > 0,
                p == ((m - 1) as nat % s.len()) as int,
        ;
    }
}

/// Rotating one place `m` times is rotating `m` places, taken modulo the
/// length; in particular, rotating a non-empty sequence one place as many
/// times as it has elements gives it back unchanged.
pub proof fn lemma_rotate_right_repeated<T>(s: Seq<T>, m: nat)
    requires
        s.len() > 0,
    ensures
        rotated_right_times(s, m) == rotated_right(s, (m % s.len()) as int),
        rotated_right_times(s, s.len()) == s,
{
    lemma_rotated_right_times_mod(s, m);
    lemma_rotated_right_times_mod(s, s.len());
    assert(s.len() % s.len() == 0) by (nonlinear_arith)
        requires
            s.len() > 0,
    ;
    lemma_rotate_right_whole(s);
}

/// Rotates `data` in place `k` places to the right.
pub fn rotate_right<T: Copy>(data: &mut Vec<T>, k: usize)
    requires
        k <= old(data).len(),
    ensures
        final(data)@ == rotated_right(old(data)@, k as int),
{
    let n = data.len();
    let mut saved: Vec<T> = Vec::new();
    let mut i: usize = 0;
    while i < n
        invariant
            n == data.len(),
            i <= n,
            saved@ == data@.take(i as int),
        decreases n - i,
    {
        let x = data[i];
        saved.push(x);
        assert(data@.take(i + 1) =~= data@.take(i as int).push(x));
        i = i + 1;
    }
    assert(saved@ =~= data@);
    let ghost target = rotated_right(saved@, k as int);
    let mut j: usize = 0;
    while j < n
        invariant
            n == data.len(),
            n == saved.len(),
            k <= n,
            j <= n,
            target == rotated_right(saved@, k as int),
            forall|p: int| 0 <= p < j ==> data@[p] == target[p],
        decreases n - j,
    {
        let x = if j < k {
            saved[n - k + j]
        } else {
            saved[j - k]
        };
        data.set(j, x);
        j = j + 1;
    }
    assert(data@ =~= target);
}

/// Rotates an array of integers one place to the right: the last element
/// comes first and every other one moves up by one.
pub fn rotate_array(values: &mut Vec<i64>)
    requires
        old(values).len() > 0,
    ensures
        final(values)@ == rotated_right(old(values)@, 1),
        final(values).len() == old(values).len(),
        final(values)@[0] == old(values)@.last(),
        forall|i: int| 0 <= i < old(values).len() - 1 ==> final(values)@[i + 1] == old(values)@[i],
{
    rotate_right(values, 1);
}

/// Rotates the bytes of a buffer one place to the right, in place: the last
/// byte comes first and every other one moves up by one.
pub fn rotate_shared_buffer(buffer: &mut Vec<u8>)
    requires
        old(buffer).len() > 0,
    ensures
        final(buffer)@ == rotated_right(old(buffer)@, 1),
        final(buffer).len() == old(buffer).len(),
        final(buffer)@[0] == old(buffer)@.last(),
        forall|i: int| 0 <= i < old(buffer).len() - 1 ==> final(buffer)@[i + 1] == old(buffer)@[i],
{
    rotate_right(buffer, 1);
}

} // verus!
