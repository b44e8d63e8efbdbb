//! Trimming trailing zero bytes.

use vstd::prelude::*;

verus! {

/// The longest prefix of `s` that is empty or ends in a non-zero byte.
pub open spec fn trimmed(s: Seq<u8>) -> Seq<u8>
    decreases s.len(),
{
    if s.len() == 0 {
        s
    } else if s.last() != 0 {
        s
    } else {
        trimmed(s.drop_last())
    }
}

/// `s` with `n` zero bytes appended.
pub open spec fn pad_zeros(s: Seq<u8>, n: nat) -> Seq<u8> {
    s + Seq::new(n, |i: int| 0u8)
}

/// What trimming keeps: a prefix of `s`, which is empty or ends in a non-zero
/// byte, and everything after it in `s` is zero.
pub proof fn lemma_trimmed_shape(s: Seq<u8>)
    ensures
        trimmed(s).len() <= s.len(),
        trimmed(s) =~= s.take(trimmed(s).len() as int),
        trimmed(s).len() == 0 || trimmed(s).last() != 0,
        forall|i: int| trimmed(s).len() <= i < s.len() ==> s[i] == 0,
    decreases s.len(),
{
    if s.len() > 0 && s.last() == 0 {
        lemma_trimmed_shape(s.drop_last());
        assert forall|i: int| trimmed(s).len() <= i < s.len() implies s[i] == 0 by {
            if i < s.len() - 1 {
                assert(s[i] == s.drop_last()[i]);
            }
        }
    }
}

/// Appending zero bytes does not change what trimming keeps.
pub proof fn lemma_trimmed_ignores_appended_zeros(s: Seq<u8>, n: nat)
    ensures
        trimmed(pad_zeros(s, n)) == trimmed(s),
    decreases n,
{
    if n == 0 {
        assert(pad_zeros(s, 0) =~= s);
    } else {
        let p = pad_zeros(s, n);
        assert(p.last() == 0);
        assert(p.drop_last() =~= pad_zeros(s, (n - 1) as nat));
        lemma_trimmed_ignores_appended_zeros(s, (n - 1) as nat);
    }
}

/// The length of `trimmed(input@)`, found by walking back from the end.
fn trimmed_len(input: &[u8]) -> (len: usize)
    ensures
        len == trimmed(input@).len(),
{
    let mut len: usize = input.len();
    assert(input@.take(len as int) =~= input@);
    while len > 0 && input[len - 1] == 0
        invariant
            len <= input@.len(),
            trimmed(input@.take(len as int)) == trimmed(input@),
        decreases len,
    {
        assert(input@.take(len as int).drop_last() =~= input@.take(len - 1));
        len = len - 1;
    }
    proof {
        lemma_trimmed_shape(input@.take(len as int));
    }
    len
}

/// Removes trailing zeros from a byte slice.
///
/// Returns the slice up to and including its last non-zero byte, or an empty
/// slice if every byte is zero or the input is empty.
#[must_use]
pub fn trim_trailing_zeros(input: &[u8]) -> (res: &[u8])
    ensures
        res@ == trimmed(input@),
{
    let len = trimmed_len(input);
    proof {
        lemma_trimmed_shape(input@);
    }
    &input[0..len]
}

/// Removes zero bytes from the right end of `input`, one at a time.
pub fn remove_right_zeros(input: &[u8]) -> (res: &[u8])
    ensures
        res@ == trimmed(input@),
{
    let mut local = input;
    assert(input@.take(input@.len() as int) =~= input@);
    loop
        invariant
            local@ == input@.take(local@.len() as int),
            local@.len() <= input@.len(),
            trimmed(local@) == trimmed(input@),
        ensures
            local@ == trimmed(input@),
        decreases local@.len(),
    {
        if local.is_empty() {
            break;
        } else if local[local.len() - 1] == 0 {
            assert(local@.drop_last() =~= input@.take(local@.len() - 1));
            local = &local[0..local.len() - 1];
        } else {
            break;
        }
    }
    local
}

/// Whether two byte slices hold the same bytes.
pub fn bytes_equal(a: &[u8], b: &[u8]) -> (res: bool)
    ensures
        res == (a@ == b@),
{
    if a.len() != b.len() {
        return false;
    }
    let mut i: usize = 0;
    while i < a.len()
        invariant
            a@.len() == b@.len(),
            i <= a@.len(),
            forall|j: int| 0 <= j < i ==> a@[j] == b@[j],
        decreases a@.len() - i,
    {
        if a[i] != b[i] {
            return false;
        }
        i = i + 1;
    }
    assert(a@ =~= b@);
    true
}

} // verus!
