//! Reversal of a string by characters.
use vstd::prelude::*;
use vstd::utf8::encode_utf8;

verus! {

/// `String::push` appends one character to the end of the string.
pub assume_specification[ String::push ](string: &mut String, ch: char)
    ensures
        final(string)@ == old(string)@.push(ch),
;

/// The number of bytes that the UTF-8 encoding of `chars` takes.
pub open spec fn utf8_len(chars: Seq<char>) -> nat {
    encode_utf8(chars).len()
}

/// UTF-8 encodes a concatenation piece by piece.
proof fn lemma_encode_utf8_concat(a: Seq<char>, b: Seq<char>)
    ensures
        encode_utf8(a + b) == encode_utf8(a) + encode_utf8(b),
    decreases a.len(),
{
    if a.len() == 0 {
        assert(a + b =~= b);
        assert(encode_utf8(a) =~= Seq::<u8>::empty());
        assert(encode_utf8(a) + encode_utf8(b) =~= encode_utf8(b));
    } else {
        assert((a + b).drop_first() =~= a.drop_first() + b);
        assert((a + b)[0] == a[0]);
        lemma_encode_utf8_concat(a.drop_first(), b);
        assert(encode_utf8(a + b) =~= encode_utf8(a) + encode_utf8(b));
    }
}

/// Reversing a sequence of characters does not change the length of its
/// UTF-8 encoding.
pub proof fn lemma_reverse_keeps_utf8_len(chars: Seq<char>)
    ensures
        utf8_len(chars.reverse()) == utf8_len(chars),
    decreases chars.len(),
{
    if chars.len() > 0 {
        let rest = chars.drop_first();
        let head = seq![chars[0]];
        assert(chars.reverse() =~= rest.reverse() + head);
        assert(chars =~= head + rest);
        lemma_encode_utf8_concat(rest.reverse(), head);
        lemma_encode_utf8_concat(head, rest);
        lemma_reverse_keeps_utf8_len(rest);
    }
}

/// Reversing a string twice gives back the string it started from.
pub proof fn lemma_reverse_twice(chars: Seq<char>)
    ensures
        chars.reverse().reverse() == chars,
{
    assert(chars.reverse().reverse() =~= chars);
}

/// A reversed string holds the same characters as the original, each as
/// many times; in particular it holds a given character (such as NUL) if
/// and only if the original does.
pub proof fn lemma_reverse_same_chars(chars: Seq<char>, c: char)
    ensures
        chars.reverse().to_multiset() == chars.to_multiset(),
        chars.reverse().contains(c) <==> chars.contains(c),
{
    chars.lemma_reverse_to_multiset();
    if chars.contains(c) {
        let i = choose|i: int| 0 <= i < chars.len() && chars[i] == c;
        assert(chars.reverse()[chars.len() - 1 - i] == c);
    }
    if chars.reverse().contains(c) {
        let i = choose|i: int| 0 <= i < chars.len() && chars.reverse()[i] == c;
        assert(chars[chars.len() - 1 - i] == c);
    }
}

/// Returns `input` with its characters (Unicode scalar values) in reverse
/// order. The result takes as many bytes in UTF-8 as `input` does.
pub fn reverse_string(input: &str) -> (reversed: String)
    ensures
        reversed@ == input@.reverse(),
        utf8_len(reversed@) == utf8_len(input@),
{
    let mut chars: Vec<char> = Vec::new();
    for c in it: input.chars()
        invariant
            chars@ == it.seq().take(it.index() as int),
    {
        chars.push(c);
    }
    let ghost source = chars@;
    let n = chars.len();
    let mut reversed = String::new();
    let mut k: usize = 0;
    while k < n
        invariant
            n == chars.len(),
            chars@ == source,
            k <= n,
            reversed@ == source.reverse().take(k as int),
        decreases n - k,
    {
        let c = chars[n - 1 - k];
        reversed.push(c);
        assert(source.reverse().take(k + 1) =~= source.reverse().take(k as int).push(c));
        k = k + 1;
    }
    assert(source.reverse().take(n as int) =~= source.reverse());
    proof {
        lemma_reverse_keeps_utf8_len(input@);
    }
    reversed
}

} // verus!
