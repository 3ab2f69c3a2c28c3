//! Byte positions in UTF-8 text: how many bytes characters take, and the
//! prefix of a string that ends at a given byte offset, as slicing a `str`
//! by a byte range gives it.
use vstd::prelude::*;
use vstd::utf8::{encode_scalar, encode_utf8};
use crate::text::{chars_of, string_from_chars};

verus! {

/// The number of bytes of the UTF-8 encoding of `c`.
pub open spec fn char_width(c: char) -> nat {
    if (c as u32) <= 0x7f {
        1
    } else if (c as u32) <= 0x7ff {
        2
    } else if (c as u32) <= 0xffff {
        3
    } else {
        4
    }
}

/// The number of bytes of the UTF-8 encoding of `s`.
pub open spec fn byte_len(s: Seq<char>) -> nat {
    encode_utf8(s).len()
}

/// The encoding of one character takes `char_width` bytes.
proof fn lemma_scalar_width(c: char)
    ensures
        encode_scalar(c as u32).len() == char_width(c),
{
}

/// The encoding of a concatenation is the concatenation of the encodings.
proof fn lemma_encode_concat(a: Seq<char>, b: Seq<char>)
    ensures
        encode_utf8(a + b) == encode_utf8(a) + encode_utf8(b),
    decreases a.len(),
{
    if a.len() == 0 {
        assert(a + b =~= b);
        assert(encode_utf8(a) =~= Seq::<u8>::empty());
        assert(encode_utf8(a) + encode_utf8(b) =~= encode_utf8(b));
    } else {
        lemma_encode_concat(a.drop_first(), b);
        assert((a + b).drop_first() =~= a.drop_first() + b);
        assert((a + b)[0] == a[0]);
        assert(encode_utf8(a + b) =~= encode_scalar(a[0] as u32) + (encode_utf8(a.drop_first()) + encode_utf8(b)));
    }
}

/// One more character adds its width.
proof fn lemma_byte_len_step(s: Seq<char>, j: int)
    requires
        0 <= j < s.len(),
    ensures
        byte_len(s.take(j + 1)) == byte_len(s.take(j)) + char_width(s[j]),
{
    assert(s.take(j + 1) =~= s.take(j) + seq![s[j]]);
    lemma_encode_concat(s.take(j), seq![s[j]]);
    let t = seq![s[j]];
    assert(t.drop_first() =~= Seq::<char>::empty());
    assert(encode_utf8(t.drop_first()) =~= Seq::<u8>::empty());
    assert(encode_utf8(t) == encode_scalar(t[0] as u32) + encode_utf8(t.drop_first()));
    assert(encode_utf8(t) =~= encode_scalar(s[j] as u32));
    lemma_scalar_width(s[j]);
}

/// Longer prefixes take more bytes.
proof fn lemma_byte_len_grows(s: Seq<char>, i: int, j: int)
    requires
        0 <= i < j <= s.len(),
    ensures
        byte_len(s.take(i)) < byte_len(s.take(j)),
    decreases j - i,
{
    lemma_byte_len_step(s, j - 1);
    if i < j - 1 {
        lemma_byte_len_grows(s, i, j - 1);
    }
}

/// Some prefix of `s` takes exactly `k` bytes: `k` is a character boundary.
pub open spec fn is_byte_boundary(s: Seq<char>, k: nat) -> bool {
    exists|j: int| 0 <= j <= s.len() && byte_len(#[trigger] s.take(j)) == k
}

/// The prefix of `s` that takes `k` bytes, as `&s[..k]` gives it.
pub open spec fn byte_prefix(s: Seq<char>, k: nat) -> Seq<char> {
    s.take(choose|j: int| 0 <= j <= s.len() && byte_len(#[trigger] s.take(j)) == k)
}

/// The number of bytes `c` takes in UTF-8.
pub fn char_width_exec(c: char) -> (w: usize)
    ensures
        w == char_width(c),
{
    let u = c as u32;
    if u <= 0x7f {
        1
    } else if u <= 0x7ff {
        2
    } else if u <= 0xffff {
        3
    } else {
        4
    }
}

/// The prefix of `s` that takes `k` bytes, when `k` is a character
/// boundary of `s`; `None` when it is not (where slicing would panic).
pub fn prefix_bytes(s: &str, k: usize) -> (r: Option<String>)
    ensures
        r is Some <==> is_byte_boundary(s@, k as nat),
        r matches Some(p) ==> p@ == byte_prefix(s@, k as nat),
{
    let v = chars_of(s);
    let mut acc: usize = 0;
    let mut j: usize = 0;
    let mut prefix: Vec<char> = Vec::new();
    proof {
        assert(s@.take(0) =~= Seq::<char>::empty());
        assert(encode_utf8(Seq::<char>::empty()) =~= Seq::<u8>::empty());
    }
    while j < v.len() && acc < k
        invariant
            v@ == s@,
            j <= v.len(),
            acc <= k,
            acc == byte_len(s@.take(j as int)),
            prefix@ == s@.take(j as int),
        decreases v.len() - j,
    {
        let w = char_width_exec(v[j]);
        proof {
            lemma_byte_len_step(s@, j as int);
        }
        if w > k - acc {
            proof {
                assert forall|i: int| 0 <= i <= s@.len() implies byte_len(#[trigger] s@.take(i)) != k by {
                    if i <= j {
                        if i < j {
                            lemma_byte_len_grows(s@, i, j as int);
                        }
                    } else {
                        if i > j + 1 {
                            lemma_byte_len_grows(s@, j + 1, i);
                        }
                    }
                }
            }
            return None;
        }
        acc = acc + w;
        prefix.push(v[j]);
        j = j + 1;
        assert(prefix@ =~= s@.take(j as int));
    }
    if acc == k {
        proof {
            let ghost jj = j as int;
            assert(byte_len(s@.take(jj)) == k);
            let c = choose|i: int| 0 <= i <= s@.len() && byte_len(#[trigger] s@.take(i)) == k as nat;
            if c != jj {
                if c < jj {
                    lemma_byte_len_grows(s@, c, jj);
                } else {
                    lemma_byte_len_grows(s@, jj, c);
                }
            }
        }
        Some(string_from_chars(&prefix))
    } else {
        proof {
            assert(j == v.len());
            assert(s@.take(j as int) =~= s@);
            assert forall|i: int| 0 <= i <= s@.len() implies byte_len(#[trigger] s@.take(i)) != k by {
                if i < j {
                    lemma_byte_len_grows(s@, i, j as int);
                }
            }
        }
        None
    }
}

/// The number of bytes of `s` in UTF-8, when it fits a `usize`.
pub fn byte_count(s: &str) -> (r: Option<usize>)
    ensures
        match r {
            Some(n) => n == byte_len(s@),
            None => byte_len(s@) > usize::MAX,
        },
{
    let v = chars_of(s);
    let mut acc: usize = 0;
    let mut j: usize = 0;
    proof {
        assert(s@.take(0) =~= Seq::<char>::empty());
        assert(encode_utf8(Seq::<char>::empty()) =~= Seq::<u8>::empty());
    }
    while j < v.len()
        invariant
            v@ == s@,
            j <= v.len(),
            acc == byte_len(s@.take(j as int)),
        decreases v.len() - j,
    {
        let w = char_width_exec(v[j]);
        proof {
            lemma_byte_len_step(s@, j as int);
        }
        if w > usize::MAX - acc {
            proof {
                if j + 1 < v.len() {
                    lemma_byte_len_grows(s@, j + 1, v.len() as int);
                }
                assert(s@.take(v.len() as int) =~= s@);
            }
            return None;
        }
        acc = acc + w;
        j = j + 1;
    }
    assert(s@.take(v.len() as int) =~= s@);
    Some(acc)
}

} // verus!
