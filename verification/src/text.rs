use vstd::prelude::*;

use vstd::string::StringSliceAdditionalSpecFns;
use vstd::utf8::{
    encode_utf8, encode_utf8_decode_utf8, encode_utf8_valid_utf8, is_ascii_chars,
    is_ascii_chars_encode_utf8, is_char_boundary, length_of_first_scalar, pop_first_scalar,
};

verus! {

/// String-slice equality, decided at the character level.
pub fn str_eq(a: &str, b: &str) -> (r: bool)
    ensures
        r == (a@ == b@),
{
    let left: String = a.to_owned();
    let right: String = b.to_owned();
    left == right
}

/// The index of the first occurrence of `sep`, or the length when there is
/// none.
pub open spec fn spec_index_of(s: Seq<char>, sep: char) -> int
    decreases s.len(),
{
    if s.len() == 0 {
        0
    } else if s[0] == sep {
        0
    } else {
        1 + spec_index_of(s.skip(1), sep)
    }
}

pub proof fn lemma_index_of(s: Seq<char>, sep: char)
    ensures
        0 <= spec_index_of(s, sep) <= s.len(),
        spec_index_of(s, sep) < s.len() ==> s[spec_index_of(s, sep)] == sep,
        forall|j: int| 0 <= j < spec_index_of(s, sep) ==> s[j] != sep,
    decreases s.len(),
{
    if s.len() > 0 && s[0] != sep {
        lemma_index_of(s.skip(1), sep);
        let i = spec_index_of(s, sep);
        assert forall|j: int| 0 <= j < i implies s[j] != sep by {
            if j > 0 {
                assert(s.skip(1)[j - 1] == s[j]);
            }
        }
        if i < s.len() {
            assert(s.skip(1)[i - 1] == s[i]);
        }
    }
}

/// A first occurrence found by scanning is the first occurrence.
pub proof fn lemma_index_of_unique(s: Seq<char>, sep: char, i: int)
    requires
        0 <= i < s.len(),
        s[i] == sep,
        forall|j: int| 0 <= j < i ==> s[j] != sep,
    ensures
        spec_index_of(s, sep) == i,
{
    lemma_index_of(s, sep);
    let k = spec_index_of(s, sep);
    if k < i {
        assert(s[k] != sep);
    }
}

/// No occurrence found by scanning the whole sequence means none exists.
pub proof fn lemma_index_of_absent(s: Seq<char>, sep: char)
    requires
        forall|j: int| 0 <= j < s.len() ==> s[j] != sep,
    ensures
        spec_index_of(s, sep) == s.len(),
{
    lemma_index_of(s, sep);
    if spec_index_of(s, sep) < s.len() {
        assert(s[spec_index_of(s, sep)] != sep);
    }
}

/// The pieces of a sequence split on a separator, in order: the separator
/// occurrences are dropped, and `n` separators yield `n + 1` pieces, so a
/// leading, trailing or doubled separator yields an empty piece.
pub open spec fn spec_split(s: Seq<char>, sep: char) -> Seq<Seq<char>>
    decreases s.len(),
{
    let i = spec_index_of(s, sep);
    if i < 0 || i >= s.len() {
        seq![s]
    } else {
        seq![s.take(i)] + spec_split(s.skip(i + 1), sep)
    }
}

pub proof fn lemma_split_nonempty(s: Seq<char>, sep: char)
    ensures
        spec_split(s, sep).len() >= 1,
    decreases s.len(),
{
    let i = spec_index_of(s, sep);
    if 0 <= i && i < s.len() {
        lemma_split_nonempty(s.skip(i + 1), sep);
    }
}

/// Every index of an ASCII sequence's encoding is a character boundary.
proof fn lemma_ascii_boundaries(chars: Seq<char>)
    requires
        is_ascii_chars(chars),
    ensures
        forall|k: int|
            0 <= k <= encode_utf8(chars).len() ==> #[trigger] is_char_boundary(
                encode_utf8(chars),
                k,
            ),
    decreases chars.len(),
{
    broadcast use encode_utf8_valid_utf8;

    let bytes = encode_utf8(chars);
    if chars.len() == 0 {
        assert(bytes.len() == 0);
        assert forall|k: int| 0 <= k <= bytes.len() implies #[trigger] is_char_boundary(
            bytes,
            k,
        ) by {
            assert(k == 0);
        }
    } else {
        is_ascii_chars_encode_utf8(chars);
        let rest = chars.drop_first();
        assert(is_ascii_chars(rest)) by {
            assert(forall|i: int| 0 <= i < rest.len() ==> rest[i] == chars[i + 1]);
        }
        lemma_ascii_boundaries(rest);
        assert(length_of_first_scalar(bytes) == 1) by {
            assert(bytes[0] == chars[0] as u8);
            let b = chars[0] as u8;
            assert(b & 0b1000_0000 == 0b0000_0000) by (bit_vector)
                requires
                    b <= 0x7F,
            ;
        }
        assert(pop_first_scalar(bytes) =~= encode_utf8(rest)) by {
            is_ascii_chars_encode_utf8(rest);
            assert(forall|i: int|
                0 <= i < rest.len() ==> encode_utf8(rest)[i] == rest[i] as u8 && rest[i]
                    == chars[i + 1]);
        }
        assert forall|k: int| 0 <= k <= bytes.len() implies #[trigger] is_char_boundary(
            bytes,
            k,
        ) by {
            if k > 0 {
                assert(is_char_boundary(encode_utf8(rest), k - 1));
            }
        }
    }
}

/// The ASCII encoding of a subrange is the subrange of the encoding.
proof fn lemma_ascii_encode_subrange(chars: Seq<char>, a: int, b: int)
    requires
        is_ascii_chars(chars),
        0 <= a <= b <= chars.len(),
    ensures
        is_ascii_chars(chars.subrange(a, b)),
        encode_utf8(chars.subrange(a, b)) =~= encode_utf8(chars).subrange(a, b),
{
    let sub = chars.subrange(a, b);
    assert(is_ascii_chars(sub)) by {
        assert(forall|i: int| 0 <= i < sub.len() ==> sub[i] == chars[i + a]);
    }
    is_ascii_chars_encode_utf8(chars);
    is_ascii_chars_encode_utf8(sub);
    assert(forall|i: int| 0 <= i < sub.len() ==> sub[i] == chars[i + a]);
}

/// Two string slices with the same bytes have the same characters.
proof fn lemma_bytes_determine_chars(x: Seq<char>, y: Seq<char>)
    requires
        encode_utf8(x) == encode_utf8(y),
    ensures
        x == y,
{
    broadcast use encode_utf8_decode_utf8;

    assert(vstd::utf8::decode_utf8(encode_utf8(x)) == x);
    assert(vstd::utf8::decode_utf8(encode_utf8(y)) == y);
}

/// The byte index of the first separator byte, if any; for an ASCII string
/// it is also the character index of the first separator character.
fn find_byte(s: &str, needle: u8) -> (r: Option<usize>)
    ensures
        match r {
            Some(i) => {
                &&& i < s.spec_bytes().len()
                &&& s.spec_bytes()[i as int] == needle
                &&& forall|j: int| 0 <= j < i ==> s.spec_bytes()[j] != needle
            },
            None => forall|j: int| 0 <= j < s.spec_bytes().len() ==> s.spec_bytes()[j] != needle,
        },
{
    let bytes: &[u8] = s.as_bytes();
    let n = bytes.len();
    let mut j: usize = 0;
    while j < n
        invariant
            bytes@ == s.spec_bytes(),
            n == bytes@.len(),
            j <= n,
            forall|k: int| 0 <= k < j ==> bytes@[k] != needle,
        decreases n - j,
    {
        if bytes[j] == needle {
            return Some(j);
        }
        j += 1;
    }
    None
}

/// Splits a string on the pipe character, at the character level.  The
/// pieces of an ASCII string join back, in order, with one separator
/// between each pair; a string with non-ASCII text is passed through whole,
/// as a single piece.
pub fn split_pipe(s: &str) -> (r: Vec<String>)
    ensures
        r@.map_values(|p: String| p@) == if is_ascii_chars(s@) {
            spec_split(s@, '|')
        } else {
            seq![s@]
        },
        r@.len() >= 1,
{
    let mut r: Vec<String> = Vec::new();
    if !s.is_ascii() {
        r.push(s.to_owned());
        proof {
            assert(r@.map_values(|p: String| p@) =~= seq![s@]);
        }
        return r;
    }
    let mut rest: &str = s;
    let mut more = true;
    while more
        invariant
            is_ascii_chars(rest@),
            more ==> spec_split(s@, '|') =~= r@.map_values(|p: String| p@) + spec_split(
                rest@,
                '|',
            ),
            !more ==> spec_split(s@, '|') =~= r@.map_values(|p: String| p@),
            !more ==> r@.len() >= 1,
        decreases rest@.len() + 1, (if more {
            1int
        } else {
            0int
        }),
    {
        proof {
            is_ascii_chars_encode_utf8(rest@);
        }
        match find_byte(rest, 0x7C) {
            None => {
                r.push(rest.to_owned());
                proof {
                    assert forall|j: int| 0 <= j < rest@.len() implies rest@[j] as u8 != 0x7C by {
                        assert(rest.spec_bytes()[j] != 0x7C);
                        assert(encode_utf8(rest@)[j] == rest@[j] as u8);
                    }
                    assert forall|j: int| 0 <= j < rest@.len() implies rest@[j] != '|' by {
                        assert(rest@[j] as u8 == ('|' as u8) ==> rest@[j] == '|');
                    }
                    lemma_index_of_absent(rest@, '|');
                    assert(spec_split(rest@, '|') =~= seq![rest@]);
                    assert(r@.map_values(|p: String| p@) =~= views_with_last(r@, rest@));
                }
                more = false;
            },
            Some(i) => {
                proof {
                    lemma_ascii_boundaries(rest@);
                    assert(is_char_boundary(rest.spec_bytes(), i as int));
                }
                let (piece, tail) = rest.split_at(i);
                proof {
                    lemma_ascii_boundaries(rest@);
                    assert(tail.spec_bytes() =~= rest.spec_bytes().subrange(
                        i as int,
                        rest.spec_bytes().len() as int,
                    ));
                    assert(tail.spec_bytes().len() >= 1);
                    assert(is_char_boundary(rest.spec_bytes(), i + 1));
                    lemma_ascii_encode_subrange(rest@, i as int, i + 1);
                    assert(vstd::utf8::valid_utf8(tail.spec_bytes())) by {
                        broadcast use encode_utf8_valid_utf8;

                    }
                    assert(is_char_boundary(tail.spec_bytes(), 1)) by {
                        lemma_ascii_encode_subrange(rest@, i as int, rest@.len() as int);
                        lemma_bytes_determine_chars(
                            tail@,
                            rest@.subrange(i as int, rest@.len() as int),
                        );
                        lemma_ascii_boundaries(tail@);
                    }
                }
                let (_, tail2) = tail.split_at(1);
                r.push(piece.to_owned());
                proof {
                    let ghost_rest = rest@;
                    let ii = i as int;
                    // The piece is the character prefix up to the separator.
                    lemma_ascii_encode_subrange(ghost_rest, 0, ii);
                    lemma_bytes_determine_chars(piece@, ghost_rest.subrange(0, ii));
                    assert(piece@ == ghost_rest.take(ii));
                    // The remainder is the character suffix past the separator.
                    lemma_ascii_encode_subrange(ghost_rest, ii + 1, ghost_rest.len() as int);
                    assert(tail2.spec_bytes() =~= encode_utf8(
                        ghost_rest.subrange(ii + 1, ghost_rest.len() as int),
                    )) by {
                        lemma_ascii_encode_subrange(ghost_rest, ii, ghost_rest.len() as int);
                    }
                    lemma_bytes_determine_chars(
                        tail2@,
                        ghost_rest.subrange(ii + 1, ghost_rest.len() as int),
                    );
                    assert(tail2@ == ghost_rest.skip(ii + 1)) by {
                        assert(ghost_rest.subrange(ii + 1, ghost_rest.len() as int) =~= ghost_rest.skip(
                            ii + 1,
                        ));
                    }
                    // The separator byte marks the first separator character.
                    assert(ghost_rest[ii] == '|') by {
                        assert(ghost_rest[ii] as u8 == 0x7C);
                        assert(ghost_rest[ii] as u8 == ('|' as u8) ==> ghost_rest[ii] == '|');
                    }
                    assert forall|j: int| 0 <= j < ii implies ghost_rest[j] != '|' by {
                        assert(ghost_rest[j] as u8 != 0x7C);
                        assert(ghost_rest[j] == '|' ==> ghost_rest[j] as u8 == 0x7C);
                    }
                    lemma_index_of_unique(ghost_rest, '|', ii);
                    assert(spec_split(ghost_rest, '|') == seq![ghost_rest.take(ii)] + spec_split(
                        ghost_rest.skip(ii + 1),
                        '|',
                    ));
                    assert(is_ascii_chars(tail2@)) by {
                        assert(forall|j: int|
                            0 <= j < tail2@.len() ==> tail2@[j] == ghost_rest[j + ii + 1]);
                    }
                    assert(r@.map_values(|p: String| p@) =~= views_with_last(r@, ghost_rest.take(ii)));
                }
                rest = tail2;
            },
        }
    }
    proof {
        lemma_split_nonempty(s@, '|');
    }
    r
}

/// The mapped views of a piece list, with the value of its last piece
/// spelled out; an alternate phrasing the split proofs compare against.
spec fn views_with_last(r: Seq<String>, last: Seq<char>) -> Seq<Seq<char>> {
    r.drop_last().map_values(|p: String| p@).push(last)
}

} // verus!
