//! Base64, as RFC 4648 defines it, with padding.

use vstd::prelude::*;

verus! {

/// The six bits that a byte of the alphabet stands for.
pub open spec fn sextet(c: u8) -> Option<nat> {
    if 65 <= c <= 90 {
        Some((c - 65) as nat)
    } else if 97 <= c <= 122 {
        Some((c - 97 + 26) as nat)
    } else if 48 <= c <= 57 {
        Some((c - 48 + 52) as nat)
    } else if c == 43 {
        Some(62)
    } else if c == 47 {
        Some(63)
    } else {
        None
    }
}

/// The bytes behind four bytes of text. Only the last four may be padded, and
/// the bits that padding leaves over have to be zero.
pub open spec fn quad(c0: u8, c1: u8, c2: u8, c3: u8, last: bool) -> Option<Seq<u8>> {
    match (sextet(c0), sextet(c1), sextet(c2), sextet(c3)) {
        (Some(a), Some(b), Some(c), Some(d)) => Some(
            seq![
                (a * 4 + b / 16) as u8,
                (b % 16 * 16 + c / 4) as u8,
                (c % 4 * 64 + d) as u8,
            ],
        ),
        (Some(a), Some(b), Some(c), None) if last && c3 == 61 && c % 4 == 0 => Some(
            seq![(a * 4 + b / 16) as u8, (b % 16 * 16 + c / 4) as u8],
        ),
        (Some(a), Some(b), None, None) if last && c2 == 61 && c3 == 61 && b % 16 == 0 => Some(
            seq![(a * 4 + b / 16) as u8],
        ),
        _ => None,
    }
}

/// The bytes behind a text, if it is Base64.
pub open spec fn decoded(text: Seq<u8>) -> Option<Seq<u8>>
    decreases text.len(),
{
    if text.len() == 0 {
        Some(seq![])
    } else if text.len() < 4 {
        None
    } else {
        match (
            quad(text[0], text[1], text[2], text[3], text.len() == 4),
            decoded(text.skip(4)),
        ) {
            (Some(head), Some(tail)) => Some(head + tail),
            _ => None,
        }
    }
}

fn sextet_of(c: u8) -> (r: Option<u8>)
    ensures
        r is Some <==> sextet(c) is Some,
        r matches Some(v) ==> sextet(c) == Some(v as nat) && v < 64,
{
    if c >= 65 && c <= 90 {
        Some(c - 65)
    } else if c >= 97 && c <= 122 {
        Some(c - 97 + 26)
    } else if c >= 48 && c <= 57 {
        Some(c - 48 + 52)
    } else if c == 43 {
        Some(62)
    } else if c == 47 {
        Some(63)
    } else {
        None
    }
}

/// Decodes Base64.
pub fn decode(text: &[u8]) -> (r: Option<Vec<u8>>)
    ensures
        match r {
            Some(bytes) => decoded(text@) == Some(bytes@),
            None => decoded(text@) is None,
        },
{
    let mut out: Vec<u8> = Vec::new();
    let mut i: usize = 0;
    assert(text@.skip(0) =~= text@);
    while i < text.len()
        invariant
            i <= text.len(),
            i % 4 == 0,
            match decoded(text@.skip(i as int)) {
                Some(tail) => decoded(text@) == Some(out@ + tail),
                None => decoded(text@) is None,
            },
        decreases text.len() - i,
    {
        let ghost rest = text@.skip(i as int);
        if text.len() - i < 4 {
            return None;
        }
        let last = text.len() - i == 4;
        proof {
            assert(rest.skip(4) =~= text@.skip(i + 4));
            assert(rest[0] == text@[i as int]);
            assert(rest[1] == text@[i + 1]);
            assert(rest[2] == text@[i + 2]);
            assert(rest[3] == text@[i + 3]);
        }
        let (a, b) = match (sextet_of(text[i]), sextet_of(text[i + 1])) {
            (Some(a), Some(b)) => (a, b),
            _ => return None,
        };
        let ghost before = out@;
        out.push(a * 4 + b / 16);
        match (sextet_of(text[i + 2]), sextet_of(text[i + 3])) {
            (Some(c), Some(d)) => {
                out.push(b % 16 * 16 + c / 4);
                out.push(c % 4 * 64 + d);
            },
            (Some(c), None) => {
                if !(last && text[i + 3] == 61 && c % 4 == 0) {
                    return None;
                }
                out.push(b % 16 * 16 + c / 4);
            },
            (None, None) => {
                if !(last && text[i + 2] == 61 && text[i + 3] == 61 && b % 16 == 0) {
                    return None;
                }
            },
            _ => return None,
        }
        proof {
            let head = quad(rest[0], rest[1], rest[2], rest[3], last)->Some_0;
            assert(out@ =~= before + head);
            if let Some(tail) = decoded(text@.skip(i + 4)) {
                assert(before + (head + tail) =~= out@ + tail);
            }
        }
        i = i + 4;
    }
    assert(text@.skip(i as int) =~= seq![]);
    assert(out@ + seq![] =~= out@);
    Some(out)
}

/// The byte of the alphabet that stands for six bits.
pub open spec fn symbol(v: nat) -> u8 {
    if v < 26 {
        (65 + v) as u8
    } else if v < 52 {
        (97 + v - 26) as u8
    } else if v < 62 {
        (48 + v - 52) as u8
    } else if v == 62 {
        43
    } else {
        47
    }
}

/// The Base64 of some bytes.
pub open spec fn encoded(bytes: Seq<u8>) -> Seq<u8>
    decreases bytes.len(),
{
    if bytes.len() == 0 {
        seq![]
    } else if bytes.len() == 1 {
        let x = bytes[0] as nat;
        seq![symbol(x / 4), symbol(x % 4 * 16), 61, 61]
    } else if bytes.len() == 2 {
        let x = bytes[0] as nat;
        let y = bytes[1] as nat;
        seq![symbol(x / 4), symbol(x % 4 * 16 + y / 16), symbol(y % 16 * 4), 61]
    } else {
        let x = bytes[0] as nat;
        let y = bytes[1] as nat;
        let z = bytes[2] as nat;
        seq![
            symbol(x / 4),
            symbol(x % 4 * 16 + y / 16),
            symbol(y % 16 * 4 + z / 64),
            symbol(z % 64),
        ] + encoded(bytes.skip(3))
    }
}

proof fn lemma_symbol(v: nat)
    requires
        v < 64,
    ensures
        sextet(symbol(v)) == Some(v),
        symbol(v) != 61,
{
}

proof fn lemma_three(x: u8, y: u8, z: u8, last: bool)
    ensures
        quad(
            symbol(x as nat / 4),
            symbol(x as nat % 4 * 16 + y as nat / 16),
            symbol(y as nat % 16 * 4 + z as nat / 64),
            symbol(z as nat % 64),
            last,
        ) == Some(seq![x, y, z]),
{
    let (x, y, z) = (x as nat, y as nat, z as nat);
    let (a, b, c, d) = (x / 4, x % 4 * 16 + y / 16, y % 16 * 4 + z / 64, z % 64);
    lemma_symbol(a);
    lemma_symbol(b);
    lemma_symbol(c);
    lemma_symbol(d);
    assert(a * 4 + b / 16 == x);
    assert(b % 16 * 16 + c / 4 == y);
    assert(c % 4 * 64 + d == z);
    assert(seq![(a * 4 + b / 16) as u8, (b % 16 * 16 + c / 4) as u8, (c % 4 * 64 + d) as u8]
        =~= seq![x as u8, y as u8, z as u8]);
}

proof fn lemma_two(x: u8, y: u8)
    ensures
        quad(
            symbol(x as nat / 4),
            symbol(x as nat % 4 * 16 + y as nat / 16),
            symbol(y as nat % 16 * 4),
            61,
            true,
        ) == Some(seq![x, y]),
{
    let (x, y) = (x as nat, y as nat);
    let (a, b, c) = (x / 4, x % 4 * 16 + y / 16, y % 16 * 4);
    lemma_symbol(a);
    lemma_symbol(b);
    lemma_symbol(c);
    assert(a * 4 + b / 16 == x);
    assert(b % 16 * 16 + c / 4 == y);
    assert(c % 4 == 0);
    assert(seq![(a * 4 + b / 16) as u8, (b % 16 * 16 + c / 4) as u8] =~= seq![x as u8, y as u8]);
}

proof fn lemma_one(x: u8)
    ensures
        quad(symbol(x as nat / 4), symbol(x as nat % 4 * 16), 61, 61, true) == Some(seq![x]),
{
    let x = x as nat;
    let (a, b) = (x / 4, x % 4 * 16);
    lemma_symbol(a);
    lemma_symbol(b);
    assert(a * 4 + b / 16 == x);
    assert(b % 16 == 0);
    assert(seq![(a * 4 + b / 16) as u8] =~= seq![x as u8]);
}

proof fn lemma_sextet(c: u8)
    ensures
        sextet(c) matches Some(v) ==> v < 64 && symbol(v) == c,
{
}

proof fn lemma_quad(c0: u8, c1: u8, c2: u8, c3: u8, last: bool)
    ensures
        quad(c0, c1, c2, c3, last) matches Some(head) ==> {
            &&& 1 <= head.len() <= 3
            &&& head.len() < 3 ==> last
            &&& encoded(head) == seq![c0, c1, c2, c3]
        },
{
    lemma_sextet(c0);
    lemma_sextet(c1);
    lemma_sextet(c2);
    lemma_sextet(c3);
    reveal_with_fuel(encoded, 2);
    if let Some(head) = quad(c0, c1, c2, c3, last) {
        let a = sextet(c0)->Some_0;
        let b = sextet(c1)->Some_0;
        let x = (a * 4 + b / 16) as nat;
        assert(x < 256 && x / 4 == a && x % 4 == b / 16);
        assert(head[0] == x as u8);
        if head.len() == 3 {
            let c = sextet(c2)->Some_0;
            let d = sextet(c3)->Some_0;
            let y = (b % 16 * 16 + c / 4) as nat;
            let z = (c % 4 * 64 + d) as nat;
            assert(y < 256 && y / 16 == b % 16 && y % 16 == c / 4);
            assert(z < 256 && z / 64 == c % 4 && z % 64 == d);
            assert(x % 4 * 16 + y / 16 == b);
            assert(y % 16 * 4 + z / 64 == c);
            assert(head.skip(3) =~= seq![]);
            assert(encoded(head) =~= seq![c0, c1, c2, c3]);
        } else if head.len() == 2 {
            let c = sextet(c2)->Some_0;
            let y = (b % 16 * 16 + c / 4) as nat;
            assert(y < 256 && y / 16 == b % 16 && y % 16 == c / 4);
            assert(x % 4 * 16 + y / 16 == b);
            assert(y % 16 * 4 == c);
            assert(encoded(head) =~= seq![c0, c1, c2, c3]);
        } else {
            assert(x % 4 * 16 == b);
            assert(encoded(head) =~= seq![c0, c1, c2, c3]);
        }
    }
}

/// Nothing is decoded but what some bytes are encoded to, and to no other
/// bytes than those.
pub proof fn only_encodings_are_decoded(text: Seq<u8>)
    ensures
        decoded(text) matches Some(bytes) ==> encoded(bytes) == text,
    decreases text.len(),
{
    if text.len() >= 4 {
        let last = text.len() == 4;
        let quads = quad(text[0], text[1], text[2], text[3], last);
        lemma_quad(text[0], text[1], text[2], text[3], last);
        only_encodings_are_decoded(text.skip(4));
        if let (Some(head), Some(tail)) = (quads, decoded(text.skip(4))) {
            let bytes = head + tail;
            if head.len() == 3 {
                reveal_with_fuel(encoded, 2);
                assert(head.skip(3) =~= seq![]);
                assert(bytes.skip(3) =~= tail);
                assert(encoded(head) =~= encoded(head).take(4));
                assert(encoded(bytes) =~= encoded(head) + encoded(tail));
                assert(text =~= seq![text[0], text[1], text[2], text[3]] + text.skip(4));
            } else {
                assert(text.skip(4) =~= seq![]);
                assert(tail =~= seq![]);
                assert(bytes =~= head);
                assert(text =~= seq![text[0], text[1], text[2], text[3]]);
            }
        }
    } else if text.len() == 0 {
        assert(text =~= seq![]);
    }
}

/// The alphabet is the one that mail uses, in its order.
pub proof fn the_alphabet_is_that_of_mail(v: nat)
    requires
        v < 64,
    ensures
        symbol(v) as char
            == "ABCDEFGHIJKLMNOPQRSTUVWXYZabcdefghijklmnopqrstuvwxyz0123456789+/"@[v as int],
{
    reveal_strlit("ABCDEFGHIJKLMNOPQRSTUVWXYZabcdefghijklmnopqrstuvwxyz0123456789+/");
}

/// Four symbols stand for three bytes: the number that the symbols make in base
/// 64 is the one that the bytes make in base 256.
pub proof fn four_symbols_make_three_bytes(bytes: Seq<u8>)
    requires
        bytes.len() >= 3,
    ensures
        encoded(bytes).len() >= 4,
        ({
            let text = encoded(bytes);
            exists|a: nat, b: nat, c: nat, d: nat|
                a < 64 && b < 64 && c < 64 && d < 64 && #[trigger] symbol(a) == text[0]
                    && #[trigger] symbol(b) == text[1] && #[trigger] symbol(c) == text[2]
                    && #[trigger] symbol(d) == text[3] && a * 262_144 + b * 4_096 + c * 64 + d
                    == bytes[0] * 65_536 + bytes[1] * 256 + bytes[2]
        }),
        encoded(bytes).skip(4) == encoded(bytes.skip(3)),
{
    let x = bytes[0] as nat;
    let y = bytes[1] as nat;
    let z = bytes[2] as nat;
    let (a, b, c, d) = (x / 4, x % 4 * 16 + y / 16, y % 16 * 4 + z / 64, z % 64);
    let text = encoded(bytes);
    assert(text[0] == symbol(a) && text[1] == symbol(b) && text[2] == symbol(c) && text[3]
        == symbol(d));
    assert(a * 262_144 + b * 4_096 + c * 64 + d == x * 65_536 + y * 256 + z);
    assert(text.skip(4) =~= encoded(bytes.skip(3)));
}

/// What a client encodes is what is decoded.
pub proof fn decoding_undoes_encoding(bytes: Seq<u8>)
    ensures
        decoded(encoded(bytes)) == Some(bytes),
    decreases bytes.len(),
{
    let text = encoded(bytes);
    if bytes.len() == 0 {
        assert(bytes =~= seq![]);
    } else if bytes.len() == 1 {
        assert(decoded(text) == Some(seq![bytes[0]] + Seq::<u8>::empty())) by {
            lemma_one(bytes[0]);
            assert(text.skip(4) =~= seq![]);
            assert(decoded(Seq::<u8>::empty()) == Some(Seq::<u8>::empty()));
        }
        assert(seq![bytes[0]] + Seq::<u8>::empty() =~= bytes);
    } else if bytes.len() == 2 {
        assert(decoded(text) == Some(seq![bytes[0], bytes[1]] + Seq::<u8>::empty())) by {
            lemma_two(bytes[0], bytes[1]);
            assert(text.skip(4) =~= seq![]);
            assert(decoded(Seq::<u8>::empty()) == Some(Seq::<u8>::empty()));
        }
        assert(seq![bytes[0], bytes[1]] + Seq::<u8>::empty() =~= bytes);
    } else {
        assert(decoded(text) == Some(seq![bytes[0], bytes[1], bytes[2]] + bytes.skip(3))) by {
            lemma_three(bytes[0], bytes[1], bytes[2], text.len() == 4);
            decoding_undoes_encoding(bytes.skip(3));
            assert(text.skip(4) =~= encoded(bytes.skip(3)));
        }
        assert(seq![bytes[0], bytes[1], bytes[2]] + bytes.skip(3) =~= bytes);
    }
}

} // verus!
