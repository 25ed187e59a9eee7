//! Text: equality, trimming, decimal numbers and JSON strings.

use vstd::prelude::*;
use vstd::string::*;
use vstd::utf8::*;

verus! {

/// An optional text seen as characters.
pub open spec fn str_seen(s: Option<&str>) -> Option<Seq<char>> {
    match s {
        Some(s) => Some(s@),
        None => None,
    }
}

/// An optional text seen as characters.
pub open spec fn string_seen(s: Option<String>) -> Option<Seq<char>> {
    match s {
        Some(s) => Some(s@),
        None => None,
    }
}

/// Optional bytes seen as a sequence.
pub open spec fn bytes_seen(b: Option<&[u8]>) -> Option<Seq<u8>> {
    match b {
        Some(b) => Some(b@),
        None => None,
    }
}

/// Whether a character has Unicode's `White_Space` property.
pub open spec fn is_white_space(c: char) -> bool {
    ||| '\u{9}' <= c <= '\u{d}'
    ||| c == '\u{20}'
    ||| c == '\u{85}'
    ||| c == '\u{a0}'
    ||| c == '\u{1680}'
    ||| '\u{2000}' <= c <= '\u{200a}'
    ||| c == '\u{2028}'
    ||| c == '\u{2029}'
    ||| c == '\u{202f}'
    ||| c == '\u{205f}'
    ||| c == '\u{3000}'
}

/// The text without its leading white space.
pub open spec fn trim_start(s: Seq<char>) -> Seq<char>
    decreases s.len(),
{
    if s.len() > 0 && is_white_space(s.first()) {
        trim_start(s.drop_first())
    } else {
        s
    }
}

/// The text without its trailing white space.
pub open spec fn trim_end(s: Seq<char>) -> Seq<char>
    decreases s.len(),
{
    if s.len() > 0 && is_white_space(s.last()) {
        trim_end(s.drop_last())
    } else {
        s
    }
}

/// The text without leading and trailing white space.
pub open spec fn trim(s: Seq<char>) -> Seq<char> {
    trim_end(trim_start(s))
}

/// Whether a text holds nothing but white space.
pub open spec fn is_blank(s: Seq<char>) -> bool {
    forall|i: int| 0 <= i < s.len() ==> is_white_space(#[trigger] s[i])
}

proof fn lemma_trim_start(s: Seq<char>)
    ensures
        trim_start(s).len() <= s.len(),
        trim_start(s) == s.skip(s.len() - trim_start(s).len()),
        trim_start(s).len() == 0 <==> is_blank(s),
        trim_start(s).len() > 0 ==> !is_white_space(trim_start(s).first()),
        forall|i: int|
            0 <= i < s.len() - trim_start(s).len() ==> is_white_space(#[trigger] s[i]),
    decreases s.len(),
{
    if s.len() > 0 && is_white_space(s.first()) {
        let rest = s.drop_first();
        lemma_trim_start(rest);
        assert(trim_start(s) =~= s.skip(s.len() - trim_start(s).len()));
        assert forall|i: int| 0 <= i < s.len() - trim_start(s).len() implies is_white_space(
            #[trigger] s[i],
        ) by {
            if i > 0 {
                assert(rest[i - 1] == s[i]);
            }
        }
        if is_blank(rest) {
            assert forall|i: int| 0 <= i < s.len() implies is_white_space(#[trigger] s[i]) by {
                if i > 0 {
                    assert(rest[i - 1] == s[i]);
                }
            }
        }
        if is_blank(s) {
            assert forall|i: int| 0 <= i < rest.len() implies is_white_space(#[trigger] rest[i]) by {
                assert(rest[i] == s[i + 1]);
            }
        }
    } else {
        assert(s.skip(0) =~= s);
        if s.len() > 0 {
            assert(!is_white_space(s[0]));
        }
    }
}

proof fn lemma_trim_end(s: Seq<char>)
    ensures
        trim_end(s).len() <= s.len(),
        trim_end(s) == s.take(trim_end(s).len() as int),
        trim_end(s).len() > 0 ==> !is_white_space(trim_end(s).last()),
        s.len() > 0 && !is_white_space(s.first()) ==> trim_end(s).len() > 0,
        forall|i: int| trim_end(s).len() <= i < s.len() ==> is_white_space(#[trigger] s[i]),
    decreases s.len(),
{
    if s.len() > 0 && is_white_space(s.last()) {
        let init = s.drop_last();
        lemma_trim_end(init);
        assert(trim_end(s) =~= s.take(trim_end(s).len() as int));
        assert forall|i: int| trim_end(s).len() <= i < s.len() implies is_white_space(
            #[trigger] s[i],
        ) by {
            if i < init.len() {
                assert(init[i] == s[i]);
            }
        }
    } else {
        assert(s.take(s.len() as int) =~= s);
    }
}

/// Trimming leaves nothing exactly of a blank text; what it leaves neither
/// starts nor ends with white space, so that trimming again changes nothing.
pub proof fn trimming(s: Seq<char>)
    ensures
        trim(s).len() == 0 <==> is_blank(s),
        trim(s).len() > 0 ==> !is_white_space(trim(s).first()) && !is_white_space(trim(s).last()),
        trim(trim(s)) == trim(s),
{
    lemma_trim_start(s);
    lemma_trim_end(trim_start(s));
    let t = trim(s);
    if t.len() > 0 {
        assert(t.first() == trim_start(s).first());
        assert(trim_start(t) == t);
        assert(trim_end(t) == t);
    }
}

/// Trimming takes nothing from a text but white space, from its two ends: what
/// it leaves stands in the text as it is, and all around it is white space.
pub proof fn trimming_takes_white_space_alone(s: Seq<char>)
    ensures
        exists|i: int, j: int|
            0 <= i <= j <= s.len() && trim(s) == #[trigger] s.subrange(i, j) && (forall|k: int|
                (0 <= k < i || j <= k < s.len()) ==> is_white_space(#[trigger] s[k])),
{
    lemma_trim_start(s);
    let t = trim_start(s);
    lemma_trim_end(t);
    let i = s.len() - t.len();
    let j = i + trim(s).len();
    assert(trim(s) =~= s.subrange(i, j));
    assert forall|k: int| (0 <= k < i || j <= k < s.len()) implies is_white_space(
        #[trigger] s[k],
    ) by {
        if k >= j {
            assert(s[k] == t[k - i]);
        }
    }
}

/// Calls `str::trim`, which removes leading and trailing characters that have
/// the `White_Space` property.
#[verifier::external_body]
pub(crate) fn trimmed(s: &str) -> (r: &str)
    ensures
        r@ == trim(s@),
{
    s.trim()
}

/// Calls `std::str::from_utf8`, which accepts exactly the valid UTF-8 byte
/// sequences and gives the text that they encode.
#[verifier::external_body]
pub(crate) fn utf8_text(bytes: &[u8]) -> (r: Option<&str>)
    ensures
        r is Some <==> valid_utf8(bytes@),
        r matches Some(s) ==> s@ == decode_utf8(bytes@),
{
    std::str::from_utf8(bytes).ok()
}

/// Whether two byte slices hold the same bytes.
pub(crate) fn same_bytes(a: &[u8], b: &[u8]) -> (r: bool)
    ensures
        r == (a@ == b@),
{
    if a.len() != b.len() {
        return false;
    }
    let mut i: usize = 0;
    while i < a.len()
        invariant
            i <= a.len(),
            a.len() == b.len(),
            forall|j: int| 0 <= j < i ==> a[j] == b[j],
        decreases a.len() - i,
    {
        if a[i] != b[i] {
            return false;
        }
        i = i + 1;
    }
    assert(a@ =~= b@);
    true
}

/// Two texts are the same exactly when their UTF-8 encodings are.
pub(crate) proof fn lemma_encoding_determines_text(a: Seq<char>, b: Seq<char>)
    ensures
        encode_utf8(a) == encode_utf8(b) <==> a == b,
{
    encode_utf8_decode_utf8(a);
    encode_utf8_decode_utf8(b);
}

/// Whether two texts are the same.
pub(crate) fn same_text(a: &str, b: &str) -> (r: bool)
    ensures
        r == (a@ == b@),
{
    proof {
        lemma_encoding_determines_text(a@, b@);
    }
    same_bytes(a.as_bytes(), b.as_bytes())
}

/// The character of a decimal digit.
pub open spec fn digit(d: nat) -> char {
    ('0' as u32 + d) as char
}

/// A natural number in decimal notation, without leading zeros.
pub open spec fn decimal(n: nat) -> Seq<char>
    decreases n,
{
    if n < 10 {
        seq![digit(n)]
    } else {
        decimal(n / 10).push(digit(n % 10))
    }
}

/// The number that decimal digits stand for.
pub open spec fn digits_value(s: Seq<char>) -> nat
    decreases s.len(),
{
    if s.len() == 0 {
        0
    } else {
        10 * digits_value(s.drop_last()) + (s.last() as nat - '0' as nat) as nat
    }
}

/// Decimal notation stands for the number that it was made of.
pub proof fn lemma_decimal_value(n: nat)
    ensures
        digits_value(decimal(n)) == n,
    decreases n,
{
    reveal_with_fuel(digits_value, 2);
    if n < 10 {
        assert(decimal(n).drop_last() =~= seq![]);
    } else {
        lemma_decimal_value(n / 10);
        assert(decimal(n).drop_last() =~= decimal(n / 10));
    }
}

/// Decimal notation is made of decimal digits, at least one, and begins with a
/// zero for zero alone.
pub proof fn decimal_notation_is_digits(n: nat)
    ensures
        decimal(n).len() > 0,
        forall|i: int| 0 <= i < decimal(n).len() ==> '0' <= #[trigger] decimal(n)[i] <= '9',
        decimal(n).first() == '0' <==> n == 0,
    decreases n,
{
    if n >= 10 {
        decimal_notation_is_digits(n / 10);
        assert(decimal(n).first() == decimal(n / 10).first());
    }
}

pub(crate) fn push_digit(out: &mut String, d: u128)
    requires
        d < 10,
    ensures
        final(out)@ == old(out)@.push(digit(d as nat)),
{
    proof {
        reveal_strlit("0");
        reveal_strlit("1");
        reveal_strlit("2");
        reveal_strlit("3");
        reveal_strlit("4");
        reveal_strlit("5");
        reveal_strlit("6");
        reveal_strlit("7");
        reveal_strlit("8");
        reveal_strlit("9");
    }
    let text = match d {
        0 => "0",
        1 => "1",
        2 => "2",
        3 => "3",
        4 => "4",
        5 => "5",
        6 => "6",
        7 => "7",
        8 => "8",
        _ => "9",
    };
    assert(text@ =~= seq![digit(d as nat)]);
    out.append(text);
    assert(out@ =~= old(out)@.push(digit(d as nat)));
}

/// Appends a number in decimal notation.
pub(crate) fn push_decimal(out: &mut String, n: u128)
    ensures
        final(out)@ == old(out)@ + decimal(n as nat),
    decreases n,
{
    if n >= 10 {
        push_decimal(out, n / 10);
    }
    push_digit(out, n % 10);
    assert(out@ =~= old(out)@ + decimal(n as nat));
}

/// One character as it stands inside a JSON string: quotes, backslashes and
/// control characters are escaped, everything else stands for itself.
pub open spec fn json_char(c: char) -> Seq<char> {
    if c == '"' || c == '\\' {
        seq!['\\', c]
    } else if c == '\u{8}' {
        seq!['\\', 'b']
    } else if c == '\u{9}' {
        seq!['\\', 't']
    } else if c == '\u{a}' {
        seq!['\\', 'n']
    } else if c == '\u{c}' {
        seq!['\\', 'f']
    } else if c == '\u{d}' {
        seq!['\\', 'r']
    } else if (c as nat) < 32 {
        seq!['\\', 'u', '0', '0', hex_digit(c as nat / 16), hex_digit(c as nat % 16)]
    } else {
        seq![c]
    }
}

/// The character of a hexadecimal digit, in lower case.
pub open spec fn hex_digit(d: nat) -> char {
    if d < 10 {
        digit(d)
    } else {
        ('a' as u32 + (d - 10)) as char
    }
}

/// The characters between the quotes of a JSON string.
pub open spec fn json_chars(s: Seq<char>) -> Seq<char>
    decreases s.len(),
{
    if s.len() == 0 {
        seq![]
    } else {
        json_chars(s.drop_last()) + json_char(s.last())
    }
}

/// A text as a JSON string, quotes and all.
pub open spec fn json_string(s: Seq<char>) -> Seq<char> {
    seq!['"'] + json_chars(s) + seq!['"']
}

/// Characters that need no escape stand for themselves.
pub(crate) proof fn lemma_plain_json(s: Seq<char>)
    requires
        forall|i: int|
            0 <= i < s.len() ==> #[trigger] s[i] != '"' && s[i] != '\\' && s[i] as nat >= 32,
    ensures
        json_chars(s) == s,
    decreases s.len(),
{
    if s.len() > 0 {
        lemma_plain_json(s.drop_last());
        assert(json_chars(s) =~= s);
    } else {
        assert(json_chars(s) =~= s);
    }
}

proof fn lemma_json_chars_first(s: Seq<char>)
    requires
        s.len() > 0,
    ensures
        json_chars(s) == json_char(s.first()) + json_chars(s.drop_first()),
    decreases s.len(),
{
    reveal_with_fuel(json_chars, 2);
    if s.len() == 1 {
        assert(s.drop_last() =~= seq![]);
        assert(s.drop_first() =~= seq![]);
        assert(json_chars(s) =~= json_char(s.first()) + json_chars(s.drop_first()));
    } else {
        lemma_json_chars_first(s.drop_last());
        assert(s.drop_last().drop_first() =~= s.drop_first().drop_last());
        assert(json_chars(s) =~= json_char(s.first()) + json_chars(s.drop_first()));
    }
}

proof fn lemma_json_char_prefix(a: char, b: char, x: Seq<char>, y: Seq<char>)
    requires
        json_char(a) + x == json_char(b) + y,
    ensures
        a == b,
        x == y,
{
    let l = json_char(a) + x;
    let r = json_char(b) + y;
    assert(l[0] == json_char(a)[0] && r[0] == json_char(b)[0]);
    if json_char(a).len() > 1 {
        assert(l[1] == json_char(a)[1]);
    }
    if json_char(b).len() > 1 {
        assert(r[1] == json_char(b)[1]);
    }
    if json_char(a).len() == 6 {
        assert(l[4] == json_char(a)[4] && l[5] == json_char(a)[5]);
    }
    if json_char(b).len() == 6 {
        assert(r[4] == json_char(b)[4] && r[5] == json_char(b)[5]);
    }
    assert(a == b);
    let n = json_char(a).len() as int;
    assert(x =~= l.skip(n));
    assert(y =~= r.skip(n));
}

proof fn lemma_json_chars_injective(a: Seq<char>, b: Seq<char>)
    requires
        json_chars(a) == json_chars(b),
    ensures
        a == b,
    decreases a.len(),
{
    if a.len() > 0 {
        lemma_json_chars_first(a);
    }
    if b.len() > 0 {
        lemma_json_chars_first(b);
    }
    if a.len() > 0 && b.len() > 0 {
        lemma_json_char_prefix(
            a.first(),
            b.first(),
            json_chars(a.drop_first()),
            json_chars(b.drop_first()),
        );
        lemma_json_chars_injective(a.drop_first(), b.drop_first());
        assert(a =~= seq![a.first()] + a.drop_first());
        assert(b =~= seq![b.first()] + b.drop_first());
    } else if a.len() > 0 {
        assert(json_chars(a)[0] == json_char(a.first())[0]);
    } else if b.len() > 0 {
        assert(json_chars(b)[0] == json_char(b.first())[0]);
    }
    assert(a =~= b);
}

/// No two texts look the same as JSON strings: whatever a transcript or a
/// message holds, the client can tell.
pub proof fn json_strings_tell_texts_apart(a: Seq<char>, b: Seq<char>)
    ensures
        json_string(a) == json_string(b) <==> a == b,
{
    if json_string(a) == json_string(b) {
        let n = json_string(a).len() as int;
        assert(json_chars(a) =~= json_string(a).subrange(1, n - 1));
        assert(json_chars(b) =~= json_string(b).subrange(1, n - 1));
        lemma_json_chars_injective(a, b);
    }
}

/// Calls the `Display` of `serde_json::Value::String`: the text between
/// quotes, with quotes, backslashes and control characters escaped.
#[verifier::external_body]
pub(crate) fn json_quoted(s: &str) -> (r: String)
    ensures
        r@ == json_string(s@),
{
    serde_json::Value::String(s.to_string()).to_string()
}

/// Appends a text as a JSON string.
pub(crate) fn push_json(out: &mut String, s: &str)
    ensures
        final(out)@ == old(out)@ + json_string(s@),
{
    let quoted = json_quoted(s);
    out.append(quoted.as_str());
}

/// A member of a JSON object, its key in plain characters and its value in
/// JSON.
pub open spec fn member(key: Seq<char>, value: Seq<char>) -> Seq<char> {
    seq!['"'] + key + seq!['"', ':'] + value
}

/// Some members of a JSON object, with commas between them.
pub open spec fn members(fields: Seq<(Seq<char>, Seq<char>)>) -> Seq<char>
    decreases fields.len(),
{
    if fields.len() == 0 {
        seq![]
    } else if fields.len() == 1 {
        member(fields[0].0, fields[0].1)
    } else {
        members(fields.drop_last()) + seq![','] + member(fields.last().0, fields.last().1)
    }
}

/// A JSON object of some members, in their order and without white space.
pub open spec fn object(fields: Seq<(Seq<char>, Seq<char>)>) -> Seq<char> {
    seq!['{'] + members(fields) + seq!['}']
}

pub(crate) proof fn lemma_object(fields: Seq<(Seq<char>, Seq<char>)>)
    requires
        0 < fields.len() <= 5,
    ensures
        fields.len() == 1 ==> object(fields) == seq!['{'] + member(fields[0].0, fields[0].1)
            + seq!['}'],
        fields.len() == 2 ==> object(fields) == seq!['{'] + member(fields[0].0, fields[0].1)
            + seq![','] + member(fields[1].0, fields[1].1) + seq!['}'],
        fields.len() == 3 ==> object(fields) == seq!['{'] + member(fields[0].0, fields[0].1)
            + seq![','] + member(fields[1].0, fields[1].1) + seq![','] + member(
            fields[2].0,
            fields[2].1,
        ) + seq!['}'],
        fields.len() == 4 ==> object(fields) == seq!['{'] + member(fields[0].0, fields[0].1)
            + seq![','] + member(fields[1].0, fields[1].1) + seq![','] + member(
            fields[2].0,
            fields[2].1,
        ) + seq![','] + member(fields[3].0, fields[3].1) + seq!['}'],
        fields.len() == 5 ==> object(fields) == seq!['{'] + member(fields[0].0, fields[0].1)
            + seq![','] + member(fields[1].0, fields[1].1) + seq![','] + member(
            fields[2].0,
            fields[2].1,
        ) + seq![','] + member(fields[3].0, fields[3].1) + seq![','] + member(
            fields[4].0,
            fields[4].1,
        ) + seq!['}'],
{
    reveal_with_fuel(members, 6);
    let open = seq!['{'];
    let one = member(fields[0].0, fields[0].1);
    if fields.len() >= 2 {
        let two = one + seq![','] + member(fields[1].0, fields[1].1);
        assert(members(fields.take(2)) == two) by {
            assert(fields.take(2).drop_last()[0] == fields[0]);
        }
        assert(open + two =~= open + one + seq![','] + member(fields[1].0, fields[1].1));
        if fields.len() >= 3 {
            let three = two + seq![','] + member(fields[2].0, fields[2].1);
            assert(fields.take(3).drop_last() =~= fields.take(2));
            assert(members(fields.take(3)) == three);
            assert(open + three =~= open + two + seq![','] + member(fields[2].0, fields[2].1));
            if fields.len() >= 4 {
                let four = three + seq![','] + member(fields[3].0, fields[3].1);
                assert(fields.take(4).drop_last() =~= fields.take(3));
                assert(members(fields.take(4)) == four);
                assert(open + four =~= open + three + seq![','] + member(fields[3].0, fields[3].1));
                if fields.len() >= 5 {
                    let five = four + seq![','] + member(fields[4].0, fields[4].1);
                    assert(fields.take(5).drop_last() =~= fields.take(4));
                    assert(members(fields.take(5)) == five);
                    assert(open + five =~= open + four + seq![','] + member(
                        fields[4].0,
                        fields[4].1,
                    ));
                }
            }
        }
    }
    assert(fields.take(fields.len() as int) =~= fields);
}

/// The string that stands at a JSON Pointer in a JSON text, as `serde_json`
/// parses it; none if the text is no JSON, or no string stands there.
pub uninterp spec fn json_str_at(text: Seq<char>, pointer: Seq<char>) -> Option<Seq<char>>;

/// The natural number below 2^64 that stands at a JSON Pointer in a JSON text,
/// as `serde_json` parses it; none if the text is no JSON, or no such number
/// stands there.
pub uninterp spec fn json_u64_at(text: Seq<char>, pointer: Seq<char>) -> Option<u64>;

/// A JSON object that names a type and nothing else.
pub open spec fn typed_object(kind: Seq<char>) -> Seq<char> {
    "{\"type\":"@ + json_string(kind) + "}"@
}

/// A JSON object that names a type and holds audio, both as strings.
pub open spec fn audio_object(kind: Seq<char>, audio: Seq<char>) -> Seq<char> {
    "{\"type\":"@ + json_string(kind) + ",\"audio\":"@ + json_string(audio) + "}"@
}

/// A JSON object that names a type and, in its configuration, a sample rate.
pub open spec fn config_object(kind: Seq<char>, hz: u64) -> Seq<char> {
    "{\"type\":"@ + json_string(kind) + ",\"config\":{\"sample_rate_hz\":"@ + decimal(hz as nat)
        + "}}"@
}

/// Calls `serde_json::from_str`, then `Value::pointer` and `Value::as_str`.
/// The result depends on the two texts alone. Of three plain objects, the
/// strings that they hold are read back as they were written.
#[verifier::external_body]
pub(crate) fn read_json_str(text: &str, pointer: &str) -> (r: Option<String>)
    ensures
        string_seen(r) == json_str_at(text@, pointer@),
        forall|kind: Seq<char>|
            text@ == #[trigger] typed_object(kind) && pointer@ == "/type"@ ==> string_seen(r)
                == Some(kind),
        forall|kind: Seq<char>, audio: Seq<char>|
            text@ == #[trigger] audio_object(kind, audio) && pointer@ == "/type"@
                ==> string_seen(r) == Some(kind),
        forall|kind: Seq<char>, audio: Seq<char>|
            text@ == #[trigger] audio_object(kind, audio) && pointer@ == "/audio"@
                ==> string_seen(r) == Some(audio),
        forall|kind: Seq<char>, hz: u64|
            text@ == #[trigger] config_object(kind, hz) && pointer@ == "/type"@ ==> string_seen(r)
                == Some(kind),
{
    let value = serde_json::from_str::<serde_json::Value>(text).ok()?;
    value.pointer(pointer)?.as_str().map(|s| s.to_string())
}

/// Calls `serde_json::from_str`, then `Value::pointer` and `Value::as_u64`.
/// The result depends on the two texts alone. A sample rate in a plain object
/// is read back as it was written.
#[verifier::external_body]
pub(crate) fn read_json_u64(text: &str, pointer: &str) -> (r: Option<u64>)
    ensures
        r == json_u64_at(text@, pointer@),
        forall|kind: Seq<char>, hz: u64|
            text@ == #[trigger] config_object(kind, hz) && pointer@ == "/config/sample_rate_hz"@
                ==> r == Some(hz),
{
    let value = serde_json::from_str::<serde_json::Value>(text).ok()?;
    value.pointer(pointer)?.as_u64()
}

} // verus!
